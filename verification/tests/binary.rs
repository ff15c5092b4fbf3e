use ropr::binary::{Arch, Binary, Bitness, LoadError, Section, IMAGE_SCN_MEM_EXECUTE, PF_X};
use ropr::disassembler::search::Options;
use ropr::disassembler::x86::X86Disassembler;

fn put16(v: &mut Vec<u8>, at: usize, x: u16) {
    v[at..at + 2].copy_from_slice(&x.to_le_bytes());
}

fn put32(v: &mut Vec<u8>, at: usize, x: u32) {
    v[at..at + 4].copy_from_slice(&x.to_le_bytes());
}

fn put64(v: &mut Vec<u8>, at: usize, x: u64) {
    v[at..at + 8].copy_from_slice(&x.to_le_bytes());
}

/// A 64-bit ELF file with one program header and the two bytes `pop rdi; ret`
/// at the offset 120.
fn elf_file(machine: u16, flags: u32, offset: u64, filesz: u64) -> Vec<u8> {
    let mut v = vec![0u8; 122];
    v[0..4].copy_from_slice(&[0x7f, b'E', b'L', b'F']);
    v[4] = 2;
    v[5] = 1;
    v[6] = 1;
    put16(&mut v, 16, 2);
    put16(&mut v, 18, machine);
    put32(&mut v, 20, 1);
    put64(&mut v, 24, 0x401000);
    put64(&mut v, 32, 64);
    put16(&mut v, 52, 64);
    put16(&mut v, 54, 56);
    put16(&mut v, 56, 1);
    put16(&mut v, 58, 64);
    put32(&mut v, 64, 1);
    put32(&mut v, 68, flags);
    put64(&mut v, 72, offset);
    put64(&mut v, 80, 0x401000);
    put64(&mut v, 88, 0x401000);
    put64(&mut v, 96, filesz);
    put64(&mut v, 104, filesz);
    put64(&mut v, 112, 0x1000);
    v[120] = 0x5f;
    v[121] = 0xc3;
    v
}

/// A PE32+ file with one section of the two bytes `pop rdi; ret` at the
/// offset 0x200.
fn pe_file(characteristics: u32) -> Vec<u8> {
    let mut v = vec![0u8; 0x202];
    v[0] = b'M';
    v[1] = b'Z';
    put32(&mut v, 0x3c, 0x40);
    v[0x40..0x44].copy_from_slice(b"PE\0\0");
    put16(&mut v, 0x44, 0x8664);
    put16(&mut v, 0x46, 1);
    put16(&mut v, 0x54, 240);
    put16(&mut v, 0x56, 0x22);
    put16(&mut v, 0x58, 0x20b);
    put64(&mut v, 0x58 + 24, 0x140000000);
    put32(&mut v, 0x58 + 32, 0x1000);
    put32(&mut v, 0x58 + 36, 0x200);
    put32(&mut v, 0x58 + 56, 0x2000);
    put32(&mut v, 0x58 + 60, 0x200);
    put32(&mut v, 0x58 + 108, 16);
    v[0x148..0x14d].copy_from_slice(b".text");
    put32(&mut v, 0x148 + 8, 2);
    put32(&mut v, 0x148 + 12, 0x1000);
    put32(&mut v, 0x148 + 16, 2);
    put32(&mut v, 0x148 + 20, 0x200);
    put32(&mut v, 0x148 + 36, characteristics);
    v[0x200] = 0x5f;
    v[0x201] = 0xc3;
    v
}

fn load(bytes: Vec<u8>) -> Binary {
    Binary::new("a.out".to_string(), bytes).unwrap()
}

#[test]
fn flags_are_the_parsers() {
    assert_eq!(PF_X, goblin::elf::program_header::PF_X);
    assert_eq!(IMAGE_SCN_MEM_EXECUTE, goblin::pe::section_table::IMAGE_SCN_MEM_EXECUTE);
}

#[test]
fn bitness_in_bits() {
    assert_eq!(Bitness::Bits32.bits(), 32);
    assert_eq!(Bitness::Bits64.bits(), 64);
}

#[test]
fn a_file_too_short_to_tell_is_malformed() {
    assert_eq!(Binary::new("x".to_string(), vec![0xc3]).err(), Some(LoadError::ParseErr));
    assert_eq!(Binary::new("x".to_string(), vec![]).err(), Some(LoadError::ParseErr));
}

#[test]
fn binary_keeps_path_and_bytes() {
    let bytes = elf_file(0x3e, 5, 120, 2);
    let b = Binary::new("dir/a.out".to_string(), bytes.clone()).unwrap();
    assert_eq!(b.path(), "dir/a.out");
    assert_eq!(b.bytes(), &bytes[..]);
    assert_eq!(*b.arch(), Arch::X86);
}

#[test]
fn architecture_of_elf_files() {
    assert_eq!(*load(elf_file(0x3e, 5, 120, 2)).arch(), Arch::X86);
    assert_eq!(*load(elf_file(0x03, 5, 120, 2)).arch(), Arch::X86);
    assert_eq!(*load(elf_file(0xf3, 5, 120, 2)).arch(), Arch::RiscV);
    assert_eq!(*load(elf_file(0xb7, 5, 120, 2)).arch(), Arch::X86);
    assert_eq!(*load(pe_file(0x6000_0020)).arch(), Arch::X86);
    assert_eq!(*load(vec![0x90; 32]).arch(), Arch::X86);
}

#[test]
fn raw_is_the_whole_file_for_64_bits() {
    for bytes in [elf_file(0x3e, 5, 120, 2), pe_file(0x6000_0020), vec![0x90; 32]] {
        let b = load(bytes.clone());
        let sections = b.sections(Some(true)).unwrap();
        assert_eq!(sections.len(), 1);
        assert_eq!(sections[0].file_offset(), 0);
        assert_eq!(sections[0].section_vaddr(), 0);
        assert_eq!(sections[0].program_base(), 0);
        assert_eq!(sections[0].bitness(), Bitness::Bits64);
        assert_eq!(sections[0].bytes(), &bytes[..]);
    }
}

#[test]
fn unknown_file_falls_back_to_raw_for_32_bits() {
    let bytes = vec![0x90u8; 32];
    let b = load(bytes.clone());
    let sections = b.sections(None).unwrap();
    assert_eq!(sections.len(), 1);
    assert_eq!(sections[0].file_offset(), 0);
    assert_eq!(sections[0].section_vaddr(), 0);
    assert_eq!(sections[0].program_base(), 0);
    assert_eq!(sections[0].bitness(), Bitness::Bits32);
    assert_eq!(sections[0].bytes(), &bytes[..]);
}

#[test]
fn unknown_file_is_malformed_when_parsing_is_asked_for() {
    let b = load(vec![0x90u8; 32]);
    assert_eq!(b.sections(Some(false)).err(), Some(LoadError::ParseErr));
}

#[test]
fn other_object_kinds_are_unsupported() {
    let mut macho = vec![0u8; 64];
    macho[0..4].copy_from_slice(&[0xcf, 0xfa, 0xed, 0xfe]);
    let b = load(macho);
    assert_eq!(b.sections(Some(false)).err(), Some(LoadError::Unsupported));
    let fallback = b.sections(None).unwrap();
    assert_eq!(fallback.len(), 1);
    assert_eq!(fallback[0].bitness(), Bitness::Bits32);
    assert_eq!(fallback[0].bytes().len(), 64);
}

#[test]
fn elf_executable_segment() {
    let b = load(elf_file(0x3e, 5, 120, 2));
    for raw in [None, Some(false)] {
        let sections = b.sections(raw).unwrap();
        assert_eq!(sections.len(), 1);
        assert_eq!(sections[0].file_offset(), 120);
        assert_eq!(sections[0].section_vaddr(), 0x401000);
        assert_eq!(sections[0].program_base(), 0);
        assert_eq!(sections[0].bitness(), Bitness::Bits64);
        assert_eq!(sections[0].bytes(), &[0x5f, 0xc3]);
    }
}

#[test]
fn elf_segment_that_is_not_executable_is_left_out() {
    let b = load(elf_file(0x3e, 6, 120, 2));
    assert!(b.sections(None).unwrap().is_empty());
    assert!(b.sections(Some(false)).unwrap().is_empty());
}

#[test]
fn elf_segment_outside_the_file_is_malformed() {
    let b = load(elf_file(0x3e, 5, 120, 3));
    assert_eq!(b.sections(None).err(), Some(LoadError::ParseErr));
    assert_eq!(b.sections(Some(false)).err(), Some(LoadError::ParseErr));
    let b = load(elf_file(0x3e, 5, 123, 0));
    assert_eq!(b.sections(Some(false)).err(), Some(LoadError::ParseErr));
    let b = load(elf_file(0x3e, 5, 122, 0));
    let sections = b.sections(Some(false)).unwrap();
    assert_eq!(sections.len(), 1);
    assert!(sections[0].bytes().is_empty());
    // The same segment, not executable, does not matter.
    let b = load(elf_file(0x3e, 4, 120, 3));
    assert!(b.sections(Some(false)).unwrap().is_empty());
}

#[test]
fn pe_executable_section() {
    let b = load(pe_file(0x6000_0020));
    for raw in [None, Some(false)] {
        let sections = b.sections(raw).unwrap();
        assert_eq!(sections.len(), 1);
        assert_eq!(sections[0].file_offset(), 0x200);
        assert_eq!(sections[0].section_vaddr(), 0x1000);
        assert_eq!(sections[0].program_base(), 0x140000000);
        assert_eq!(sections[0].bitness(), Bitness::Bits64);
        assert_eq!(sections[0].bytes(), &[0x5f, 0xc3]);
    }
    let data = load(pe_file(0x4000_0040));
    assert!(data.sections(Some(false)).unwrap().is_empty());
}

#[test]
fn gadgets_of_an_elf_file() {
    let b = load(elf_file(0x3e, 5, 120, 2));
    let sections = b.sections(None).unwrap();
    let d = X86Disassembler::disassemble(&sections[0]).unwrap();
    let o = Options { rop: true, sys: false, jop: false, noisy: false, max_instructions: 6, uniq: false };
    let found: Vec<String> = d
        .gadgets(o)
        .iter()
        .map(|(g, a)| format!("{:#018x}: {}", a, g.format_instruction()))
        .collect();
    assert_eq!(found, vec!["0x0000000000401000: pop rdi; ret;", "0x0000000000401001: ret;"]);
}

#[test]
fn gadgets_of_a_pe_file_start_at_the_image_base() {
    let b = load(pe_file(0x6000_0020));
    let sections = b.sections(None).unwrap();
    let d = X86Disassembler::disassemble(&sections[0]).unwrap();
    assert_eq!(d.file_offset(), 0x140001000);
    let o = Options { rop: true, sys: false, jop: false, noisy: false, max_instructions: 6, uniq: false };
    let found: Vec<String> = d
        .gadgets(o)
        .iter()
        .map(|(g, a)| format!("{:#018x}: {}", a, g.format_instruction()))
        .collect();
    assert_eq!(found, vec!["0x0000000140001000: pop rdi; ret;", "0x0000000140001001: ret;"]);
}

#[test]
fn a_section_whose_addresses_do_not_fit_is_refused() {
    let bytes = [0xc3u8, 0xc3];
    assert!(Section::new(0, usize::MAX, 0, Bitness::Bits64, &bytes).is_none());
    assert!(Section::new(0, usize::MAX - 1, 0, Bitness::Bits64, &bytes).is_none());
    assert!(Section::new(0, 1, usize::MAX - 2, Bitness::Bits64, &bytes).is_none());
    assert!(Section::new(0, usize::MAX, 1, Bitness::Bits64, &[]).is_none());
    let last = Section::new(7, usize::MAX - 2, 0, Bitness::Bits32, &bytes).unwrap();
    assert_eq!(last.file_offset(), 7);
    assert_eq!(last.section_vaddr(), usize::MAX - 2);
    assert_eq!(last.program_base(), 0);
    assert_eq!(last.bitness(), Bitness::Bits32);
    assert_eq!(last.bytes(), &bytes);
    assert!(Section::new(0, usize::MAX, 0, Bitness::Bits64, &[]).is_some());
}
