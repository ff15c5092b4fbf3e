use ropr::binary::{Bitness, Section};
use ropr::disassembler::search::Options;
use ropr::disassembler::x86::X86Disassembler;
use ropr::disassembler::ROPInstruction;
use ropr::gadgets::hex_address;

fn options(rop: bool, sys: bool, jop: bool, noisy: bool, max_instructions: usize, uniq: bool) -> Options {
    Options { rop, sys, jop, noisy, max_instructions, uniq }
}

fn lines(bytes: &[u8], vaddr: usize, bitness: Bitness, o: Options) -> Vec<String> {
    let section = Section::new(0, vaddr, 0, bitness, bytes).unwrap();
    let mut out = Vec::new();
    if let Some(disassembly) = X86Disassembler::disassemble(&section) {
        for (gadget, address) in disassembly.gadgets(o) {
            out.push(gadget.line(address));
        }
    }
    out.sort();
    out
}

#[test]
fn pure_ret() {
    let found = lines(&[0xc3], 0x1000, Bitness::Bits64, options(true, false, false, false, 4, false));
    assert_eq!(found, vec!["0x0000000000001000: ret;".to_string()]);
}

#[test]
fn pop_ret_pair() {
    let found = lines(&[0x5f, 0xc3], 0x2000, Bitness::Bits64, options(true, false, false, false, 4, false));
    assert_eq!(
        found,
        vec![
            "0x0000000000002000: pop rdi; ret;".to_string(),
            "0x0000000000002001: ret;".to_string(),
        ]
    );
}

#[test]
fn overlapping_decodings() {
    let found = lines(
        &[0x48, 0x89, 0xe0, 0xc3],
        0x3000,
        Bitness::Bits64,
        options(true, false, false, false, 4, false),
    );
    println!("{:?}", found);
    assert!(found.contains(&"0x0000000000003000: mov rax, rsp; ret;".to_string()));
    assert!(found.contains(&"0x0000000000003003: ret;".to_string()));
    assert!(found.contains(&"0x0000000000003001: mov eax, esp; ret;".to_string()));
    assert_eq!(found.len(), 3);
}

#[test]
fn empty_section_has_no_gadgets() {
    let found = lines(&[], 0, Bitness::Bits64, options(true, true, true, true, 6, false));
    assert!(found.is_empty());
    let section = Section::new(0, 0, 0, Bitness::Bits64, &[]).unwrap();
    assert!(X86Disassembler::disassemble(&section).is_none());
}

#[test]
fn single_ret_byte_is_one_gadget() {
    let section = Section::new(0, 0, 0, Bitness::Bits32, &[0xc3]).unwrap();
    let disassembly = X86Disassembler::disassemble(&section).unwrap();
    let found = disassembly.gadgets(options(true, true, true, false, 6, true));
    assert_eq!(found.len(), 1);
    assert_eq!(found[0].0.format_instruction(), "ret;");
    assert_eq!(found[0].0.instructions().len(), 1);
    assert_eq!(found[0].0.unique_id(), 0);
    assert_eq!(found[0].1, 0);
}

#[test]
fn section_ending_inside_an_instruction() {
    // mov eax, imm32 needs five bytes; only three are there.
    let section = Section::new(0, 0, 0, Bitness::Bits64, &[0xc3, 0xb8, 0x01, 0x02]).unwrap();
    let disassembly = X86Disassembler::disassemble(&section).unwrap();
    assert_eq!(disassembly.len(), 4);
    let cut = disassembly.instruction(1).unwrap();
    assert!(cut.is_invalid());
    assert_eq!(cut.len(), 0);
    assert!(!cut.is_rop_gadget_head(true));
    assert!(!cut.is_gadget_tail(true, true, true, true));
    let found = disassembly.gadgets(options(true, true, true, true, 6, false));
    assert_eq!(found.len(), 1);
    assert_eq!(found[0].1, 0);
}

#[test]
fn addresses_in_sixteen_digits() {
    assert_eq!(hex_address(0), "0000000000000000");
    assert_eq!(hex_address(0x401234), "0000000000401234");
    assert_eq!(hex_address(0xdeadbeef), "00000000deadbeef");
    assert_eq!(hex_address(0x0123456789abcdef), "0123456789abcdef");
    assert_eq!(hex_address(usize::MAX), "ffffffffffffffff");
    assert_eq!(hex_address(0xa0), "00000000000000a0");
}

#[test]
fn line_of_a_gadget() {
    let section = Section::new(0, 0x401234, 0, Bitness::Bits64, &[0x5f, 0xc3]).unwrap();
    let d = X86Disassembler::disassemble(&section).unwrap();
    let found = d.gadgets(options(true, false, false, false, 6, false));
    assert_eq!(found[0].0.line(found[0].1), "0x0000000000401234: pop rdi; ret;");
    assert_eq!(found[1].0.line(found[1].1), "0x0000000000401235: ret;");
    assert_eq!(found[1].0.line(0), "0x0000000000000000: ret;");
}
