//! Object files and their executable regions.
use vstd::prelude::*;
use crate::binary::object::{
    elf_segments, elf_segments_of, object_kind, object_kind_of, pe_sections, pe_sections_of,
    ObjectKind, Region,
};

pub mod object;

verus! {

/// `e_machine` of a 32-bit x86 ELF file.
pub const ELF_X86: u16 = 0x03;

/// `e_machine` of an x86-64 ELF file.
pub const ELF_X64: u16 = 0x3e;

/// `e_machine` of a RISC-V ELF file.
pub const ELF_RISCV: u16 = 0xf3;

/// The instruction set family of a binary.
#[derive(Debug, Clone, Copy, PartialEq, Eq, Structural)]
pub enum Arch {
    RiscV,
    X86,
}

/// The register width that the code of a region was built for.
#[derive(Debug, Clone, Copy, PartialEq, Eq, Structural)]
pub enum Bitness {
    Bits32,
    Bits64,
}

impl Bitness {
    /// The width in bits.
    pub open spec fn spec_bits(self) -> u32 {
        match self {
            Bitness::Bits32 => 32,
            Bitness::Bits64 => 64,
        }
    }

    /// The width in bits: 32 or 64.
    pub fn bits(self) -> (r: u32)
        ensures
            r == self.spec_bits(),
    {
        match self {
            Bitness::Bits32 => 32,
            Bitness::Bits64 => 64,
        }
    }
}

/// Why an object file could not be used.
#[derive(Debug, Clone, Copy, PartialEq, Eq, Structural)]
pub enum LoadError {
    /// The object is malformed or of no known kind.
    ParseErr,
    /// The object is of a known kind that is not handled.
    Unsupported,
}

/// The flag of an ELF program header that marks a segment as executable.
pub const PF_X: u32 = 1;

/// The characteristic of a PE section that marks it as executable.
pub const IMAGE_SCN_MEM_EXECUTE: u32 = 0x2000_0000;

/// A region as a mathematical value.
pub ghost struct SectionView {
    pub file_offset: usize,
    pub section_vaddr: usize,
    pub program_base: usize,
    pub bitness: Bitness,
    pub bytes: Seq<u8>,
}

/// An executable region of a binary: its bytes and where they lie in the file
/// and in memory.
pub struct Section<'b> {
    file_offset: usize,
    section_vaddr: usize,
    program_base: usize,
    bitness: Bitness,
    bytes: &'b [u8],
}

impl<'b> View for Section<'b> {
    type V = SectionView;

    open spec fn view(&self) -> SectionView {
        SectionView {
            file_offset: self.spec_file_offset(),
            section_vaddr: self.spec_section_vaddr(),
            program_base: self.spec_program_base(),
            bitness: self.spec_bitness(),
            bytes: self.spec_bytes(),
        }
    }
}

impl<'b> Section<'b> {
    /// The address of the region's first byte, as a mathematical integer.
    pub closed spec fn start_address(&self) -> int {
        self.program_base + self.section_vaddr
    }

    /// Every byte of the region has an address that fits in a `usize`.
    pub closed spec fn wf(&self) -> bool {
        self.program_base + self.section_vaddr + self.bytes@.len() <= usize::MAX
    }

    pub closed spec fn spec_file_offset(&self) -> usize {
        self.file_offset
    }

    pub closed spec fn spec_section_vaddr(&self) -> usize {
        self.section_vaddr
    }

    pub closed spec fn spec_program_base(&self) -> usize {
        self.program_base
    }

    pub closed spec fn spec_bitness(&self) -> Bitness {
        self.bitness
    }

    pub closed spec fn spec_bytes(&self) -> Seq<u8> {
        self.bytes@
    }

    /// What `wf` and `start_address` mean in terms of the parts.
    pub proof fn lemma_address(&self)
        ensures
            self.start_address() == self.spec_program_base() + self.spec_section_vaddr(),
            self.wf() <==> self.start_address() + self.spec_bytes().len() <= usize::MAX,
    {
    }

    /// A region from its parts, or `None` where the address of its last byte
    /// would not fit in a `usize`.
    pub fn new(
        file_offset: usize,
        section_vaddr: usize,
        program_base: usize,
        bitness: Bitness,
        bytes: &'b [u8],
    ) -> (r: Option<Section<'b>>)
        ensures
            r.is_some() <==> program_base + section_vaddr + bytes@.len() <= usize::MAX,
            r.is_some() ==> {
                let s = r.unwrap();
                &&& s.wf()
                &&& s.spec_file_offset() == file_offset
                &&& s.spec_section_vaddr() == section_vaddr
                &&& s.spec_program_base() == program_base
                &&& s.spec_bitness() == bitness
                &&& s.spec_bytes() == bytes@
            },
    {
        let len = bytes.len();
        if program_base > usize::MAX - section_vaddr {
            return None;
        }
        if program_base + section_vaddr > usize::MAX - len {
            return None;
        }
        Some(Section { file_offset, section_vaddr, program_base, bitness, bytes })
    }

    /// Where the region starts in the file.
    pub fn file_offset(&self) -> (r: usize)
        ensures
            r == self.spec_file_offset(),
    {
        self.file_offset
    }

    /// The region's virtual address as the object's header gives it.
    pub fn section_vaddr(&self) -> (r: usize)
        ensures
            r == self.spec_section_vaddr(),
    {
        self.section_vaddr
    }

    /// The image base that the virtual address is relative to.
    pub fn program_base(&self) -> (r: usize)
        ensures
            r == self.spec_program_base(),
    {
        self.program_base
    }

    pub fn bitness(&self) -> (r: Bitness)
        ensures
            r == self.spec_bitness(),
    {
        self.bitness
    }

    /// The region's bytes.
    pub fn bytes(&self) -> (r: &[u8])
        ensures
            r@ == self.spec_bytes(),
    {
        self.bytes
    }
}

/// The views of regions, in order.
pub open spec fn section_views(sections: Seq<Section<'_>>) -> Seq<SectionView> {
    Seq::new(sections.len(), |i: int| sections[i]@)
}

/// The instruction set of an object of the given kind: RISC-V for an ELF
/// file that says so, x86 for everything else.
pub open spec fn arch_of(kind: ObjectKind) -> Arch {
    match kind {
        ObjectKind::Elf { machine, is_64 } => if machine == ELF_RISCV {
            Arch::RiscV
        } else {
            Arch::X86
        },
        _ => Arch::X86,
    }
}

/// The register width that an object's header states.
pub open spec fn bitness_of(is_64: bool) -> Bitness {
    if is_64 {
        Bitness::Bits64
    } else {
        Bitness::Bits32
    }
}

/// The part lies inside a file of `len` bytes, and with the image base
/// `base` the address of each of its bytes fits in a `usize`.
pub open spec fn fits(r: Region, base: u64, len: nat) -> bool {
    &&& r.offset + r.size <= len
    &&& base + r.vaddr + r.size <= usize::MAX
}

/// The region that a part of an object file gives.
pub open spec fn region_view(bytes: Seq<u8>, r: Region, base: u64, bitness: Bitness) -> SectionView {
    SectionView {
        file_offset: r.offset as usize,
        section_vaddr: r.vaddr as usize,
        program_base: base as usize,
        bitness,
        bytes: bytes.subrange(r.offset as int, r.offset + r.size),
    }
}

/// The whole file as one region at address 0.
pub open spec fn whole(bytes: Seq<u8>, bitness: Bitness) -> SectionView {
    SectionView { file_offset: 0, section_vaddr: 0, program_base: 0, bitness, bytes }
}

/// The regions of the parts whose flags have a bit of `mask`, in the order
/// of the parts. A part that is marked so and does not fit makes the object
/// malformed.
pub open spec fn executable(
    bytes: Seq<u8>,
    parts: Seq<Region>,
    mask: u32,
    base: u64,
    bitness: Bitness,
) -> Result<Seq<SectionView>, LoadError>
    decreases parts.len(),
{
    if parts.len() == 0 {
        Ok(Seq::empty())
    } else {
        match executable(bytes, parts.drop_last(), mask, base, bitness) {
            Err(e) => Err(e),
            Ok(before) => {
                let r = parts.last();
                if r.flags & mask == 0 {
                    Ok(before)
                } else if !fits(r, base, bytes.len()) {
                    Err(LoadError::ParseErr)
                } else {
                    Ok(before.push(region_view(bytes, r, base, bitness)))
                }
            },
        }
    }
}

/// The executable regions of a file with the given bytes.
///
/// With `raw` set, the file is code from its first byte to its last, for 64
/// bits. Otherwise the file is parsed: an ELF file gives its executable
/// segments, a PE file its executable sections at the image base. A file of
/// another kind is refused where `raw` is unset explicitly, and is taken as
/// code for 32 bits where nothing was said.
pub open spec fn sections_of(bytes: Seq<u8>, raw: Option<bool>) -> Result<
    Seq<SectionView>,
    LoadError,
> {
    if raw == Some(true) {
        Ok(seq![whole(bytes, Bitness::Bits64)])
    } else {
        match object_kind_of(bytes) {
            None => Err(LoadError::ParseErr),
            Some(ObjectKind::Elf { machine, is_64 }) => match elf_segments_of(bytes) {
                None => Err(LoadError::ParseErr),
                Some(parts) => executable(bytes, parts, PF_X, 0, bitness_of(is_64)),
            },
            Some(ObjectKind::Pe { is_64, image_base }) => match pe_sections_of(bytes) {
                None => Err(LoadError::ParseErr),
                Some(parts) => executable(
                    bytes,
                    parts,
                    IMAGE_SCN_MEM_EXECUTE,
                    image_base,
                    bitness_of(is_64),
                ),
            },
            Some(ObjectKind::Unknown) => if raw == Some(false) {
                Err(LoadError::ParseErr)
            } else {
                Ok(seq![whole(bytes, Bitness::Bits32)])
            },
            Some(ObjectKind::Other) => if raw == Some(false) {
                Err(LoadError::Unsupported)
            } else {
                Ok(seq![whole(bytes, Bitness::Bits32)])
            },
        }
    }
}

/// The regions of the executable parts of an object file.
fn executable_sections<'a>(
    bytes: &'a [u8],
    parts: &Vec<Region>,
    mask: u32,
    base: u64,
    bitness: Bitness,
) -> (r: Result<Vec<Section<'a>>, LoadError>)
    ensures
        match executable(bytes@, parts@, mask, base, bitness) {
            Ok(views) => r.is_ok() && section_views(r.unwrap()@) == views && forall|i: int|
                0 <= i < r.unwrap()@.len() ==> (#[trigger] r.unwrap()@[i]).wf(),
            Err(e) => r matches Err(x) && x == e,
        },
{
    let len = bytes.len();
    let mut out: Vec<Section<'a>> = Vec::new();
    let mut i: usize = 0;
    assert(parts@.subrange(0, 0) =~= Seq::<Region>::empty());
    assert(section_views(out@) =~= Seq::<SectionView>::empty());
    while i < parts.len()
        invariant
            i <= parts@.len(),
            len == bytes@.len(),
            executable(bytes@, parts@.subrange(0, i as int), mask, base, bitness) == Ok::<
                Seq<SectionView>,
                LoadError,
            >(section_views(out@)),
            forall|j: int| 0 <= j < out@.len() ==> (#[trigger] out@[j]).wf(),
        decreases parts@.len() - i,
    {
        let r = parts[i];
        let ghost upto = parts@.subrange(0, i + 1);
        proof {
            assert(upto.drop_last() =~= parts@.subrange(0, i as int));
            assert(upto.last() == r);
        }
        if r.flags & mask != 0 {
            let fits_file = r.offset <= len as u64 && r.size <= len as u64 - r.offset;
            let fits_memory = base <= usize::MAX as u64 && r.vaddr <= usize::MAX as u64 - base
                && r.size <= usize::MAX as u64 - base - r.vaddr;
            if !fits_file || !fits_memory {
                proof {
                    assert(!fits(r, base, bytes@.len()));
                    lemma_executable_fails(bytes@, parts@, i + 1, mask, base, bitness);
                }
                return Err(LoadError::ParseErr);
            }
            let start = r.offset as usize;
            let end = start + r.size as usize;
            let part = vstd::slice::slice_subrange(bytes, start, end);
            match Section::new(start, r.vaddr as usize, base as usize, bitness, part) {
                Some(section) => {
                    let ghost before = out@;
                    out.push(section);
                    assert(section_views(out@) =~= section_views(before).push(
                        region_view(bytes@, r, base, bitness),
                    ));
                },
                None => {
                    assert(false);
                    return Err(LoadError::ParseErr);
                },
            }
        }
        i = i + 1;
    }
    assert(parts@.subrange(0, parts@.len() as int) =~= parts@);
    Ok(out)
}

/// Once the parts up to some place make the object malformed, all the parts
/// do.
proof fn lemma_executable_fails(
    bytes: Seq<u8>,
    parts: Seq<Region>,
    upto: int,
    mask: u32,
    base: u64,
    bitness: Bitness,
)
    requires
        0 <= upto <= parts.len(),
        executable(bytes, parts.subrange(0, upto), mask, base, bitness).is_err(),
    ensures
        executable(bytes, parts, mask, base, bitness) == Err::<Seq<SectionView>, LoadError>(
            LoadError::ParseErr,
        ),
    decreases parts.len() - upto,
{
    lemma_executable_error(bytes, parts.subrange(0, upto), mask, base, bitness);
    if upto < parts.len() {
        let next = parts.subrange(0, upto + 1);
        assert(next.drop_last() =~= parts.subrange(0, upto));
        lemma_executable_fails(bytes, parts, upto + 1, mask, base, bitness);
    } else {
        assert(parts.subrange(0, upto) =~= parts);
    }
}

/// The only error of `executable` is that the object is malformed.
proof fn lemma_executable_error(
    bytes: Seq<u8>,
    parts: Seq<Region>,
    mask: u32,
    base: u64,
    bitness: Bitness,
)
    ensures
        executable(bytes, parts, mask, base, bitness) matches Err(e) ==> e == LoadError::ParseErr,
    decreases parts.len(),
{
    if parts.len() > 0 {
        lemma_executable_error(bytes, parts.drop_last(), mask, base, bitness);
    }
}

/// A file that was read, with the instruction set that its header names.
pub struct Binary {
    path: String,
    bytes: Vec<u8>,
    arch: Arch,
}

impl Binary {
    pub closed spec fn spec_path(&self) -> Seq<char> {
        self.path@
    }

    pub closed spec fn spec_bytes(&self) -> Seq<u8> {
        self.bytes@
    }

    pub closed spec fn spec_arch(&self) -> Arch {
        self.arch
    }

    /// The binary with the given bytes, read from `path`. A file that the
    /// parser fails on is refused as malformed.
    pub fn new(path: String, bytes: Vec<u8>) -> (r: Result<Binary, LoadError>)
        ensures
            match object_kind_of(bytes@) {
                Some(kind) => {
                    &&& r.is_ok()
                    &&& r.unwrap().spec_path() == path@
                    &&& r.unwrap().spec_bytes() == bytes@
                    &&& r.unwrap().spec_arch() == arch_of(kind)
                },
                None => r matches Err(e) && e == LoadError::ParseErr,
            },
    {
        let arch = match object_kind(bytes.as_slice()) {
            Err(_) => {
                return Err(LoadError::ParseErr);
            },
            Ok(ObjectKind::Elf { machine, is_64 }) => {
                if machine == ELF_RISCV {
                    Arch::RiscV
                } else {
                    Arch::X86
                }
            },
            Ok(_) => Arch::X86,
        };
        Ok(Binary { path, bytes, arch })
    }

    /// Where the file was read from.
    pub fn path(&self) -> (r: &str)
        ensures
            r@ == self.spec_path(),
    {
        self.path.as_str()
    }

    pub fn arch(&self) -> (r: &Arch)
        ensures
            *r == self.spec_arch(),
    {
        &self.arch
    }

    /// All the bytes of the file.
    pub fn bytes(&self) -> (r: &[u8])
        ensures
            r@ == self.spec_bytes(),
    {
        self.bytes.as_slice()
    }

    /// The executable regions of the file: see `sections_of`.
    pub fn sections(&self, raw: Option<bool>) -> (r: Result<Vec<Section<'_>>, LoadError>)
        ensures
            match sections_of(self.spec_bytes(), raw) {
                Ok(views) => r.is_ok() && section_views(r.unwrap()@) == views && forall|i: int|
                    0 <= i < r.unwrap()@.len() ==> (#[trigger] r.unwrap()@[i]).wf(),
                Err(e) => r matches Err(x) && x == e,
            },
    {
        let bytes = self.bytes.as_slice();
        match raw {
            Some(true) => whole_file(bytes, Bitness::Bits64),
            _ => {
                let strict = raw.is_some();
                match object_kind(bytes) {
                    Err(_) => Err(LoadError::ParseErr),
                    Ok(ObjectKind::Elf { machine, is_64 }) => {
                        let bitness = if is_64 {
                            Bitness::Bits64
                        } else {
                            Bitness::Bits32
                        };
                        match elf_segments(bytes) {
                            Err(_) => Err(LoadError::ParseErr),
                            Ok(parts) => executable_sections(bytes, &parts, PF_X, 0, bitness),
                        }
                    },
                    Ok(ObjectKind::Pe { is_64, image_base }) => {
                        let bitness = if is_64 {
                            Bitness::Bits64
                        } else {
                            Bitness::Bits32
                        };
                        match pe_sections(bytes) {
                            Err(_) => Err(LoadError::ParseErr),
                            Ok(parts) => executable_sections(
                                bytes,
                                &parts,
                                IMAGE_SCN_MEM_EXECUTE,
                                image_base,
                                bitness,
                            ),
                        }
                    },
                    Ok(ObjectKind::Unknown) => {
                        if strict {
                            Err(LoadError::ParseErr)
                        } else {
                            whole_file(bytes, Bitness::Bits32)
                        }
                    },
                    Ok(ObjectKind::Other) => {
                        if strict {
                            Err(LoadError::Unsupported)
                        } else {
                            whole_file(bytes, Bitness::Bits32)
                        }
                    },
                }
            },
        }
    }
}

/// The whole file as the one region.
fn whole_file<'a>(bytes: &'a [u8], bitness: Bitness) -> (r: Result<Vec<Section<'a>>, LoadError>)
    ensures
        r.is_ok(),
        section_views(r.unwrap()@) == seq![whole(bytes@, bitness)],
        forall|i: int| 0 <= i < r.unwrap()@.len() ==> (#[trigger] r.unwrap()@[i]).wf(),
{
    let mut out: Vec<Section<'a>> = Vec::new();
    let size = bytes.len();
    assert(bytes@.len() == size);
    match Section::new(0, 0, 0, bitness, bytes) {
        Some(section) => {
            out.push(section);
            assert(section_views(out@) =~= seq![whole(bytes@, bitness)]);
        },
        None => {
            assert(false);
        },
    }
    Ok(out)
}

} // verus!
