//! What the object parser `goblin` finds in a file.
use vstd::prelude::*;

verus! {

/// A part of an object file that is loaded into memory: a segment of an ELF
/// file or a section of a PE file.
#[derive(Debug, Clone, Copy, PartialEq, Eq, Structural)]
pub struct Region {
    /// The segment's `p_flags`, or the section's characteristics.
    pub flags: u32,
    /// Where the part starts in the file.
    pub offset: u64,
    /// The number of its bytes in the file.
    pub size: u64,
    /// Its virtual address.
    pub vaddr: u64,
}

/// The kind of an object file, with what its header says.
#[derive(Debug, Clone, Copy, PartialEq, Eq, Structural)]
pub enum ObjectKind {
    Elf { machine: u16, is_64: bool },
    Pe { is_64: bool, image_base: u64 },
    /// None of the kinds that the parser knows.
    Unknown,
    /// A kind that the parser knows and this library does not handle.
    Other,
}

/// An error of `goblin`.
#[verifier::external_type_specification]
#[verifier::external_body]
pub struct ExGoblinError(goblin::error::Error);

/// The kind that `goblin` finds for a file with these bytes, `None` where it
/// fails to parse them.
pub uninterp spec fn object_kind_of(bytes: Seq<u8>) -> Option<ObjectKind>;

/// The program headers that `goblin` finds in an ELF file with these bytes,
/// `None` where it fails to parse them as one.
pub uninterp spec fn elf_segments_of(bytes: Seq<u8>) -> Option<Seq<Region>>;

/// The entries of the section table that `goblin` finds in a PE file with
/// these bytes, `None` where it fails to parse them as one.
pub uninterp spec fn pe_sections_of(bytes: Seq<u8>) -> Option<Seq<Region>>;

/// Parses the bytes with `goblin::Object::parse` and tells the variants of
/// the result apart. For an ELF file it copies `e_machine` and `is_64`, for a
/// PE file `is_64` and `image_base`.
#[verifier::external_body]
pub(crate) fn object_kind(bytes: &[u8]) -> (r: Result<ObjectKind, goblin::error::Error>)
    ensures
        r.is_ok() == object_kind_of(bytes@).is_some(),
        r.is_ok() ==> r.unwrap() == object_kind_of(bytes@).unwrap(),
{
    match goblin::Object::parse(bytes)? {
        goblin::Object::Elf(e) => Ok(ObjectKind::Elf { machine: e.header.e_machine, is_64: e.is_64 }),
        goblin::Object::PE(p) => Ok(ObjectKind::Pe { is_64: p.is_64, image_base: p.image_base }),
        goblin::Object::Unknown(_) => Ok(ObjectKind::Unknown),
        _ => Ok(ObjectKind::Other),
    }
}

/// Parses the bytes with `goblin::elf::Elf::parse` and copies, from each
/// program header in order, `p_flags`, `p_offset`, `p_filesz` and `p_vaddr`.
#[verifier::external_body]
pub(crate) fn elf_segments(bytes: &[u8]) -> (r: Result<Vec<Region>, goblin::error::Error>)
    ensures
        r.is_ok() == elf_segments_of(bytes@).is_some(),
        r.is_ok() ==> r.unwrap()@ == elf_segments_of(bytes@).unwrap(),
{
    let elf = goblin::elf::Elf::parse(bytes)?;
    Ok(elf.program_headers.iter().map(|h| Region {
        flags: h.p_flags,
        offset: h.p_offset,
        size: h.p_filesz,
        vaddr: h.p_vaddr,
    }).collect())
}

/// Parses the bytes with `goblin::pe::PE::parse` and copies, from each entry
/// of the section table in order, `characteristics`, `pointer_to_raw_data`,
/// `size_of_raw_data` and `virtual_address`.
#[verifier::external_body]
pub(crate) fn pe_sections(bytes: &[u8]) -> (r: Result<Vec<Region>, goblin::error::Error>)
    ensures
        r.is_ok() == pe_sections_of(bytes@).is_some(),
        r.is_ok() ==> r.unwrap()@ == pe_sections_of(bytes@).unwrap(),
{
    let pe = goblin::pe::PE::parse(bytes)?;
    Ok(pe.sections.iter().map(|s| Region {
        flags: s.characteristics,
        offset: s.pointer_to_raw_data as u64,
        size: s.size_of_raw_data as u64,
        vaddr: s.virtual_address as u64,
    }).collect())
}

} // verus!
