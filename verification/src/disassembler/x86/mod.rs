//! The x86 side: decoding every offset of a region.
use vstd::prelude::*;
use crate::binary::{Bitness, Section};
use crate::disassembler::x86::codes::DECODER_OPTIONS_AMD;
use crate::disassembler::x86::iced::{decode_at, x86_decoding};
use crate::disassembler::x86::x86_instruction::{invalid_decoding, usable, X86Instruction};
use crate::disassembler::{Disassembly, ROPInstruction};

pub mod codes;
pub mod iced;
pub mod x86_instruction;

verus! {

/// The instruction `i` is what the decoder makes of `bytes` at `offset`,
/// with the options for AMD processors, for code of the given width that is
/// loaded so that the byte at `offset` has the address `ip`: the decoding
/// with the bytes that it covers, or the invalid instruction where the
/// decoder found none.
pub open spec fn decodes_to(
    i: X86Instruction,
    bitness: Bitness,
    bytes: Seq<u8>,
    offset: int,
    ip: u64,
) -> bool {
    let decoded = x86_decoding(bitness.spec_bits(), bytes, offset as usize, ip, DECODER_OPTIONS_AMD);
    let code = bytes.subrange(offset, bytes.len() as int);
    &&& i.wf()
    &&& offset + i.spec_len() <= bytes.len()
    &&& i.spec_bitness() == bitness
    &&& i.spec_ip() == ip
    &&& usable(decoded, code) ==> i.spec_decoded() == decoded && i.encoding() == code.subrange(
        0,
        decoded.len as int,
    )
    &&& !usable(decoded, code) ==> i.spec_decoded() == invalid_decoding() && i.encoding()
        == Seq::<u8>::empty()
}

/// A decoder for the bytes of one region.
pub struct X86Disassembler<'b> {
    bitness: Bitness,
    bytes: &'b [u8],
}

impl<'b> X86Disassembler<'b> {
    pub closed spec fn spec_bitness(&self) -> Bitness {
        self.bitness
    }

    pub closed spec fn spec_bytes(&self) -> Seq<u8> {
        self.bytes@
    }

    /// A decoder for code of the given width.
    pub fn new(bitness: Bitness, bytes: &'b [u8]) -> (r: Self)
        ensures
            r.spec_bitness() == bitness,
            r.spec_bytes() == bytes@,
    {
        X86Disassembler { bitness, bytes }
    }

    /// The instruction that starts at `offset`, where that byte has the
    /// address `ip`.
    pub fn decode_at_offset(&self, ip: u64, offset: usize) -> (r: X86Instruction)
        requires
            offset <= self.spec_bytes().len(),
        ensures
            decodes_to(r, self.spec_bitness(), self.spec_bytes(), offset as int, ip),
    {
        let decoded = decode_at(self.bitness.bits(), self.bytes, offset, ip, DECODER_OPTIONS_AMD);
        let code = vstd::slice::slice_subrange(self.bytes, offset, self.bytes.len());
        X86Instruction::new(decoded, self.bitness, ip, code)
    }

    /// The dense index of a region: the instruction at every offset. `None`
    /// for a region without bytes.
    pub fn disassemble(section: &'b Section<'b>) -> (r: Option<Disassembly<'b, X86Instruction>>)
        requires
            section.wf(),
        ensures
            r.is_none() <==> section.spec_bytes().len() == 0,
            r.is_some() ==> {
                let d = r.unwrap();
                &&& d.wf()
                &&& d.spec_section() == *section
                &&& forall|i: int|
                    0 <= i < section.spec_bytes().len() ==> decodes_to(
                        #[trigger] d.spec_instructions()[i],
                        section.spec_bitness(),
                        section.spec_bytes(),
                        i,
                        (section.start_address() + i) as u64,
                    )
            },
    {
        let bytes = section.bytes();
        if bytes.len() == 0 {
            return None;
        }
        proof {
            section.lemma_address();
        }
        let start = section.program_base() + section.section_vaddr();
        let disassembler = X86Disassembler::new(section.bitness(), bytes);
        let mut instructions: Vec<X86Instruction> = Vec::new();
        let mut n: usize = 0;
        while n < bytes.len()
            invariant
                n <= bytes@.len(),
                bytes@ == section.spec_bytes(),
                start == section.start_address(),
                start + bytes@.len() <= usize::MAX,
                disassembler.spec_bitness() == section.spec_bitness(),
                disassembler.spec_bytes() == bytes@,
                instructions@.len() == n,
                forall|i: int|
                    0 <= i < n ==> decodes_to(
                        #[trigger] instructions@[i],
                        section.spec_bitness(),
                        bytes@,
                        i,
                        (start + i) as u64,
                    ),
            decreases bytes@.len() - n,
        {
            let instruction = disassembler.decode_at_offset((start + n) as u64, n);
            instructions.push(instruction);
            n = n + 1;
        }
        Disassembly::new(section, instructions)
    }
}

} // verus!
