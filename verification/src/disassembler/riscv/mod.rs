//! The RISC-V side: decoding every offset of a region.
use vstd::prelude::*;
use crate::binary::{Bitness, Section};
use crate::disassembler::riscv::disc::{decode, rv_decoding};
use crate::disassembler::riscv::rv_instruction::{
    first_register, kind_of, usable, RVInstruction, RvKind, RvRegister,
};
use crate::disassembler::{Disassembly, ROPInstruction};

pub mod disc;
pub mod rv_instruction;

verus! {

/// The instruction `i` is what the decoder makes of `bytes` from `offset`
/// on, for the given register width and with the byte at `offset` at the
/// address `pc`: the kind and first register that the decoder's text gives,
/// with the bytes that the instruction covers, or the illegal instruction
/// where the decoder found none.
pub open spec fn decodes_to(
    i: RVInstruction,
    bitness: Bitness,
    bytes: Seq<u8>,
    offset: int,
    pc: u64,
) -> bool {
    let code = bytes.subrange(offset, bytes.len() as int);
    let decoded = rv_decoding(bitness, pc, code);
    &&& i.wf()
    &&& offset + i.spec_len() <= bytes.len()
    &&& i.spec_bitness() == bitness
    &&& i.spec_pc() == pc
    &&& usable(decoded, code) ==> {
        &&& !i.spec_illegal()
        &&& i.spec_len() == decoded.unwrap().len
        &&& i.spec_kind() == kind_of(decoded.unwrap().mnemonic, decoded.unwrap().operands)
        &&& i.spec_first() == first_register(decoded.unwrap().operands)
        &&& i.encoding() == code.subrange(0, decoded.unwrap().len as int)
    }
    &&& !usable(decoded, code) ==> {
        &&& i.spec_illegal()
        &&& i.spec_kind() == RvKind::Other
        &&& i.spec_first() == RvRegister::Other
        &&& i.encoding() == Seq::<u8>::empty()
    }
}

/// The decoder for RISC-V regions.
pub struct RVDisassembler {}

impl RVDisassembler {
    /// The instruction that starts at `offset` of `bytes`, where that byte
    /// has the address `pc`.
    pub fn decode_at_offset(bitness: Bitness, bytes: &[u8], pc: u64, offset: usize) -> (r:
        RVInstruction)
        requires
            offset <= bytes@.len(),
        ensures
            decodes_to(r, bitness, bytes@, offset as int, pc),
    {
        let code = vstd::slice::slice_subrange(bytes, offset, bytes.len());
        let decoded = decode(bitness, pc, code);
        RVInstruction::new(decoded, bitness, pc, code)
    }

    /// The dense index of a region: the instruction at every offset. `None`
    /// for a region without bytes.
    pub fn disassemble<'b>(section: &'b Section<'b>) -> (r: Option<Disassembly<'b, RVInstruction>>)
        requires
            section.wf(),
        ensures
            r.is_none() <==> section.spec_bytes().len() == 0,
            r.is_some() ==> {
                let d = r.unwrap();
                &&& d.wf()
                &&& d.spec_section() == *section
                &&& forall|i: int|
                    0 <= i < section.spec_bytes().len() ==> decodes_to(
                        #[trigger] d.spec_instructions()[i],
                        section.spec_bitness(),
                        section.spec_bytes(),
                        i,
                        (section.start_address() + i) as u64,
                    )
            },
    {
        let bytes = section.bytes();
        if bytes.len() == 0 {
            return None;
        }
        proof {
            section.lemma_address();
        }
        let bitness = section.bitness();
        let start = section.program_base() + section.section_vaddr();
        let mut instructions: Vec<RVInstruction> = Vec::with_capacity(bytes.len());
        let mut n: usize = 0;
        while n < bytes.len()
            invariant
                n <= bytes@.len(),
                bytes@ == section.spec_bytes(),
                bitness == section.spec_bitness(),
                start == section.start_address(),
                start + bytes@.len() <= usize::MAX,
                instructions@.len() == n,
                forall|i: int|
                    0 <= i < n ==> decodes_to(
                        #[trigger] instructions@[i],
                        bitness,
                        bytes@,
                        i,
                        (start + i) as u64,
                    ),
            decreases bytes@.len() - n,
        {
            let instruction = RVDisassembler::decode_at_offset(bitness, bytes, (start + n) as u64, n);
            instructions.push(instruction);
            n = n + 1;
        }
        Disassembly::new(section, instructions)
    }
}

} // verus!
