//! The calls into the RISC-V decoder `disc_v`.
use vstd::prelude::*;
use crate::binary::Bitness;
use crate::disassembler::riscv::rv_instruction::{RvDecoded, RvDecodedView};

verus! {

/// What `disc_v` decodes at the start of `bytes`, for the given register
/// width and with the first byte at the address `pc`; `None` where it
/// decodes nothing.
pub uninterp spec fn rv_decoding(bitness: Bitness, pc: u64, bytes: Seq<u8>) -> Option<RvDecodedView>;

/// The text that `disc_v` writes for the instruction at the start of `code`;
/// no text where it decodes nothing.
pub uninterp spec fn rv_text(bitness: Bitness, pc: u64, code: Seq<u8>) -> Seq<char>;

/// Decodes one instruction with `disc_v::decode_bytes` and copies out its
/// length, whether it is illegal, its mnemonic and its operands. The result
/// is named, not described. Two facts are stated, both as the function's
/// documentation and source give them: the length is between 2 and 8, and
/// nothing is decoded from fewer bytes than the instruction has.
#[verifier::external_body]
pub(crate) fn decode(bitness: Bitness, pc: u64, bytes: &[u8]) -> (r: Option<RvDecoded>)
    ensures
        r.is_some() == rv_decoding(bitness, pc, bytes@).is_some(),
        r.is_some() ==> r.unwrap()@ == rv_decoding(bitness, pc, bytes@).unwrap(),
        r.is_some() ==> 2 <= r.unwrap().len <= 8 && r.unwrap().len <= bytes@.len(),
{
    let isa = match bitness {
        Bitness::Bits32 => disc_v::Isa::Rv32,
        Bitness::Bits64 => disc_v::Isa::Rv64,
    };
    disc_v::decode_bytes(isa, pc, bytes).map(|i| RvDecoded {
        len: i.length(),
        illegal: i.is_illegal(),
        mnemonic: i.mnemonic().to_string(),
        operands: i.operands().to_string(),
    })
}

/// Decodes `code` again with `disc_v::decode_bytes` and returns what the
/// instruction's `Display` writes: the mnemonic, a space and the operands,
/// with the registers under their ABI names.
#[verifier::external_body]
pub(crate) fn format_instruction(bitness: Bitness, pc: u64, code: &[u8]) -> (r: String)
    ensures
        r@ == rv_text(bitness, pc, code@),
{
    let isa = match bitness {
        Bitness::Bits32 => disc_v::Isa::Rv32,
        Bitness::Bits64 => disc_v::Isa::Rv64,
    };
    disc_v::decode_bytes(isa, pc, code).map(|i| i.to_string()).unwrap_or_default()
}

} // verus!
