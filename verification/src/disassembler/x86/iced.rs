//! The calls into the x86 decoder and formatter of `iced_x86`.
use vstd::prelude::*;
use crate::disassembler::x86::x86_instruction::{TextStyle, X86Decoded};

verus! {

/// What `iced_x86` decodes at `offset` of `bytes` with the decoder options
/// `options`, for code of the given width that is loaded so that the byte at
/// `offset` has the address `ip`.
pub uninterp spec fn x86_decoding(
    bitness: u32,
    bytes: Seq<u8>,
    offset: usize,
    ip: u64,
    options: u32,
) -> X86Decoded;

/// The text that `iced_x86` writes in the style `style` for the instruction
/// that it decodes from `code` at the address `ip` with the decoder options
/// `options`.
pub uninterp spec fn x86_text(
    bitness: u32,
    code: Seq<u8>,
    ip: u64,
    options: u32,
    style: TextStyle,
) -> Seq<char>;

/// Decodes one instruction with `iced_x86::Decoder` (`with_ip`,
/// `set_position`, `decode`), with the decoder options that it is handed,
/// and copies out what the accessors of `iced_x86::Instruction` return. The
/// result is named, not described; the one fact stated is the documented
/// bound on the length.
#[verifier::external_body]
pub(crate) fn decode_at(bitness: u32, bytes: &[u8], offset: usize, ip: u64, options: u32) -> (r:
    X86Decoded)
    requires
        bitness == 32 || bitness == 64,
        offset <= bytes@.len(),
    ensures
        r == x86_decoding(bitness, bytes@, offset, ip, options),
        r.len <= 15,
{
    let mut decoder = iced_x86::Decoder::with_ip(bitness, bytes, ip, options);
    let _ = decoder.set_position(offset);
    let i = decoder.decode();
    X86Decoded {
        code: i.code() as u16, mnemonic: i.mnemonic() as u16, len: i.len(),
        flow_control: i.flow_control() as u8, immediate8: i.immediate8(),
        op0_kind: i.op0_kind() as u8, op1_kind: i.op1_kind() as u8,
        op0_register: i.op0_register() as u16, op1_register: i.op1_register() as u16,
        memory_base: i.memory_base() as u16, lock_prefix: i.has_lock_prefix(),
        rep_prefix: i.has_rep_prefix(), repne_prefix: i.has_repne_prefix(),
    }
}

/// Decodes `code` again with the decoder options that it is handed and
/// formats it with `iced_x86::IntelFormatter`, whose six options of the same
/// names it sets to the values of `style`.
#[verifier::external_body]
pub(crate) fn format_instruction(
    bitness: u32,
    code: &[u8],
    ip: u64,
    options: u32,
    style: TextStyle,
) -> (r: String)
    requires
        bitness == 32 || bitness == 64,
    ensures
        r@ == x86_text(bitness, code@, ip, options, style),
{
    let i = iced_x86::Decoder::with_ip(bitness, code, ip, options).decode();
    let mut formatter = iced_x86::IntelFormatter::new();
    let set = iced_x86::Formatter::options_mut(&mut formatter);
    set.set_hex_prefix(style.hex_prefix);
    set.set_hex_suffix(style.hex_suffix);
    set.set_space_after_operand_separator(style.space_after_operand_separator);
    set.set_branch_leading_zeros(style.branch_leading_zeros);
    set.set_uppercase_hex(style.uppercase_hex);
    set.set_rip_relative_addresses(style.rip_relative_addresses);
    let mut out = String::new();
    iced_x86::Formatter::format(&mut formatter, &i, &mut out);
    out
}

} // verus!
