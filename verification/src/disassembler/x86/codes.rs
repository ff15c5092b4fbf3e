//! The numbers that the x86 decoder gives to the mnemonics, operand kinds,
//! registers and kinds of control flow that the gadget rules ask about.
use vstd::prelude::*;

verus! {

/// The decoder option for AMD processors: 16-bit branches and returns in
/// 64-bit code, among other things.
pub const DECODER_OPTIONS_AMD: u32 = 2;

/// The instruction code of bytes that are no instruction.
pub const CODE_INVALID: u16 = 0;

pub const MNEMONIC_ADC: u16 = 5;
pub const MNEMONIC_ADCX: u16 = 6;
pub const MNEMONIC_ADD: u16 = 7;
pub const MNEMONIC_BNDMOV: u16 = 48;
pub const MNEMONIC_CALL: u16 = 59;
pub const MNEMONIC_CMOVA: u16 = 77;
pub const MNEMONIC_CMOVAE: u16 = 78;
pub const MNEMONIC_CMOVB: u16 = 79;
pub const MNEMONIC_CMOVBE: u16 = 80;
pub const MNEMONIC_CMOVE: u16 = 81;
pub const MNEMONIC_CMOVG: u16 = 82;
pub const MNEMONIC_CMOVGE: u16 = 83;
pub const MNEMONIC_CMOVL: u16 = 84;
pub const MNEMONIC_CMOVLE: u16 = 85;
pub const MNEMONIC_CMOVNE: u16 = 86;
pub const MNEMONIC_CMOVNO: u16 = 87;
pub const MNEMONIC_CMOVNP: u16 = 88;
pub const MNEMONIC_CMOVNS: u16 = 89;
pub const MNEMONIC_CMOVO: u16 = 90;
pub const MNEMONIC_CMOVP: u16 = 91;
pub const MNEMONIC_CMOVS: u16 = 92;
pub const MNEMONIC_CMPXCHG: u16 = 101;
pub const MNEMONIC_CMPXCHG16B: u16 = 102;
pub const MNEMONIC_CMPXCHG8B: u16 = 103;
pub const MNEMONIC_ENTER: u16 = 155;
pub const MNEMONIC_INT: u16 = 287;
pub const MNEMONIC_IRET: u16 = 296;
pub const MNEMONIC_JMP: u16 = 308;
pub const MNEMONIC_LEAVE: u16 = 375;
pub const MNEMONIC_MOV: u16 = 414;
pub const MNEMONIC_MOVBE: u16 = 417;
pub const MNEMONIC_MOVD: u16 = 418;
pub const MNEMONIC_POP: u16 = 590;
pub const MNEMONIC_POPA: u16 = 591;
pub const MNEMONIC_RET: u16 = 662;
pub const MNEMONIC_RETF: u16 = 663;
pub const MNEMONIC_SBB: u16 = 681;
pub const MNEMONIC_SUB: u16 = 740;
pub const MNEMONIC_SYSCALL: u16 = 746;
pub const MNEMONIC_SYSEXIT: u16 = 748;
pub const MNEMONIC_SYSRET: u16 = 749;
pub const MNEMONIC_XADD: u16 = 1506;
pub const MNEMONIC_XCHG: u16 = 1509;
pub const MNEMONIC_SYSEXITQ: u16 = 1549;
pub const MNEMONIC_SYSRETQ: u16 = 1562;
pub const MNEMONIC_POPAD: u16 = 1613;
pub const MNEMONIC_IRETD: u16 = 1618;
pub const MNEMONIC_IRETQ: u16 = 1619;

pub const OP_KIND_REGISTER: u8 = 0;
pub const OP_KIND_NEAR_BRANCH16: u8 = 1;
pub const OP_KIND_NEAR_BRANCH32: u8 = 2;
pub const OP_KIND_NEAR_BRANCH64: u8 = 3;
pub const OP_KIND_IMMEDIATE8: u8 = 6;
pub const OP_KIND_IMMEDIATE8_2ND: u8 = 7;
pub const OP_KIND_IMMEDIATE16: u8 = 8;
pub const OP_KIND_IMMEDIATE32: u8 = 9;
pub const OP_KIND_IMMEDIATE64: u8 = 10;
pub const OP_KIND_IMMEDIATE8TO16: u8 = 11;
pub const OP_KIND_IMMEDIATE8TO32: u8 = 12;
pub const OP_KIND_IMMEDIATE8TO64: u8 = 13;
pub const OP_KIND_IMMEDIATE32TO64: u8 = 14;
pub const OP_KIND_MEMORY: u8 = 24;

pub const REGISTER_NONE: u16 = 0;
pub const REGISTER_SP: u16 = 25;
pub const REGISTER_BP: u16 = 26;
pub const REGISTER_ESP: u16 = 41;
pub const REGISTER_EBP: u16 = 42;
pub const REGISTER_RSP: u16 = 57;
pub const REGISTER_RBP: u16 = 58;
pub const REGISTER_EIP: u16 = 69;
pub const REGISTER_RIP: u16 = 70;

pub const FLOW_NEXT: u8 = 0;
pub const FLOW_UNCONDITIONAL_BRANCH: u8 = 1;
pub const FLOW_INDIRECT_BRANCH: u8 = 2;
pub const FLOW_CONDITIONAL_BRANCH: u8 = 3;
pub const FLOW_RETURN: u8 = 4;
pub const FLOW_CALL: u8 = 5;
pub const FLOW_INDIRECT_CALL: u8 = 6;
pub const FLOW_INTERRUPT: u8 = 7;
pub const FLOW_XBEGIN_XABORT_XEND: u8 = 8;
pub const FLOW_EXCEPTION: u8 = 9;

} // verus!
