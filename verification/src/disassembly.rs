//! A description of instructions by what they do to registers and memory,
//! common to the instruction sets.
use vstd::prelude::*;

pub mod rop_instruction;

verus! {

/// The instruction sets that can be described.
#[allow(non_camel_case_types)]
#[derive(Debug, Clone, Copy, PartialEq, Eq, Structural)]
pub enum Arch {
    X86_64,
    RISCV,
}

} // verus!
