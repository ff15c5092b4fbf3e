//! A gadget finder for return-oriented programming.
//!
//! The library takes the executable regions of an object file, decodes an
//! instruction at every byte offset of each region, finds the instructions
//! that may end a gadget and enumerates the instruction chains that lead up
//! to each of them.
pub mod binary;
pub mod dedup;
pub mod disassembler;
pub mod disassembly;
pub mod gadgets;
