//! What one instruction does, reduced to loads, stores and jumps.
use vstd::prelude::*;
use vstd::string::StringExecFns;

verus! {

/// Where a load takes its value from.
#[derive(Debug, Clone, Copy, PartialEq)]
pub enum LoadSource {
    Register(&'static str),
    Stack(usize),
    Heap(usize),
    Immediate(usize),
}

/// Where a store puts its value.
#[derive(Debug, Clone, Copy, PartialEq)]
pub enum StoreTarget {
    Register(&'static str),
    Stack(usize),
    Heap(usize),
}

/// Where a jump goes.
#[derive(Debug, Clone, Copy, PartialEq)]
pub enum JumpTarget {
    Register(&'static str),
    Imm(usize),
}

/// What an instruction does.
#[derive(Debug, Clone, Copy, PartialEq)]
pub enum ROPOp {
    Load(LoadSource),
    Store(StoreTarget),
    Jump(JumpTarget),
    Ret,
    Syscall,
    Other,
}

/// The width of the value that an instruction works on.
#[derive(Debug, Clone, Copy, PartialEq, Eq, Structural)]
pub enum ROPOpSize {
    Byte,
    Word,
    Double,
    Quad,
}

/// One instruction: where it stands, the register it works on, and what it
/// does with it.
#[derive(Debug, Clone, Copy)]
pub struct ROPInstruction {
    pub addr: usize,
    pub reg: &'static str,
    pub op: ROPOp,
}

impl ROPInstruction {
    /// The instruction loads the register named `reg`.
    pub open spec fn spec_load_reg(&self, reg: Seq<char>) -> bool {
        self.reg@ == reg && self.op is Load
    }

    /// The instruction stores the register named `reg`.
    pub open spec fn spec_store_reg(&self, reg: Seq<char>) -> bool {
        self.reg@ == reg && self.op is Store
    }

    /// Whether the instruction works on the register named `reg`.
    fn names(&self, reg: &str) -> (r: bool)
        ensures
            r == (self.reg@ == reg@),
    {
        let mine = String::from_str(self.reg);
        let other = String::from_str(reg);
        mine == other
    }

    pub fn load_reg(&self, reg: &str) -> (r: bool)
        ensures
            r == self.spec_load_reg(reg@),
    {
        match self.op {
            ROPOp::Load(_) => self.names(reg),
            _ => false,
        }
    }

    pub fn store_reg(&self, reg: &str) -> (r: bool)
        ensures
            r == self.spec_store_reg(reg@),
    {
        match self.op {
            ROPOp::Store(_) => self.names(reg),
            _ => false,
        }
    }

    pub fn is_ret(&self) -> (r: bool)
        ensures
            r == (self.op is Ret),
    {
        match self.op {
            ROPOp::Ret => true,
            _ => false,
        }
    }

    pub fn is_syscall(&self) -> (r: bool)
        ensures
            r == (self.op is Syscall),
    {
        match self.op {
            ROPOp::Syscall => true,
            _ => false,
        }
    }

    /// Where the instruction jumps to, if it is a jump.
    pub fn jump(&self) -> (r: Option<JumpTarget>)
        ensures
            r == (match self.op {
                ROPOp::Jump(target) => Some(target),
                _ => None,
            }),
    {
        match self.op {
            ROPOp::Jump(target) => Some(target),
            _ => None,
        }
    }

    /// Where the instruction loads from, if it is a load.
    pub fn load(&self) -> (r: Option<LoadSource>)
        ensures
            r == (match self.op {
                ROPOp::Load(source) => Some(source),
                _ => None,
            }),
    {
        match self.op {
            ROPOp::Load(source) => Some(source),
            _ => None,
        }
    }

    /// Where the instruction stores to, if it is a store.
    pub fn store(&self) -> (r: Option<StoreTarget>)
        ensures
            r == (match self.op {
                ROPOp::Store(target) => Some(target),
                _ => None,
            }),
    {
        match self.op {
            ROPOp::Store(target) => Some(target),
            _ => None,
        }
    }
}

} // verus!
