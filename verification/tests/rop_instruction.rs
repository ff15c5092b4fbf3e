use ropr::disassembly::rop_instruction::{JumpTarget, LoadSource, ROPInstruction, ROPOp, ROPOpSize, StoreTarget};
use ropr::disassembly::Arch;

fn instruction(reg: &'static str, op: ROPOp) -> ROPInstruction {
    ROPInstruction { addr: 0x1000, reg, op }
}

#[test]
fn load_and_store_of_a_register() {
    let load = instruction("rdi", ROPOp::Load(LoadSource::Stack(8)));
    assert!(load.load_reg("rdi"));
    assert!(!load.load_reg("rsi"));
    assert!(!load.store_reg("rdi"));
    let store = instruction("rax", ROPOp::Store(StoreTarget::Heap(16)));
    assert!(store.store_reg("rax"));
    assert!(!store.store_reg("rbx"));
    assert!(!store.load_reg("rax"));
    let other = instruction("rax", ROPOp::Other);
    assert!(!other.load_reg("rax"));
    assert!(!other.store_reg("rax"));
}

#[test]
fn ret_and_syscall() {
    assert!(instruction("", ROPOp::Ret).is_ret());
    assert!(!instruction("", ROPOp::Ret).is_syscall());
    assert!(instruction("", ROPOp::Syscall).is_syscall());
    assert!(!instruction("", ROPOp::Syscall).is_ret());
    assert!(!instruction("", ROPOp::Other).is_ret());
    assert!(!instruction("rax", ROPOp::Jump(JumpTarget::Register("rax"))).is_ret());
}

#[test]
fn operands_of_an_instruction() {
    let jump = instruction("rax", ROPOp::Jump(JumpTarget::Imm(0x40)));
    assert!(matches!(jump.jump(), Some(JumpTarget::Imm(0x40))));
    assert!(jump.load().is_none());
    assert!(jump.store().is_none());
    let load = instruction("rdi", ROPOp::Load(LoadSource::Immediate(7)));
    assert!(matches!(load.load(), Some(LoadSource::Immediate(7))));
    assert!(load.jump().is_none());
    let from_register = instruction("rdi", ROPOp::Load(LoadSource::Register("rsi")));
    assert!(matches!(from_register.load(), Some(LoadSource::Register("rsi"))));
    let store = instruction("rdi", ROPOp::Store(StoreTarget::Register("rbx")));
    assert!(matches!(store.store(), Some(StoreTarget::Register("rbx"))));
    assert!(store.load().is_none());
    assert!(instruction("", ROPOp::Ret).jump().is_none());
    assert_eq!(jump.addr, 0x1000);
}

#[test]
fn sizes_and_instruction_sets() {
    assert_ne!(ROPOpSize::Byte, ROPOpSize::Quad);
    assert_eq!(ROPOpSize::Word, ROPOpSize::Word);
    assert_ne!(ROPOpSize::Double, ROPOpSize::Word);
    assert_ne!(Arch::X86_64, Arch::RISCV);
}

#[test]
fn operations_compare_by_value() {
    assert_eq!(LoadSource::Stack(8), LoadSource::Stack(8));
    assert_ne!(LoadSource::Stack(8), LoadSource::Heap(8));
    assert_eq!(LoadSource::Register("rax"), LoadSource::Register("rax"));
    assert_ne!(LoadSource::Register("rax"), LoadSource::Register("rbx"));
    assert_eq!(StoreTarget::Heap(1), StoreTarget::Heap(1));
    assert_ne!(StoreTarget::Heap(1), StoreTarget::Stack(1));
    assert_eq!(JumpTarget::Imm(4), JumpTarget::Imm(4));
    assert_ne!(JumpTarget::Imm(4), JumpTarget::Register("rax"));
    assert_eq!(ROPOp::Ret, ROPOp::Ret);
    assert_ne!(ROPOp::Ret, ROPOp::Syscall);
    assert_eq!(ROPOp::Load(LoadSource::Immediate(3)), ROPOp::Load(LoadSource::Immediate(3)));
    assert_ne!(ROPOp::Load(LoadSource::Immediate(3)), ROPOp::Other);
    assert_eq!(instruction("rax", ROPOp::Jump(JumpTarget::Imm(0x40))).jump(), Some(JumpTarget::Imm(0x40)));
    assert_eq!(instruction("", ROPOp::Ret).load(), None);
}
