use ropr::binary::{Bitness, Section};
use ropr::disassembler::riscv::rv_instruction::{classify, destination, RVInstruction, RvKind, RvRegister};
use ropr::disassembler::riscv::RVDisassembler;
use ropr::disassembler::search::Options;
use ropr::disassembler::{FlowControl, ROPInstruction};

fn rv_options(rop: bool, sys: bool, jop: bool, noisy: bool, max_instructions: usize, uniq: bool) -> Options {
    Options { rop, sys, jop, noisy, max_instructions, uniq }
}

fn rv_lines(bytes: &[u8], vaddr: usize, o: Options) -> Vec<String> {
    let section = Section::new(0, vaddr, 0, Bitness::Bits64, bytes).unwrap();
    let mut out = Vec::new();
    if let Some(disassembly) = RVDisassembler::disassemble(&section) {
        for (gadget, address) in disassembly.gadgets(o) {
            out.push(format!("{:#x}: {}", address, gadget.format_instruction()));
        }
    }
    out.sort();
    out
}

// ld ra,8(sp); jalr x0,0(ra)
const LOAD_AND_RETURN: [u8; 8] = [0x83, 0x30, 0x81, 0x00, 0x67, 0x80, 0x00, 0x00];

// ld ra,8(sp); jalr x0,0(a0)
const LOAD_AND_JUMP: [u8; 8] = [0x83, 0x30, 0x81, 0x00, 0x67, 0x00, 0x05, 0x00];

#[test]
fn riscv_load_and_return() {
    let found = rv_lines(&LOAD_AND_RETURN, 0x1000, rv_options(true, false, false, false, 4, false));
    println!("{:?}", found);
    assert!(found.contains(&"0x1000: ld ra,8(sp); ret;".to_string()));
    assert!(found.contains(&"0x1004: ret;".to_string()));
}

#[test]
fn riscv_return_is_no_jump() {
    let found = rv_lines(&LOAD_AND_RETURN, 0x1000, rv_options(false, false, true, false, 4, false));
    assert!(found.is_empty());
}

#[test]
fn riscv_jump_through_register() {
    let found = rv_lines(&LOAD_AND_JUMP, 0x1000, rv_options(false, false, true, false, 4, false));
    println!("{:?}", found);
    assert!(found.contains(&"0x1000: ld ra,8(sp); jr a0;".to_string()));
    assert!(found.contains(&"0x1004: jr a0;".to_string()));
    let quiet_rop = rv_lines(&LOAD_AND_JUMP, 0x1000, rv_options(true, false, false, false, 4, false));
    assert!(quiet_rop.is_empty());
}

#[test]
fn riscv_direct_jump_only_when_noisy() {
    // j 0x2000 (jal x0, 0)
    let bytes = [0x6f, 0x00, 0x00, 0x00];
    let quiet = rv_lines(&bytes, 0x2000, rv_options(true, true, true, false, 4, false));
    assert!(quiet.is_empty());
    let noisy = rv_lines(&bytes, 0x2000, rv_options(true, true, true, true, 4, false));
    println!("{:?}", noisy);
    assert_eq!(noisy, vec!["0x2000: j 0x2000;".to_string()]);
}

#[test]
fn riscv_rules_of_single_instructions() {
    // addi sp,sp,16; ecall; c.jr ra
    let bytes = [0x13, 0x01, 0x01, 0x01, 0x73, 0x00, 0x00, 0x00, 0x82, 0x80];
    let section = Section::new(0, 0, 0, Bitness::Bits64, &bytes).unwrap();
    let d = RVDisassembler::disassemble(&section).unwrap();
    assert_eq!(d.len(), 10);
    let addi = d.instruction(0).unwrap();
    assert_eq!(addi.format(), "addi sp,sp,16");
    assert_eq!(addi.len(), 4);
    assert!(addi.is_stack_pivot_head());
    assert!(!addi.is_base_pivot_head());
    assert!(addi.is_rop_gadget_head(false));
    assert!(!addi.is_gadget_tail(true, true, true, true));
    let ecall = d.instruction(4).unwrap();
    assert_eq!(ecall.format(), "ecall");
    assert!(ecall.is_sys());
    assert!(ecall.is_rop_gadget_head(false));
    assert!(ecall.is_gadget_tail(false, true, false, false));
    assert!(!ecall.is_gadget_tail(true, false, true, true));
    let ret = d.instruction(8).unwrap();
    assert_eq!(ret.format(), "ret");
    assert_eq!(ret.len(), 2);
    assert!(ret.is_ret());
    assert!(ret.is_stack_pivot_tail());
    assert!(!ret.is_rop_gadget_head(true));
    assert_eq!(ret.code_bytes(), vec![0x82, 0x80]);
    let cut = d.instruction(9).unwrap();
    assert!(cut.is_invalid());
    assert_eq!(cut.len(), 0);
}

#[test]
fn riscv_stack_pivot_gadget() {
    // addi sp,sp,16; ret
    let bytes = [0x13, 0x01, 0x01, 0x01, 0x67, 0x80, 0x00, 0x00];
    let section = Section::new(0, 0, 0, Bitness::Bits64, &bytes).unwrap();
    let d = RVDisassembler::disassemble(&section).unwrap();
    let found = d.gadgets(rv_options(true, false, false, false, 2, false));
    let pivot = found.iter().find(|(_, address)| *address == 0).unwrap();
    assert_eq!(pivot.0.format_instruction(), "addi sp,sp,16; ret;");
    assert!(pivot.0.is_stack_pivot());
    assert!(!pivot.0.is_base_pivot());
}

fn rv_first(bytes: &[u8]) -> RVInstruction {
    RVDisassembler::decode_at_offset(Bitness::Bits64, bytes, 0x1000, 0)
}

#[test]
fn riscv_whatever_writes_the_stack_pointer_pivots() {
    let add = rv_first(&[0x13, 0x01, 0x01, 0x01]);
    assert_eq!(add.format(), "addi sp,sp,16");
    assert!(add.is_stack_pivot_head());
    let and = rv_first(&[0x13, 0x71, 0x01, 0xff]);
    assert_eq!(and.format(), "andi sp,sp,-16");
    assert!(and.is_stack_pivot_head());
    assert!(!and.is_base_pivot_head());
    let load = rv_first(&[0x83, 0x30, 0x81, 0x00]);
    assert_eq!(load.format(), "ld ra,8(sp)");
    assert!(!load.is_stack_pivot_head());
    assert!(!load.is_base_pivot_head());
    let mul = rv_first(&[0x33, 0x01, 0xa1, 0x02]);
    assert_eq!(mul.format(), "mul sp,sp,a0");
    assert!(mul.is_stack_pivot_head());
    let shift = rv_first(&[0x13, 0x11, 0x11, 0x00]);
    assert_eq!(shift.format(), "slli sp,sp,0x1");
    assert!(shift.is_stack_pivot_head());
    let neg = rv_first(&[0x33, 0x01, 0xa0, 0x40]);
    assert_eq!(neg.format(), "neg sp,a0");
    assert!(neg.is_stack_pivot_head());
    let auipc = rv_first(&[0x17, 0x01, 0x00, 0x00]);
    assert!(auipc.format().starts_with("auipc sp,"));
    assert!(auipc.is_stack_pivot_head());
    let status = rv_first(&[0x73, 0x21, 0x00, 0x30]);
    assert_eq!(status.format(), "csrr sp,mstatus");
    assert!(status.is_stack_pivot_head());
}

#[test]
fn riscv_whatever_writes_the_frame_pointer_pivots() {
    let xor = rv_first(&[0x33, 0x44, 0xa4, 0x00]);
    assert_eq!(xor.format(), "xor s0,s0,a0");
    assert!(xor.is_base_pivot_head());
    assert!(!xor.is_stack_pivot_head());
    assert!(xor.modifies_reg(RvRegister::FramePointer));
    assert!(!xor.modifies_reg(RvRegister::StackPointer));
    assert!(!xor.modifies_reg(RvRegister::Other));
}

#[test]
fn riscv_a_register_that_is_only_read_does_not_pivot() {
    let store = rv_first(&[0x23, 0x30, 0x81, 0x00]);
    assert_eq!(store.format(), "sd s0,0(sp)");
    assert!(!store.is_base_pivot_head());
    assert!(!store.is_stack_pivot_head());
    let store = rv_first(&[0x23, 0x20, 0x25, 0x00]);
    assert_eq!(store.format(), "sw sp,0(a0)");
    assert!(!store.is_stack_pivot_head());
    assert!(store.is_rop_gadget_head(false));
}

#[test]
fn riscv_branches_against_zero_are_heads_only_when_noisy() {
    let branches: [(&[u8], &str); 7] = [
        (&[0x63, 0x04, 0x05, 0x00], "beqz"),
        (&[0x63, 0x14, 0x05, 0x00], "bnez"),
        (&[0x63, 0x54, 0xa0, 0x00], "blez"),
        (&[0x63, 0x54, 0x05, 0x00], "bgez"),
        (&[0x63, 0x44, 0x05, 0x00], "bltz"),
        (&[0x63, 0x44, 0xa0, 0x00], "bgtz"),
        (&[0x63, 0x04, 0xb5, 0x00], "beq"),
    ];
    for (bytes, name) in branches {
        let branch = rv_first(bytes);
        assert!(branch.format().starts_with(name), "{}", branch.format());
        assert_eq!(branch.flow_control(), FlowControl::ConditionalBranch);
        assert!(!branch.is_rop_gadget_head(false));
        assert!(branch.is_rop_gadget_head(true));
        assert!(!branch.is_gadget_tail(true, true, true, true));
        assert!(!branch.is_stack_pivot_head());
    }
}

#[test]
fn riscv_kinds_by_mnemonic() {
    let kind = |m: &str, operands: &str| classify(&m.to_string(), &operands.to_string());
    assert_eq!(kind("ret", ""), RvKind::Ret);
    assert_eq!(kind("jr", "a0"), RvKind::IndirectBranch);
    assert_eq!(kind("jalr", "sp"), RvKind::IndirectBranch);
    assert_eq!(kind("j", "0x10"), RvKind::UnconditionalBranch);
    assert_eq!(kind("jal", "0x10"), RvKind::UnconditionalBranch);
    assert_eq!(kind("ecall", ""), RvKind::Ecall);
    assert_eq!(kind("bgeu", "a0,a1,0x10"), RvKind::ConditionalBranch);
    assert_eq!(kind("bgtz", "a0,0x10"), RvKind::ConditionalBranch);
    for m in [
        "add", "andi", "ori", "xor", "slt", "sltiu", "mv", "not", "sext.w", "zext.b", "seqz", "snez",
        "sltz", "sgtz", "negw", "sll", "srliw", "sraiw", "mul", "mulhsu", "divuw", "remw", "lw", "lbu",
        "li", "lui", "auipc", "hlv.w", "lr.w", "sc.d", "amoswap.w", "amoxor.d", "amocas.w", "sh1add",
        "clz", "rev8", "czero.eqz", "sha256sig0", "csrrw", "csrr", "rdcycle", "frcsr", "fmv.x.w",
        "fcvt.w.d", "feq.s", "fclass.d", "vsetvli", "vmv.x.s", "mop.r.0", "mop.r.31", "mop.rr.7",
        "ssrdp",
    ] {
        assert_eq!(kind(m, "sp,a0"), RvKind::RegisterWrite, "{m}");
    }
    for m in ["sd", "sw", "sb", "fence", "ebreak", "mret", "wfi", "fsw", "fadd.s", "csrw", "nop", "unimp"] {
        assert_eq!(kind(m, "sp,a0"), RvKind::Other, "{m}");
    }
    // With one operand these write the status only; with two they leave the
    // old status in the first.
    for m in ["fscsr", "fsrm", "fsflags"] {
        assert_eq!(kind(m, "sp"), RvKind::Other);
        assert_eq!(kind(m, "sp,a0"), RvKind::RegisterWrite);
    }
    assert_eq!(destination(&"sp,sp,-16".to_string()), RvRegister::StackPointer);
    assert_eq!(destination(&"sp".to_string()), RvRegister::StackPointer);
    assert_eq!(destination(&"s0,8(sp)".to_string()), RvRegister::FramePointer);
    assert_eq!(destination(&"s1,8(sp)".to_string()), RvRegister::Other);
    assert_eq!(destination(&"s10,8(sp)".to_string()), RvRegister::Other);
    assert_eq!(destination(&"(sp)".to_string()), RvRegister::Other);
    assert_eq!(destination(&"".to_string()), RvRegister::Other);
}

#[test]
fn riscv_and_of_the_stack_pointer_makes_a_pivot_gadget() {
    // andi sp,sp,-16; ret
    let bytes = [0x13, 0x71, 0x01, 0xff, 0x67, 0x80, 0x00, 0x00];
    let section = Section::new(0, 0, 0, Bitness::Bits64, &bytes).unwrap();
    let d = RVDisassembler::disassemble(&section).unwrap();
    let found = d.gadgets(rv_options(true, false, false, false, 2, false));
    let pivot = found.iter().find(|(_, address)| *address == 0).unwrap();
    assert_eq!(pivot.0.format_instruction(), "andi sp,sp,-16; ret;");
    assert!(pivot.0.is_stack_pivot());
    // ld ra,8(sp); ret reads the stack pointer only.
    let section = Section::new(0, 0, 0, Bitness::Bits64, &LOAD_AND_RETURN).unwrap();
    let d = RVDisassembler::disassemble(&section).unwrap();
    let found = d.gadgets(rv_options(true, false, false, false, 2, false));
    let plain = found.iter().find(|(_, address)| *address == 0).unwrap();
    assert!(!plain.0.is_stack_pivot());
}

#[test]
fn riscv_conditional_branch_in_a_gadget_only_when_noisy() {
    // beqz a0,+8; ret
    let bytes = [0x63, 0x04, 0x05, 0x00, 0x67, 0x80, 0x00, 0x00];
    let quiet = rv_lines(&bytes, 0, rv_options(true, false, false, false, 2, false));
    assert!(quiet.iter().all(|line| !line.starts_with("0x0:")));
    let noisy = rv_lines(&bytes, 0, rv_options(true, false, false, true, 2, false));
    assert!(noisy.contains(&"0x0: beqz a0,0x8; ret;".to_string()));
}
