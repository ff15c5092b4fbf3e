//! One decoded x86 instruction and the gadget rules for it.
use vstd::prelude::*;
use crate::binary::Bitness;
use crate::disassembler::x86::codes::{
    CODE_INVALID, DECODER_OPTIONS_AMD, MNEMONIC_ADC, MNEMONIC_ADCX, MNEMONIC_ADD, MNEMONIC_BNDMOV, MNEMONIC_CALL,
    MNEMONIC_CMOVA, MNEMONIC_CMOVAE, MNEMONIC_CMOVB, MNEMONIC_CMOVBE, MNEMONIC_CMOVE,
    MNEMONIC_CMOVG, MNEMONIC_CMOVGE, MNEMONIC_CMOVL, MNEMONIC_CMOVLE, MNEMONIC_CMOVNE,
    MNEMONIC_CMOVNO, MNEMONIC_CMOVNP, MNEMONIC_CMOVNS, MNEMONIC_CMOVO, MNEMONIC_CMOVP,
    MNEMONIC_CMOVS, MNEMONIC_CMPXCHG, MNEMONIC_CMPXCHG16B, MNEMONIC_CMPXCHG8B, MNEMONIC_ENTER,
    MNEMONIC_INT, MNEMONIC_IRET, MNEMONIC_JMP, MNEMONIC_LEAVE, MNEMONIC_MOV, MNEMONIC_MOVBE,
    MNEMONIC_MOVD, MNEMONIC_POP, MNEMONIC_POPA, MNEMONIC_RET, MNEMONIC_RETF, MNEMONIC_SBB,
    MNEMONIC_SUB, MNEMONIC_SYSCALL, MNEMONIC_SYSEXIT, MNEMONIC_SYSRET, MNEMONIC_XADD,
    MNEMONIC_XCHG, MNEMONIC_SYSEXITQ, MNEMONIC_SYSRETQ, MNEMONIC_POPAD, MNEMONIC_IRETD,
    MNEMONIC_IRETQ, OP_KIND_REGISTER, OP_KIND_NEAR_BRANCH16, OP_KIND_NEAR_BRANCH32,
    OP_KIND_NEAR_BRANCH64, OP_KIND_IMMEDIATE8, OP_KIND_IMMEDIATE8_2ND, OP_KIND_IMMEDIATE16,
    OP_KIND_IMMEDIATE32, OP_KIND_IMMEDIATE64, OP_KIND_IMMEDIATE8TO16, OP_KIND_IMMEDIATE8TO32,
    OP_KIND_IMMEDIATE8TO64, OP_KIND_IMMEDIATE32TO64, OP_KIND_MEMORY, REGISTER_NONE, REGISTER_SP,
    REGISTER_BP, REGISTER_ESP, REGISTER_EBP, REGISTER_RSP, REGISTER_RBP, REGISTER_EIP,
    REGISTER_RIP, FLOW_NEXT, FLOW_UNCONDITIONAL_BRANCH, FLOW_INDIRECT_BRANCH,
    FLOW_CONDITIONAL_BRANCH, FLOW_RETURN, FLOW_CALL, FLOW_INDIRECT_CALL, FLOW_INTERRUPT,
    FLOW_XBEGIN_XABORT_XEND, FLOW_EXCEPTION,
};
use crate::disassembler::x86::iced::{format_instruction, x86_text};
use crate::disassembler::{tail_rule, FlowControl, ROPInstruction, MAX_INSTRUCTION_LENGTH};

verus! {

/// How the text of an instruction is written.
#[derive(Debug, Clone, Copy)]
pub struct TextStyle {
    /// What stands before a number in base 16.
    pub hex_prefix: &'static str,
    /// What stands behind a number in base 16.
    pub hex_suffix: &'static str,
    /// A space follows the comma between two operands.
    pub space_after_operand_separator: bool,
    /// The target of a branch is padded with zeros.
    pub branch_leading_zeros: bool,
    /// The digits above 9 are capital letters.
    pub uppercase_hex: bool,
    /// An address relative to the instruction pointer is shown as such.
    pub rip_relative_addresses: bool,
}

/// The style of gadgets: numbers in base 16 behind `0x` and in lower case,
/// a space after the comma between operands, branch targets without leading
/// zeros, addresses relative to the instruction pointer shown as such.
pub open spec fn gadget_style() -> TextStyle {
    TextStyle {
        hex_prefix: "0x",
        hex_suffix: "",
        space_after_operand_separator: true,
        branch_leading_zeros: false,
        uppercase_hex: false,
        rip_relative_addresses: true,
    }
}

/// The style of gadgets.
pub fn style() -> (r: TextStyle)
    ensures
        r == gadget_style(),
{
    TextStyle {
        hex_prefix: "0x",
        hex_suffix: "",
        space_after_operand_separator: true,
        branch_leading_zeros: false,
        uppercase_hex: false,
        rip_relative_addresses: true,
    }
}

/// What the decoder found at one offset, as plain numbers: the numbers are
/// those of `codes`.
#[derive(Debug, Clone, Copy, PartialEq, Eq, Structural)]
pub struct X86Decoded {
    /// The instruction code, `CODE_INVALID` where the bytes are no instruction.
    pub code: u16,
    pub mnemonic: u16,
    pub flow_control: u8,
    /// The kind of the first operand.
    pub op0_kind: u8,
    /// The kind of the second operand.
    pub op1_kind: u8,
    /// The register of the first operand, where it is one.
    pub op0_register: u16,
    /// The register of the second operand, where it is one.
    pub op1_register: u16,
    /// The base register of the memory operand, where there is one.
    pub memory_base: u16,
    /// The 8-bit immediate operand, where there is one.
    pub immediate8: u8,
    /// The number of bytes that the decoder read.
    pub len: usize,
    /// A lock prefix stands before the instruction.
    pub lock_prefix: bool,
    /// The byte `F3` stands before the instruction: a repeat, a repeat while
    /// equal, or the release of an elided lock.
    pub rep_prefix: bool,
    /// The byte `F2` stands before the instruction: a repeat while not equal,
    /// or the acquisition of an elided lock.
    pub repne_prefix: bool,
}

/// The kind of control flow that a number of the decoder stands for.
pub open spec fn flow_of(code: u8) -> FlowControl {
    if code == FLOW_NEXT {
        FlowControl::Next
    } else if code == FLOW_UNCONDITIONAL_BRANCH {
        FlowControl::UnconditionalBranch
    } else if code == FLOW_INDIRECT_BRANCH {
        FlowControl::IndirectBranch
    } else if code == FLOW_CONDITIONAL_BRANCH {
        FlowControl::ConditionalBranch
    } else if code == FLOW_RETURN {
        FlowControl::Return
    } else if code == FLOW_CALL {
        FlowControl::Call
    } else if code == FLOW_INDIRECT_CALL {
        FlowControl::IndirectCall
    } else if code == FLOW_INTERRUPT {
        FlowControl::Interrupt
    } else if code == FLOW_XBEGIN_XABORT_XEND {
        FlowControl::XbeginXabortXend
    } else {
        FlowControl::Exception
    }
}

/// The operand is an immediate of any width.
pub open spec fn is_immediate(kind: u8) -> bool {
    kind == OP_KIND_IMMEDIATE8 || kind == OP_KIND_IMMEDIATE8_2ND || kind == OP_KIND_IMMEDIATE16
        || kind == OP_KIND_IMMEDIATE32 || kind == OP_KIND_IMMEDIATE64 || kind
        == OP_KIND_IMMEDIATE8TO16 || kind == OP_KIND_IMMEDIATE8TO32 || kind
        == OP_KIND_IMMEDIATE8TO64 || kind == OP_KIND_IMMEDIATE32TO64
}

/// The operand is the target of a near branch.
pub open spec fn is_near_branch(kind: u8) -> bool {
    kind == OP_KIND_NEAR_BRANCH16 || kind == OP_KIND_NEAR_BRANCH32 || kind == OP_KIND_NEAR_BRANCH64
}

/// A conditional move.
pub open spec fn is_conditional_move(m: u16) -> bool {
    m == MNEMONIC_CMOVA || m == MNEMONIC_CMOVAE || m == MNEMONIC_CMOVB || m == MNEMONIC_CMOVBE || m
        == MNEMONIC_CMOVE || m == MNEMONIC_CMOVG || m == MNEMONIC_CMOVGE || m == MNEMONIC_CMOVL || m
        == MNEMONIC_CMOVLE || m == MNEMONIC_CMOVNE || m == MNEMONIC_CMOVNO || m == MNEMONIC_CMOVNP
        || m == MNEMONIC_CMOVNS || m == MNEMONIC_CMOVO || m == MNEMONIC_CMOVP || m
        == MNEMONIC_CMOVS
}

/// Arithmetic, conditional moves, compare-and-exchange and pops: they pivot
/// when they write the register from an immediate or a register.
pub open spec fn is_computed_write(m: u16) -> bool {
    m == MNEMONIC_ADC || m == MNEMONIC_ADCX || m == MNEMONIC_ADD || m == MNEMONIC_SBB || m
        == MNEMONIC_SUB || m == MNEMONIC_BNDMOV || is_conditional_move(m) || m == MNEMONIC_CMPXCHG
        || m == MNEMONIC_CMPXCHG16B || m == MNEMONIC_CMPXCHG8B || m == MNEMONIC_POP || m
        == MNEMONIC_POPA || m == MNEMONIC_POPAD
}

/// A plain move.
pub open spec fn is_move(m: u16) -> bool {
    m == MNEMONIC_MOV || m == MNEMONIC_MOVBE || m == MNEMONIC_MOVD
}

/// An exchange.
pub open spec fn is_exchange(m: u16) -> bool {
    m == MNEMONIC_XADD || m == MNEMONIC_XCHG
}

/// The register is the stack pointer in one of its three widths.
pub open spec fn is_stack_pointer(r: u16) -> bool {
    r == REGISTER_RSP || r == REGISTER_ESP || r == REGISTER_SP
}

/// The register is the frame pointer in one of its three widths.
pub open spec fn is_base_pointer(r: u16) -> bool {
    r == REGISTER_RBP || r == REGISTER_EBP || r == REGISTER_BP
}

/// The rule that stack and base pivots share. `first` and `second` say
/// whether the first and the second operand are the register in question;
/// `always` is the mnemonic that pivots whatever its operands.
pub open spec fn pivots(d: X86Decoded, first: bool, second: bool, always: u16) -> bool {
    if is_computed_write(d.mnemonic) {
        first && (is_immediate(d.op1_kind) || d.op1_kind == OP_KIND_REGISTER)
    } else if is_move(d.mnemonic) {
        first && (d.op1_kind == OP_KIND_REGISTER || d.memory_base != REGISTER_NONE)
    } else if is_exchange(d.mnemonic) {
        first || second
    } else {
        d.mnemonic == always
    }
}

impl X86Decoded {
    pub open spec fn spec_is_invalid(self) -> bool {
        self.code == CODE_INVALID
    }

    pub open spec fn spec_is_ret(self) -> bool {
        self.mnemonic == MNEMONIC_RET || self.mnemonic == MNEMONIC_RETF
    }

    pub open spec fn spec_is_sys(self) -> bool {
        let m = self.mnemonic;
        m == MNEMONIC_SYSCALL || (m == MNEMONIC_INT && self.immediate8 == 0x80) || m
            == MNEMONIC_IRET || m == MNEMONIC_IRETD || m == MNEMONIC_IRETQ || m == MNEMONIC_SYSRET
            || m == MNEMONIC_SYSRETQ || m == MNEMONIC_SYSEXIT || m == MNEMONIC_SYSEXITQ
    }

    /// A jump or call through a register or through memory. In noisy mode
    /// every jump or call but a near one counts; in quiet mode one through
    /// memory counts only where the base is not the instruction pointer.
    pub open spec fn spec_is_jop(self, noisy: bool) -> bool {
        (self.mnemonic == MNEMONIC_JMP || self.mnemonic == MNEMONIC_CALL) && if noisy {
            !is_near_branch(self.op0_kind)
        } else {
            self.op0_kind == OP_KIND_REGISTER || (self.op0_kind == OP_KIND_MEMORY
                && self.memory_base != REGISTER_EIP && self.memory_base != REGISTER_RIP)
        }
    }

    /// The instruction has a lock, repeat or transaction prefix.
    pub open spec fn spec_has_prefix(self) -> bool {
        self.lock_prefix || self.rep_prefix || self.repne_prefix
    }

    pub open spec fn spec_is_rop_gadget_head(self, noisy: bool) -> bool {
        &&& !self.spec_is_invalid()
        &&& noisy || !self.spec_has_prefix()
        &&& match flow_of(self.flow_control) {
            FlowControl::Next | FlowControl::Interrupt => true,
            FlowControl::ConditionalBranch => noisy,
            FlowControl::Call => self.mnemonic != MNEMONIC_CALL,
            _ => false,
        }
    }

    pub open spec fn spec_is_stack_pivot_head(self) -> bool {
        pivots(
            self,
            is_stack_pointer(self.op0_register),
            is_stack_pointer(self.op1_register),
            MNEMONIC_LEAVE,
        )
    }

    pub open spec fn spec_is_base_pivot_head(self) -> bool {
        pivots(
            self,
            is_base_pointer(self.op0_register),
            is_base_pointer(self.op1_register),
            MNEMONIC_ENTER,
        )
    }

    /// The decoding of bytes that are no instruction.
    pub fn invalid() -> (r: X86Decoded)
        ensures
            r.spec_is_invalid(),
            r.len == 0,
            r == (X86Decoded {
                code: CODE_INVALID,
                mnemonic: 0,
                flow_control: FLOW_EXCEPTION,
                op0_kind: 0,
                op1_kind: 0,
                op0_register: 0,
                op1_register: 0,
                memory_base: 0,
                immediate8: 0,
                len: 0,
                lock_prefix: false,
                rep_prefix: false,
                repne_prefix: false,
            }),
    {
        X86Decoded {
            code: CODE_INVALID,
            mnemonic: 0,
            flow_control: FLOW_EXCEPTION,
            op0_kind: 0,
            op1_kind: 0,
            op0_register: 0,
            op1_register: 0,
            memory_base: 0,
            immediate8: 0,
            len: 0,
            lock_prefix: false,
            rep_prefix: false,
            repne_prefix: false,
        }
    }

    pub fn flow(&self) -> (r: FlowControl)
        ensures
            r == flow_of(self.flow_control),
    {
        let code = self.flow_control;
        if code == FLOW_NEXT {
            FlowControl::Next
        } else if code == FLOW_UNCONDITIONAL_BRANCH {
            FlowControl::UnconditionalBranch
        } else if code == FLOW_INDIRECT_BRANCH {
            FlowControl::IndirectBranch
        } else if code == FLOW_CONDITIONAL_BRANCH {
            FlowControl::ConditionalBranch
        } else if code == FLOW_RETURN {
            FlowControl::Return
        } else if code == FLOW_CALL {
            FlowControl::Call
        } else if code == FLOW_INDIRECT_CALL {
            FlowControl::IndirectCall
        } else if code == FLOW_INTERRUPT {
            FlowControl::Interrupt
        } else if code == FLOW_XBEGIN_XABORT_XEND {
            FlowControl::XbeginXabortXend
        } else {
            FlowControl::Exception
        }
    }

    pub fn is_invalid(&self) -> (r: bool)
        ensures
            r == self.spec_is_invalid(),
    {
        self.code == CODE_INVALID
    }

    pub fn is_ret(&self) -> (r: bool)
        ensures
            r == self.spec_is_ret(),
    {
        self.mnemonic == MNEMONIC_RET || self.mnemonic == MNEMONIC_RETF
    }

    pub fn is_sys(&self) -> (r: bool)
        ensures
            r == self.spec_is_sys(),
    {
        let m = self.mnemonic;
        if m == MNEMONIC_SYSCALL {
            true
        } else if m == MNEMONIC_INT {
            self.immediate8 == 0x80
        } else if m == MNEMONIC_IRET || m == MNEMONIC_IRETD || m == MNEMONIC_IRETQ {
            true
        } else {
            m == MNEMONIC_SYSRET || m == MNEMONIC_SYSRETQ || m == MNEMONIC_SYSEXIT || m
                == MNEMONIC_SYSEXITQ
        }
    }

    pub fn is_jop(&self, noisy: bool) -> (r: bool)
        ensures
            r == self.spec_is_jop(noisy),
    {
        if self.mnemonic != MNEMONIC_JMP && self.mnemonic != MNEMONIC_CALL {
            return false;
        }
        let kind = self.op0_kind;
        if noisy {
            !(kind == OP_KIND_NEAR_BRANCH64 || kind == OP_KIND_NEAR_BRANCH32 || kind
                == OP_KIND_NEAR_BRANCH16)
        } else if kind == OP_KIND_REGISTER {
            true
        } else if kind == OP_KIND_MEMORY {
            !(self.memory_base == REGISTER_EIP || self.memory_base == REGISTER_RIP)
        } else {
            false
        }
    }

    pub fn has_prefix(&self) -> (r: bool)
        ensures
            r == self.spec_has_prefix(),
    {
        self.lock_prefix || self.rep_prefix || self.repne_prefix
    }

    pub fn is_gadget_tail(&self, rop: bool, sys: bool, jop: bool, noisy: bool) -> (r: bool)
        ensures
            r == tail_rule(
                self.spec_is_invalid(),
                flow_of(self.flow_control),
                rop && self.spec_is_ret(),
                sys && self.spec_is_sys(),
                jop && self.spec_is_jop(noisy),
            ),
    {
        if self.is_invalid() {
            return false;
        }
        if self.flow_control == FLOW_NEXT {
            return false;
        }
        if rop && self.is_ret() {
            return true;
        }
        if sys && self.is_sys() {
            return true;
        }
        if jop && self.is_jop(noisy) {
            return true;
        }
        false
    }

    pub fn is_rop_gadget_head(&self, noisy: bool) -> (r: bool)
        ensures
            r == self.spec_is_rop_gadget_head(noisy),
    {
        if self.is_invalid() {
            return false;
        }
        if !noisy && self.has_prefix() {
            return false;
        }
        match self.flow() {
            FlowControl::Next | FlowControl::Interrupt => true,
            FlowControl::ConditionalBranch => noisy,
            FlowControl::Call => self.mnemonic != MNEMONIC_CALL,
            _ => false,
        }
    }

    pub fn is_stack_pivot_head(&self) -> (r: bool)
        ensures
            r == self.spec_is_stack_pivot_head(),
    {
        let reg0 = self.op0_register;
        let reg1 = self.op1_register;
        let first = reg0 == REGISTER_RSP || reg0 == REGISTER_ESP || reg0 == REGISTER_SP;
        let second = reg1 == REGISTER_RSP || reg1 == REGISTER_ESP || reg1 == REGISTER_SP;
        pivot_rule(self, first, second, MNEMONIC_LEAVE)
    }

    pub fn is_base_pivot_head(&self) -> (r: bool)
        ensures
            r == self.spec_is_base_pivot_head(),
    {
        let reg0 = self.op0_register;
        let reg1 = self.op1_register;
        let first = reg0 == REGISTER_RBP || reg0 == REGISTER_EBP || reg0 == REGISTER_BP;
        let second = reg1 == REGISTER_RBP || reg1 == REGISTER_EBP || reg1 == REGISTER_BP;
        pivot_rule(self, first, second, MNEMONIC_ENTER)
    }
}

/// Whether an instruction pivots on a register, given whether its first and
/// its second operand are that register.
fn pivot_rule(d: &X86Decoded, first: bool, second: bool, always: u16) -> (r: bool)
    ensures
        r == pivots(*d, first, second, always),
{
    let m = d.mnemonic;
    let kind1 = d.op1_kind;
    if m == MNEMONIC_ADC || m == MNEMONIC_ADCX || m == MNEMONIC_ADD || m == MNEMONIC_SBB || m
        == MNEMONIC_SUB || m == MNEMONIC_BNDMOV || (MNEMONIC_CMOVA <= m && m <= MNEMONIC_CMOVS) || m
        == MNEMONIC_CMPXCHG || m == MNEMONIC_CMPXCHG16B || m == MNEMONIC_CMPXCHG8B || m
        == MNEMONIC_POP || m == MNEMONIC_POPA || m == MNEMONIC_POPAD {
        first && ((OP_KIND_IMMEDIATE8 <= kind1 && kind1 <= OP_KIND_IMMEDIATE32TO64) || kind1
            == OP_KIND_REGISTER)
    } else if m == MNEMONIC_MOV || m == MNEMONIC_MOVBE || m == MNEMONIC_MOVD {
        first && (kind1 == OP_KIND_REGISTER || d.memory_base != REGISTER_NONE)
    } else if m == MNEMONIC_XADD || m == MNEMONIC_XCHG {
        first || second
    } else {
        m == always
    }
}

/// The decoding that stands for every run of bytes that is no instruction.
pub open spec fn invalid_decoding() -> X86Decoded {
    X86Decoded {
        code: CODE_INVALID,
        mnemonic: 0,
        flow_control: FLOW_EXCEPTION,
        op0_kind: 0,
        op1_kind: 0,
        op0_register: 0,
        op1_register: 0,
        memory_base: 0,
        immediate8: 0,
        len: 0,
        lock_prefix: false,
        rep_prefix: false,
        repne_prefix: false,
    }
}

/// A decoding can be kept as an instruction: it is valid, between 1 and 15
/// bytes long, and `code` holds all of its bytes.
pub open spec fn usable(decoded: X86Decoded, code: Seq<u8>) -> bool {
    &&& decoded.code != CODE_INVALID
    &&& 1 <= decoded.len <= MAX_INSTRUCTION_LENGTH
    &&& decoded.len <= code.len()
}

/// One decoded x86 instruction: what the decoder found, the bytes that encode
/// it, and where it stands.
#[derive(Debug, Clone, Copy)]
pub struct X86Instruction {
    decoded: X86Decoded,
    bitness: Bitness,
    ip: u64,
    bytes: [u8; 15],
}

impl X86Instruction {
    /// What the decoder found.
    pub closed spec fn spec_decoded(&self) -> X86Decoded {
        self.decoded
    }

    /// The width of the code that the instruction belongs to.
    pub closed spec fn spec_bitness(&self) -> Bitness {
        self.bitness
    }

    /// The address of the instruction.
    pub closed spec fn spec_ip(&self) -> u64 {
        self.ip
    }

    /// The fifteen bytes kept for the encoding, of which the first `len` are
    /// the encoding.
    pub closed spec fn spec_bytes(&self) -> Seq<u8> {
        self.bytes@
    }

    /// The instruction made of a decoding and of the bytes that were decoded.
    /// A decoding that is not usable gives the invalid instruction.
    pub fn new(decoded: X86Decoded, bitness: Bitness, ip: u64, code: &[u8]) -> (r: X86Instruction)
        ensures
            r.wf(),
            r.spec_bitness() == bitness,
            r.spec_ip() == ip,
            usable(decoded, code@) ==> r.spec_decoded() == decoded && r.encoding()
                == code@.subrange(0, decoded.len as int),
            !usable(decoded, code@) ==> r.spec_decoded() == invalid_decoding() && r.encoding()
                == Seq::<u8>::empty(),
    {
        let mut bytes: [u8; 15] = [0u8; 15];
        if decoded.code == CODE_INVALID || decoded.len == 0 || decoded.len > MAX_INSTRUCTION_LENGTH
            || decoded.len > code.len() {
            let r = X86Instruction { decoded: X86Decoded::invalid(), bitness, ip, bytes };
            assert(r.encoding() =~= Seq::<u8>::empty());
            return r;
        }
        let len = decoded.len;
        let mut i: usize = 0;
        while i < len
            invariant
                i <= len <= 15,
                len <= code@.len(),
                bytes@.len() == 15,
                forall|j: int| 0 <= j < i ==> bytes@[j] == code@[j],
                forall|j: int| i <= j < 15 ==> bytes@[j] == 0,
            decreases len - i,
        {
            bytes[i] = code[i];
            i = i + 1;
        }
        let r = X86Instruction { decoded, bitness, ip, bytes };
        assert(r.encoding() =~= code@.subrange(0, decoded.len as int));
        r
    }

    /// The number of bytes kept as the encoding.
    closed spec fn kept(&self) -> usize {
        if self.decoded.len <= 15 {
            self.decoded.len
        } else {
            15
        }
    }

    fn kept_len(&self) -> (r: usize)
        ensures
            r == self.kept(),
            r <= 15,
    {
        if self.decoded.len <= 15 {
            self.decoded.len
        } else {
            15
        }
    }

    /// What the decoder found.
    pub fn decoded(&self) -> (r: X86Decoded)
        ensures
            r == self.spec_decoded(),
    {
        self.decoded
    }

    /// The address of the instruction.
    pub fn ip(&self) -> (r: u64)
        ensures
            r == self.spec_ip(),
    {
        self.ip
    }
}

impl ROPInstruction for X86Instruction {
    closed spec fn wf(&self) -> bool {
        &&& self.decoded.code == CODE_INVALID ==> self.decoded == invalid_decoding()
        &&& self.decoded.code != CODE_INVALID ==> 1 <= self.decoded.len <= MAX_INSTRUCTION_LENGTH
        &&& forall|j: int| self.decoded.len <= j < 15 ==> self.bytes@[j] == 0
    }

    open spec fn spec_len(&self) -> nat {
        self.spec_decoded().len as nat
    }

    open spec fn spec_flow_control(&self) -> FlowControl {
        flow_of(self.spec_decoded().flow_control)
    }

    open spec fn spec_is_ret(&self) -> bool {
        self.spec_decoded().spec_is_ret()
    }

    open spec fn spec_is_sys(&self) -> bool {
        self.spec_decoded().spec_is_sys()
    }

    open spec fn spec_is_jop(&self, noisy: bool) -> bool {
        self.spec_decoded().spec_is_jop(noisy)
    }

    open spec fn spec_is_invalid(&self) -> bool {
        self.spec_decoded().spec_is_invalid()
    }

    open spec fn spec_is_rop_gadget_head(&self, noisy: bool) -> bool {
        self.spec_decoded().spec_is_rop_gadget_head(noisy)
    }

    open spec fn spec_is_stack_pivot_head(&self) -> bool {
        self.spec_decoded().spec_is_stack_pivot_head()
    }

    open spec fn spec_is_base_pivot_head(&self) -> bool {
        self.spec_decoded().spec_is_base_pivot_head()
    }

    closed spec fn encoding(&self) -> Seq<u8> {
        self.bytes@.subrange(0, self.kept() as int)
    }

    open spec fn spec_text(&self) -> Seq<char> {
        x86_text(
            self.spec_bitness().spec_bits(),
            self.encoding(),
            self.spec_ip(),
            DECODER_OPTIONS_AMD,
            gadget_style(),
        )
    }

    proof fn lemma_length(&self) {
    }

    proof fn lemma_rules(&self) {
    }

    fn len(&self) -> (r: usize) {
        self.decoded.len
    }

    fn is_ret(&self) -> (r: bool) {
        self.decoded.is_ret()
    }

    fn is_sys(&self) -> (r: bool) {
        self.decoded.is_sys()
    }

    fn is_jop(&self, noisy: bool) -> (r: bool) {
        self.decoded.is_jop(noisy)
    }

    fn is_invalid(&self) -> (r: bool) {
        self.decoded.is_invalid()
    }

    fn is_gadget_tail(&self, rop: bool, sys: bool, jop: bool, noisy: bool) -> (r: bool) {
        self.decoded.is_gadget_tail(rop, sys, jop, noisy)
    }

    fn is_rop_gadget_head(&self, noisy: bool) -> (r: bool) {
        self.decoded.is_rop_gadget_head(noisy)
    }

    fn is_stack_pivot_head(&self) -> (r: bool) {
        self.decoded.is_stack_pivot_head()
    }

    fn is_stack_pivot_tail(&self) -> (r: bool) {
        self.decoded.is_ret()
    }

    fn is_base_pivot_head(&self) -> (r: bool) {
        self.decoded.is_base_pivot_head()
    }

    fn same_encoding(&self, other: &Self) -> (r: bool) {
        let len = self.kept_len();
        if len != other.kept_len() {
            proof {
                assert(self.encoding().len() != other.encoding().len());
            }
            return false;
        }
        let mut i: usize = 0;
        while i < len
            invariant
                i <= len <= 15,
                len == self.kept(),
                len == other.kept(),
                forall|j: int| 0 <= j < i ==> self.bytes@[j] == other.bytes@[j],
            decreases len - i,
        {
            if self.bytes[i] != other.bytes[i] {
                proof {
                    assert(self.encoding()[i as int] != other.encoding()[i as int]);
                }
                return false;
            }
            i = i + 1;
        }
        assert(self.encoding() =~= other.encoding());
        true
    }

    fn code_bytes(&self) -> (r: Vec<u8>) {
        let len = self.kept_len();
        let mut out: Vec<u8> = Vec::new();
        let mut i: usize = 0;
        while i < len
            invariant
                i <= len <= 15,
                len == self.kept(),
                out@ == self.bytes@.subrange(0, i as int),
            decreases len - i,
        {
            out.push(self.bytes[i]);
            assert(out@ =~= self.bytes@.subrange(0, i + 1));
            i = i + 1;
        }
        out
    }

    fn format(&self) -> (r: String) {
        let len = self.kept_len();
        let code = vstd::slice::slice_subrange(self.bytes.as_slice(), 0, len);
        format_instruction(self.bitness.bits(), code, self.ip, DECODER_OPTIONS_AMD, style())
    }
}

} // verus!
