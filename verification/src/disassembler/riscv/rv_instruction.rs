//! One decoded RISC-V instruction and the gadget rules for it.
use vstd::prelude::*;
use vstd::string::StringExecFns;
use vstd::string::StrSliceExecFns;
use crate::binary::Bitness;
use crate::disassembler::riscv::disc::{format_instruction, rv_text};
use crate::disassembler::{FlowControl, ROPInstruction};

verus! {

/// The longest RISC-V encoding that the decoder reads, in bytes.
pub const MAX_RV_LENGTH: usize = 8;

/// What the decoder found at one offset.
#[derive(Debug)]
pub struct RvDecoded {
    /// The number of bytes of the encoding.
    pub len: usize,
    /// The encoding is no valid instruction.
    pub illegal: bool,
    /// The mnemonic, such as `addi`, `ret` or `amoadd.w`.
    pub mnemonic: String,
    /// The operands as the decoder writes them, such as `ra,8(sp)`.
    pub operands: String,
}

/// What the decoder found at one offset, as a mathematical value.
pub ghost struct RvDecodedView {
    pub len: usize,
    pub illegal: bool,
    pub mnemonic: Seq<char>,
    pub operands: Seq<char>,
}

impl View for RvDecoded {
    type V = RvDecodedView;

    open spec fn view(&self) -> RvDecodedView {
        RvDecodedView {
            len: self.len,
            illegal: self.illegal,
            mnemonic: self.mnemonic@,
            operands: self.operands@,
        }
    }
}

/// What the gadget rules tell apart among the instructions.
#[derive(Debug, Clone, Copy, PartialEq, Eq, Structural)]
pub enum RvKind {
    /// `ret`.
    Ret,
    /// A jump or call through a register.
    IndirectBranch,
    /// A jump or call to a fixed target.
    UnconditionalBranch,
    /// `ecall`.
    Ecall,
    /// A branch under a condition.
    ConditionalBranch,
    /// An instruction that puts its result in its first operand, an integer
    /// register: arithmetic, a load, a move.
    RegisterWrite,
    /// Anything else.
    Other,
}

/// The register that an instruction names first.
#[derive(Debug, Clone, Copy, PartialEq, Eq, Structural)]
pub enum RvRegister {
    /// `sp`, the register `x2`.
    StackPointer,
    /// `s0`, the register `x8`, which serves as frame pointer.
    FramePointer,
    /// Another register, or none.
    Other,
}

/// The mnemonic is one of the jumps and calls through a register.
pub open spec fn is_indirect_branch(m: Seq<char>) -> bool {
    m == "jalr"@ || m == "c.jr"@ || m == "c.jalr"@ || m == "jr"@
}

/// The mnemonic is one of the jumps and calls to a fixed target.
pub open spec fn is_unconditional_branch(m: Seq<char>) -> bool {
    m == "jal"@ || m == "c.jal"@ || m == "c.j"@ || m == "j"@
}

/// The mnemonic is one of the branches under a condition, those against
/// zero among them.
pub open spec fn is_conditional_branch(m: Seq<char>) -> bool {
    m == "beq"@ || m == "bne"@ || m == "blt"@ || m == "bge"@ || m == "bltu"@ || m == "bgeu"@
        || m == "beqz"@ || m == "bnez"@ || m == "blez"@ || m == "bgez"@ || m == "bltz"@
        || m == "bgtz"@ || m == "c.beqz"@ || m == "c.bnez"@
}

/// The mnemonic is an addition, a subtraction, a move, a logical operation or a
/// comparison into the first operand.
pub open spec fn is_arithmetic_write(m: Seq<char>) -> bool {
    m == "add"@ || m == "addd"@ || m == "addi"@ || m == "addid"@ || m == "addiw"@ ||
        m == "addw"@ || m == "and"@ || m == "andi"@ || m == "mv"@ || m == "neg"@ ||
        m == "negw"@ || m == "not"@ || m == "or"@ || m == "ori"@ || m == "seqz"@ ||
        m == "sext.w"@ || m == "sgtz"@ || m == "slt"@ || m == "slti"@ || m == "sltiu"@ ||
        m == "sltu"@ || m == "sltz"@ || m == "snez"@ || m == "sub"@ || m == "subd"@ ||
        m == "subw"@ || m == "xor"@ || m == "xori"@ || m == "zext.b"@ || m == "c.add"@ ||
        m == "c.addi"@ || m == "c.addi16sp"@ || m == "c.addi4spn"@ || m == "c.addiw"@ ||
        m == "c.addw"@ || m == "c.and"@ || m == "c.andi"@ || m == "c.mv"@ || m == "c.not"@ ||
        m == "c.or"@ || m == "c.sext.b"@ || m == "c.sext.h"@ || m == "c.sub"@ || m == "c.subw"@ ||
        m == "c.xor"@ || m == "c.zext.b"@ || m == "c.zext.h"@ || m == "c.zext.w"@
}

/// The mnemonic is a shift into the first operand.
pub open spec fn is_shift_write(m: Seq<char>) -> bool {
    m == "sll"@ || m == "slld"@ || m == "slli"@ || m == "sllid"@ || m == "slliw"@ ||
        m == "sllw"@ || m == "sra"@ || m == "srad"@ || m == "srai"@ || m == "sraid"@ ||
        m == "sraiw"@ || m == "sraw"@ || m == "srl"@ || m == "srld"@ || m == "srli"@ ||
        m == "srlid"@ || m == "srliw"@ || m == "srlw"@ || m == "c.slli"@ || m == "c.srai"@ ||
        m == "c.srli"@
}

/// The mnemonic is a multiplication, a division or a remainder into the first
/// operand.
pub open spec fn is_multiply_write(m: Seq<char>) -> bool {
    m == "div"@ || m == "divd"@ || m == "divu"@ || m == "divud"@ || m == "divuw"@ ||
        m == "divw"@ || m == "mul"@ || m == "muld"@ || m == "mulh"@ || m == "mulhsu"@ ||
        m == "mulhu"@ || m == "mulw"@ || m == "rem"@ || m == "remd"@ || m == "remu"@ ||
        m == "remud"@ || m == "remuw"@ || m == "remw"@ || m == "c.mul"@
}

/// The mnemonic is a load into the first operand, from memory or of an
/// immediate.
pub open spec fn is_load_write(m: Seq<char>) -> bool {
    m == "auipc"@ || m == "hlv.b"@ || m == "hlv.bu"@ || m == "hlv.d"@ || m == "hlv.h"@ ||
        m == "hlv.hu"@ || m == "hlv.w"@ || m == "hlv.wu"@ || m == "hlvx.hu"@ || m == "hlvx.wu"@ ||
        m == "lb"@ || m == "lb.aq"@ || m == "lbu"@ || m == "ld"@ || m == "ld.aq"@ ||
        m == "ldu"@ || m == "lh"@ || m == "lh.aq"@ || m == "lhu"@ || m == "li"@ || m == "lq"@ ||
        m == "lui"@ || m == "lw"@ || m == "lw.aq"@ || m == "lwu"@ || m == "c.lbu"@ ||
        m == "c.ld"@ || m == "c.ldsp"@ || m == "c.lh"@ || m == "c.lhu"@ || m == "c.li"@ ||
        m == "c.lq"@ || m == "c.lqsp"@ || m == "c.lui"@ || m == "c.lw"@ || m == "c.lwsp"@
}

/// The mnemonic is an atomic operation on memory that leaves what it read, or
/// whether it succeeded, in the first operand.
pub open spec fn is_atomic_write(m: Seq<char>) -> bool {
    m == "amoadd.b"@ || m == "amoadd.d"@ || m == "amoadd.h"@ || m == "amoadd.q"@ ||
        m == "amoadd.w"@ || m == "amoand.b"@ || m == "amoand.d"@ || m == "amoand.h"@ ||
        m == "amoand.q"@ || m == "amoand.w"@ || m == "amocas.b"@ || m == "amocas.d"@ ||
        m == "amocas.h"@ || m == "amocas.q"@ || m == "amocas.w"@ || m == "amomax.b"@ ||
        m == "amomax.d"@ || m == "amomax.h"@ || m == "amomax.q"@ || m == "amomax.w"@ ||
        m == "amomaxu.b"@ || m == "amomaxu.d"@ || m == "amomaxu.h"@ || m == "amomaxu.q"@ ||
        m == "amomaxu.w"@ || m == "amomin.b"@ || m == "amomin.d"@ || m == "amomin.h"@ ||
        m == "amomin.q"@ || m == "amomin.w"@ || m == "amominu.b"@ || m == "amominu.d"@ ||
        m == "amominu.h"@ || m == "amominu.q"@ || m == "amominu.w"@ || m == "amoor.b"@ ||
        m == "amoor.d"@ || m == "amoor.h"@ || m == "amoor.q"@ || m == "amoor.w"@ ||
        m == "amoswap.b"@ || m == "amoswap.d"@ || m == "amoswap.h"@ || m == "amoswap.q"@ ||
        m == "amoswap.w"@ || m == "amoxor.b"@ || m == "amoxor.d"@ || m == "amoxor.h"@ ||
        m == "amoxor.q"@ || m == "amoxor.w"@ || m == "lr.d"@ || m == "lr.q"@ || m == "lr.w"@ ||
        m == "sc.d"@ || m == "sc.q"@ || m == "sc.w"@ || m == "ssamoswap.d"@ || m == "ssamoswap.w"@
}

/// The mnemonic is an operation on bits, a conditional zero or a step of a
/// cipher or hash into the first operand.
pub open spec fn is_bit_write(m: Seq<char>) -> bool {
    m == "add.uw"@ || m == "aes32dsi"@ || m == "aes32dsmi"@ || m == "aes32esi"@ ||
        m == "aes32esmi"@ || m == "aes64ds"@ || m == "aes64dsm"@ || m == "aes64es"@ ||
        m == "aes64esm"@ || m == "aes64im"@ || m == "aes64ks1i"@ || m == "aes64ks2"@ ||
        m == "andn"@ || m == "bclr"@ || m == "bclri"@ || m == "bext"@ || m == "bexti"@ ||
        m == "binv"@ || m == "binvi"@ || m == "brev8"@ || m == "bset"@ || m == "bseti"@ ||
        m == "clmul"@ || m == "clmulh"@ || m == "clmulr"@ || m == "clz"@ || m == "clzw"@ ||
        m == "cpop"@ || m == "cpopw"@ || m == "ctz"@ || m == "ctzw"@ || m == "czero.eqz"@ ||
        m == "czero.nez"@ || m == "max"@ || m == "maxu"@ || m == "min"@ || m == "minu"@ ||
        m == "orc.b"@ || m == "orn"@ || m == "pack"@ || m == "packh"@ || m == "packw"@ ||
        m == "rev8"@ || m == "rol"@ || m == "rolw"@ || m == "ror"@ || m == "rori"@ ||
        m == "roriw"@ || m == "rorw"@ || m == "sext.b"@ || m == "sext.h"@ || m == "sh1add"@ ||
        m == "sh1add.uw"@ || m == "sh2add"@ || m == "sh2add.uw"@ || m == "sh3add"@ ||
        m == "sh3add.uw"@ || m == "sha256sig0"@ || m == "sha256sig1"@ || m == "sha256sum0"@ ||
        m == "sha256sum1"@ || m == "sha512sig0"@ || m == "sha512sig0h"@ || m == "sha512sig0l"@ ||
        m == "sha512sig1"@ || m == "sha512sig1h"@ || m == "sha512sig1l"@ || m == "sha512sum0"@ ||
        m == "sha512sum0r"@ || m == "sha512sum1"@ || m == "sha512sum1r"@ || m == "slli.uw"@ ||
        m == "sm3p0"@ || m == "sm3p1"@ || m == "sm4ed"@ || m == "sm4ks"@ || m == "unzip"@ ||
        m == "xnor"@ || m == "xperm4"@ || m == "xperm8"@ || m == "zext.h"@ || m == "zext.w"@ ||
        m == "zip"@
}

/// The mnemonic reads a control and status register, a counter or the shadow
/// stack pointer into the first operand.
pub open spec fn is_status_read(m: Seq<char>) -> bool {
    m == "csrr"@ || m == "csrrc"@ || m == "csrrci"@ || m == "csrrs"@ || m == "csrrsi"@ ||
        m == "csrrw"@ || m == "csrrwi"@ || m == "frcsr"@ || m == "frflags"@ || m == "frrm"@ ||
        m == "fsflagsi"@ || m == "fsrmi"@ || m == "rdcycle"@ || m == "rdcycleh"@ ||
        m == "rdinstret"@ || m == "rdinstreth"@ || m == "rdtime"@ || m == "rdtimeh"@ ||
        m == "ssrdp"@
}

/// The mnemonic moves, converts, compares or classifies floating-point values
/// into the first operand, an integer register.
pub open spec fn is_float_to_integer(m: Seq<char>) -> bool {
    m == "fclass.d"@ || m == "fclass.h"@ || m == "fclass.q"@ || m == "fclass.s"@ ||
        m == "fcvt.l.d"@ || m == "fcvt.l.h"@ || m == "fcvt.l.q"@ || m == "fcvt.l.s"@ ||
        m == "fcvt.lu.d"@ || m == "fcvt.lu.h"@ || m == "fcvt.lu.q"@ || m == "fcvt.lu.s"@ ||
        m == "fcvt.w.d"@ || m == "fcvt.w.h"@ || m == "fcvt.w.q"@ || m == "fcvt.w.s"@ ||
        m == "fcvt.wu.d"@ || m == "fcvt.wu.h"@ || m == "fcvt.wu.q"@ || m == "fcvt.wu.s"@ ||
        m == "fcvtmod.w.d"@ || m == "feq.d"@ || m == "feq.h"@ || m == "feq.q"@ || m == "feq.s"@ ||
        m == "fle.d"@ || m == "fle.h"@ || m == "fle.q"@ || m == "fle.s"@ || m == "fleq.d"@ ||
        m == "fleq.h"@ || m == "fleq.q"@ || m == "fleq.s"@ || m == "flt.d"@ || m == "flt.h"@ ||
        m == "flt.q"@ || m == "flt.s"@ || m == "fltq.d"@ || m == "fltq.h"@ || m == "fltq.q"@ ||
        m == "fltq.s"@ || m == "fmv.x.d"@ || m == "fmv.x.h"@ || m == "fmv.x.q"@ ||
        m == "fmv.x.w"@ || m == "fmvh.x.d"@ || m == "fmvh.x.q"@
}

/// The mnemonic sets the vector length or reads from a vector into the first
/// operand, an integer register.
pub open spec fn is_vector_to_integer(m: Seq<char>) -> bool {
    m == "vcpop.m"@ || m == "vfirst.m"@ || m == "vmv.x.s"@ || m == "vsetivli"@ ||
        m == "vsetvl"@ || m == "vsetvli"@
}

/// The mnemonic is a may-be-operation, which writes the first operand.
pub open spec fn is_maybe_operation(m: Seq<char>) -> bool {
    m == "mop.r.0"@ || m == "mop.r.1"@ || m == "mop.r.2"@ || m == "mop.r.3"@ || m == "mop.r.4"@ ||
        m == "mop.r.5"@ || m == "mop.r.6"@ || m == "mop.r.7"@ || m == "mop.r.8"@ ||
        m == "mop.r.9"@ || m == "mop.r.10"@ || m == "mop.r.11"@ || m == "mop.r.12"@ ||
        m == "mop.r.13"@ || m == "mop.r.14"@ || m == "mop.r.15"@ || m == "mop.r.16"@ ||
        m == "mop.r.17"@ || m == "mop.r.18"@ || m == "mop.r.19"@ || m == "mop.r.20"@ ||
        m == "mop.r.21"@ || m == "mop.r.22"@ || m == "mop.r.23"@ || m == "mop.r.24"@ ||
        m == "mop.r.25"@ || m == "mop.r.26"@ || m == "mop.r.27"@ || m == "mop.r.28"@ ||
        m == "mop.r.29"@ || m == "mop.r.30"@ || m == "mop.r.31"@ || m == "mop.rr.0"@ ||
        m == "mop.rr.1"@ || m == "mop.rr.2"@ || m == "mop.rr.3"@ || m == "mop.rr.4"@ ||
        m == "mop.rr.5"@ || m == "mop.rr.6"@ || m == "mop.rr.7"@
}

/// The mnemonic writes the floating-point status, and with two operands
/// leaves what the status was in the first.
pub open spec fn is_status_swap(m: Seq<char>) -> bool {
    m == "fscsr"@ || m == "fsrm"@ || m == "fsflags"@
}

/// The instruction writes the register that it names first: it is one of the
/// instructions that put their result in their first operand.
pub open spec fn writes_first_operand(m: Seq<char>, operands: Seq<char>) -> bool {
    is_arithmetic_write(m) || is_shift_write(m) || is_multiply_write(m) || is_load_write(m)
        || is_atomic_write(m) || is_bit_write(m) || is_status_read(m) || is_float_to_integer(m)
        || is_vector_to_integer(m) || is_maybe_operation(m) || (is_status_swap(m)
        && operands.contains(','))
}

/// The kind of the instruction with the mnemonic `m` and the given operands.
pub open spec fn kind_of(m: Seq<char>, operands: Seq<char>) -> RvKind {
    if m == "ret"@ {
        RvKind::Ret
    } else if is_indirect_branch(m) {
        RvKind::IndirectBranch
    } else if is_unconditional_branch(m) {
        RvKind::UnconditionalBranch
    } else if m == "ecall"@ {
        RvKind::Ecall
    } else if is_conditional_branch(m) {
        RvKind::ConditionalBranch
    } else if writes_first_operand(m, operands) {
        RvKind::RegisterWrite
    } else {
        RvKind::Other
    }
}

/// The operands begin with the register whose name is the two letters `a`
/// and `b`: the name is followed by a comma or by nothing.
pub open spec fn names_first(operands: Seq<char>, a: char, b: char) -> bool {
    &&& operands.len() >= 2
    &&& operands[0] == a
    &&& operands[1] == b
    &&& operands.len() == 2 || operands[2] == ','
}

/// The register that the operands name first.
pub open spec fn first_register(operands: Seq<char>) -> RvRegister {
    if names_first(operands, 's', 'p') {
        RvRegister::StackPointer
    } else if names_first(operands, 's', '0') {
        RvRegister::FramePointer
    } else {
        RvRegister::Other
    }
}

/// Whether a string is the given text.
fn is(s: &String, text: &str) -> (r: bool)
    ensures
        r == (s@ == text@),
{
    let other = String::from_str(text);
    *s == other
}

/// The kind of the instruction with the given mnemonic and operands.
pub fn classify(m: &String, operands: &String) -> (r: RvKind)
    ensures
        r == kind_of(m@, operands@),
{
    if is(m, "ret") {
        RvKind::Ret
    } else if is(m, "jalr") || is(m, "c.jr") || is(m, "c.jalr") || is(m, "jr") {
        RvKind::IndirectBranch
    } else if is(m, "jal") || is(m, "c.jal") || is(m, "c.j") || is(m, "j") {
        RvKind::UnconditionalBranch
    } else if is(m, "ecall") {
        RvKind::Ecall
    } else if branches_on_condition(m) {
        RvKind::ConditionalBranch
    } else if writes_first(m, operands) {
        RvKind::RegisterWrite
    } else {
        RvKind::Other
    }
}

/// Whether the mnemonic is a branch under a condition.
fn branches_on_condition(m: &String) -> (r: bool)
    ensures
        r == is_conditional_branch(m@),
{
    is(m, "beq") || is(m, "bne") || is(m, "blt") || is(m, "bge") || is(m, "bltu") || is(m, "bgeu")
        || is(m, "beqz") || is(m, "bnez") || is(m, "blez") || is(m, "bgez") || is(m, "bltz")
        || is(m, "bgtz") || is(m, "c.beqz") || is(m, "c.bnez")
}

fn writes_by_arithmetic(m: &String) -> (r: bool)
    ensures
        r == is_arithmetic_write(m@),
{
    is(m, "add") || is(m, "addd") || is(m, "addi") || is(m, "addid") || is(m, "addiw") ||
        is(m, "addw") || is(m, "and") || is(m, "andi") || is(m, "mv") || is(m, "neg") ||
        is(m, "negw") || is(m, "not") || is(m, "or") || is(m, "ori") || is(m, "seqz") ||
        is(m, "sext.w") || is(m, "sgtz") || is(m, "slt") || is(m, "slti") || is(m, "sltiu") ||
        is(m, "sltu") || is(m, "sltz") || is(m, "snez") || is(m, "sub") || is(m, "subd") ||
        is(m, "subw") || is(m, "xor") || is(m, "xori") || is(m, "zext.b") || is(m, "c.add") ||
        is(m, "c.addi") || is(m, "c.addi16sp") || is(m, "c.addi4spn") || is(m, "c.addiw") ||
        is(m, "c.addw") || is(m, "c.and") || is(m, "c.andi") || is(m, "c.mv") || is(m, "c.not") ||
        is(m, "c.or") || is(m, "c.sext.b") || is(m, "c.sext.h") || is(m, "c.sub") ||
        is(m, "c.subw") || is(m, "c.xor") || is(m, "c.zext.b") || is(m, "c.zext.h") ||
        is(m, "c.zext.w")
}

fn writes_by_shift(m: &String) -> (r: bool)
    ensures
        r == is_shift_write(m@),
{
    is(m, "sll") || is(m, "slld") || is(m, "slli") || is(m, "sllid") || is(m, "slliw") ||
        is(m, "sllw") || is(m, "sra") || is(m, "srad") || is(m, "srai") || is(m, "sraid") ||
        is(m, "sraiw") || is(m, "sraw") || is(m, "srl") || is(m, "srld") || is(m, "srli") ||
        is(m, "srlid") || is(m, "srliw") || is(m, "srlw") || is(m, "c.slli") || is(m, "c.srai") ||
        is(m, "c.srli")
}

fn writes_by_multiply(m: &String) -> (r: bool)
    ensures
        r == is_multiply_write(m@),
{
    is(m, "div") || is(m, "divd") || is(m, "divu") || is(m, "divud") || is(m, "divuw") ||
        is(m, "divw") || is(m, "mul") || is(m, "muld") || is(m, "mulh") || is(m, "mulhsu") ||
        is(m, "mulhu") || is(m, "mulw") || is(m, "rem") || is(m, "remd") || is(m, "remu") ||
        is(m, "remud") || is(m, "remuw") || is(m, "remw") || is(m, "c.mul")
}

fn writes_by_load(m: &String) -> (r: bool)
    ensures
        r == is_load_write(m@),
{
    is(m, "auipc") || is(m, "hlv.b") || is(m, "hlv.bu") || is(m, "hlv.d") || is(m, "hlv.h") ||
        is(m, "hlv.hu") || is(m, "hlv.w") || is(m, "hlv.wu") || is(m, "hlvx.hu") ||
        is(m, "hlvx.wu") || is(m, "lb") || is(m, "lb.aq") || is(m, "lbu") || is(m, "ld") ||
        is(m, "ld.aq") || is(m, "ldu") || is(m, "lh") || is(m, "lh.aq") || is(m, "lhu") ||
        is(m, "li") || is(m, "lq") || is(m, "lui") || is(m, "lw") || is(m, "lw.aq") ||
        is(m, "lwu") || is(m, "c.lbu") || is(m, "c.ld") || is(m, "c.ldsp") || is(m, "c.lh") ||
        is(m, "c.lhu") || is(m, "c.li") || is(m, "c.lq") || is(m, "c.lqsp") || is(m, "c.lui") ||
        is(m, "c.lw") || is(m, "c.lwsp")
}

fn writes_by_atomic(m: &String) -> (r: bool)
    ensures
        r == is_atomic_write(m@),
{
    is(m, "amoadd.b") || is(m, "amoadd.d") || is(m, "amoadd.h") || is(m, "amoadd.q") ||
        is(m, "amoadd.w") || is(m, "amoand.b") || is(m, "amoand.d") || is(m, "amoand.h") ||
        is(m, "amoand.q") || is(m, "amoand.w") || is(m, "amocas.b") || is(m, "amocas.d") ||
        is(m, "amocas.h") || is(m, "amocas.q") || is(m, "amocas.w") || is(m, "amomax.b") ||
        is(m, "amomax.d") || is(m, "amomax.h") || is(m, "amomax.q") || is(m, "amomax.w") ||
        is(m, "amomaxu.b") || is(m, "amomaxu.d") || is(m, "amomaxu.h") || is(m, "amomaxu.q") ||
        is(m, "amomaxu.w") || is(m, "amomin.b") || is(m, "amomin.d") || is(m, "amomin.h") ||
        is(m, "amomin.q") || is(m, "amomin.w") || is(m, "amominu.b") || is(m, "amominu.d") ||
        is(m, "amominu.h") || is(m, "amominu.q") || is(m, "amominu.w") || is(m, "amoor.b") ||
        is(m, "amoor.d") || is(m, "amoor.h") || is(m, "amoor.q") || is(m, "amoor.w") ||
        is(m, "amoswap.b") || is(m, "amoswap.d") || is(m, "amoswap.h") || is(m, "amoswap.q") ||
        is(m, "amoswap.w") || is(m, "amoxor.b") || is(m, "amoxor.d") || is(m, "amoxor.h") ||
        is(m, "amoxor.q") || is(m, "amoxor.w") || is(m, "lr.d") || is(m, "lr.q") ||
        is(m, "lr.w") || is(m, "sc.d") || is(m, "sc.q") || is(m, "sc.w") ||
        is(m, "ssamoswap.d") || is(m, "ssamoswap.w")
}

fn writes_by_bits(m: &String) -> (r: bool)
    ensures
        r == is_bit_write(m@),
{
    is(m, "add.uw") || is(m, "aes32dsi") || is(m, "aes32dsmi") || is(m, "aes32esi") ||
        is(m, "aes32esmi") || is(m, "aes64ds") || is(m, "aes64dsm") || is(m, "aes64es") ||
        is(m, "aes64esm") || is(m, "aes64im") || is(m, "aes64ks1i") || is(m, "aes64ks2") ||
        is(m, "andn") || is(m, "bclr") || is(m, "bclri") || is(m, "bext") || is(m, "bexti") ||
        is(m, "binv") || is(m, "binvi") || is(m, "brev8") || is(m, "bset") || is(m, "bseti") ||
        is(m, "clmul") || is(m, "clmulh") || is(m, "clmulr") || is(m, "clz") || is(m, "clzw") ||
        is(m, "cpop") || is(m, "cpopw") || is(m, "ctz") || is(m, "ctzw") || is(m, "czero.eqz") ||
        is(m, "czero.nez") || is(m, "max") || is(m, "maxu") || is(m, "min") || is(m, "minu") ||
        is(m, "orc.b") || is(m, "orn") || is(m, "pack") || is(m, "packh") || is(m, "packw") ||
        is(m, "rev8") || is(m, "rol") || is(m, "rolw") || is(m, "ror") || is(m, "rori") ||
        is(m, "roriw") || is(m, "rorw") || is(m, "sext.b") || is(m, "sext.h") ||
        is(m, "sh1add") || is(m, "sh1add.uw") || is(m, "sh2add") || is(m, "sh2add.uw") ||
        is(m, "sh3add") || is(m, "sh3add.uw") || is(m, "sha256sig0") || is(m, "sha256sig1") ||
        is(m, "sha256sum0") || is(m, "sha256sum1") || is(m, "sha512sig0") ||
        is(m, "sha512sig0h") || is(m, "sha512sig0l") || is(m, "sha512sig1") ||
        is(m, "sha512sig1h") || is(m, "sha512sig1l") || is(m, "sha512sum0") ||
        is(m, "sha512sum0r") || is(m, "sha512sum1") || is(m, "sha512sum1r") || is(m, "slli.uw") ||
        is(m, "sm3p0") || is(m, "sm3p1") || is(m, "sm4ed") || is(m, "sm4ks") || is(m, "unzip") ||
        is(m, "xnor") || is(m, "xperm4") || is(m, "xperm8") || is(m, "zext.h") ||
        is(m, "zext.w") || is(m, "zip")
}

fn writes_by_status(m: &String) -> (r: bool)
    ensures
        r == is_status_read(m@),
{
    is(m, "csrr") || is(m, "csrrc") || is(m, "csrrci") || is(m, "csrrs") || is(m, "csrrsi") ||
        is(m, "csrrw") || is(m, "csrrwi") || is(m, "frcsr") || is(m, "frflags") ||
        is(m, "frrm") || is(m, "fsflagsi") || is(m, "fsrmi") || is(m, "rdcycle") ||
        is(m, "rdcycleh") || is(m, "rdinstret") || is(m, "rdinstreth") || is(m, "rdtime") ||
        is(m, "rdtimeh") || is(m, "ssrdp")
}

fn writes_by_float(m: &String) -> (r: bool)
    ensures
        r == is_float_to_integer(m@),
{
    is(m, "fclass.d") || is(m, "fclass.h") || is(m, "fclass.q") || is(m, "fclass.s") ||
        is(m, "fcvt.l.d") || is(m, "fcvt.l.h") || is(m, "fcvt.l.q") || is(m, "fcvt.l.s") ||
        is(m, "fcvt.lu.d") || is(m, "fcvt.lu.h") || is(m, "fcvt.lu.q") || is(m, "fcvt.lu.s") ||
        is(m, "fcvt.w.d") || is(m, "fcvt.w.h") || is(m, "fcvt.w.q") || is(m, "fcvt.w.s") ||
        is(m, "fcvt.wu.d") || is(m, "fcvt.wu.h") || is(m, "fcvt.wu.q") || is(m, "fcvt.wu.s") ||
        is(m, "fcvtmod.w.d") || is(m, "feq.d") || is(m, "feq.h") || is(m, "feq.q") ||
        is(m, "feq.s") || is(m, "fle.d") || is(m, "fle.h") || is(m, "fle.q") || is(m, "fle.s") ||
        is(m, "fleq.d") || is(m, "fleq.h") || is(m, "fleq.q") || is(m, "fleq.s") ||
        is(m, "flt.d") || is(m, "flt.h") || is(m, "flt.q") || is(m, "flt.s") || is(m, "fltq.d") ||
        is(m, "fltq.h") || is(m, "fltq.q") || is(m, "fltq.s") || is(m, "fmv.x.d") ||
        is(m, "fmv.x.h") || is(m, "fmv.x.q") || is(m, "fmv.x.w") || is(m, "fmvh.x.d") ||
        is(m, "fmvh.x.q")
}

fn writes_by_vector(m: &String) -> (r: bool)
    ensures
        r == is_vector_to_integer(m@),
{
    is(m, "vcpop.m") || is(m, "vfirst.m") || is(m, "vmv.x.s") || is(m, "vsetivli") ||
        is(m, "vsetvl") || is(m, "vsetvli")
}

fn writes_by_maybe(m: &String) -> (r: bool)
    ensures
        r == is_maybe_operation(m@),
{
    is(m, "mop.r.0") || is(m, "mop.r.1") || is(m, "mop.r.2") || is(m, "mop.r.3") ||
        is(m, "mop.r.4") || is(m, "mop.r.5") || is(m, "mop.r.6") || is(m, "mop.r.7") ||
        is(m, "mop.r.8") || is(m, "mop.r.9") || is(m, "mop.r.10") || is(m, "mop.r.11") ||
        is(m, "mop.r.12") || is(m, "mop.r.13") || is(m, "mop.r.14") || is(m, "mop.r.15") ||
        is(m, "mop.r.16") || is(m, "mop.r.17") || is(m, "mop.r.18") || is(m, "mop.r.19") ||
        is(m, "mop.r.20") || is(m, "mop.r.21") || is(m, "mop.r.22") || is(m, "mop.r.23") ||
        is(m, "mop.r.24") || is(m, "mop.r.25") || is(m, "mop.r.26") || is(m, "mop.r.27") ||
        is(m, "mop.r.28") || is(m, "mop.r.29") || is(m, "mop.r.30") || is(m, "mop.r.31") ||
        is(m, "mop.rr.0") || is(m, "mop.rr.1") || is(m, "mop.rr.2") || is(m, "mop.rr.3") ||
        is(m, "mop.rr.4") || is(m, "mop.rr.5") || is(m, "mop.rr.6") || is(m, "mop.rr.7")
}

/// Whether the operands are more than one.
fn has_comma(operands: &String) -> (r: bool)
    ensures
        r == operands@.contains(','),
{
    let s = operands.as_str();
    let n = s.unicode_len();
    let mut i: usize = 0;
    while i < n
        invariant
            i <= n,
            n == s@.len(),
            s@ == operands@,
            forall|j: int| 0 <= j < i ==> s@[j] != ',',
        decreases n - i,
    {
        if s.get_char(i) == ',' {
            assert(operands@[i as int] == ',');
            return true;
        }
        i = i + 1;
    }
    false
}

/// Whether the instruction writes the register that it names first.
fn writes_first(m: &String, operands: &String) -> (r: bool)
    ensures
        r == writes_first_operand(m@, operands@),
{
    if writes_by_arithmetic(m) || writes_by_load(m) || writes_by_shift(m) || writes_by_multiply(m)
        || writes_by_atomic(m) || writes_by_bits(m) || writes_by_status(m) || writes_by_float(m)
        || writes_by_vector(m) || writes_by_maybe(m) {
        true
    } else if is(m, "fscsr") || is(m, "fsrm") || is(m, "fsflags") {
        has_comma(operands)
    } else {
        false
    }
}

/// Whether the operands begin with the register named by two letters.
fn begins_with_register(operands: &String, a: char, b: char) -> (r: bool)
    ensures
        r == names_first(operands@, a, b),
{
    let s = operands.as_str();
    let n = s.unicode_len();
    if n < 2 {
        return false;
    }
    if s.get_char(0) != a || s.get_char(1) != b {
        return false;
    }
    n == 2 || s.get_char(2) == ','
}

/// The register that the operands name first.
pub fn destination(operands: &String) -> (r: RvRegister)
    ensures
        r == first_register(operands@),
{
    if begins_with_register(operands, 's', 'p') {
        RvRegister::StackPointer
    } else if begins_with_register(operands, 's', '0') {
        RvRegister::FramePointer
    } else {
        RvRegister::Other
    }
}

/// What the decoder returned, as a mathematical value.
pub open spec fn view_of(decoded: Option<RvDecoded>) -> Option<RvDecodedView> {
    match decoded {
        Some(d) => Some(d@),
        None => None,
    }
}

/// A decoding can be kept as an instruction: the decoder found a legal
/// instruction of 1 to 8 bytes, and `code` holds all of its bytes.
pub open spec fn usable(decoded: Option<RvDecodedView>, code: Seq<u8>) -> bool {
    &&& decoded.is_some()
    &&& !decoded.unwrap().illegal
    &&& 1 <= decoded.unwrap().len <= MAX_RV_LENGTH
    &&& decoded.unwrap().len <= code.len()
}

/// The kind of control flow of an instruction of the given kind.
pub open spec fn flow_of(kind: RvKind) -> FlowControl {
    match kind {
        RvKind::Ret => FlowControl::Return,
        RvKind::IndirectBranch => FlowControl::IndirectBranch,
        RvKind::UnconditionalBranch => FlowControl::UnconditionalBranch,
        RvKind::Ecall => FlowControl::Call,
        RvKind::ConditionalBranch => FlowControl::ConditionalBranch,
        RvKind::RegisterWrite | RvKind::Other => FlowControl::Next,
    }
}

/// One decoded RISC-V instruction: its kind, the register it names first,
/// the bytes that encode it, and where it stands.
#[derive(Debug, Clone, Copy)]
pub struct RVInstruction {
    kind: RvKind,
    first: RvRegister,
    illegal: bool,
    len: usize,
    bitness: Bitness,
    pc: u64,
    bytes: [u8; 8],
}

impl RVInstruction {
    pub closed spec fn spec_kind(&self) -> RvKind {
        self.kind
    }

    /// The register that the instruction names first.
    pub closed spec fn spec_first(&self) -> RvRegister {
        self.first
    }

    pub closed spec fn spec_illegal(&self) -> bool {
        self.illegal
    }

    /// The number of bytes of the encoding as it is kept.
    pub closed spec fn spec_kept_len(&self) -> usize {
        self.len
    }

    /// The register width that the instruction was decoded for.
    pub closed spec fn spec_bitness(&self) -> Bitness {
        self.bitness
    }

    /// The address of the instruction.
    pub closed spec fn spec_pc(&self) -> u64 {
        self.pc
    }

    /// The number of bytes kept as the encoding.
    closed spec fn kept(&self) -> usize {
        if self.len <= 8 {
            self.len
        } else {
            8
        }
    }

    fn kept_len(&self) -> (r: usize)
        ensures
            r == self.kept(),
            r <= 8,
    {
        if self.len <= 8 {
            self.len
        } else {
            8
        }
    }

    /// The instruction that stands for bytes that are no instruction.
    pub fn illegal(bitness: Bitness, pc: u64) -> (r: RVInstruction)
        ensures
            r.wf(),
            r.spec_illegal(),
            r.spec_kind() == RvKind::Other,
            r.spec_first() == RvRegister::Other,
            r.spec_bitness() == bitness,
            r.spec_pc() == pc,
            r.encoding() == Seq::<u8>::empty(),
    {
        let r = RVInstruction {
            kind: RvKind::Other,
            first: RvRegister::Other,
            illegal: true,
            len: 0,
            bitness,
            pc,
            bytes: [0u8; 8],
        };
        assert(r.encoding() =~= Seq::<u8>::empty());
        r
    }

    /// The instruction made of a decoding and of the bytes that were
    /// decoded. A decoding that is not usable gives the illegal instruction.
    pub fn new(decoded: Option<RvDecoded>, bitness: Bitness, pc: u64, code: &[u8]) -> (r:
        RVInstruction)
        ensures
            r.wf(),
            r.spec_bitness() == bitness,
            r.spec_pc() == pc,
            usable(view_of(decoded), code@) ==> {
                let d = decoded.unwrap();
                &&& !r.spec_illegal()
                &&& r.spec_len() == d.len
                &&& r.spec_kind() == kind_of(d.mnemonic@, d.operands@)
                &&& r.spec_first() == first_register(d.operands@)
                &&& r.encoding() == code@.subrange(0, d.len as int)
            },
            !usable(view_of(decoded), code@) ==> {
                &&& r.spec_illegal()
                &&& r.spec_len() == 0
                &&& r.spec_kind() == RvKind::Other
                &&& r.spec_first() == RvRegister::Other
                &&& r.encoding() == Seq::<u8>::empty()
            },
    {
        let d = match decoded {
            Some(d) => d,
            None => {
                return RVInstruction::illegal(bitness, pc);
            },
        };
        if d.illegal || d.len == 0 || d.len > MAX_RV_LENGTH || d.len > code.len() {
            return RVInstruction::illegal(bitness, pc);
        }
        let len = d.len;
        let mut bytes: [u8; 8] = [0u8; 8];
        let mut i: usize = 0;
        while i < len
            invariant
                i <= len <= 8,
                len <= code@.len(),
                bytes@.len() == 8,
                forall|j: int| 0 <= j < i ==> bytes@[j] == code@[j],
                forall|j: int| i <= j < 8 ==> bytes@[j] == 0,
            decreases len - i,
        {
            bytes[i] = code[i];
            i = i + 1;
        }
        let r = RVInstruction {
            kind: classify(&d.mnemonic, &d.operands),
            first: destination(&d.operands),
            illegal: false,
            len,
            bitness,
            pc,
            bytes,
        };
        assert(r.encoding() =~= code@.subrange(0, d.len as int));
        r
    }

    /// The instruction writes `target`: it puts its result in its first
    /// operand, and that operand is this register.
    pub open spec fn spec_modifies_reg(&self, target: RvRegister) -> bool {
        self.spec_kind() == RvKind::RegisterWrite && self.spec_first() == target
    }

    /// Whether the instruction writes `target`.
    pub fn modifies_reg(&self, target: RvRegister) -> (r: bool)
        ensures
            r == self.spec_modifies_reg(target),
    {
        match self.kind {
            RvKind::RegisterWrite => self.first == target,
            _ => false,
        }
    }

    /// How the instruction passes control on.
    pub fn flow_control(&self) -> (r: FlowControl)
        ensures
            r == self.spec_flow_control(),
    {
        match self.kind {
            RvKind::Ret => FlowControl::Return,
            RvKind::IndirectBranch => FlowControl::IndirectBranch,
            RvKind::UnconditionalBranch => FlowControl::UnconditionalBranch,
            RvKind::Ecall => FlowControl::Call,
            RvKind::ConditionalBranch => FlowControl::ConditionalBranch,
            _ => FlowControl::Next,
        }
    }

    /// The address of the instruction.
    pub fn pc(&self) -> (r: u64)
        ensures
            r == self.spec_pc(),
    {
        self.pc
    }
}

impl Default for RVInstruction {
    /// The illegal instruction at address 0.
    fn default() -> (r: RVInstruction)
        ensures
            r.wf(),
            r.spec_illegal(),
            r.spec_pc() == 0,
            r.encoding() == Seq::<u8>::empty(),
    {
        RVInstruction::illegal(Bitness::Bits64, 0)
    }
}

impl ROPInstruction for RVInstruction {
    closed spec fn wf(&self) -> bool {
        &&& self.illegal ==> self.len == 0 && self.kind == RvKind::Other && self.first
            == RvRegister::Other
        &&& !self.illegal ==> 1 <= self.len <= MAX_RV_LENGTH
        &&& forall|j: int| self.len <= j < 8 ==> self.bytes@[j] == 0
    }

    open spec fn spec_len(&self) -> nat {
        if self.spec_illegal() {
            0
        } else {
            self.spec_kept_len() as nat
        }
    }

    open spec fn spec_flow_control(&self) -> FlowControl {
        flow_of(self.spec_kind())
    }

    open spec fn spec_is_ret(&self) -> bool {
        self.spec_kind() == RvKind::Ret
    }

    open spec fn spec_is_sys(&self) -> bool {
        self.spec_kind() == RvKind::Ecall
    }

    open spec fn spec_is_jop(&self, noisy: bool) -> bool {
        match self.spec_flow_control() {
            FlowControl::IndirectBranch => true,
            FlowControl::UnconditionalBranch => noisy,
            _ => false,
        }
    }

    open spec fn spec_is_invalid(&self) -> bool {
        self.spec_illegal()
    }

    open spec fn spec_is_rop_gadget_head(&self, noisy: bool) -> bool {
        &&& !self.spec_is_invalid()
        &&& match self.spec_flow_control() {
            FlowControl::Next | FlowControl::Interrupt | FlowControl::Call => true,
            FlowControl::ConditionalBranch => noisy,
            _ => false,
        }
    }

    open spec fn spec_is_stack_pivot_head(&self) -> bool {
        self.spec_modifies_reg(RvRegister::StackPointer)
    }

    open spec fn spec_is_base_pivot_head(&self) -> bool {
        self.spec_modifies_reg(RvRegister::FramePointer)
    }

    closed spec fn encoding(&self) -> Seq<u8> {
        self.bytes@.subrange(0, self.kept() as int)
    }

    open spec fn spec_text(&self) -> Seq<char> {
        rv_text(self.spec_bitness(), self.spec_pc(), self.encoding())
    }

    proof fn lemma_length(&self) {
    }

    proof fn lemma_rules(&self) {
    }

    fn len(&self) -> (r: usize) {
        if self.illegal {
            0
        } else {
            self.len
        }
    }

    fn is_ret(&self) -> (r: bool) {
        self.kind == RvKind::Ret
    }

    fn is_sys(&self) -> (r: bool) {
        self.kind == RvKind::Ecall
    }

    fn is_jop(&self, noisy: bool) -> (r: bool) {
        match self.flow_control() {
            FlowControl::IndirectBranch => true,
            FlowControl::UnconditionalBranch => noisy,
            _ => false,
        }
    }

    fn is_invalid(&self) -> (r: bool) {
        self.illegal
    }

    fn is_gadget_tail(&self, rop: bool, sys: bool, jop: bool, noisy: bool) -> (r: bool) {
        if self.is_invalid() {
            return false;
        }
        if self.flow_control() == FlowControl::Next {
            return false;
        }
        if rop && self.is_ret() {
            return true;
        }
        if sys && self.is_sys() {
            return true;
        }
        if jop && self.is_jop(noisy) {
            return true;
        }
        false
    }

    fn is_rop_gadget_head(&self, noisy: bool) -> (r: bool) {
        if self.is_invalid() {
            return false;
        }
        match self.flow_control() {
            FlowControl::Next | FlowControl::Interrupt | FlowControl::Call => true,
            FlowControl::ConditionalBranch => noisy,
            _ => false,
        }
    }

    fn is_stack_pivot_head(&self) -> (r: bool) {
        self.modifies_reg(RvRegister::StackPointer)
    }

    fn is_stack_pivot_tail(&self) -> (r: bool) {
        self.is_ret()
    }

    fn is_base_pivot_head(&self) -> (r: bool) {
        self.modifies_reg(RvRegister::FramePointer)
    }

    fn same_encoding(&self, other: &Self) -> (r: bool) {
        let len = self.kept_len();
        if len != other.kept_len() {
            proof {
                assert(self.encoding().len() != other.encoding().len());
            }
            return false;
        }
        let mut i: usize = 0;
        while i < len
            invariant
                i <= len <= 8,
                len == self.kept(),
                len == other.kept(),
                forall|j: int| 0 <= j < i ==> self.bytes@[j] == other.bytes@[j],
            decreases len - i,
        {
            if self.bytes[i] != other.bytes[i] {
                proof {
                    assert(self.encoding()[i as int] != other.encoding()[i as int]);
                }
                return false;
            }
            i = i + 1;
        }
        assert(self.encoding() =~= other.encoding());
        true
    }

    fn code_bytes(&self) -> (r: Vec<u8>) {
        let len = self.kept_len();
        let mut out: Vec<u8> = Vec::new();
        let mut i: usize = 0;
        while i < len
            invariant
                i <= len <= 8,
                len == self.kept(),
                out@ == self.bytes@.subrange(0, i as int),
            decreases len - i,
        {
            out.push(self.bytes[i]);
            assert(out@ =~= self.bytes@.subrange(0, i + 1));
            i = i + 1;
        }
        out
    }

    fn format(&self) -> (r: String) {
        let len = self.kept_len();
        let code = vstd::slice::slice_subrange(self.bytes.as_slice(), 0, len);
        format_instruction(self.bitness, self.pc, code)
    }
}

} // verus!
