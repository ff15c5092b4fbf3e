//! Decoded instructions as the gadget search sees them, and the dense index
//! that holds one decoding for every byte of a region.
use vstd::prelude::*;
use crate::binary::Section;
use crate::disassembler::search::{
    finds, finds_below, found_at, gadget_of, lemma_one_gadget_one_place, Options,
};
use crate::gadgets::{lemma_chain_shift, views, Gadget, GadgetIterator, GadgetView};

pub mod search;
pub mod riscv;
pub mod x86;

verus! {

/// The longest encoding of one x86 instruction, in bytes. No instruction of
/// either instruction set is longer.
pub const MAX_INSTRUCTION_LENGTH: usize = 15;

/// How an instruction passes control on.
#[derive(Debug, Clone, Copy, PartialEq, Eq, Structural)]
pub enum FlowControl {
    /// Execution goes on with the next instruction.
    Next,
    /// A jump to a fixed target.
    UnconditionalBranch,
    /// A jump to a target taken from a register or from memory.
    IndirectBranch,
    /// A jump that is taken under a condition.
    ConditionalBranch,
    /// A return.
    Return,
    /// A call of a fixed target or of the system.
    Call,
    /// A call of a target taken from a register or from memory.
    IndirectCall,
    /// A software interrupt.
    Interrupt,
    /// The start, abort or end of a transaction.
    XbeginXabortXend,
    /// An instruction that always faults.
    Exception,
}

/// The rule for the last instruction of a gadget: it is valid, it does not
/// pass control to the next instruction, and it is a return, a call of the
/// system or a jump of a kind that was asked for.
pub open spec fn tail_rule(
    invalid: bool,
    flow: FlowControl,
    wanted_ret: bool,
    wanted_sys: bool,
    wanted_jop: bool,
) -> bool {
    !invalid && flow != FlowControl::Next && (wanted_ret || wanted_sys || wanted_jop)
}

/// What the gadget search asks of a decoded instruction. Both instruction
/// sets answer these questions in their own way.
pub trait ROPInstruction: Sized + Copy {
    /// The value is one that a decoder of this library produces.
    spec fn wf(&self) -> bool;

    /// The number of bytes that the instruction takes, 0 for an invalid one.
    spec fn spec_len(&self) -> nat;

    spec fn spec_flow_control(&self) -> FlowControl;

    /// The instruction is a return.
    spec fn spec_is_ret(&self) -> bool;

    /// The instruction enters or leaves the system.
    spec fn spec_is_sys(&self) -> bool;

    /// The instruction is a jump or call that can end a jump-oriented gadget.
    spec fn spec_is_jop(&self, noisy: bool) -> bool;

    /// The decoder rejected the bytes.
    spec fn spec_is_invalid(&self) -> bool;

    /// The instruction may stand in a gadget before its last instruction.
    spec fn spec_is_rop_gadget_head(&self, noisy: bool) -> bool;

    /// The instruction writes the stack pointer in a way that moves the stack.
    spec fn spec_is_stack_pivot_head(&self) -> bool;

    /// The instruction writes the frame pointer.
    spec fn spec_is_base_pivot_head(&self) -> bool;

    /// The bytes that encode the instruction. Two instructions are the same
    /// instruction exactly if these are equal.
    spec fn encoding(&self) -> Seq<u8>;

    /// The instruction in assembly syntax.
    spec fn spec_text(&self) -> Seq<char>;

    /// An instruction is invalid exactly if it has no length, none has more
    /// than 15 bytes, and the length is the number of bytes of the encoding.
    proof fn lemma_length(&self)
        requires
            self.wf(),
        ensures
            self.spec_is_invalid() <==> self.spec_len() == 0,
            self.spec_len() <= MAX_INSTRUCTION_LENGTH,
            self.encoding().len() == self.spec_len(),
    ;

    /// An invalid instruction is no head. Whatever is a head or a jump in
    /// quiet mode is one in noisy mode too.
    proof fn lemma_rules(&self)
        ensures
            self.spec_is_invalid() ==> !self.spec_is_rop_gadget_head(true),
            self.spec_is_rop_gadget_head(false) ==> self.spec_is_rop_gadget_head(true),
            self.spec_is_jop(false) ==> self.spec_is_jop(true),
    ;

    fn len(&self) -> (r: usize)
        ensures
            r == self.spec_len(),
    ;

    fn is_ret(&self) -> (r: bool)
        ensures
            r == self.spec_is_ret(),
    ;

    fn is_sys(&self) -> (r: bool)
        ensures
            r == self.spec_is_sys(),
    ;

    fn is_jop(&self, noisy: bool) -> (r: bool)
        ensures
            r == self.spec_is_jop(noisy),
    ;

    fn is_invalid(&self) -> (r: bool)
        ensures
            r == self.spec_is_invalid(),
    ;

    /// Whether the instruction may end a gadget of one of the kinds asked for.
    fn is_gadget_tail(&self, rop: bool, sys: bool, jop: bool, noisy: bool) -> (r: bool)
        ensures
            r == tail_rule(
                self.spec_is_invalid(),
                self.spec_flow_control(),
                rop && self.spec_is_ret(),
                sys && self.spec_is_sys(),
                jop && self.spec_is_jop(noisy),
            ),
    ;

    fn is_rop_gadget_head(&self, noisy: bool) -> (r: bool)
        ensures
            r == self.spec_is_rop_gadget_head(noisy),
    ;

    fn is_stack_pivot_head(&self) -> (r: bool)
        ensures
            r == self.spec_is_stack_pivot_head(),
    ;

    /// Whether the instruction, as the only one of a gadget, moves the stack:
    /// a return does.
    fn is_stack_pivot_tail(&self) -> (r: bool)
        ensures
            r == self.spec_is_ret(),
    ;

    fn is_base_pivot_head(&self) -> (r: bool)
        ensures
            r == self.spec_is_base_pivot_head(),
    ;

    /// Whether two instructions have the same encoding.
    fn same_encoding(&self, other: &Self) -> (r: bool)
        ensures
            r == (self.encoding() == other.encoding()),
    ;

    /// The bytes that encode the instruction.
    fn code_bytes(&self) -> (r: Vec<u8>)
        ensures
            r@ == self.encoding(),
    ;

    /// The instruction in assembly syntax.
    fn format(&self) -> (r: String)
        ensures
            r@ == self.spec_text(),
    ;
}

/// The instruction may end a gadget of one of the kinds asked for.
pub open spec fn is_tail<T: ROPInstruction>(
    i: T,
    rop: bool,
    sys: bool,
    jop: bool,
    noisy: bool,
) -> bool {
    tail_rule(
        i.spec_is_invalid(),
        i.spec_flow_control(),
        rop && i.spec_is_ret(),
        sys && i.spec_is_sys(),
        jop && i.spec_is_jop(noisy),
    )
}

/// The first offset from which a gadget of at most `max_instructions`
/// instructions can reach the offset `tail_index`: every instruction before
/// the last has 15 bytes at most.
pub open spec fn window_start(tail_index: int, max_instructions: int) -> int {
    let reach = (max_instructions - 1) * MAX_INSTRUCTION_LENGTH;
    if reach >= tail_index {
        0
    } else {
        tail_index - reach
    }
}

/// The dense index of a region: for every byte, the instruction that starts
/// there.
pub struct Disassembly<'b, T: ROPInstruction> {
    section: &'b Section<'b>,
    bytes: &'b [u8],
    instructions: Vec<T>,
    file_offset: usize,
}

impl<'b, T: ROPInstruction> Disassembly<'b, T> {
    /// The region that was decoded.
    pub closed spec fn spec_section(&self) -> Section<'b> {
        *self.section
    }

    /// The decoded instructions, one for each byte of the region.
    pub closed spec fn spec_instructions(&self) -> Seq<T> {
        self.instructions@
    }

    pub closed spec fn spec_bytes(&self) -> Seq<u8> {
        self.bytes@
    }

    pub closed spec fn spec_file_offset(&self) -> usize {
        self.file_offset
    }

    /// The index has one instruction for each byte of a region whose
    /// addresses fit in a `usize`.
    pub open spec fn wf(&self) -> bool {
        &&& self.spec_section().wf()
        &&& self.spec_bytes() == self.spec_section().spec_bytes()
        &&& self.spec_instructions().len() == self.spec_bytes().len()
        &&& self.spec_file_offset() == self.spec_section().start_address()
    }

    /// The index of a region from the instructions at its offsets, or `None`
    /// where there is not one instruction for each byte.
    pub fn new(section: &'b Section<'b>, instructions: Vec<T>) -> (r: Option<Self>)
        requires
            section.wf(),
        ensures
            r.is_some() <==> instructions@.len() == section.spec_bytes().len(),
            r.is_some() ==> {
                let d = r.unwrap();
                &&& d.wf()
                &&& d.spec_section() == *section
                &&& d.spec_instructions() == instructions@
            },
    {
        let bytes = section.bytes();
        if instructions.len() != bytes.len() {
            return None;
        }
        proof {
            section.lemma_address();
        }
        let file_offset = section.program_base() + section.section_vaddr();
        Some(Disassembly { section, bytes, instructions, file_offset })
    }

    /// The bytes of the region.
    pub fn bytes(&self) -> (r: &[u8])
        ensures
            r@ == self.spec_bytes(),
    {
        self.bytes
    }

    /// The number of instructions, which is the number of bytes.
    pub fn len(&self) -> (r: usize)
        ensures
            r == self.spec_instructions().len(),
    {
        self.instructions.len()
    }

    /// The address of the region's first byte.
    pub fn file_offset(&self) -> (r: usize)
        ensures
            r == self.spec_file_offset(),
    {
        self.file_offset
    }

    /// The instruction that starts at the offset `index`.
    pub fn instruction(&self, index: usize) -> (r: Option<&T>)
        ensures
            index < self.spec_instructions().len() ==> r == Some(
                &self.spec_instructions()[index as int],
            ),
            index >= self.spec_instructions().len() ==> r.is_none(),
    {
        if index < self.instructions.len() {
            Some(&self.instructions[index])
        } else {
            None
        }
    }

    /// Whether the instruction at the offset `index` may end a gadget of one
    /// of the kinds asked for.
    pub fn is_tail_at(&self, index: usize, rop: bool, sys: bool, jop: bool, noisy: bool) -> (r:
        bool)
        requires
            index < self.spec_instructions().len(),
        ensures
            r == is_tail(self.spec_instructions()[index as int], rop, sys, jop, noisy),
    {
        self.instructions[index].is_gadget_tail(rop, sys, jop, noisy)
    }

    /// The gadgets of at most `max_instructions` instructions that end in the
    /// instruction at `tail_index`, ready to be handed out.
    pub fn gadgets_from_tail(
        &self,
        tail_index: usize,
        max_instructions: usize,
        noisy: bool,
        uniq: bool,
    ) -> (r: GadgetIterator<'_, T>)
        requires
            self.wf(),
            tail_index < self.spec_instructions().len(),
            max_instructions > 0,
        ensures
            r.wf(),
            r.spec_section_start() == self.spec_file_offset(),
            r.spec_tail() == self.spec_instructions()[tail_index as int],
            r.remaining() == self.spec_instructions().subrange(
                window_start(tail_index as int, max_instructions as int),
                tail_index as int,
            ),
            r.spec_max_instructions() == max_instructions,
            r.spec_noisy() == noisy,
            r.spec_uniq() == uniq,
            r.spec_start_index() == window_start(tail_index as int, max_instructions as int),
            !r.spec_finished(),
    {
        let heads = max_instructions - 1;
        let start_index = if heads > tail_index / MAX_INSTRUCTION_LENGTH {
            0
        } else {
            tail_index - heads * MAX_INSTRUCTION_LENGTH
        };
        let predecessors = vstd::slice::slice_subrange(
            self.instructions.as_slice(),
            start_index,
            tail_index,
        );
        let tail_instruction = self.instructions[tail_index];
        proof {
            self.section.lemma_address();
        }
        GadgetIterator::new(
            self.section.program_base() + self.section.section_vaddr(),
            tail_instruction,
            predecessors,
            max_instructions,
            noisy,
            uniq,
            start_index,
        )
    }

    /// The offsets of the instructions that may end a gadget of one of the
    /// kinds asked for, in rising order.
    pub fn tails(&self, rop: bool, sys: bool, jop: bool, noisy: bool) -> (r: Vec<usize>)
        ensures
            forall|i: int|
                0 <= i < r@.len() ==> r@[i] < self.spec_instructions().len()
                    && is_tail(self.spec_instructions()[#[trigger] r@[i] as int], rop,
                    sys,
                    jop,
                    noisy),
            forall|i: int, j: int| 0 <= i < j < r@.len() ==> r@[i] < r@[j],
            forall|t: int|
                0 <= t < self.spec_instructions().len() && is_tail((
                #[trigger] self.spec_instructions()[t]), rop, sys, jop, noisy)
                    ==> r@.contains(t as usize),
    {
        let n = self.instructions.len();
        let mut out: Vec<usize> = Vec::new();
        let mut t: usize = 0;
        while t < n
            invariant
                t <= n,
                n == self.instructions@.len(),
                forall|i: int|
                    0 <= i < out@.len() ==> out@[i] < t && is_tail(self.instructions@[#[trigger] out@[i] as int], rop, sys, jop, noisy),
                forall|i: int, j: int| 0 <= i < j < out@.len() ==> out@[i] < out@[j],
                forall|u: int|
                    0 <= u < t && is_tail((#[trigger] self.instructions@[u]), rop,
                        sys,
                        jop,
                        noisy) ==> out@.contains(u as usize),
            decreases n - t,
        {
            if self.instructions[t].is_gadget_tail(rop, sys, jop, noisy) {
                let ghost before = out@;
                out.push(t);
                proof {
                    assert forall|u: int|
                        0 <= u < t + 1 && is_tail((#[trigger] self.instructions@[u]), rop,
                            sys,
                            jop,
                            noisy) implies out@.contains(u as usize) by {
                        if u < t {
                            let i = choose|i: int| 0 <= i < before.len() && before[i] == u as usize;
                            assert(out@[i] == u as usize);
                        } else {
                            assert(out@[before.len() as int] == u as usize);
                        }
                    }
                }
            }
            t = t + 1;
        }
        out
    }

    /// All the gadgets of the region: for every instruction that may end
    /// one, the gadgets that `gadgets_from_tail` hands out.
    pub fn gadgets(&self, o: Options) -> (r: Vec<(Gadget<T>, usize)>)
        requires
            self.wf(),
            o.max_instructions >= 1,
        ensures
            forall|i: int|
                0 <= i < r@.len() ==> #[trigger] finds(
                    self.spec_instructions(),
                    self.spec_file_offset() as int,
                    o,
                    views(r@)[i],
                ),
            forall|x: (GadgetView<T>, usize)| #[trigger]
                finds(self.spec_instructions(), self.spec_file_offset() as int, o, x) ==> views(
                    r@,
                ).contains(x),
            forall|i: int, j: int| 0 <= i < j < r@.len() ==> views(r@)[i] != views(r@)[j],
    {
        proof {
            self.section.lemma_address();
        }
        let n = self.instructions.len();
        let ghost all = self.instructions@;
        let ghost base = self.file_offset as int;
        let mut out: Vec<(Gadget<T>, usize)> = Vec::new();
        let mut t: usize = 0;
        while t < n
            invariant
                t <= n,
                n == all.len(),
                all == self.instructions@,
                base == self.file_offset as int,
                self.wf(),
                o.max_instructions >= 1,
                base + n <= usize::MAX,
                forall|i: int|
                    0 <= i < out@.len() ==> #[trigger] finds_below(
                        all,
                        base,
                        o,
                        views(out@)[i],
                        t as int,
                    ),
                forall|i: int, j: int| 0 <= i < j < out@.len() ==> views(out@)[i] != views(out@)[j],
                forall|u: int, s: int|
                    0 <= u < t && #[trigger] found_at(all, o, u, s) ==> views(out@).contains(
                        gadget_of(all, base, o, u, s),
                    ),
            decreases n - t,
        {
            if self.instructions[t].is_gadget_tail(o.rop, o.sys, o.jop, o.noisy) {
                let mut search = self.gadgets_from_tail(t, o.max_instructions, o.noisy, o.uniq);
                let ghost start = window_start(t as int, o.max_instructions as int);
                let ghost initial = search;
                let mut found = search.collect();
                let ghost before = out@;
                let ghost added = found@;
                out.append(&mut found);
                proof {
                    assert(out@ == before + added);
                    assert forall|i: int| 0 <= i < before.len() implies views(out@)[i] == views(
                        before,
                    )[i] by {}
                    assert forall|i: int| 0 <= i < added.len() implies views(out@)[before.len() + i]
                        == views(added)[i] by {}
                    assert forall|k: int| 0 <= k <= t - start implies (initial.hands_out(k)
                        <==> #[trigger] found_at(all, o, t as int, start + k)) && (initial.hands_out(
                        k,
                    ) ==> initial.item(k) == gadget_of(all, base, o, t as int, start + k)) by {
                        lemma_chain_shift(all, start, t as int, k, o.budget(), o.noisy);
                    }
                    assert forall|i: int| 0 <= i < out@.len() implies #[trigger] finds_below(
                        all,
                        base,
                        o,
                        views(out@)[i],
                        t + 1,
                    ) by {
                        if i < before.len() {
                            assert(finds_below(all, base, o, views(before)[i], t as int));
                            let (u, s) = choose|u: int, s: int|
                                u < t && found_at(all, o, u, s) && views(before)[i] == gadget_of(
                                    all,
                                    base,
                                    o,
                                    u,
                                    s,
                                );
                            assert(u < t + 1 && found_at(all, o, u, s));
                        } else {
                            let x = views(added)[i - before.len()];
                            assert(initial.yields(x));
                            let k = choose|k: int| initial.hands_out(k) && x == initial.item(k);
                            assert(found_at(all, o, t as int, start + k));
                        }
                    }
                    assert forall|i: int, j: int| 0 <= i < j < out@.len() implies views(out@)[i]
                        != views(out@)[j] by {
                        if j < before.len() {
                            assert(views(before)[i] != views(before)[j]);
                        } else if i >= before.len() {
                            assert(added[i - before.len()].1 < added[j - before.len()].1);
                        } else {
                            assert(finds_below(all, base, o, views(before)[i], t as int));
                            let (u, s) = choose|u: int, s: int|
                                u < t && found_at(all, o, u, s) && views(before)[i] == gadget_of(
                                    all,
                                    base,
                                    o,
                                    u,
                                    s,
                                );
                            let x = views(added)[j - before.len()];
                            assert(initial.yields(x));
                            let k = choose|k: int| initial.hands_out(k) && x == initial.item(k);
                            assert(found_at(all, o, t as int, start + k));
                            if views(out@)[i] == views(out@)[j] {
                                lemma_one_gadget_one_place(all, base, o, u, s, t as int, start + k);
                            }
                        }
                    }
                    assert forall|u: int, s: int|
                        0 <= u < t + 1 && #[trigger] found_at(all, o, u, s) implies views(
                        out@,
                    ).contains(gadget_of(all, base, o, u, s)) by {
                        let x = gadget_of(all, base, o, u, s);
                        if u < t {
                            assert(views(before).contains(x));
                            let i = choose|i: int| 0 <= i < before.len() && views(before)[i] == x;
                            assert(views(out@)[i] == x);
                        } else {
                            let k = s - start;
                            assert(found_at(all, o, t as int, start + k));
                            assert(initial.hands_out(k));
                            assert(initial.yields(x));
                            assert(views(added).contains(x));
                            let i = choose|i: int| 0 <= i < added.len() && views(added)[i] == x;
                            assert(views(out@)[before.len() + i] == x);
                        }
                    }
                }
            } else {
                assert forall|i: int| 0 <= i < out@.len() implies #[trigger] finds_below(
                    all,
                    base,
                    o,
                    views(out@)[i],
                    t + 1,
                ) by {
                    assert(finds_below(all, base, o, views(out@)[i], t as int));
                    let (u, s) = choose|u: int, s: int|
                        u < t && found_at(all, o, u, s) && views(out@)[i] == gadget_of(
                            all,
                            base,
                            o,
                            u,
                            s,
                        );
                    assert(u < t + 1 && found_at(all, o, u, s));
                }
            }
            t = t + 1;
        }
        proof {
            assert forall|i: int| 0 <= i < out@.len() implies #[trigger] finds(
                all,
                base,
                o,
                views(out@)[i],
            ) by {
                assert(finds_below(all, base, o, views(out@)[i], t as int));
            }
            assert forall|x: (GadgetView<T>, usize)| #[trigger]
                finds(all, base, o, x) implies views(out@).contains(x) by {
                let (u, s) = choose|u: int, s: int|
                    found_at(all, o, u, s) && x == gadget_of(all, base, o, u, s);
                assert(found_at(all, o, u, s));
            }
        }
        out
    }
}

} // verus!
