//! What the search for gadgets finds in a dense index, stated over the
//! offsets of the index.
use vstd::prelude::*;
use crate::disassembler::{is_tail, window_start, ROPInstruction, MAX_INSTRUCTION_LENGTH};
use crate::dedup::{firsts, lemma_firsts};
use crate::gadgets::{chain, encodings, unique_id_of, GadgetView};

verus! {

/// What to look for.
#[derive(Debug, Clone, Copy, PartialEq, Eq, Structural)]
pub struct Options {
    /// Gadgets that end in a return.
    pub rop: bool,
    /// Gadgets that end in a call of the system.
    pub sys: bool,
    /// Gadgets that end in a jump or call through a register or memory.
    pub jop: bool,
    /// Take weaker gadgets too: prefixed and conditional instructions as
    /// heads, direct far jumps as tails.
    pub noisy: bool,
    /// The largest number of instructions of a gadget, its last one counted.
    pub max_instructions: usize,
    /// Gadgets with the same instructions count as one gadget, wherever
    /// they start.
    pub uniq: bool,
}

impl Options {
    /// The number of heads that a gadget may have.
    pub open spec fn budget(self) -> nat {
        (self.max_instructions - 1) as nat
    }
}

/// A gadget starts at the offset `s` and ends with the instruction at the
/// offset `t`: that instruction is a tail, `s` is near enough, and a chain
/// of heads leads from `s` to `t`.
pub open spec fn found_at<T: ROPInstruction>(
    instructions: Seq<T>,
    o: Options,
    t: int,
    s: int,
) -> bool {
    &&& 0 <= t < instructions.len()
    &&& is_tail(instructions[t], o.rop, o.sys, o.jop, o.noisy)
    &&& window_start(t, o.max_instructions as int) <= s <= t
    &&& chain(instructions, s, t, o.budget(), o.noisy).is_some()
}

/// The gadget that starts at `s` and ends at `t`, with its address, in a
/// region whose first byte has the address `base`.
pub open spec fn gadget_of<T: ROPInstruction>(
    instructions: Seq<T>,
    base: int,
    o: Options,
    t: int,
    s: int,
) -> (GadgetView<T>, usize) {
    let address = (base + s) as usize;
    (
        GadgetView {
            instructions: chain(instructions, s, t, o.budget(), o.noisy).unwrap().push(
                instructions[t],
            ),
            unique_id: unique_id_of(o.uniq, address),
        },
        address,
    )
}

/// The search finds `x`, a gadget with its address.
pub open spec fn finds<T: ROPInstruction>(
    instructions: Seq<T>,
    base: int,
    o: Options,
    x: (GadgetView<T>, usize),
) -> bool {
    exists|t: int, s: int|
        found_at(instructions, o, t, s) && x == gadget_of(instructions, base, o, t, s)
}

/// The search finds `x` as a gadget whose last instruction stands before the
/// offset `limit`.
pub open spec fn finds_below<T: ROPInstruction>(
    instructions: Seq<T>,
    base: int,
    o: Options,
    x: (GadgetView<T>, usize),
    limit: int,
) -> bool {
    exists|t: int, s: int|
        t < limit && found_at(instructions, o, t, s) && x == gadget_of(instructions, base, o, t, s)
}

/// The number of bytes that a run of instructions takes.
pub open spec fn total_len<T: ROPInstruction>(instructions: Seq<T>) -> nat
    decreases instructions.len(),
{
    if instructions.len() == 0 {
        0
    } else {
        instructions[0].spec_len() + total_len(instructions.drop_first())
    }
}

/// The same options in noisy mode.
pub open spec fn noisy(o: Options) -> Options {
    Options { noisy: true, ..o }
}

/// The same options with another bound on the number of instructions.
pub open spec fn with_max(o: Options, max_instructions: usize) -> Options {
    Options { max_instructions, ..o }
}

/// A chain holds heads only, no more of them than the budget allows. They
/// take exactly the bytes between the two offsets, and each of them is the
/// instruction of the index at the offset where the one before it ends.
pub proof fn lemma_chain<T: ROPInstruction>(
    instructions: Seq<T>,
    index: int,
    to: int,
    budget: nat,
    noisy: bool,
)
    requires
        chain(instructions, index, to, budget, noisy).is_some(),
    ensures
        ({
            let c = chain(instructions, index, to, budget, noisy).unwrap();
            &&& c.len() <= budget
            &&& index <= to
            &&& total_len(c) == to - index
            &&& forall|j: int| 0 <= j < c.len() ==> (#[trigger] c[j]).spec_is_rop_gadget_head(noisy)
            &&& forall|j: int|
                #![trigger c.subrange(0, j)]
                0 <= j < c.len() ==> 0 <= index + total_len(c.subrange(0, j)) < instructions.len()
                    && c[j] == instructions[index + total_len(c.subrange(0, j))]
        }),
    decreases budget,
{
    let c = chain(instructions, index, to, budget, noisy).unwrap();
    if index != to {
        let first = instructions[index];
        let next = index + first.spec_len();
        let inner = chain(instructions, next, to, (budget - 1) as nat, noisy);
        assert(inner.is_some());
        lemma_chain(instructions, next, to, (budget - 1) as nat, noisy);
        let rest = inner.unwrap();
        assert(c == seq![first] + rest);
        assert(c.drop_first() =~= rest);
        assert(c[0] == first);
        assert forall|j: int| 0 <= j < c.len() implies (#[trigger] c[j]).spec_is_rop_gadget_head(
            noisy,
        ) by {
            if j > 0 {
                assert(c[j] == rest[j - 1]);
            }
        }
        assert forall|j: int| #![trigger c.subrange(0, j)] 0 <= j < c.len() implies 0 <= index
            + total_len(c.subrange(0, j)) < instructions.len() && c[j] == instructions[index
            + total_len(c.subrange(0, j))] by {
            let part = c.subrange(0, j);
            if j == 0 {
                assert(part =~= Seq::<T>::empty());
                assert(total_len(part) == 0);
            } else {
                assert(part.drop_first() =~= rest.subrange(0, j - 1));
                assert(part[0] == first);
                assert(total_len(part) == first.spec_len() + total_len(part.drop_first()));
                assert(c[j] == rest[j - 1]);
            }
        }
    } else {
        assert(c =~= Seq::<T>::empty());
    }
}

/// The heads `c` stand one behind the other from the offset `s` up to the
/// offset `t`: each is the instruction of the index at the offset where the
/// one before it ends, each is a head of one byte at least, and together
/// they take the bytes from `s` to `t`.
pub open spec fn stands_between<T: ROPInstruction>(
    instructions: Seq<T>,
    c: Seq<T>,
    s: int,
    t: int,
    noisy: bool,
) -> bool {
    &&& 0 <= s
    &&& t <= instructions.len()
    &&& total_len(c) == t - s
    &&& forall|j: int|
        #![trigger c.subrange(0, j)]
        0 <= j < c.len() ==> {
            let at = s + total_len(c.subrange(0, j));
            &&& 0 <= at < instructions.len()
            &&& c[j] == instructions[at]
            &&& c[j].spec_is_rop_gadget_head(noisy)
            &&& c[j].spec_len() >= 1
        }
}

/// Every run of heads that stands between two offsets and is within the
/// budget is the chain between them: the search misses none.
pub proof fn lemma_walk_is_chain<T: ROPInstruction>(
    instructions: Seq<T>,
    c: Seq<T>,
    s: int,
    t: int,
    budget: nat,
    noisy: bool,
)
    requires
        stands_between(instructions, c, s, t, noisy),
        c.len() <= budget,
    ensures
        chain(instructions, s, t, budget, noisy) == Some(c),
    decreases c.len(),
{
    if c.len() == 0 {
        assert(c =~= Seq::<T>::empty());
    } else {
        let first = c[0];
        let rest = c.drop_first();
        let next = s + first.spec_len();
        assert(c.subrange(0, 0) =~= Seq::<T>::empty());
        assert(total_len(c.subrange(0, 0)) == 0);
        assert(first == instructions[s]);
        assert forall|j: int| #![trigger rest.subrange(0, j)] 0 <= j < rest.len() implies {
            let at = next + total_len(rest.subrange(0, j));
            &&& 0 <= at < instructions.len()
            &&& rest[j] == instructions[at]
            &&& rest[j].spec_is_rop_gadget_head(noisy)
            &&& rest[j].spec_len() >= 1
        } by {
            let part = c.subrange(0, j + 1);
            assert(part.drop_first() =~= rest.subrange(0, j));
            assert(part[0] == first);
            assert(total_len(part) == first.spec_len() + total_len(part.drop_first()));
            assert(rest[j] == c[j + 1]);
        }
        lemma_walk_is_chain(instructions, rest, next, t, (budget - 1) as nat, noisy);
        assert(seq![first] + rest =~= c);
    }
}

/// A chain found in quiet mode is found in noisy mode too.
pub proof fn lemma_chain_noisy<T: ROPInstruction>(
    instructions: Seq<T>,
    index: int,
    to: int,
    budget: nat,
)
    requires
        chain(instructions, index, to, budget, false).is_some(),
    ensures
        chain(instructions, index, to, budget, true) == chain(
            instructions,
            index,
            to,
            budget,
            false,
        ),
    decreases budget,
{
    if index != to {
        let first = instructions[index];
        first.lemma_rules();
        lemma_chain_noisy(instructions, index + first.spec_len(), to, (budget - 1) as nat);
    }
}

/// A chain found with one budget is found with every larger one.
pub proof fn lemma_chain_budget<T: ROPInstruction>(
    instructions: Seq<T>,
    index: int,
    to: int,
    budget: nat,
    larger: nat,
    noisy: bool,
)
    requires
        chain(instructions, index, to, budget, noisy).is_some(),
        budget <= larger,
    ensures
        chain(instructions, index, to, larger, noisy) == chain(
            instructions,
            index,
            to,
            budget,
            noisy,
        ),
    decreases budget,
{
    if index != to {
        let first = instructions[index];
        lemma_chain_budget(
            instructions,
            index + first.spec_len(),
            to,
            (budget - 1) as nat,
            (larger - 1) as nat,
            noisy,
        );
    }
}

/// A run of instructions of a decoder takes 15 bytes for each instruction at
/// most.
pub proof fn lemma_total_len_bound<T: ROPInstruction>(instructions: Seq<T>)
    requires
        forall|j: int| 0 <= j < instructions.len() ==> (#[trigger] instructions[j]).wf(),
    ensures
        total_len(instructions) <= MAX_INSTRUCTION_LENGTH * instructions.len(),
    decreases instructions.len(),
{
    if instructions.len() > 0 {
        instructions[0].lemma_length();
        let rest = instructions.drop_first();
        assert forall|j: int| 0 <= j < rest.len() implies (#[trigger] rest[j]).wf() by {
            assert(rest[j] == instructions[j + 1]);
        }
        lemma_total_len_bound(rest);
    }
}

/// A gadget with its address is found at one place only: where the
/// addresses of the region fit in a `usize`, two places that give the same
/// gadget and address are the same place.
pub proof fn lemma_one_gadget_one_place<T: ROPInstruction>(
    instructions: Seq<T>,
    base: int,
    o: Options,
    t: int,
    s: int,
    t2: int,
    s2: int,
)
    requires
        0 <= base,
        base + instructions.len() <= usize::MAX,
        0 <= s,
        0 <= s2,
        found_at(instructions, o, t, s),
        found_at(instructions, o, t2, s2),
        gadget_of(instructions, base, o, t, s) == gadget_of(instructions, base, o, t2, s2),
    ensures
        t == t2,
        s == s2,
{
    lemma_chain(instructions, s, t, o.budget(), o.noisy);
    lemma_chain(instructions, s2, t2, o.budget(), o.noisy);
    let c = chain(instructions, s, t, o.budget(), o.noisy).unwrap();
    let c2 = chain(instructions, s2, t2, o.budget(), o.noisy).unwrap();
    assert(c.push(instructions[t]).drop_last() =~= c);
    assert(c2.push(instructions[t2]).drop_last() =~= c2);
}

/// The last instruction of a gadget that the search finds may end a gadget
/// of one of the kinds asked for, and every instruction before it is a head.
pub proof fn lemma_found_ends_in_tail<T: ROPInstruction>(
    instructions: Seq<T>,
    base: int,
    o: Options,
    x: (GadgetView<T>, usize),
)
    requires
        finds(instructions, base, o, x),
    ensures
        x.0.instructions.len() >= 1,
        is_tail(x.0.instructions.last(), o.rop, o.sys, o.jop, o.noisy),
        forall|j: int|
            0 <= j < x.0.instructions.len() - 1 ==> (
            #[trigger] x.0.instructions[j]).spec_is_rop_gadget_head(o.noisy),
{
    let (t, s) = choose|t: int, s: int|
        found_at(instructions, o, t, s) && x == gadget_of(instructions, base, o, t, s);
    lemma_chain(instructions, s, t, o.budget(), o.noisy);
}

/// The instructions of a found gadget stand one behind the other: those
/// before the last take exactly the bytes between the gadget's start and its
/// last instruction, and each is the instruction of the index at its place.
/// The gadget has one instruction at least and no more than were asked for.
pub proof fn lemma_found_is_adjacent<T: ROPInstruction>(
    instructions: Seq<T>,
    base: int,
    o: Options,
    t: int,
    s: int,
)
    requires
        found_at(instructions, o, t, s),
        o.max_instructions >= 1,
    ensures
        ({
            let g = gadget_of(instructions, base, o, t, s).0.instructions;
            let heads = g.drop_last();
            &&& 1 <= g.len() <= o.max_instructions
            &&& total_len(heads) == t - s
            &&& g.last() == instructions[t]
            &&& forall|j: int|
                #![trigger heads.subrange(0, j)]
                0 <= j < heads.len() ==> 0 <= s + total_len(heads.subrange(0, j))
                    < instructions.len() && heads[j] == instructions[s + total_len(
                    heads.subrange(0, j),
                )]
        }),
{
    lemma_chain(instructions, s, t, o.budget(), o.noisy);
    let c = chain(instructions, s, t, o.budget(), o.noisy).unwrap();
    assert(c.push(instructions[t]).drop_last() =~= c);
}

/// For every instruction that may end a gadget, the search finds the gadget
/// that is this instruction alone, at the instruction's address.
pub proof fn lemma_tail_alone_is_found<T: ROPInstruction>(
    instructions: Seq<T>,
    base: int,
    o: Options,
    t: int,
)
    requires
        0 <= t < instructions.len(),
        is_tail(instructions[t], o.rop, o.sys, o.jop, o.noisy),
        o.max_instructions >= 1,
    ensures
        finds(
            instructions,
            base,
            o,
            (
                GadgetView {
                    instructions: seq![instructions[t]],
                    unique_id: unique_id_of(o.uniq, (base + t) as usize),
                },
                (base + t) as usize,
            ),
        ),
{
    assert(found_at(instructions, o, t, t));
    assert(Seq::<T>::empty().push(instructions[t]) =~= seq![instructions[t]]);
}

/// Where gadgets with the same instructions count as one, two found gadgets
/// whose instructions have the same encodings are the same gadget.
pub proof fn lemma_uniq_by_instructions<T: ROPInstruction>(
    instructions: Seq<T>,
    base: int,
    o: Options,
    x: (GadgetView<T>, usize),
    y: (GadgetView<T>, usize),
)
    requires
        o.uniq,
        finds(instructions, base, o, x),
        finds(instructions, base, o, y),
        encodings(x.0.instructions) == encodings(y.0.instructions),
    ensures
        x.0.identity() == y.0.identity(),
{
}

/// Where gadgets with the same instructions count as one, no two of the
/// found gadgets that are kept have instructions with the same encodings.
pub proof fn lemma_uniq_keeps_one_of_each<T: ROPInstruction>(
    instructions: Seq<T>,
    base: int,
    o: Options,
    found: Seq<(GadgetView<T>, usize)>,
)
    requires
        o.uniq,
        forall|i: int| 0 <= i < found.len() ==> #[trigger] finds(instructions, base, o, found[i]),
    ensures
        forall|i: int, j: int|
            0 <= i < j < firsts(found).len() ==> encodings(
                (#[trigger] firsts(found)[i]).0.instructions,
            ) != encodings((#[trigger] firsts(found)[j]).0.instructions),
{
    lemma_firsts(found);
    let kept = firsts(found);
    assert forall|i: int, j: int| 0 <= i < j < kept.len() implies encodings(
        (#[trigger] kept[i]).0.instructions,
    ) != encodings((#[trigger] kept[j]).0.instructions) by {
        assert(found.contains(kept[i]));
        assert(found.contains(kept[j]));
        let a = choose|a: int| 0 <= a < found.len() && found[a] == kept[i];
        let b = choose|b: int| 0 <= b < found.len() && found[b] == kept[j];
        assert(finds(instructions, base, o, found[a]));
        assert(finds(instructions, base, o, found[b]));
        if encodings(kept[i].0.instructions) == encodings(kept[j].0.instructions) {
            lemma_uniq_by_instructions(instructions, base, o, kept[i], kept[j]);
        }
    }
}

/// Where gadgets are told apart by address, two found gadgets with
/// different addresses are different gadgets, whatever their instructions.
pub proof fn lemma_distinct_by_address<T: ROPInstruction>(
    instructions: Seq<T>,
    base: int,
    o: Options,
    x: (GadgetView<T>, usize),
    y: (GadgetView<T>, usize),
)
    requires
        !o.uniq,
        finds(instructions, base, o, x),
        finds(instructions, base, o, y),
        x.1 != y.1,
    ensures
        x.0.identity() != y.0.identity(),
{
}

/// With no kind of gadget asked for, the search finds nothing.
pub proof fn lemma_nothing_asked_nothing_found<T: ROPInstruction>(
    instructions: Seq<T>,
    base: int,
    o: Options,
    x: (GadgetView<T>, usize),
)
    requires
        !o.rop,
        !o.sys,
        !o.jop,
    ensures
        !finds(instructions, base, o, x),
{
    if finds(instructions, base, o, x) {
        let (t, s) = choose|t: int, s: int|
            found_at(instructions, o, t, s) && x == gadget_of(instructions, base, o, t, s);
        assert(!is_tail(instructions[t], o.rop, o.sys, o.jop, o.noisy));
    }
}

/// Whatever the search finds in quiet mode, it finds in noisy mode.
pub proof fn lemma_noisy_finds_more<T: ROPInstruction>(
    instructions: Seq<T>,
    base: int,
    o: Options,
    x: (GadgetView<T>, usize),
)
    requires
        finds(instructions, base, o, x),
    ensures
        finds(instructions, base, noisy(o), x),
{
    let (t, s) = choose|t: int, s: int|
        found_at(instructions, o, t, s) && x == gadget_of(instructions, base, o, t, s);
    instructions[t].lemma_rules();
    if !o.noisy {
        lemma_chain_noisy(instructions, s, t, o.budget());
    }
    assert(noisy(o).budget() == o.budget());
    assert(is_tail(instructions[t], o.rop, o.sys, o.jop, true));
    assert(chain(instructions, s, t, o.budget(), true) == chain(
        instructions,
        s,
        t,
        o.budget(),
        o.noisy,
    ));
    assert(found_at(instructions, noisy(o), t, s));
    assert(x == gadget_of(instructions, base, noisy(o), t, s));
}

/// Whatever the search finds with one bound on the number of instructions,
/// it finds with every larger bound.
pub proof fn lemma_longer_finds_more<T: ROPInstruction>(
    instructions: Seq<T>,
    base: int,
    o: Options,
    larger: usize,
    x: (GadgetView<T>, usize),
)
    requires
        finds(instructions, base, o, x),
        1 <= o.max_instructions <= larger,
    ensures
        finds(instructions, base, with_max(o, larger), x),
{
    let (t, s) = choose|t: int, s: int|
        found_at(instructions, o, t, s) && x == gadget_of(instructions, base, o, t, s);
    let p = with_max(o, larger);
    lemma_chain_budget(instructions, s, t, o.budget(), p.budget(), o.noisy);
    assert(found_at(instructions, p, t, s));
    assert(x == gadget_of(instructions, base, p, t, s));
}

/// Two runs of the search on the same index with the same options find the
/// same gadgets, in whatever order each of them lists what it found.
pub proof fn lemma_same_search_same_gadgets<T: ROPInstruction>(
    instructions: Seq<T>,
    base: int,
    o: Options,
    first: Seq<(GadgetView<T>, usize)>,
    second: Seq<(GadgetView<T>, usize)>,
)
    requires
        forall|i: int| 0 <= i < first.len() ==> #[trigger] finds(instructions, base, o, first[i]),
        forall|x: (GadgetView<T>, usize)| #[trigger]
            finds(instructions, base, o, x) ==> first.contains(x),
        forall|i: int|
            0 <= i < second.len() ==> #[trigger] finds(instructions, base, o, second[i]),
        forall|x: (GadgetView<T>, usize)| #[trigger]
            finds(instructions, base, o, x) ==> second.contains(x),
    ensures
        forall|x: (GadgetView<T>, usize)| first.contains(x) <==> second.contains(x),
{
    assert forall|x: (GadgetView<T>, usize)| first.contains(x) <==> second.contains(x) by {
        if first.contains(x) {
            let i = choose|i: int| 0 <= i < first.len() && first[i] == x;
            assert(finds(instructions, base, o, first[i]));
        }
        if second.contains(x) {
            let i = choose|i: int| 0 <= i < second.len() && second[i] == x;
            assert(finds(instructions, base, o, second[i]));
        }
    }
}

/// The search looks far enough back: where every instruction is one of a
/// decoder, a chain of heads within the budget that leads to an offset
/// starts inside the window that the search walks through.
pub proof fn lemma_window_holds_every_chain<T: ROPInstruction>(
    instructions: Seq<T>,
    o: Options,
    t: int,
    s: int,
)
    requires
        forall|j: int| 0 <= j < instructions.len() ==> (#[trigger] instructions[j]).wf(),
        o.max_instructions >= 1,
        0 <= s,
        chain(instructions, s, t, o.budget(), o.noisy).is_some(),
    ensures
        window_start(t, o.max_instructions as int) <= s <= t,
{
    lemma_chain(instructions, s, t, o.budget(), o.noisy);
    let c = chain(instructions, s, t, o.budget(), o.noisy).unwrap();
    assert forall|j: int| 0 <= j < c.len() implies (#[trigger] c[j]).wf() by {
        let part = c.subrange(0, j);
        assert(c[j] == instructions[s + total_len(part)]);
    }
    lemma_total_len_bound(c);
    assert(MAX_INSTRUCTION_LENGTH * c.len() <= MAX_INSTRUCTION_LENGTH * o.budget())
        by (nonlinear_arith)
        requires
            c.len() <= o.budget(),
    ;
}

} // verus!
