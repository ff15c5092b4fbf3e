//! Keeping each gadget once.
use vstd::prelude::*;
use std::collections::HashMap;
use crate::disassembler::ROPInstruction;
use crate::gadgets::{encodings, views, Gadget, GadgetView};

verus! {

broadcast use vstd::std_specs::hash::group_hash_axioms;

/// A gadget that is the same gadget as `x` stands among the first `upto` of
/// `found`.
pub open spec fn seen_before<T: ROPInstruction>(
    found: Seq<(GadgetView<T>, usize)>,
    upto: int,
    x: (GadgetView<T>, usize),
) -> bool {
    exists|k: int| 0 <= k < upto && (#[trigger] found[k]).0.identity() == x.0.identity()
}

/// The gadgets of `found` with each gadget kept once, at its first place.
pub open spec fn firsts<T: ROPInstruction>(found: Seq<(GadgetView<T>, usize)>) -> Seq<
    (GadgetView<T>, usize),
>
    decreases found.len(),
{
    if found.len() == 0 {
        Seq::empty()
    } else {
        let before = firsts(found.drop_last());
        if seen_before(found, found.len() - 1, found.last()) {
            before
        } else {
            before.push(found.last())
        }
    }
}

/// What `firsts` keeps: gadgets of `found` only, no gadget twice, and for
/// every gadget of `found` one that is the same gadget.
pub proof fn lemma_firsts<T: ROPInstruction>(found: Seq<(GadgetView<T>, usize)>)
    ensures
        forall|i: int|
            0 <= i < firsts(found).len() ==> found.contains(#[trigger] firsts(found)[i]),
        forall|i: int, j: int|
            0 <= i < j < firsts(found).len() ==> (#[trigger] firsts(found)[i]).0.identity() != (
            #[trigger] firsts(found)[j]).0.identity(),
        forall|j: int|
            0 <= j < found.len() ==> seen_before(
                firsts(found),
                firsts(found).len() as int,
                #[trigger] found[j],
            ),
    decreases found.len(),
{
    if found.len() > 0 {
        let shorter = found.drop_last();
        let before = firsts(shorter);
        let last = found.last();
        let kept = firsts(found);
        lemma_firsts(shorter);
        assert forall|i: int| 0 <= i < kept.len() implies found.contains(#[trigger] kept[i]) by {
            if i < before.len() {
                assert(shorter.contains(before[i]));
                let k = choose|k: int| 0 <= k < shorter.len() && shorter[k] == before[i];
                assert(found[k] == kept[i]);
            } else {
                assert(found[found.len() - 1] == kept[i]);
            }
        }
        assert forall|j: int| 0 <= j < found.len() implies seen_before(
            kept,
            kept.len() as int,
            #[trigger] found[j],
        ) by {
            if j < shorter.len() {
                assert(found[j] == shorter[j]);
                assert(seen_before(before, before.len() as int, shorter[j]));
                let i = choose|i: int|
                    0 <= i < before.len() && (#[trigger] before[i]).0.identity()
                        == shorter[j].0.identity();
                assert(kept[i].0.identity() == found[j].0.identity());
            } else if seen_before(found, found.len() - 1, last) {
                let k = choose|k: int|
                    0 <= k < found.len() - 1 && (#[trigger] found[k]).0.identity()
                        == last.0.identity();
                assert(found[k] == shorter[k]);
                assert(seen_before(before, before.len() as int, shorter[k]));
                let i = choose|i: int|
                    0 <= i < before.len() && (#[trigger] before[i]).0.identity()
                        == shorter[k].0.identity();
                assert(kept[i].0.identity() == found[j].0.identity());
            } else {
                assert(kept[kept.len() - 1].0.identity() == found[j].0.identity());
            }
        }
        assert forall|i: int, j: int| 0 <= i < j < kept.len() implies (#[trigger] kept[i]).0.identity()
            != (#[trigger] kept[j]).0.identity() by {
            if j >= before.len() {
                assert(shorter.contains(before[i]));
                let k = choose|k: int| 0 <= k < shorter.len() && shorter[k] == before[i];
                assert(found[k] == before[i]);
            }
        }
    }
}

/// The modulus that keeps the mixing of two numbers within 64 bits.
pub const MIX_MODULUS: u64 = 0x0400_0000_0000_0000;

/// A number made of two numbers.
pub open spec fn mix(h: u64, x: u64) -> u64 {
    ((h % MIX_MODULUS) * 31 + (x % MIX_MODULUS)) as u64
}

/// A number made of a number and of bytes, in their order.
pub open spec fn mix_bytes(h: u64, bytes: Seq<u8>) -> u64
    decreases bytes.len(),
{
    if bytes.len() == 0 {
        h
    } else {
        mix(mix_bytes(h, bytes.drop_last()), bytes.last() as u64)
    }
}

/// A number made of a number and of encodings, in their order.
pub open spec fn mix_encodings(h: u64, all: Seq<Seq<u8>>) -> u64
    decreases all.len(),
{
    if all.len() == 0 {
        h
    } else {
        mix_bytes(mix(mix_encodings(h, all.drop_last()), all.last().len() as u64), all.last())
    }
}

/// A number for what makes a gadget the gadget it is. The same gadget has
/// the same number; different gadgets mostly have different ones.
pub open spec fn fingerprint_of(identity: (Seq<Seq<u8>>, usize)) -> u64 {
    mix_encodings(identity.1 as u64, identity.0)
}

fn mix_in(h: u64, x: u64) -> (r: u64)
    ensures
        r == mix(h, x),
{
    (h % MIX_MODULUS) * 31 + (x % MIX_MODULUS)
}

/// The number of a gadget: see `fingerprint_of`.
pub fn fingerprint<T: ROPInstruction>(gadget: &Gadget<T>) -> (r: u64)
    ensures
        r == fingerprint_of(gadget@.identity()),
{
    let instructions = gadget.instructions();
    let ghost all = encodings(gadget@.instructions);
    let n = instructions.len();
    let mut h: u64 = gadget.unique_id() as u64;
    let mut j: usize = 0;
    assert(all.subrange(0, 0) =~= Seq::<Seq<u8>>::empty());
    while j < n
        invariant
            j <= n,
            n == instructions@.len(),
            instructions@ == gadget@.instructions,
            all == encodings(gadget@.instructions),
            h == mix_encodings(gadget@.unique_id as u64, all.subrange(0, j as int)),
        decreases n - j,
    {
        let bytes = instructions[j].code_bytes();
        let ghost upto = all.subrange(0, j + 1);
        proof {
            assert(upto.drop_last() =~= all.subrange(0, j as int));
            assert(upto.last() == bytes@);
        }
        h = mix_in(h, bytes.len() as u64);
        let ghost start = h;
        let mut k: usize = 0;
        assert(bytes@.subrange(0, 0) =~= Seq::<u8>::empty());
        while k < bytes.len()
            invariant
                k <= bytes@.len(),
                h == mix_bytes(start, bytes@.subrange(0, k as int)),
            decreases bytes@.len() - k,
        {
            assert(bytes@.subrange(0, k + 1).drop_last() =~= bytes@.subrange(0, k as int));
            h = mix_in(h, bytes[k] as u64);
            k = k + 1;
        }
        assert(bytes@.subrange(0, bytes@.len() as int) =~= bytes@);
        j = j + 1;
    }
    assert(all.subrange(0, n as int) =~= all);
    h
}

/// The number of the gadget at the place `i`.
pub open spec fn number_at<T: ROPInstruction>(kept: Seq<(GadgetView<T>, usize)>, i: int) -> u64 {
    fingerprint_of(kept[i].0.identity())
}

/// The table lists every kept gadget under its number, and nothing but
/// places of kept gadgets.
pub open spec fn lists_all<T: ROPInstruction>(
    table: Map<u64, Vec<usize>>,
    kept: Seq<(GadgetView<T>, usize)>,
) -> bool {
    &&& forall|i: int|
        0 <= i < kept.len() ==> table.contains_key(#[trigger] number_at(kept, i)) && table[number_at(
            kept,
            i,
        )]@.contains(i as usize)
    &&& forall|key: u64, p: int|
        table.contains_key(key) && 0 <= p < table[key]@.len() ==> (#[trigger] table[key]@[p])
            < kept.len()
}

/// The gadgets of `found` with each gadget kept once, at its first place:
/// what is left when every gadget is dropped that is the same gadget as one
/// before it.
pub fn distinct<T: ROPInstruction>(found: &Vec<(Gadget<T>, usize)>) -> (r: Vec<(Gadget<T>, usize)>)
    ensures
        views(r@) == firsts(views(found@)),
{
    let n = found.len();
    let mut out: Vec<(Gadget<T>, usize)> = Vec::new();
    let mut table: HashMap<u64, Vec<usize>> = HashMap::new();
    let mut j: usize = 0;
    assert(views(found@).subrange(0, 0) =~= Seq::<(GadgetView<T>, usize)>::empty());
    assert(views(out@) =~= Seq::<(GadgetView<T>, usize)>::empty());
    while j < n
        invariant
            n == found@.len(),
            j <= n,
            views(out@) == firsts(views(found@).subrange(0, j as int)),
            lists_all(table@, views(out@)),
        decreases n - j,
    {
        let ghost all = views(found@);
        let ghost upto = all.subrange(0, j + 1);
        let ghost shorter = all.subrange(0, j as int);
        let ghost kept = views(out@);
        proof {
            assert(upto.drop_last() =~= shorter);
            assert(upto.last() == all[j as int]);
            lemma_firsts(shorter);
        }
        let number = fingerprint(&found[j].0);
        let mut places = match table.remove(&number) {
            Some(places) => places,
            None => Vec::new(),
        };
        let ghost rest = table@;
        assert(forall|i: int|
            0 <= i < kept.len() && #[trigger] number_at(kept, i) == number ==> places@.contains(
                i as usize,
            ));
        let mut known = false;
        let mut p: usize = 0;
        while p < places.len() && !known
            invariant
                p <= places@.len(),
                j < n,
                n == found@.len(),
                all == views(found@),
                kept == views(out@),
                forall|q: int| 0 <= q < places@.len() ==> (#[trigger] places@[q]) < out@.len(),
                known ==> seen_before(kept, kept.len() as int, all[j as int]),
                !known ==> forall|q: int|
                    0 <= q < p ==> kept[(#[trigger] places@[q]) as int].0.identity()
                        != all[j as int].0.identity(),
            decreases places@.len() - p + (if known { 0int } else { 1int }),
        {
            let i = places[p];
            if out[i].0.same(&found[j].0) {
                known = true;
                assert(kept[i as int].0.identity() == all[j as int].0.identity());
            } else {
                p = p + 1;
            }
        }
        proof {
            if !known && seen_before(kept, kept.len() as int, all[j as int]) {
                let i = choose|i: int|
                    0 <= i < kept.len() && (#[trigger] kept[i]).0.identity() == all[j as int].0.identity();
                assert(number_at(kept, i) == number);
                assert(places@.contains(i as usize));
                let q = choose|q: int| 0 <= q < places@.len() && places@[q] == i as usize;
                assert(kept[places@[q] as int].0.identity() != all[j as int].0.identity());
            }
            if seen_before(kept, kept.len() as int, all[j as int]) {
                let i = choose|i: int|
                    0 <= i < kept.len() && (#[trigger] kept[i]).0.identity() == all[j as int].0.identity();
                assert(shorter.contains(kept[i]));
                let k = choose|k: int| 0 <= k < shorter.len() && shorter[k] == kept[i];
                assert(upto[k] == kept[i]);
                assert(seen_before(upto, upto.len() - 1, upto.last()));
            } else if seen_before(upto, upto.len() - 1, upto.last()) {
                let k = choose|k: int|
                    0 <= k < upto.len() - 1 && (#[trigger] upto[k]).0.identity()
                        == upto.last().0.identity();
                assert(shorter[k] == upto[k]);
                assert(seen_before(kept, kept.len() as int, shorter[k]));
                let i = choose|i: int|
                    0 <= i < kept.len() && (#[trigger] kept[i]).0.identity()
                        == shorter[k].0.identity();
                assert(kept[i].0.identity() == all[j as int].0.identity());
            }
        }
        if !known {
            let ghost before = places@;
            places.push(out.len());
            out.push((found[j].0.clone(), found[j].1));
            proof {
                assert(views(out@) =~= kept.push(all[j as int]));
                assert forall|q: int| 0 <= q < places@.len() implies (#[trigger] places@[q])
                    < out@.len() by {
                    if q < before.len() {
                        assert(places@[q] == before[q]);
                    }
                }
                assert(places@[before.len() as int] == kept.len());
                assert forall|i: int|
                    0 <= i < views(out@).len() && #[trigger] number_at(views(out@), i)
                        == number implies places@.contains(i as usize) by {
                    if i < kept.len() {
                        assert(number_at(kept, i) == number);
                        let q = choose|q: int| 0 <= q < before.len() && before[q] == i as usize;
                        assert(places@[q] == i as usize);
                    }
                }
            }
        }
        let ghost next = views(out@);
        proof {
            assert forall|i: int| 0 <= i < next.len() && #[trigger] number_at(next, i)
                != number implies rest.contains_key(number_at(next, i)) && rest[number_at(
                next,
                i,
            )]@.contains(i as usize) by {
                assert(i < kept.len());
                assert(number_at(kept, i) == number_at(next, i));
            }
        }
        table.insert(number, places);
        proof {
            assert forall|i: int| 0 <= i < next.len() implies table@.contains_key(
                #[trigger] number_at(next, i),
            ) && table@[number_at(next, i)]@.contains(i as usize) by {
                if number_at(next, i) != number {
                    assert(rest.contains_key(number_at(next, i)));
                }
            }
            assert forall|key: u64, q: int|
                table@.contains_key(key) && 0 <= q < table@[key]@.len() implies (
            #[trigger] table@[key]@[q]) < next.len() by {
                if key != number {
                    assert(rest.contains_key(key));
                    assert(rest[key]@[q] < kept.len());
                }
            }
        }
        j = j + 1;
    }
    assert(views(found@).subrange(0, n as int) =~= views(found@));
    out
}

} // verus!
