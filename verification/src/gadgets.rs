//! Gadgets, and the enumeration of the gadgets that end in one instruction.
use vstd::prelude::*;
use crate::disassembler::ROPInstruction;

verus! {

/// A gadget as a mathematical value: its instructions in order, and the
/// number that tells it from gadgets with the same instructions.
pub ghost struct GadgetView<T> {
    pub instructions: Seq<T>,
    pub unique_id: usize,
}

/// A run of instructions that ends in one that passes control on to a place
/// of the attacker's choosing.
#[derive(Debug)]
pub struct Gadget<T: ROPInstruction> {
    instructions: Vec<T>,
    unique_id: usize,
}

impl<T: ROPInstruction> View for Gadget<T> {
    type V = GadgetView<T>;

    closed spec fn view(&self) -> GadgetView<T> {
        GadgetView { instructions: self.instructions@, unique_id: self.unique_id }
    }
}

/// The encodings of a run of instructions, one after the other.
pub open spec fn encodings<T: ROPInstruction>(instructions: Seq<T>) -> Seq<Seq<u8>> {
    Seq::new(instructions.len(), |i: int| instructions[i].encoding())
}

/// The text of a run of instructions: each instruction is followed by a
/// semicolon, and a space stands between two of them.
pub open spec fn text_of<T: ROPInstruction>(instructions: Seq<T>) -> Seq<char>
    decreases instructions.len(),
{
    if instructions.len() == 0 {
        Seq::empty()
    } else if instructions.len() == 1 {
        instructions[0].spec_text().push(';')
    } else {
        text_of(instructions.drop_last()).push(' ') + instructions.last().spec_text().push(';')
    }
}

/// The digit for a number below 16, in base 16 and lower case.
pub open spec fn hex_digit(n: int) -> Seq<char> {
    if n == 0 {
        "0"@
    } else if n == 1 {
        "1"@
    } else if n == 2 {
        "2"@
    } else if n == 3 {
        "3"@
    } else if n == 4 {
        "4"@
    } else if n == 5 {
        "5"@
    } else if n == 6 {
        "6"@
    } else if n == 7 {
        "7"@
    } else if n == 8 {
        "8"@
    } else if n == 9 {
        "9"@
    } else if n == 10 {
        "a"@
    } else if n == 11 {
        "b"@
    } else if n == 12 {
        "c"@
    } else if n == 13 {
        "d"@
    } else if n == 14 {
        "e"@
    } else {
        "f"@
    }
}

/// The last `digits` digits of `x` in base 16, the most significant first.
pub open spec fn hex(x: int, digits: nat) -> Seq<char>
    decreases digits,
{
    if digits == 0 {
        Seq::empty()
    } else {
        hex(x / 16, (digits - 1) as nat) + hex_digit(x % 16)
    }
}

/// 16 to the power of `n`.
pub open spec fn pow16(n: nat) -> int
    decreases n,
{
    if n == 0 {
        1
    } else {
        16 * pow16((n - 1) as nat)
    }
}

/// One digit more is the digit of the next place put in front.
pub proof fn lemma_hex_grows(x: int, digits: nat)
    requires
        0 <= x,
    ensures
        pow16(digits) >= 1,
        hex(x, digits + 1) == hex_digit((x / pow16(digits)) % 16) + hex(x, digits),
    decreases digits,
{
    if digits == 0 {
        assert(hex(x / 16, 0) =~= Seq::<char>::empty());
        assert(hex(x, 1) =~= hex_digit(x % 16));
        assert(hex_digit(x % 16) + hex(x, 0) =~= hex_digit(x % 16));
    } else {
        let d = (digits - 1) as nat;
        lemma_hex_grows(x / 16, d);
        assert((x / 16) / pow16(d) == x / pow16(digits)) by (nonlinear_arith)
            requires
                0 <= x,
                pow16(d) >= 1,
                pow16(digits) == 16 * pow16(d),
        ;
        assert(hex(x, digits + 1) == hex(x / 16, digits) + hex_digit(x % 16));
        assert(hex(x / 16, digits) == hex_digit(((x / 16) / pow16(d)) % 16) + hex(x / 16, d));
        assert((hex_digit((x / pow16(digits)) % 16) + hex(x / 16, d)) + hex_digit(x % 16)
            =~= hex_digit((x / pow16(digits)) % 16) + (hex(x / 16, d) + hex_digit(x % 16)));
    }
}

/// The line that shows a gadget: its address in 16 digits of base 16 behind
/// `0x`, a colon and a space, and the gadget's text.
pub open spec fn line_of<T: ROPInstruction>(address: usize, instructions: Seq<T>) -> Seq<char> {
    "0x"@ + hex(address as int, 16) + ": "@ + text_of(instructions)
}

/// The digit for a number below 16.
fn digit(n: u64) -> (r: &'static str)
    requires
        n < 16,
    ensures
        r@ == hex_digit(n as int),
{
    if n == 0 {
        "0"
    } else if n == 1 {
        "1"
    } else if n == 2 {
        "2"
    } else if n == 3 {
        "3"
    } else if n == 4 {
        "4"
    } else if n == 5 {
        "5"
    } else if n == 6 {
        "6"
    } else if n == 7 {
        "7"
    } else if n == 8 {
        "8"
    } else if n == 9 {
        "9"
    } else if n == 10 {
        "a"
    } else if n == 11 {
        "b"
    } else if n == 12 {
        "c"
    } else if n == 13 {
        "d"
    } else if n == 14 {
        "e"
    } else {
        "f"
    }
}

/// An address in 16 digits of base 16.
pub fn hex_address(address: usize) -> (r: String)
    ensures
        r@ == hex(address as int, 16),
{
    let mut text = String::new();
    let mut rest: u64 = address as u64;
    let mut done: usize = 0;
    assert(hex(address as int, 0) =~= Seq::<char>::empty());
    while done < 16
        invariant
            done <= 16,
            pow16(done as nat) >= 1,
            rest == (address as int) / pow16(done as nat),
            text@ == hex(address as int, done as nat),
        decreases 16 - done,
    {
        proof {
            lemma_hex_grows(address as int, done as nat);
            let p = pow16(done as nat);
            assert(((address as int) / p) / 16 == (address as int) / (16 * p)) by (nonlinear_arith)
                requires
                    0 <= address as int,
                    p >= 1,
            ;
        }
        let front = String::from_str(digit(rest % 16));
        text = front.concat(text.as_str());
        rest = rest / 16;
        done = done + 1;
    }
    text
}

impl<T: ROPInstruction> GadgetView<T> {
    /// What makes two gadgets the same gadget: the encodings of their
    /// instructions and their distinguishing number.
    pub open spec fn identity(self) -> (Seq<Seq<u8>>, usize) {
        (encodings(self.instructions), self.unique_id)
    }

    /// The gadget moves the stack: its only instruction is a return, or one
    /// of the instructions before its last one writes the stack pointer.
    pub open spec fn is_stack_pivot(self) -> bool {
        let i = self.instructions;
        if i.len() == 0 {
            false
        } else if i.len() == 1 {
            i[0].spec_is_ret()
        } else {
            exists|j: int| 0 <= j < i.len() - 1 && #[trigger] i[j].spec_is_stack_pivot_head()
        }
    }

    /// The gadget moves the frame: it has two instructions or more, and one
    /// of those before its last one writes the frame pointer.
    pub open spec fn is_base_pivot(self) -> bool {
        let i = self.instructions;
        i.len() >= 2 && exists|j: int|
            0 <= j < i.len() - 1 && #[trigger] i[j].spec_is_base_pivot_head()
    }
}

impl<T: ROPInstruction> Gadget<T> {
    /// A gadget of the given instructions.
    pub fn new(instructions: Vec<T>, unique_id: usize) -> (r: Gadget<T>)
        ensures
            r@ == (GadgetView { instructions: instructions@, unique_id }),
    {
        Gadget { instructions, unique_id }
    }

    pub fn instructions(&self) -> (r: &[T])
        ensures
            r@ == self@.instructions,
    {
        self.instructions.as_slice()
    }

    /// The start address of the gadget where gadgets are told apart by
    /// address, 0 where they are told apart by their instructions alone.
    pub fn unique_id(&self) -> (r: usize)
        ensures
            r == self@.unique_id,
    {
        self.unique_id
    }

    pub fn is_stack_pivot(&self) -> (r: bool)
        ensures
            r == self@.is_stack_pivot(),
    {
        let n = self.instructions.len();
        if n == 0 {
            return false;
        }
        if n == 1 {
            return self.instructions[0].is_stack_pivot_tail();
        }
        let mut j: usize = 0;
        while j < n - 1
            invariant
                n == self.instructions@.len(),
                n >= 2,
                j <= n - 1,
                forall|k: int| 0 <= k < j ==> !(#[trigger] self.instructions@[k]).spec_is_stack_pivot_head(),
            decreases n - 1 - j,
        {
            if self.instructions[j].is_stack_pivot_head() {
                return true;
            }
            j = j + 1;
        }
        false
    }

    pub fn is_base_pivot(&self) -> (r: bool)
        ensures
            r == self@.is_base_pivot(),
    {
        let n = self.instructions.len();
        if n < 2 {
            return false;
        }
        let mut j: usize = 0;
        while j < n - 1
            invariant
                n == self.instructions@.len(),
                n >= 2,
                j <= n - 1,
                forall|k: int| 0 <= k < j ==> !(#[trigger] self.instructions@[k]).spec_is_base_pivot_head(),
            decreases n - 1 - j,
        {
            if self.instructions[j].is_base_pivot_head() {
                assert(self@.instructions[j as int].spec_is_base_pivot_head());
                return true;
            }
            j = j + 1;
        }
        false
    }

    /// The gadget's text, as in `pop rdi; pop rbp; ret;`.
    pub fn format_instruction(&self) -> (r: String)
        ensures
            r@ == text_of(self@.instructions),
    {
        let mut out = String::new();
        let n = self.instructions.len();
        let mut j: usize = 0;
        while j < n
            invariant
                n == self.instructions@.len(),
                j <= n,
                out@ == text_of(self.instructions@.subrange(0, j as int)),
            decreases n - j,
        {
            let ghost before = self.instructions@.subrange(0, j as int);
            let ghost after = self.instructions@.subrange(0, j + 1);
            proof {
                reveal_strlit(" ");
                reveal_strlit(";");
                assert(after.drop_last() =~= before);
                assert(after.last() == self.instructions@[j as int]);
            }
            if j > 0 {
                out.append(" ");
                assert(out@ =~= text_of(before).push(' '));
            }
            let text = self.instructions[j].format();
            out.append(text.as_str());
            out.append(";");
            assert(out@ =~= text_of(after));
            j = j + 1;
        }
        assert(self.instructions@.subrange(0, n as int) =~= self.instructions@);
        out
    }

    /// The line that shows the gadget at `address`, as in
    /// `0x0000000000401234: pop rdi; ret;`.
    pub fn line(&self, address: usize) -> (r: String)
        ensures
            r@ == line_of(address, self@.instructions),
    {
        let mut out = String::from_str("0x");
        let digits = hex_address(address);
        out.append(digits.as_str());
        out.append(": ");
        let text = self.format_instruction();
        out.append(text.as_str());
        out
    }

    /// Whether two gadgets are the same gadget.
    pub fn same(&self, other: &Gadget<T>) -> (r: bool)
        ensures
            r == (self@.identity() == other@.identity()),
    {
        let n = self.instructions.len();
        if self.unique_id != other.unique_id {
            return false;
        }
        if n != other.instructions.len() {
            assert(encodings(self@.instructions).len() != encodings(other@.instructions).len());
            return false;
        }
        let mut j: usize = 0;
        while j < n
            invariant
                n == self.instructions@.len(),
                n == other.instructions@.len(),
                j <= n,
                forall|k: int|
                    0 <= k < j ==> (#[trigger] self.instructions@[k]).encoding()
                        == other.instructions@[k].encoding(),
            decreases n - j,
        {
            if !self.instructions[j].same_encoding(&other.instructions[j]) {
                assert(encodings(self@.instructions)[j as int] != encodings(
                    other@.instructions,
                )[j as int]);
                return false;
            }
            j = j + 1;
        }
        assert(encodings(self@.instructions) =~= encodings(other@.instructions));
        true
    }
}

/// The heads that lead from the offset `index` up to the offset `to`, each
/// one standing where the one before it ends, and at most `budget` of them.
/// `None` where the instruction at one of these offsets is no head, where the
/// walk steps over `to`, or where it needs more than `budget` instructions.
pub open spec fn chain<T: ROPInstruction>(
    instructions: Seq<T>,
    index: int,
    to: int,
    budget: nat,
    noisy: bool,
) -> Option<Seq<T>>
    decreases budget,
{
    if index == to {
        Some(Seq::empty())
    } else if index < 0 || index > to || to > instructions.len() || budget == 0 {
        None
    } else if !instructions[index].spec_is_rop_gadget_head(noisy) {
        None
    } else {
        match chain(
            instructions,
            index + instructions[index].spec_len(),
            to,
            (budget - 1) as nat,
            noisy,
        ) {
            Some(rest) => Some(seq![instructions[index]] + rest),
            None => None,
        }
    }
}

/// A chain with `prefix` put in front of it.
pub open spec fn extended<T>(prefix: Seq<T>, rest: Option<Seq<T>>) -> Option<Seq<T>> {
    match rest {
        Some(rest) => Some(prefix + rest),
        None => None,
    }
}

/// The first offset at or after `from` from which a chain leads to the end of
/// `window`; the length of `window` where there is none before its end.
pub open spec fn first_start<T: ROPInstruction>(
    window: Seq<T>,
    from: int,
    budget: nat,
    noisy: bool,
) -> int
    decreases window.len() - from,
{
    if from >= window.len() {
        window.len() as int
    } else if chain(window, from, window.len() as int, budget, noisy).is_some() {
        from
    } else {
        first_start(window, from + 1, budget, noisy)
    }
}

/// The number that tells a gadget at `address` from others: nothing where
/// gadgets with the same instructions count as one, else the address.
pub open spec fn unique_id_of(uniq: bool, address: usize) -> usize {
    if uniq {
        0
    } else {
        address
    }
}

/// A chain in a part of a region is the chain between the same two places of
/// the region.
pub proof fn lemma_chain_shift<T: ROPInstruction>(
    instructions: Seq<T>,
    lo: int,
    hi: int,
    j: int,
    budget: nat,
    noisy: bool,
)
    requires
        0 <= lo <= hi <= instructions.len(),
        0 <= j,
    ensures
        chain(instructions.subrange(lo, hi), j, hi - lo, budget, noisy) == chain(
            instructions,
            lo + j,
            hi,
            budget,
            noisy,
        ),
    decreases budget,
{
    let part = instructions.subrange(lo, hi);
    if j < hi - lo && budget > 0 {
        assert(part[j] == instructions[lo + j]);
        lemma_chain_shift(
            instructions,
            lo,
            hi,
            j + part[j].spec_len(),
            (budget - 1) as nat,
            noisy,
        );
    }
}

/// `first_start` gives an offset from which a chain leads to the end of the
/// window, unless it gives the end itself, and there is no such offset
/// between `from` and the one it gives.
pub proof fn lemma_first_start<T: ROPInstruction>(
    window: Seq<T>,
    from: int,
    budget: nat,
    noisy: bool,
)
    requires
        0 <= from <= window.len(),
    ensures
        from <= first_start(window, from, budget, noisy) <= window.len(),
        first_start(window, from, budget, noisy) < window.len() ==> chain(
            window,
            first_start(window, from, budget, noisy),
            window.len() as int,
            budget,
            noisy,
        ).is_some(),
        forall|j: int|
            from <= j < first_start(window, from, budget, noisy) ==> (#[trigger] chain(
                window,
                j,
                window.len() as int,
                budget,
                noisy,
            )).is_none(),
    decreases window.len() - from,
{
    if from < window.len() && chain(window, from, window.len() as int, budget, noisy).is_none() {
        lemma_first_start(window, from + 1, budget, noisy);
    }
}

/// The views of gadgets with their addresses.
pub open spec fn views<T: ROPInstruction>(items: Seq<(Gadget<T>, usize)>) -> Seq<
    (GadgetView<T>, usize),
> {
    Seq::new(items.len(), |i: int| (items[i].0@, items[i].1))
}

/// The gadgets that end in one instruction, handed out one by one: for each
/// offset before it, in rising order, the chain that leads from there to it,
/// where there is one; last the gadget that is this instruction alone.
pub struct GadgetIterator<'d, T: ROPInstruction> {
    section_start: usize,
    tail_instruction: T,
    predecessors: &'d [T],
    max_instructions: usize,
    noisy: bool,
    uniq: bool,
    start_index: usize,
    finished: bool,
}

impl<'d, T: ROPInstruction> GadgetIterator<'d, T> {
    /// The address of the region's first byte.
    pub closed spec fn spec_section_start(&self) -> usize {
        self.section_start
    }

    /// The instruction that every gadget ends in.
    pub closed spec fn spec_tail(&self) -> T {
        self.tail_instruction
    }

    /// The instructions at the offsets that have not been tried yet, up to
    /// the last instruction's own offset.
    pub closed spec fn remaining(&self) -> Seq<T> {
        self.predecessors@
    }

    pub closed spec fn spec_max_instructions(&self) -> usize {
        self.max_instructions
    }

    pub closed spec fn spec_noisy(&self) -> bool {
        self.noisy
    }

    pub closed spec fn spec_uniq(&self) -> bool {
        self.uniq
    }

    /// The offset in the region of the first instruction of `remaining`.
    pub closed spec fn spec_start_index(&self) -> usize {
        self.start_index
    }

    /// The gadget of the last instruction alone has been handed out.
    pub closed spec fn spec_finished(&self) -> bool {
        self.finished
    }

    /// A gadget has one instruction at least, and the address of the last
    /// instruction fits in a `usize`.
    pub open spec fn wf(&self) -> bool {
        &&& self.spec_max_instructions() >= 1
        &&& self.spec_section_start() + self.spec_start_index() + self.remaining().len()
            <= usize::MAX
    }

    /// The number of heads that a gadget may have.
    pub open spec fn budget(&self) -> nat {
        (self.spec_max_instructions() - 1) as nat
    }

    /// Only what is handed out next differs between two states.
    pub open spec fn same_search(&self, other: &Self) -> bool {
        &&& self.spec_section_start() == other.spec_section_start()
        &&& self.spec_tail() == other.spec_tail()
        &&& self.spec_max_instructions() == other.spec_max_instructions()
        &&& self.spec_noisy() == other.spec_noisy()
        &&& self.spec_uniq() == other.spec_uniq()
    }

    /// A gadget starts at the offset `k` of what remains: a chain leads from
    /// there to the last instruction. At the last instruction's own offset
    /// this is the gadget of that instruction alone, once.
    pub open spec fn hands_out(&self, k: int) -> bool {
        &&& 0 <= k <= self.remaining().len()
        &&& chain(
            self.remaining(),
            k,
            self.remaining().len() as int,
            self.budget(),
            self.spec_noisy(),
        ).is_some()
        &&& k < self.remaining().len() || !self.spec_finished()
    }

    /// The search hands out `x`, a gadget with its address.
    pub open spec fn yields(&self, x: (GadgetView<T>, usize)) -> bool {
        exists|k: int| self.hands_out(k) && x == self.item(k)
    }

    /// The gadget that starts at the offset `k` of what remains, with its
    /// address.
    pub open spec fn item(&self, k: int) -> (GadgetView<T>, usize) {
        let address = (self.spec_section_start() + self.spec_start_index() + k) as usize;
        (
            GadgetView {
                instructions: chain(
                    self.remaining(),
                    k,
                    self.remaining().len() as int,
                    self.budget(),
                    self.spec_noisy(),
                ).unwrap().push(self.spec_tail()),
                unique_id: unique_id_of(self.spec_uniq(), address),
            },
            address,
        )
    }

    pub fn new(
        section_start: usize,
        tail_instruction: T,
        predecessors: &'d [T],
        max_instructions: usize,
        noisy: bool,
        uniq: bool,
        start_index: usize,
    ) -> (r: Self)
        requires
            max_instructions >= 1,
            section_start + start_index + predecessors@.len() <= usize::MAX,
        ensures
            r.wf(),
            r.spec_section_start() == section_start,
            r.spec_tail() == tail_instruction,
            r.remaining() == predecessors@,
            r.spec_max_instructions() == max_instructions,
            r.spec_noisy() == noisy,
            r.spec_uniq() == uniq,
            r.spec_start_index() == start_index,
            !r.spec_finished(),
    {
        Self {
            section_start,
            tail_instruction,
            predecessors,
            max_instructions,
            noisy,
            uniq,
            start_index,
            finished: false,
        }
    }

    /// The next gadget with its start address, or `None` when all have been
    /// handed out.
    pub fn next(&mut self) -> (r: Option<(Gadget<T>, usize)>)
        requires
            old(self).wf(),
        ensures
            final(self).wf(),
            final(self).same_search(old(self)),
            ({
                let window = old(self).remaining();
                let k = first_start(window, 0, old(self).budget(), old(self).spec_noisy());
                let address = old(self).spec_section_start() + old(self).spec_start_index() + k;
                if k < window.len() {
                    &&& final(self).remaining() == window.subrange(k + 1, window.len() as int)
                    &&& final(self).spec_start_index() == old(self).spec_start_index() + k + 1
                    &&& final(self).spec_finished() == old(self).spec_finished()
                    &&& r.is_some()
                    &&& r.unwrap().1 == address
                    &&& r.unwrap().0@ == (GadgetView {
                        instructions: chain(
                            window,
                            k,
                            window.len() as int,
                            old(self).budget(),
                            old(self).spec_noisy(),
                        ).unwrap().push(old(self).spec_tail()),
                        unique_id: unique_id_of(old(self).spec_uniq(), address as usize),
                    })
                } else {
                    &&& final(self).remaining() == Seq::<T>::empty()
                    &&& final(self).spec_start_index() == old(self).spec_start_index()
                        + window.len()
                    &&& final(self).spec_finished()
                    &&& old(self).spec_finished() ==> r.is_none()
                    &&& !old(self).spec_finished() ==> {
                        &&& r.is_some()
                        &&& r.unwrap().1 == address
                        &&& r.unwrap().0@ == (GadgetView {
                            instructions: seq![old(self).spec_tail()],
                            unique_id: unique_id_of(old(self).spec_uniq(), address as usize),
                        })
                    }
                }
            }),
    {
        let preds = self.predecessors;
        let len = preds.len();
        let budget = self.max_instructions - 1;
        let noisy = self.noisy;
        let ghost window = preds@;
        let mut s: usize = 0;
        while s < len
            invariant
                s <= len,
                len == window.len(),
                window == preds@,
                budget == self.max_instructions - 1,
                noisy == self.noisy,
                *self == *old(self),
                self.predecessors@ == window,
                self.wf(),
                first_start(window, 0, budget as nat, noisy) == first_start(
                    window,
                    s as int,
                    budget as nat,
                    noisy,
                ),
            decreases len - s,
        {
            let mut instructions: Vec<T> = Vec::new();
            let mut index: usize = s;
            let mut ok = true;
            proof {
                let c = chain(window, s as int, len as int, budget as nat, noisy);
                assert(extended(Seq::<T>::empty(), c) == c) by {
                    if c.is_some() {
                        assert(Seq::<T>::empty() + c.unwrap() =~= c.unwrap());
                    }
                }
            }
            while ok && index < len && instructions.len() < budget
                invariant
                    s <= index <= len,
                    len == window.len(),
                    window == preds@,
                    instructions@.len() <= budget,
                    ok ==> chain(window, s as int, len as int, budget as nat, noisy) == extended(
                        instructions@,
                        chain(
                            window,
                            index as int,
                            len as int,
                            (budget - instructions@.len()) as nat,
                            noisy,
                        ),
                    ),
                    !ok ==> chain(window, s as int, len as int, budget as nat, noisy).is_none(),
                decreases budget - instructions@.len() + (if ok { 1int } else { 0int }),
            {
                let instruction = preds[index];
                let ghost before = instructions@;
                let ghost left = (budget - before.len()) as nat;
                if !instruction.is_rop_gadget_head(noisy) {
                    ok = false;
                    assert(chain(window, index as int, len as int, left, noisy).is_none());
                } else {
                    let l = instruction.len();
                    if l > len - index {
                        ok = false;
                        assert(chain(
                            window,
                            index + l,
                            len as int,
                            (left - 1) as nat,
                            noisy,
                        ).is_none());
                        assert(chain(window, index as int, len as int, left, noisy).is_none());
                    } else {
                        instructions.push(instruction);
                        index = index + l;
                        proof {
                            let rest = chain(
                                window,
                                index as int,
                                len as int,
                                (left - 1) as nat,
                                noisy,
                            );
                            if rest.is_some() {
                                assert(before + (seq![instruction] + rest.unwrap())
                                    =~= before.push(instruction) + rest.unwrap());
                            }
                        }
                    }
                }
            }
            if ok && index == len {
                proof {
                    assert(instructions@ + Seq::<T>::empty() =~= instructions@);
                }
                instructions.push(self.tail_instruction);
                let address = self.section_start + self.start_index + s;
                let unique_id = if self.uniq {
                    0
                } else {
                    address
                };
                self.predecessors = vstd::slice::slice_subrange(preds, s + 1, len);
                self.start_index = self.start_index + s + 1;
                return Some((Gadget { instructions, unique_id }, address));
            }
            s = s + 1;
        }
        self.predecessors = vstd::slice::slice_subrange(preds, len, len);
        self.start_index = self.start_index + len;
        assert(self.predecessors@ =~= Seq::<T>::empty());
        if !self.finished {
            self.finished = true;
            let mut instructions: Vec<T> = Vec::new();
            instructions.push(self.tail_instruction);
            assert(instructions@ =~= seq![self.tail_instruction]);
            let address = self.section_start + self.start_index;
            let unique_id = if self.uniq {
                0
            } else {
                address
            };
            return Some((Gadget { instructions, unique_id }, address));
        }
        None
    }

    /// All the gadgets that are left, in the order in which `next` hands
    /// them out: by rising address, the gadget of the last instruction alone
    /// at the end.
    pub fn collect(&mut self) -> (r: Vec<(Gadget<T>, usize)>)
        requires
            old(self).wf(),
        ensures
            final(self).wf(),
            final(self).same_search(old(self)),
            final(self).remaining() == Seq::<T>::empty(),
            final(self).spec_finished(),
            forall|i: int| 0 <= i < r@.len() ==> #[trigger] old(self).yields(views(r@)[i]),
            forall|x: (GadgetView<T>, usize)| #[trigger]
                old(self).yields(x) ==> views(r@).contains(x),
            forall|i: int, j: int| 0 <= i < j < r@.len() ==> r@[i].1 < r@[j].1,
    {
        let mut out: Vec<(Gadget<T>, usize)> = Vec::new();
        let mut done = false;
        let ghost window = self.remaining();
        let ghost first = self.spec_start_index();
        let ghost seen: int = 0;
        let ghost ks: Seq<int> = Seq::empty();
        while !done
            invariant
                self.wf(),
                self.same_search(old(self)),
                old(self).wf(),
                window == old(self).remaining(),
                first == old(self).spec_start_index(),
                first <= self.spec_start_index() <= first + window.len(),
                self.remaining() == window.subrange(
                    self.spec_start_index() - first,
                    window.len() as int,
                ),
                self.spec_finished() == (old(self).spec_finished() || seen == window.len() + 1),
                seen == window.len() + 1 || seen == self.spec_start_index() - first,
                seen == window.len() + 1 ==> self.spec_start_index() - first == window.len(),
                done ==> self.spec_finished() && self.spec_start_index() - first == window.len(),
                ks.len() == out@.len(),
                forall|i: int|
                    0 <= i < ks.len() ==> 0 <= #[trigger] ks[i] < seen && old(self).hands_out(ks[i])
                        && views(out@)[i] == old(self).item(ks[i]),
                forall|i: int, j: int| 0 <= i < j < ks.len() ==> ks[i] < ks[j],
                forall|k: int|
                    0 <= k < seen && old(self).hands_out(k) ==> exists|i: int|
                        0 <= i < ks.len() && #[trigger] ks[i] == k,
            decreases
                    window.len() - (self.spec_start_index() - first) + (if self.spec_finished() {
                        0int
                    } else {
                        1int
                    }) + (if done {
                        0int
                    } else {
                        1int
                    }),
        {
            let ghost before = *self;
            let ghost cursor = self.spec_start_index() - first;
            let ghost rest = self.remaining();
            let ghost k = first_start(rest, 0, self.budget(), self.spec_noisy());
            proof {
                lemma_first_start(rest, 0, self.budget(), self.spec_noisy());
                assert forall|j: int| 0 <= j <= rest.len() implies chain(
                    rest,
                    j,
                    rest.len() as int,
                    self.budget(),
                    self.spec_noisy(),
                ) == #[trigger] chain(
                    window,
                    cursor + j,
                    window.len() as int,
                    self.budget(),
                    self.spec_noisy(),
                ) by {
                    lemma_chain_shift(
                        window,
                        cursor,
                        window.len() as int,
                        j,
                        self.budget(),
                        self.spec_noisy(),
                    );
                }
            }
            let next = self.next();
            match next {
                Some(found) => {
                    let ghost old_out = out@;
                    out.push(found);
                    proof {
                        let at = cursor + k;
                        assert(chain(
                            rest,
                            k,
                            rest.len() as int,
                            before.budget(),
                            before.spec_noisy(),
                        ) == chain(
                            window,
                            cursor + k,
                            window.len() as int,
                            before.budget(),
                            before.spec_noisy(),
                        ));
                        if k == rest.len() {
                            assert(Seq::<T>::empty().push(before.spec_tail()) =~= seq![
                                before.spec_tail(),
                            ]);
                        }
                        assert(old(self).hands_out(at));
                        assert(views(out@)[old_out.len() as int] == old(self).item(at));
                        assert forall|i: int| 0 <= i < old_out.len() implies views(out@)[i]
                            == views(old_out)[i] by {}
                        assert forall|j: int| seen <= j < at implies !old(self).hands_out(j) by {
                            assert(chain(
                                rest,
                                j - cursor,
                                rest.len() as int,
                                before.budget(),
                                before.spec_noisy(),
                            ) == chain(
                                window,
                                cursor + (j - cursor),
                                window.len() as int,
                                before.budget(),
                                before.spec_noisy(),
                            ));
                        }
                        let ghost old_ks = ks;
                        let ghost old_seen = seen;
                        ks = ks.push(at);
                        seen = at + 1;
                        assert forall|q: int| 0 <= q < seen && old(self).hands_out(q) implies exists|
                            i: int,
                        |
                            0 <= i < ks.len() && #[trigger] ks[i] == q by {
                            if q < old_seen {
                                let i = choose|i: int|
                                    0 <= i < old_ks.len() && #[trigger] old_ks[i] == q;
                                assert(ks[i] == q);
                            } else {
                                assert(q == at);
                                assert(ks[old_ks.len() as int] == q);
                            }
                        }
                        assert(self.remaining() =~= window.subrange(
                            self.spec_start_index() - first,
                            window.len() as int,
                        ));
                    }
                },
                None => {
                    done = true;
                    proof {
                        assert forall|j: int| seen <= j < window.len() implies !old(
                            self,
                        ).hands_out(j) by {
                            assert(chain(
                                rest,
                                j - cursor,
                                rest.len() as int,
                                before.budget(),
                                before.spec_noisy(),
                            ) == chain(
                                window,
                                cursor + (j - cursor),
                                window.len() as int,
                                before.budget(),
                                before.spec_noisy(),
                            ));
                        }
                        if seen != window.len() + 1 {
                            seen = window.len() as int;
                        }
                        assert(self.remaining() =~= window.subrange(
                            self.spec_start_index() - first,
                            window.len() as int,
                        ));
                    }
                },
            }
        }
        proof {
            assert forall|i: int| 0 <= i < out@.len() implies #[trigger] old(self).yields(
                views(out@)[i],
            ) by {
                assert(old(self).hands_out(ks[i]));
                assert(views(out@)[i] == old(self).item(ks[i]));
            }
            assert forall|x: (GadgetView<T>, usize)| #[trigger]
                old(self).yields(x) implies views(out@).contains(x) by {
                let k = choose|k: int| old(self).hands_out(k) && x == old(self).item(k);
                let i = choose|i: int| 0 <= i < ks.len() && #[trigger] ks[i] == k;
                assert(views(out@)[i] == x);
            }
            assert forall|i: int, j: int| 0 <= i < j < out@.len() implies out@[i].1
                < out@[j].1 by {
                assert(views(out@)[i] == old(self).item(ks[i]));
                assert(views(out@)[j] == old(self).item(ks[j]));
            }
        }
        out
    }
}

impl<T: ROPInstruction> Clone for Gadget<T> {
    fn clone(&self) -> (r: Self)
        ensures
            r@ == self@,
    {
        let n = self.instructions.len();
        let mut instructions: Vec<T> = Vec::with_capacity(n);
        let mut j: usize = 0;
        while j < n
            invariant
                n == self.instructions@.len(),
                j <= n,
                instructions@ == self.instructions@.subrange(0, j as int),
            decreases n - j,
        {
            instructions.push(self.instructions[j]);
            assert(instructions@ =~= self.instructions@.subrange(0, j + 1));
            j = j + 1;
        }
        assert(instructions@ =~= self.instructions@);
        Gadget { instructions, unique_id: self.unique_id }
    }
}

} // verus!
