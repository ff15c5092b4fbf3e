use ropr::binary::{Bitness, Section};
use ropr::disassembler::search::Options;
use ropr::disassembler::x86::x86_instruction::X86Instruction;
use ropr::disassembler::x86::X86Disassembler;
use ropr::disassembler::{Disassembly, ROPInstruction};
use ropr::dedup::{distinct, fingerprint};
use ropr::gadgets::{Gadget, GadgetIterator};

fn search_options(rop: bool, sys: bool, jop: bool, noisy: bool, max_instructions: usize, uniq: bool) -> Options {
    Options { rop, sys, jop, noisy, max_instructions, uniq }
}

fn found_in(bytes: &[u8], vaddr: usize, bitness: Bitness, o: Options) -> Vec<(String, usize)> {
    let section = Section::new(0, vaddr, 0, bitness, bytes).unwrap();
    let mut out = Vec::new();
    if let Some(disassembly) = X86Disassembler::disassemble(&section) {
        for (gadget, address) in disassembly.gadgets(o) {
            out.push((gadget.format_instruction(), address));
        }
    }
    out.sort();
    out
}

fn text(s: &str, address: usize) -> (String, usize) {
    (s.to_string(), address)
}

#[test]
fn stack_pivot_detection() {
    // pop rsp; ret
    let section = Section::new(0, 0x4000, 0, Bitness::Bits64, &[0x5c, 0xc3]).unwrap();
    let d = X86Disassembler::disassemble(&section).unwrap();
    let found = d.gadgets(search_options(true, false, false, false, 4, false));
    assert_eq!(found.len(), 2);
    let (pivot, address) = &found[0];
    assert_eq!(*address, 0x4000);
    assert_eq!(pivot.format_instruction(), "pop rsp; ret;");
    assert!(pivot.is_stack_pivot());
    assert!(!pivot.is_base_pivot());
    let (alone, address) = &found[1];
    assert_eq!(*address, 0x4001);
    assert_eq!(alone.format_instruction(), "ret;");
    assert!(alone.is_stack_pivot());
    assert!(!alone.is_base_pivot());
}

#[test]
fn base_pivot_detection() {
    // pop rbp; pop rdi; ret
    let section = Section::new(0, 0, 0, Bitness::Bits64, &[0x5d, 0x5f, 0xc3]).unwrap();
    let d = X86Disassembler::disassemble(&section).unwrap();
    let found = d.gadgets(search_options(true, false, false, false, 4, false));
    assert_eq!(found.len(), 3);
    assert_eq!(found[0].0.format_instruction(), "pop rbp; pop rdi; ret;");
    assert!(found[0].0.is_base_pivot());
    assert!(!found[0].0.is_stack_pivot());
    assert_eq!(found[1].0.format_instruction(), "pop rdi; ret;");
    assert!(!found[1].0.is_base_pivot());
    assert!(!found[1].0.is_stack_pivot());
    assert!(!found[2].0.is_base_pivot());
}

#[test]
fn a_pivot_in_the_last_place_does_not_count() {
    // jmp rax alone: one instruction that is no return.
    let section = Section::new(0, 0, 0, Bitness::Bits64, &[0xff, 0xe0]).unwrap();
    let d = X86Disassembler::disassemble(&section).unwrap();
    let found = d.gadgets(search_options(false, false, true, false, 4, false));
    assert_eq!(found.len(), 1);
    assert!(!found[0].0.is_stack_pivot());
    assert!(!found[0].0.is_base_pivot());
}

#[test]
fn jump_through_register_in_both_modes() {
    let bytes = [0xff, 0xe0];
    let quiet = found_in(&bytes, 0x10, Bitness::Bits64, search_options(false, false, true, false, 4, false));
    let noisy = found_in(&bytes, 0x10, Bitness::Bits64, search_options(false, false, true, true, 4, false));
    assert_eq!(quiet, vec![text("jmp rax;", 0x10)]);
    assert_eq!(noisy, vec![text("jmp rax;", 0x10)]);
    let no_jop = found_in(&bytes, 0x10, Bitness::Bits64, search_options(true, true, false, true, 4, false));
    assert!(no_jop.is_empty());
}

#[test]
fn near_jump_is_never_a_tail() {
    let bytes = [0xe9, 0x00, 0x00, 0x00, 0x00];
    let quiet = found_in(&bytes, 0, Bitness::Bits64, search_options(true, true, true, false, 4, false));
    let noisy = found_in(&bytes, 0, Bitness::Bits64, search_options(true, true, true, true, 4, false));
    assert!(quiet.is_empty());
    assert!(noisy.is_empty());
}

#[test]
fn far_jump_only_when_noisy() {
    // jmp far 0x10:0x0
    let bytes = [0xea, 0x00, 0x00, 0x00, 0x00, 0x10, 0x00];
    let quiet = found_in(&bytes, 0, Bitness::Bits32, search_options(true, true, true, false, 4, false));
    let noisy = found_in(&bytes, 0, Bitness::Bits32, search_options(true, true, true, true, 4, false));
    assert!(quiet.iter().all(|(_, address)| *address != 0));
    assert_eq!(noisy.iter().filter(|(_, address)| *address == 0).count(), 1);
}

#[test]
fn nothing_asked_nothing_found() {
    let bytes = [0x5f, 0xc3, 0x0f, 0x05, 0xff, 0xe0, 0xcd, 0x80];
    for noisy in [false, true] {
        for max in [1, 2, 6] {
            let found = found_in(&bytes, 0, Bitness::Bits64, search_options(false, false, false, noisy, max, false));
            assert!(found.is_empty());
        }
    }
}

#[test]
fn every_tail_is_found_alone() {
    let bytes = [0x5f, 0xc3, 0x0f, 0x05, 0xff, 0xe0, 0xcd, 0x80, 0xc3];
    let section = Section::new(0, 0x100, 0, Bitness::Bits64, &bytes).unwrap();
    let d = X86Disassembler::disassemble(&section).unwrap();
    let o = search_options(true, true, true, false, 3, false);
    let tails = d.tails(o.rop, o.sys, o.jop, o.noisy);
    assert_eq!(tails, vec![1, 2, 4, 6, 8]);
    let found = d.gadgets(o);
    for t in tails {
        assert!(d.is_tail_at(t, o.rop, o.sys, o.jop, o.noisy));
        let alone: Vec<_> = found
            .iter()
            .filter(|(g, address)| *address == 0x100 + t && g.instructions().len() == 1)
            .collect();
        assert_eq!(alone.len(), 1);
        assert!(alone[0].0.instructions()[0].same_encoding(d.instruction(t).unwrap()));
    }
    assert!(!d.is_tail_at(0, true, true, true, true));
}

#[test]
fn found_gadgets_are_heads_then_a_tail() {
    let bytes = [0x48, 0x89, 0xe0, 0x5f, 0x74, 0x00, 0xf0, 0x01, 0x18, 0x0f, 0x05, 0x5c, 0xc3];
    for noisy in [false, true] {
        let section = Section::new(0, 0x100, 0, Bitness::Bits64, &bytes).unwrap();
        let d = X86Disassembler::disassemble(&section).unwrap();
        let o = search_options(true, true, true, noisy, 5, false);
        let found = d.gadgets(o);
        assert!(!found.is_empty());
        for (g, address) in &found {
            let all = g.instructions();
            assert!(!all.is_empty() && all.len() <= 5);
            let (last, heads) = all.split_last().unwrap();
            assert!(last.is_gadget_tail(o.rop, o.sys, o.jop, o.noisy));
            let mut offset = address - 0x100;
            for h in heads {
                assert!(h.is_rop_gadget_head(noisy));
                assert!(h.same_encoding(d.instruction(offset).unwrap()));
                offset += h.len();
            }
            assert!(last.same_encoding(d.instruction(offset).unwrap()));
            assert!(d.is_tail_at(offset, o.rop, o.sys, o.jop, o.noisy));
            assert_eq!(g.unique_id(), *address);
        }
    }
}

#[test]
fn noisy_finds_what_quiet_finds() {
    let bytes = [0x48, 0x89, 0xe0, 0x5f, 0x74, 0x00, 0xf0, 0x01, 0x18, 0x0f, 0x05, 0x5c, 0xc3];
    let quiet = found_in(&bytes, 0, Bitness::Bits64, search_options(true, true, true, false, 6, false));
    let noisy = found_in(&bytes, 0, Bitness::Bits64, search_options(true, true, true, true, 6, false));
    for item in &quiet {
        assert!(noisy.contains(item));
    }
    assert!(noisy.len() > quiet.len());
    assert!(noisy.contains(&text("lock add [rax], ebx; syscall;", 6)));
    assert!(!quiet.contains(&text("lock add [rax], ebx; syscall;", 6)));
    assert!(noisy.contains(&text("je short 6; lock add [rax], ebx; syscall;", 4)));
    assert!(quiet.contains(&text("syscall; pop rsp; ret;", 9)));
}

#[test]
fn longer_gadgets_find_what_shorter_find() {
    let bytes = [0x58, 0x5b, 0x59, 0x5a, 0x5e, 0x5f, 0xc3];
    let mut before: Vec<(String, usize)> = Vec::new();
    for max in 1..=8 {
        let found = found_in(&bytes, 0, Bitness::Bits64, search_options(true, false, false, false, max, false));
        for item in &before {
            assert!(found.contains(item));
        }
        assert_eq!(found.len(), max.min(7));
        before = found;
    }
    assert_eq!(before[0], text("pop rax; pop rbx; pop rcx; pop rdx; pop rsi; pop rdi; ret;", 0));
    let one = found_in(&bytes, 0, Bitness::Bits64, search_options(true, false, false, false, 1, false));
    assert_eq!(one, vec![text("ret;", 6)]);
}

#[test]
fn the_window_is_fifteen_bytes_for_each_head() {
    // 64 single-byte heads and a return: with two instructions only the
    // nearest head is in reach.
    let mut bytes = vec![0x90u8; 64];
    bytes.push(0xc3);
    let section = Section::new(0, 0, 0, Bitness::Bits64, &bytes).unwrap();
    let d = X86Disassembler::disassemble(&section).unwrap();
    let search = d.gadgets_from_tail(64, 2, false, false);
    let mut search: GadgetIterator<X86Instruction> = search;
    let all = search.collect();
    let addresses: Vec<usize> = all.iter().map(|(_, a)| *a).collect();
    assert_eq!(addresses, vec![63, 64]);
    let all = d.gadgets_from_tail(64, 5, false, false).collect();
    let addresses: Vec<usize> = all.iter().map(|(_, a)| *a).collect();
    assert_eq!(addresses, vec![60, 61, 62, 63, 64]);
    // The search does not ask whether its last instruction is a tail.
    let near = d.gadgets_from_tail(3, 2, false, false).collect();
    let addresses: Vec<usize> = near.iter().map(|(_, a)| *a).collect();
    assert_eq!(addresses, vec![2, 3]);
    let first = d.gadgets_from_tail(0, 6, false, false).collect();
    assert_eq!(first.len(), 1);
    assert_eq!(first[0].1, 0);
}

#[test]
fn next_hands_out_by_rising_address_and_the_tail_last() {
    let bytes = [0x58, 0x5b, 0x59, 0xc3];
    let section = Section::new(0, 0x7000, 0, Bitness::Bits64, &bytes).unwrap();
    let d: Disassembly<X86Instruction> = X86Disassembler::disassemble(&section).unwrap();
    assert_eq!(d.file_offset(), 0x7000);
    assert_eq!(d.bytes(), &bytes);
    let mut search = d.gadgets_from_tail(3, 3, false, false);
    let (g, a) = search.next().unwrap();
    assert_eq!((g.format_instruction(), a), text("pop rbx; pop rcx; ret;", 0x7001));
    let (g, a) = search.next().unwrap();
    assert_eq!((g.format_instruction(), a), text("pop rcx; ret;", 0x7002));
    let (g, a) = search.next().unwrap();
    assert_eq!((g.format_instruction(), a), text("ret;", 0x7003));
    assert!(search.next().is_none());
    assert!(search.next().is_none());
}

#[test]
fn unique_id_is_the_address_or_nothing() {
    let bytes = [0x5f, 0xc3, 0x5f, 0xc3];
    let section = Section::new(0, 0x100, 0x1000, Bitness::Bits64, &bytes).unwrap();
    let d = X86Disassembler::disassemble(&section).unwrap();
    let by_address = d.gadgets(search_options(true, false, false, false, 2, false));
    let by_text = d.gadgets(search_options(true, false, false, false, 2, true));
    assert_eq!(by_address.len(), 4);
    assert_eq!(by_text.len(), 4);
    for (g, a) in &by_address {
        assert_eq!(g.unique_id(), *a);
    }
    for (g, _) in &by_text {
        assert_eq!(g.unique_id(), 0);
    }
    let addresses: Vec<usize> = by_address.iter().map(|(_, a)| *a).collect();
    assert_eq!(addresses, vec![0x1100, 0x1101, 0x1102, 0x1103]);
    // The same instructions at two addresses: one gadget by text, two by address.
    assert!(by_text[0].0.same(&by_text[2].0));
    assert!(by_text[1].0.same(&by_text[3].0));
    assert!(!by_text[0].0.same(&by_text[1].0));
    assert!(!by_address[0].0.same(&by_address[2].0));
    assert!(by_address[0].0.same(&by_address[0].0));
    let mut distinct: Vec<&Gadget<X86Instruction>> = Vec::new();
    for (g, _) in &by_text {
        if !distinct.iter().any(|d| d.same(g)) {
            distinct.push(g);
        }
    }
    assert_eq!(distinct.len(), 2);
}

#[test]
fn two_runs_find_the_same() {
    let bytes = [0x48, 0x89, 0xe0, 0x5f, 0x74, 0x00, 0xf0, 0x01, 0x18, 0x0f, 0x05, 0x5c, 0xc3];
    let o = search_options(true, true, true, true, 6, false);
    let first = found_in(&bytes, 0x400000, Bitness::Bits64, o);
    let second = found_in(&bytes, 0x400000, Bitness::Bits64, o);
    assert_eq!(first, second);
}

#[test]
fn a_gadget_made_by_hand() {
    let section = Section::new(0, 0, 0, Bitness::Bits64, &[0x5c, 0x5d, 0xc3]).unwrap();
    let d = X86Disassembler::disassemble(&section).unwrap();
    let i = |n: usize| *d.instruction(n).unwrap();
    let empty: Gadget<X86Instruction> = Gadget::new(vec![], 0);
    assert!(!empty.is_stack_pivot());
    assert!(!empty.is_base_pivot());
    assert_eq!(empty.format_instruction(), "");
    let g = Gadget::new(vec![i(0), i(1), i(2)], 9);
    assert_eq!(g.format_instruction(), "pop rsp; pop rbp; ret;");
    assert_eq!(g.unique_id(), 9);
    assert!(g.is_stack_pivot());
    assert!(g.is_base_pivot());
    let last_pivots = Gadget::new(vec![i(2), i(0)], 0);
    assert!(!last_pivots.is_stack_pivot());
    assert_eq!(last_pivots.format_instruction(), "ret; pop rsp;");
}

#[test]
fn an_index_needs_an_instruction_for_each_byte() {
    let section = Section::new(0, 0, 0, Bitness::Bits64, &[0x5c, 0xc3]).unwrap();
    let d = X86Disassembler::disassemble(&section).unwrap();
    let one = vec![*d.instruction(0).unwrap()];
    assert!(Disassembly::new(&section, one).is_none());
    let two = vec![*d.instruction(1).unwrap(), *d.instruction(1).unwrap()];
    let made = Disassembly::new(&section, two).unwrap();
    assert_eq!(made.len(), 2);
    assert_eq!(made.tails(true, false, false, false), vec![0, 1]);
}

#[test]
fn distinct_keeps_the_first_of_each_gadget() {
    let bytes = [0x5f, 0xc3, 0x5e, 0xc3, 0x5f, 0xc3];
    let section = Section::new(0, 0x100, 0, Bitness::Bits64, &bytes).unwrap();
    let d = X86Disassembler::disassemble(&section).unwrap();
    let by_text = d.gadgets(search_options(true, false, false, false, 2, true));
    assert_eq!(by_text.len(), 6);
    let kept: Vec<(String, usize)> =
        distinct(&by_text).iter().map(|(g, a)| (g.format_instruction(), *a)).collect();
    assert_eq!(
        kept,
        vec![text("pop rdi; ret;", 0x100), text("ret;", 0x101), text("pop rsi; ret;", 0x102)]
    );
    let by_address = d.gadgets(search_options(true, false, false, false, 2, false));
    let kept = distinct(&by_address);
    assert_eq!(kept.len(), 6);
    for (i, (g, a)) in kept.iter().enumerate() {
        assert_eq!(*a, 0x100 + i);
        assert!(g.same(&by_address[i].0));
    }
    let none: Vec<(Gadget<X86Instruction>, usize)> = Vec::new();
    assert!(distinct(&none).is_empty());
}

#[test]
fn a_copy_is_the_same_gadget() {
    let section = Section::new(0, 0, 0, Bitness::Bits64, &[0x5c, 0x5d, 0xc3]).unwrap();
    let d = X86Disassembler::disassemble(&section).unwrap();
    let found = d.gadgets(search_options(true, false, false, false, 3, false));
    for (g, _) in &found {
        let copy = g.clone();
        assert!(copy.same(g));
        assert_eq!(copy.unique_id(), g.unique_id());
        assert_eq!(copy.format_instruction(), g.format_instruction());
        assert_eq!(copy.instructions().len(), g.instructions().len());
    }
}

#[test]
fn the_same_gadget_has_the_same_fingerprint() {
    let bytes = [0x5f, 0xc3, 0x5e, 0xc3, 0x5f, 0xc3];
    let section = Section::new(0, 0x100, 0, Bitness::Bits64, &bytes).unwrap();
    let d = X86Disassembler::disassemble(&section).unwrap();
    let by_text = d.gadgets(search_options(true, false, false, false, 2, true));
    for (a, _) in &by_text {
        for (b, _) in &by_text {
            if a.same(b) {
                assert_eq!(fingerprint(a), fingerprint(b));
            }
        }
    }
    assert_ne!(fingerprint(&by_text[0].0), fingerprint(&by_text[1].0));
    assert_ne!(fingerprint(&by_text[0].0), fingerprint(&by_text[2].0));
    // unique id 0, no instruction: nothing is mixed in.
    let empty: Gadget<X86Instruction> = Gadget::new(vec![], 0);
    assert_eq!(fingerprint(&empty), 0);
    let numbered: Gadget<X86Instruction> = Gadget::new(vec![], 77);
    assert_eq!(fingerprint(&numbered), 77);
    // One instruction of one byte, 0xc3: ((0 * 31 + 1) * 31) + 0xc3.
    let ret = Gadget::new(vec![*d.instruction(1).unwrap()], 0);
    assert_eq!(fingerprint(&ret), 31 + 0xc3);
    let by_address = d.gadgets(search_options(true, false, false, false, 2, false));
    assert_ne!(fingerprint(&by_address[0].0), fingerprint(&by_address[4].0));
}

#[test]
fn distinct_among_many() {
    // The same two bytes two hundred times: one gadget each by text.
    let mut bytes = Vec::new();
    for _ in 0..200 {
        bytes.extend_from_slice(&[0x5f, 0xc3]);
    }
    let section = Section::new(0, 0, 0, Bitness::Bits64, &bytes).unwrap();
    let d = X86Disassembler::disassemble(&section).unwrap();
    let by_text = d.gadgets(search_options(true, false, false, false, 2, true));
    assert_eq!(by_text.len(), 400);
    let kept: Vec<(String, usize)> =
        distinct(&by_text).iter().map(|(g, a)| (g.format_instruction(), *a)).collect();
    assert_eq!(kept, vec![text("pop rdi; ret;", 0), text("ret;", 1)]);
    let by_address = d.gadgets(search_options(true, false, false, false, 2, false));
    assert_eq!(distinct(&by_address).len(), 400);
}
