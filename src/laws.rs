//! Laws of the instruction semantics, stated over single instruction words.

use crate::decoder::{lemma_nibbles, nibble, pattern_matches};
use crate::fault::Fault;
use crate::isa::{chip_pattern, decoded, lemma_first_match_at, Instruction};
use crate::peripheral::Call;
use crate::semantics::{
    cycle_calls, cycle_result, execute_word, fetch, run, run_calls, wrap16, wrap8, ChipState, Inputs,
};
use vstd::prelude::*;

verus! {

/// Adding registers: for every VX and VY, `8XY4` leaves (VX + VY) mod 256
/// in VX and the carry (VX + VY) div 256, 0 or 1, in VF. (With X = F the
/// sum overwrites the carry, so X is another register.)
pub proof fn lemma_add_carry(s: ChipState, inst: u16, io: Inputs)
    requires
        s.wf(),
        nibble(inst, 0) == 8,
        nibble(inst, 3) == 4,
        nibble(inst, 1) != 15,
    ensures
        ({
            let x = nibble(inst, 1);
            let y = nibble(inst, 2);
            let sum = s.regs[x] + s.regs[y];
            &&& execute_word(s, inst, io) matches Ok((t, false))
            &&& t.regs[x] == sum % 256
            &&& t.regs[15] == sum / 256
            &&& (t.regs[15] == 0 || t.regs[15] == 1)
        }),
{
    lemma_nibbles(inst);
    assert forall|j: int| 0 <= j < 13 implies !pattern_matches(inst, #[trigger] chip_pattern(j)) by {}
    lemma_first_match_at(inst, 0, 13);
}

/// Subtracting registers: for every VX and VY, `8XY5` leaves
/// (VX - VY) mod 256 in VX and a flag in VF that is 0 exactly when VX < VY,
/// that is when the subtraction borrowed. (X is not F, as for `8XY4`.)
pub proof fn lemma_sub_borrow(s: ChipState, inst: u16, io: Inputs)
    requires
        s.wf(),
        nibble(inst, 0) == 8,
        nibble(inst, 3) == 5,
        nibble(inst, 1) != 15,
    ensures
        ({
            let x = nibble(inst, 1);
            let y = nibble(inst, 2);
            &&& execute_word(s, inst, io) matches Ok((t, false))
            &&& t.regs[x] == wrap8(s.regs[x] - s.regs[y])
            &&& (t.regs[15] == 0 <==> s.regs[x] < s.regs[y])
            &&& (t.regs[15] == 0 || t.regs[15] == 1)
        }),
{
    lemma_nibbles(inst);
    assert forall|j: int| 0 <= j < 14 implies !pattern_matches(inst, #[trigger] chip_pattern(j)) by {}
    lemma_first_match_at(inst, 0, 14);
}

/// Whether the skip instruction `inst` (`3XNN`, `4XNN`, `5XY0` or `9XY0`)
/// skips in state `s`.
pub open spec fn skip_taken(s: ChipState, inst: u16) -> bool {
    let x = nibble(inst, 1);
    let y = nibble(inst, 2);
    let nn = nibble(inst, 2) * 16 + nibble(inst, 3);
    if nibble(inst, 0) == 3 {
        s.regs[x] == nn
    } else if nibble(inst, 0) == 4 {
        s.regs[x] != nn
    } else if nibble(inst, 0) == 5 {
        s.regs[x] == s.regs[y]
    } else {
        s.regs[x] != s.regs[y]
    }
}

/// Whether `inst` is one of the skip instructions `3XNN`, `4XNN`, `5XY0`
/// and `9XY0`.
pub open spec fn is_skip(inst: u16) -> bool {
    ||| nibble(inst, 0) == 3
    ||| nibble(inst, 0) == 4
    ||| (nibble(inst, 0) == 5 && nibble(inst, 3) == 0)
    ||| (nibble(inst, 0) == 9 && nibble(inst, 3) == 0)
}

/// A skip instruction moves the program counter on by exactly 4 (past
/// itself and the next instruction) when its condition holds, else by 2,
/// and changes nothing else.
pub proof fn lemma_skip(s: ChipState, inst: u16, io: Inputs)
    requires
        s.wf(),
        is_skip(inst),
    ensures
        execute_word(s, inst, io) == Ok::<(ChipState, bool), Fault>(
            (s.jump(wrap16(s.pc + if skip_taken(s, inst) { 4int } else { 2int })), false),
        ),
{
    lemma_nibbles(inst);
    let k: int = if nibble(inst, 0) == 3 {
        4
    } else if nibble(inst, 0) == 4 {
        5
    } else if nibble(inst, 0) == 5 {
        6
    } else {
        18
    };
    assert forall|j: int| 0 <= j < k implies !pattern_matches(inst, #[trigger] chip_pattern(j)) by {}
    lemma_first_match_at(inst, 0, k);
    assert(wrap16(wrap16(s.pc + 2) + 2) == wrap16(s.pc + 4));
}

/// Executes `words` one after another from `s`, each as the word fetched
/// at the program counter, stopping at the first fault.
pub open spec fn run_words(s: ChipState, words: Seq<u16>, io: Inputs) -> Result<ChipState, Fault>
    decreases words.len(),
{
    if words.len() == 0 {
        Ok(s)
    } else {
        match execute_word(s, words[0], io) {
            Ok((t, _)) => run_words(t, words.drop_first(), io),
            Err(f) => Err(f),
        }
    }
}

/// The word `2NNN` that calls `target`.
pub open spec fn call_word(target: u16) -> u16 {
    (0x2000 + target) as u16
}

/// A call to each of `targets`, in order.
pub open spec fn call_words(targets: Seq<u16>) -> Seq<u16> {
    Seq::new(targets.len(), |k: int| call_word(targets[k]))
}

/// `n` return words `00EE`.
pub open spec fn return_words(n: nat) -> Seq<u16> {
    Seq::new(n, |k: int| 0x00EEu16)
}

proof fn lemma_run_words_append(s: ChipState, a: Seq<u16>, b: Seq<u16>, io: Inputs)
    ensures
        run_words(s, a + b, io) == match run_words(s, a, io) {
            Ok(t) => run_words(t, b, io),
            Err(f) => Err(f),
        },
    decreases a.len(),
{
    reveal(run_words);
    if a.len() > 0 {
        assert((a + b).drop_first() =~= a.drop_first() + b);
        assert((a + b)[0] == a[0]);
        match execute_word(s, a[0], io) {
            Ok((t, _)) => lemma_run_words_append(t, a.drop_first(), b, io),
            Err(_) => {},
        }
    } else {
        assert(a + b =~= b);
    }
}

proof fn lemma_run_one(s: ChipState, w: u16, io: Inputs)
    ensures
        run_words(s, seq![w], io) == match execute_word(s, w, io) {
            Ok((t, _)) => Ok(t),
            Err(f) => Err(f),
        },
{
    reveal(run_words);
    assert(seq![w].drop_first() =~= Seq::<u16>::empty());
    match execute_word(s, w, io) {
        Ok((t, _)) => {
            assert(run_words(t, Seq::<u16>::empty(), io) == Ok::<ChipState, Fault>(t));
        },
        Err(_) => {},
    }
}

proof fn lemma_call_decodes(target: u16)
    requires
        target < 4096,
    ensures
        decoded(call_word(target)) == Some(Instruction::Call(target)),
{
    let inst = call_word(target);
    lemma_nibbles(inst);
    assert forall|j: int| 0 <= j < 3 implies !pattern_matches(inst, #[trigger] chip_pattern(j)) by {}
    lemma_first_match_at(inst, 0, 3);
}

proof fn lemma_return_decodes()
    ensures
        decoded(0x00EE) == Some(Instruction::Return),
{
    lemma_nibbles(0x00EE);
    assert forall|j: int| 0 <= j < 1 implies !pattern_matches(0x00EE, #[trigger] chip_pattern(j)) by {}
    lemma_first_match_at(0x00EE, 0, 1);
}

proof fn lemma_call_step(s: ChipState, target: u16, io: Inputs)
    requires
        s.wf(),
        target < 4096,
    ensures
        execute_word(s, call_word(target), io) == Ok::<(ChipState, bool), Fault>(
            (ChipState { stack: s.stack.push(wrap16(s.pc + 2)), ..s.jump(target) }, false),
        ),
{
    lemma_call_decodes(target);
}

proof fn lemma_return_step(s: ChipState, io: Inputs)
    requires
        s.wf(),
        s.stack.len() > 0,
    ensures
        execute_word(s, 0x00EE, io) == Ok::<(ChipState, bool), Fault>(
            (ChipState { stack: s.stack.drop_last(), ..s.jump(s.stack.last()) }, false),
        ),
{
    lemma_return_decodes();
}

/// A return with an empty call stack is a stack underflow at its address.
pub proof fn lemma_return_underflow(s: ChipState, io: Inputs)
    requires
        s.wf(),
        s.stack.len() == 0,
    ensures
        execute_word(s, 0x00EE, io) == Err::<(ChipState, bool), Fault>(Fault::StackUnderflow(s.pc)),
{
    lemma_return_decodes();
}

/// Calls unwind: `N` nested calls (the first at `s.pc`, each next one at
/// the previous target) followed by `N` returns leave the program counter
/// just past the first call and the stack as it was. From an empty stack,
/// one more return is a stack underflow.
pub proof fn lemma_nested_calls(s: ChipState, targets: Seq<u16>, io: Inputs)
    requires
        s.wf(),
        targets.len() > 0,
        forall|k: int| 0 <= k < targets.len() ==> #[trigger] targets[k] < 4096,
    ensures
        run_words(s, call_words(targets) + return_words(targets.len()), io) == Ok::<ChipState, Fault>(
            s.jump(wrap16(s.pc + 2)),
        ),
        s.stack.len() == 0 ==> run_words(s, call_words(targets) + return_words(targets.len() + 1), io)
            == Err::<ChipState, Fault>(Fault::StackUnderflow(wrap16(s.pc + 2))),
    decreases targets.len(),
{
    let n = targets.len();
    let t0 = targets[0];
    let rest = targets.drop_first();
    let next = wrap16(s.pc + 2);
    let s1 = ChipState { stack: s.stack.push(next), ..s.jump(t0) };
    lemma_call_step(s, t0, io);
    let words = call_words(targets) + return_words(n);
    let inner = call_words(rest) + return_words((n - 1) as nat);
    assert(words =~= seq![call_word(t0)] + (inner + seq![0x00EEu16]));
    lemma_run_words_append(s, seq![call_word(t0)], inner + seq![0x00EEu16], io);
    lemma_run_one(s, call_word(t0), io);
    let s2 = if n == 1 {
        assert(inner =~= Seq::<u16>::empty());
        reveal(run_words);
        s1
    } else {
        lemma_nested_calls(s1, rest, io);
        s1.jump(wrap16(s1.pc + 2))
    };
    assert(run_words(s1, inner, io) == Ok::<ChipState, Fault>(s2));
    lemma_run_words_append(s1, inner, seq![0x00EEu16], io);
    assert(s2.stack == s.stack.push(next));
    assert(s2.stack.drop_last() =~= s.stack);
    lemma_return_step(s2, io);
    assert(ChipState { stack: s2.stack.drop_last(), ..s2.jump(s2.stack.last()) } == s.jump(next));
    lemma_run_one(s2, 0x00EE, io);
    if s.stack.len() == 0 {
        let more = call_words(targets) + return_words(n + 1);
        assert(more =~= words + seq![0x00EEu16]);
        lemma_run_words_append(s, words, seq![0x00EEu16], io);
        lemma_return_underflow(s.jump(next), io);
        lemma_run_one(s.jump(next), 0x00EE, io);
    }
}

/// Whether cycles from `s`, each answered `io`, fetch `words` one after
/// another, none of them requesting a halt.
pub open spec fn follows(s: ChipState, words: Seq<u16>, io: Inputs) -> bool
    decreases words.len(),
{
    words.len() == 0 || (fetch(s) == Ok::<u16, Fault>(words[0]) && match execute_word(s, words[0], io) {
        Ok((t, halt)) => !halt && follows(t, words.drop_first(), io),
        Err(_) => true,
    })
}

/// `n` cycles, each answered `io`.
pub open spec fn same_answers(io: Inputs, n: nat) -> Seq<Inputs> {
    Seq::new(n, |k: int| io)
}

proof fn lemma_run_front(s: ChipState, io: Inputs, ios: Seq<Inputs>)
    ensures
        run(s, seq![io] + ios) == match cycle_result(s, io) {
            Ok((t, false)) => run(t, ios),
            Ok((t, true)) => (t, Ok::<bool, Fault>(true)),
            Err(f) => (s, Err::<bool, Fault>(f)),
        },
    decreases ios.len(),
{
    let all = seq![io] + ios;
    if ios.len() == 0 {
        assert(all.drop_last() =~= Seq::<Inputs>::empty());
        assert(all.last() == io);
        assert(run(s, all.drop_last()) == (s, Ok::<bool, Fault>(false)));
        match cycle_result(s, io) {
            Ok((t, false)) => {
                assert(run(t, ios) == (t, Ok::<bool, Fault>(false)));
            },
            _ => {},
        }
    } else {
        assert(all.drop_last() =~= seq![io] + ios.drop_last());
        assert(all.last() == ios.last());
        lemma_run_front(s, io, ios.drop_last());
        match cycle_result(s, io) {
            Ok((t, false)) => {
                assert(run(s, all.drop_last()) == run(t, ios.drop_last()));
            },
            _ => {},
        }
    }
}

proof fn lemma_cycles_follow_words(s: ChipState, words: Seq<u16>, io: Inputs, t: ChipState)
    requires
        follows(s, words, io),
        run_words(s, words, io) == Ok::<ChipState, Fault>(t),
    ensures
        run(s, same_answers(io, words.len())) == (t, Ok::<bool, Fault>(false)),
    decreases words.len(),
{
    reveal(run_words);
    reveal(cycle_result);
    if words.len() == 0 {
        assert(same_answers(io, 0) =~= Seq::<Inputs>::empty());
    } else {
        let rest = words.drop_first();
        assert(same_answers(io, words.len()) =~= seq![io] + same_answers(io, rest.len()));
        lemma_run_front(s, io, same_answers(io, rest.len()));
        match execute_word(s, words[0], io) {
            Ok((t1, _)) => {
                lemma_cycles_follow_words(t1, rest, io, t);
            },
            Err(_) => {},
        }
    }
}

/// Calls unwind, cycle by cycle: when memory makes the cycles from `s` run
/// `N` nested calls (the first at `s.pc`) and then `N` returns, those
/// `2 N` cycles leave the program counter just past the first call and the
/// stack as it was. From an empty stack, a further cycle that fetches a
/// return is a stack underflow at that address.
pub proof fn lemma_nested_calls_cycles(s: ChipState, targets: Seq<u16>, io: Inputs)
    requires
        s.wf(),
        targets.len() > 0,
        forall|k: int| 0 <= k < targets.len() ==> #[trigger] targets[k] < 4096,
        follows(s, call_words(targets) + return_words(targets.len()), io),
    ensures
        run(s, same_answers(io, 2 * targets.len())) == (s.jump(wrap16(s.pc + 2)), Ok::<bool, Fault>(false)),
        s.stack.len() == 0 && fetch(s.jump(wrap16(s.pc + 2))) == Ok::<u16, Fault>(0x00EE) ==> cycle_result(
            s.jump(wrap16(s.pc + 2)),
            io,
        ) == Err::<(ChipState, bool), Fault>(Fault::StackUnderflow(wrap16(s.pc + 2))),
{
    let words = call_words(targets) + return_words(targets.len());
    lemma_nested_calls(s, targets, io);
    assert(words.len() == 2 * targets.len());
    lemma_cycles_follow_words(s, words, io, s.jump(wrap16(s.pc + 2)));
    if s.stack.len() == 0 {
        lemma_return_underflow(s.jump(wrap16(s.pc + 2)), io);
        reveal(cycle_result);
    }
}

proof fn lemma_run_calls_front(s: ChipState, io: Inputs, ios: Seq<Inputs>)
    ensures
        run_calls(s, seq![io] + ios) == cycle_calls(s, io) + match cycle_result(s, io) {
            Ok((t, false)) => run_calls(t, ios),
            _ => Seq::<Call>::empty(),
        },
    decreases ios.len(),
{
    let all = seq![io] + ios;
    if ios.len() == 0 {
        assert(all.drop_last() =~= Seq::<Inputs>::empty());
        assert(all.last() == io);
        assert(run(s, all.drop_last()) == (s, Ok::<bool, Fault>(false)));
        assert(run_calls(s, all.drop_last()) == Seq::<Call>::empty());
        assert(Seq::<Call>::empty() + cycle_calls(s, io) =~= cycle_calls(s, io));
        match cycle_result(s, io) {
            Ok((t, false)) => {
                assert(run_calls(t, ios) == Seq::<Call>::empty());
            },
            _ => {},
        }
        assert(cycle_calls(s, io) + Seq::<Call>::empty() =~= cycle_calls(s, io));
    } else {
        assert(all.drop_last() =~= seq![io] + ios.drop_last());
        assert(all.last() == ios.last());
        lemma_run_calls_front(s, io, ios.drop_last());
        lemma_run_front(s, io, ios.drop_last());
        match cycle_result(s, io) {
            Ok((t, false)) => {
                assert(run(s, all.drop_last()) == run(t, ios.drop_last()));
                let (s1, r1) = run(t, ios.drop_last());
                if r1 == Ok::<bool, Fault>(false) {
                    assert(run_calls(t, ios) == run_calls(t, ios.drop_last()) + cycle_calls(s1, ios.last()));
                    assert(run_calls(s, all) =~= cycle_calls(s, io) + run_calls(t, ios));
                } else {
                    assert(run_calls(t, ios) == run_calls(t, ios.drop_last()));
                }
            },
            _ => {
                assert(run(s, all.drop_last()).1 != Ok::<bool, Fault>(false));
            },
        }
    }
}

proof fn lemma_cycle_calls_len(s: ChipState, a: Inputs, b: Inputs)
    ensures
        cycle_calls(s, a).len() == cycle_calls(s, b).len(),
{
}

proof fn lemma_cycle_determined(s: ChipState, a: Inputs, b: Inputs)
    requires
        cycle_calls(s, a) == cycle_calls(s, b),
        a.random == b.random,
    ensures
        cycle_result(s, a) == cycle_result(s, b),
{
    reveal(cycle_result);
    let calls = cycle_calls(s, a);
    if calls.len() == 1 {
        assert(calls[0] == cycle_calls(s, b)[0]);
    }
    match fetch(s) {
        Ok(inst) => match decoded(inst) {
            Some(Instruction::Draw(x, y, n)) => {},
            Some(Instruction::SkipKeyDown(x)) => {},
            Some(Instruction::SkipKeyUp(x)) => {},
            Some(Instruction::WaitKey(x)) => {},
            Some(op) => {
                assert(execute_word(s, inst, a) == execute_word(s, inst, b));
            },
            None => {},
        },
        Err(_) => {},
    }
}

/// Cycles are determined by what they were told: from one state, two runs
/// whose peripherals answered so that the logged calls are the same, and
/// whose random bytes agree, reach the same state with the same result.
pub proof fn lemma_run_determined(s: ChipState, a: Seq<Inputs>, b: Seq<Inputs>)
    requires
        a.len() == b.len(),
        forall|k: int| 0 <= k < a.len() ==> (#[trigger] a[k]).random == b[k].random,
        run_calls(s, a) == run_calls(s, b),
    ensures
        run(s, a) == run(s, b),
    decreases a.len(),
{
    if a.len() > 0 {
        let (a0, b0) = (a[0], b[0]);
        let (ra, rb) = (a.drop_first(), b.drop_first());
        assert(a =~= seq![a0] + ra);
        assert(b =~= seq![b0] + rb);
        lemma_run_calls_front(s, a0, ra);
        lemma_run_calls_front(s, b0, rb);
        lemma_run_front(s, a0, ra);
        lemma_run_front(s, b0, rb);
        lemma_cycle_calls_len(s, a0, b0);
        let n = cycle_calls(s, a0).len() as int;
        assert(cycle_calls(s, a0) =~= run_calls(s, a).subrange(0, n));
        assert(cycle_calls(s, b0) =~= run_calls(s, b).subrange(0, n));
        assert(a0.random == b0.random);
        lemma_cycle_determined(s, a0, b0);
        match cycle_result(s, a0) {
            Ok((t, false)) => {
                assert(run_calls(t, ra) =~= run_calls(s, a).subrange(n, run_calls(s, a).len() as int));
                assert(run_calls(t, rb) =~= run_calls(s, b).subrange(n, run_calls(s, b).len() as int));
                assert forall|k: int| 0 <= k < ra.len() implies (#[trigger] ra[k]).random == rb[k].random by {
                    assert(ra[k] == a[k + 1] && rb[k] == b[k + 1]);
                }
                lemma_run_determined(t, ra, rb);
            },
            _ => {},
        }
    }
}

} // verus!
