//! Laws of the machine that span several steps or hold of every state.

use vstd::prelude::*;
use crate::cpu::{CpuState, Fault, MEM_SIZE, STACK_SIZE, KEY_COUNT, current_word, next, valid};
use crate::instruction::{Instruction, decoded, lemma_fields_bounded};

verus! {

/// A call succeeds exactly while fewer than sixteen calls are pending: it
/// then pushes its own address, jumps, and leaves the older frames as they
/// were. With sixteen pending it is fatal and changes nothing.
pub proof fn lemma_call(s: CpuState, addr: u16, r: u8)
    requires
        valid(s),
        s.pc + 1 < MEM_SIZE,
        decoded(current_word(s)) == Some(Instruction::Call { addr }),
    ensures
        s.sp < STACK_SIZE ==> (next(s, r) matches Ok(t) && t.pc == addr && t.sp == s.sp + 1
            && t.stack[s.sp as int] == s.pc
            && t.stack.subrange(0, s.sp as int) == s.stack.subrange(0, s.sp as int)),
        s.sp == STACK_SIZE ==> next(s, r) == Err::<CpuState, Fault>(Fault::StackOverflow),
{
    if s.sp < STACK_SIZE {
        let t = next(s, r)->Ok_0;
        assert(t.stack.subrange(0, s.sp as int) =~= s.stack.subrange(0, s.sp as int));
    }
}

/// A return through the frame that a call pushed, at whatever point the
/// subroutine reaches it, resumes at the instruction right after the call,
/// one level less deep.
pub proof fn lemma_call_return(s: CpuState, addr: u16, r1: u8, u: CpuState, r2: u8)
    requires
        valid(s),
        s.pc + 1 < MEM_SIZE,
        decoded(current_word(s)) == Some(Instruction::Call { addr }),
        next(s, r1) matches Ok(t) && u.sp == t.sp && u.stack[s.sp as int] == t.stack[s.sp as int],
        valid(u),
        u.pc + 1 < MEM_SIZE,
        decoded(current_word(u)) == Some(Instruction::Return),
    ensures
        next(u, r2) matches Ok(w) && w.pc == s.pc + 2 && w.sp == s.sp,
{
    lemma_call(s, addr, r1);
}

/// A step that runs an instruction other than the one that sets the delay
/// timer counts that timer down by one, stopping at zero.
pub proof fn lemma_delay_tick(s: CpuState, r: u8, t: CpuState)
    requires
        next(s, r) == Ok::<CpuState, Fault>(t),
        !(decoded(current_word(s)) matches Some(Instruction::SetDelay { .. })),
    ensures
        t.delay_timer == if s.delay_timer > 0 { s.delay_timer - 1 } else { 0 },
{
}

/// Along a run of successful steps none of which sets the delay timer, the
/// timer falls by one per step from its first value and then stays at zero:
/// after as many steps as its first value it is zero.
pub proof fn lemma_delay_decays(states: Seq<CpuState>, randoms: Seq<u8>)
    requires
        states.len() == randoms.len() + 1,
        forall|k: int|
            0 <= k < randoms.len() ==> next(#[trigger] states[k], randoms[k]) == Ok::<CpuState, Fault>(
                states[k + 1],
            ),
        forall|k: int|
            0 <= k < randoms.len() ==> !(decoded(current_word(#[trigger] states[k])) matches Some(
                Instruction::SetDelay { .. },
            )),
    ensures
        forall|k: int|
            0 <= k < states.len() ==> #[trigger] states[k].delay_timer == if k <= states[0].delay_timer {
                states[0].delay_timer - k
            } else {
                0
            },
{
    let ds = Seq::new(states.len(), |k: int| states[k].delay_timer);
    assert forall|k: int| 0 <= k < ds.len() - 1 implies #[trigger] ds[k + 1] == if ds[k] > 0 {
        ds[k] - 1
    } else {
        0
    } by {
        lemma_delay_tick(states[k], randoms[k], states[k + 1]);
    }
    lemma_countdown(ds);
    assert forall|k: int| 0 <= k < states.len() implies #[trigger] states[k].delay_timer == if k
        <= states[0].delay_timer {
        states[0].delay_timer - k
    } else {
        0
    } by {
        assert(ds[k] == states[k].delay_timer);
    }
}

/// A sequence of counter values, each one below the last until zero, falls
/// by one per position from its first value and then stays at zero.
proof fn lemma_countdown(ds: Seq<u8>)
    requires
        forall|k: int| 0 <= k < ds.len() - 1 ==> #[trigger] ds[k + 1] == if ds[k] > 0 { ds[k] - 1 } else { 0 },
    ensures
        forall|k: int| 0 <= k < ds.len() ==> #[trigger] ds[k] == if k <= ds[0] { ds[0] - k } else { 0 },
    decreases ds.len(),
{
    if ds.len() > 1 {
        let front = ds.subrange(0, ds.len() - 1);
        assert forall|k: int| 0 <= k < front.len() - 1 implies #[trigger] front[k + 1] == if front[k] > 0 {
            front[k] - 1
        } else {
            0
        } by {
            assert(front[k] == ds[k] && front[k + 1] == ds[k + 1]);
        }
        lemma_countdown(front);
        assert forall|k: int| 0 <= k < ds.len() implies #[trigger] ds[k] == if k <= ds[0] {
            ds[0] - k
        } else {
            0
        } by {
            if k < ds.len() - 1 {
                assert(front[k] == ds[k]);
            } else {
                let j = k - 1;
                assert(front[j] == ds[j]);
                assert(ds[j + 1] == if ds[j] > 0 { ds[j] - 1 } else { 0 });
            }
        }
    }
}

/// Waiting for a key never faults. With no key down the program counter stays
/// on the waiting instruction and the registers are untouched, so the next
/// step waits again; with some key down the lowest such index is stored and
/// execution moves on.
pub proof fn lemma_wait_key(s: CpuState, x: usize, r: u8)
    requires
        valid(s),
        s.pc + 1 < MEM_SIZE,
        decoded(current_word(s)) == Some(Instruction::WaitKey { x }),
    ensures
        next(s, r) is Ok,
        (forall|k: int| 0 <= k < KEY_COUNT ==> !s.keys[k]) ==> (next(s, r) matches Ok(t) && t.pc == s.pc
            && t.v == s.v),
        forall|k: int|
            0 <= k < KEY_COUNT && #[trigger] s.keys[k] && (forall|j: int| 0 <= j < k ==> !s.keys[j])
                ==> (next(s, r) matches Ok(t) && t.v[x as int] == k && t.pc == s.pc + 2),
{
    lemma_fields_bounded(current_word(s));
    assert forall|k: int|
        0 <= k < KEY_COUNT && #[trigger] s.keys[k] && (forall|j: int| 0 <= j < k ==> !s.keys[j])
            implies (next(s, r) matches Ok(t) && t.v[x as int] == k && t.pc == s.pc + 2) by {
        let c = choose|c: int| 0 <= c < s.keys.len() && s.keys[c] && forall|j: int| 0 <= j < c ==> !s.keys[j];
        assert(s.keys[k]);
        assert(c == k);
    }
}

} // verus!
