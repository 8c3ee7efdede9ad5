//! The scheduler's tick plan and the persistence loop's run shape: how many
//! fetch tasks one tick launches and how long each waits before starting, and
//! how many saves a persistence run performs for a given sequence of shutdown
//! observations.

use vstd::prelude::*;

verus! {

/// The start delay of the fetch task at a given position within one tick:
/// `i * delay_ms`, saturating instead of wrapping.
pub open spec fn stagger_spec(i: nat, delay_ms: u64) -> int {
    if i * delay_ms <= u64::MAX {
        (i * delay_ms) as int
    } else {
        u64::MAX as int
    }
}

/// The start delays, in milliseconds, of the fetch tasks of one tick: exactly
/// `requests_per_second` tasks, task `i` delayed `i * delay_ms` so the load
/// spreads over the second instead of bursting. Zero requests per second
/// plans an empty tick.
pub fn plan_tick(requests_per_second: usize, delay_between_requests_ms: u64) -> (delays: Vec<u64>)
    ensures
        delays@.len() == requests_per_second,
        forall|i: int|
            0 <= i < delays@.len() ==> delays@[i] == stagger_spec(
                i as nat,
                delay_between_requests_ms,
            ),
{
    let mut delays: Vec<u64> = Vec::new();
    let mut i: usize = 0;
    while i < requests_per_second
        invariant
            i <= requests_per_second,
            delays@.len() == i,
            forall|k: int|
                0 <= k < i ==> delays@[k] == stagger_spec(k as nat, delay_between_requests_ms),
        decreases requests_per_second - i,
    {
        let d: u64 = match (i as u64).checked_mul(delay_between_requests_ms) {
            Some(v) => v,
            None => u64::MAX,
        };
        delays.push(d);
        i = i + 1;
    }
    delays
}

/// How many saves a persistence run performs when the shutdown flag reads as
/// `flags` at the successive tops of its loop: one per interval tick while
/// the flag is clear, and exactly one final flush once it is seen set (or
/// once observations end).
pub open spec fn run_saves(flags: Seq<bool>) -> nat
    decreases flags.len(),
{
    if flags.len() == 0 {
        1
    } else if flags[0] {
        1
    } else {
        1 + run_saves(flags.drop_first())
    }
}

/// The final-flush law: a run whose first `k` observations are clear and
/// whose `k+1`-th is set performs exactly `k + 1` saves — one more than its
/// interval ticks alone account for.
pub proof fn lemma_final_flush(flags: Seq<bool>, k: int)
    requires
        0 <= k < flags.len(),
        flags[k],
        forall|i: int| 0 <= i < k ==> !flags[i],
    ensures
        run_saves(flags) == k + 1,
    decreases k,
{
    if k > 0 {
        lemma_final_flush(flags.drop_first(), k - 1);
    }
}

/// What the persistence loop does at the top of one iteration.
#[derive(PartialEq, Eq, Structural, Debug)]
pub enum PersistAction {
    SaveAndContinue,
    FinalSaveAndStop,
}

/// Decides one iteration of the persistence loop from the shutdown flag it
/// observed: save and keep looping while the flag is clear; once it is set,
/// save one final time and stop.
pub fn persist_step(shutdown: bool) -> (a: PersistAction)
    ensures
        a == (if shutdown {
            PersistAction::FinalSaveAndStop
        } else {
            PersistAction::SaveAndContinue
        }),
{
    if shutdown {
        PersistAction::FinalSaveAndStop
    } else {
        PersistAction::SaveAndContinue
    }
}

} // verus!
