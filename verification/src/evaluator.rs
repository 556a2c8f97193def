//! The evaluator: a heuristic together with a count of its calls and the time they took.

use crate::clock::{as_nanos, elapsed, now};
use crate::heuristic::{generate, Chosen, Heuristic, HeuristicKind};
use pddllib::state::State;
use pddllib::task::Task;
use vstd::prelude::*;

verus! {

/// `n`, held at the largest `usize` once it has reached it.
pub open spec fn capped(n: nat) -> nat {
    if n > usize::MAX {
        usize::MAX as nat
    } else {
        n
    }
}

/// Nanoseconds in a second, times a hundred.
pub const RATE_SCALE: u128 = 100_000_000_000;

/// Calls per second, in hundredths, and zero where no time has passed.
pub open spec fn rate_hundredths(estimates: nat, nanos: nat) -> nat {
    if nanos == 0 {
        0
    } else {
        (estimates * RATE_SCALE / nanos as int) as nat
    }
}

/// Computes [`rate_hundredths`]: calls per second, in hundredths, from a number of calls and
/// the nanoseconds they took.
pub fn rate(estimates: usize, nanos: u128) -> (r: u128)
    ensures
        r == rate_hundredths(estimates as nat, nanos as nat),
{
    if nanos == 0 {
        0
    } else {
        (estimates as u128) * RATE_SCALE / nanos
    }
}

/// What an evaluator reports when its work is over.
#[derive(Clone, Copy, Debug, PartialEq, Eq, Structural)]
pub struct Summary {
    /// The number of estimates that were asked for.
    pub estimates: usize,
    /// The time that computing them took, in nanoseconds.
    pub nanos: u128,
    /// Estimates per second, in hundredths.
    pub rate_hundredths: u128,
}

/// A heuristic whose calls are counted and timed.
pub struct Evaluator {
    heuristic: Chosen,
    estimates: usize,
    nanos: u128,
}

impl Evaluator {
    /// The heuristic that answers.
    pub closed spec fn heuristic(&self) -> Chosen {
        self.heuristic
    }

    /// The number of calls of `estimate` so far, held at the largest `usize`.
    pub closed spec fn calls(&self) -> nat {
        self.estimates as nat
    }

    /// The time spent in the heuristic so far, in nanoseconds, held at the largest `u128`.
    pub closed spec fn spent(&self) -> nat {
        self.nanos as nat
    }

    /// The count of calls fits a `usize`.
    pub proof fn lemma_calls_bounded(&self)
        ensures
            self.calls() <= usize::MAX,
    {
    }

    /// The estimate that this evaluator gives for `state` in `task`.
    pub open spec fn value(&self, task: Task, state: State) -> nat {
        self.heuristic().value(task, state)
    }

    /// An evaluator for the heuristic of the given kind that has not been called yet.
    pub fn new(task: &Task, kind: HeuristicKind) -> (r: Evaluator)
        ensures
            r.heuristic().kind() == kind,
            r.calls() == 0,
            r.spent() == 0,
    {
        Evaluator { heuristic: generate(task, kind), estimates: 0, nanos: 0 }
    }

    /// Asks the heuristic for its estimate, and counts and times the call.
    pub fn estimate(&mut self, task: &Task, state: &State) -> (r: usize)
        ensures
            r == old(self).value(*task, *state),
            final(self).heuristic() == old(self).heuristic(),
            final(self).calls() == capped(old(self).calls() + 1),
            final(self).spent() >= old(self).spent(),
    {
        let start = now();
        let estimate = self.heuristic.estimate(task, state);
        let took = as_nanos(&elapsed(&start));
        self.nanos = self.nanos.saturating_add(took);
        self.estimates = self.estimates.saturating_add(1);
        estimate
    }

    /// The number of calls of `estimate` so far.
    pub fn estimates(&self) -> (r: usize)
        ensures
            r == self.calls(),
    {
        self.estimates
    }

    /// The time spent in the heuristic so far, in nanoseconds.
    pub fn time_nanos(&self) -> (r: u128)
        ensures
            r == self.spent(),
    {
        self.nanos
    }

    /// The report of an evaluator: its calls, its time, and its calls per second, which are
    /// zero where no time was measured.
    pub fn summary(&self) -> (r: Summary)
        ensures
            r.estimates == self.calls(),
            r.nanos == self.spent(),
            r.rate_hundredths == rate_hundredths(self.calls(), self.spent()),
    {
        Summary {
            estimates: self.estimates,
            nanos: self.nanos,
            rate_hundredths: rate(self.estimates, self.nanos),
        }
    }
}

/// The count of calls after `n` calls of `estimate` on an evaluator whose count was `start`.
pub open spec fn calls_after(start: nat, n: nat) -> nat
    decreases n,
{
    if n == 0 {
        start
    } else {
        capped(calls_after(start, (n - 1) as nat) + 1)
    }
}

/// Accounting. Every call of `estimate` adds one to the count of calls until the count has
/// reached the largest `usize`: after `n` calls on a new evaluator the count is `n`, for every
/// `n` that a `usize` can hold.
pub proof fn law_accounting(start: nat, n: nat)
    requires
        start <= usize::MAX,
    ensures
        calls_after(start, n) == capped(start + n),
        start + n <= usize::MAX ==> calls_after(start, n) == start + n,
        n <= usize::MAX ==> calls_after(0, n) == n,
    decreases n,
{
    if n > 0 {
        law_accounting(start, (n - 1) as nat);
        law_accounting(0, (n - 1) as nat);
    }
}

} // verus!
