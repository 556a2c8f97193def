//! The goal-count heuristic.

use crate::heuristic::Heuristic;
use crate::planning::{fact_holds, goal, goal_satisfied, has_fact, task_goal};
use pddllib::state::{Fact, State};
use pddllib::task::Task;
use vstd::prelude::*;

verus! {

/// Estimates the remaining work by the number of goal facts that a state gets wrong.
#[derive(Default)]
pub struct GoalCount {}

/// Whether an entry of the goal condition does not have its required value in `state`.
pub open spec fn unmet(task: Task, state: State) -> spec_fn((Fact, bool)) -> bool {
    |entry: (Fact, bool)| fact_holds(task, state, entry.0) != entry.1
}

/// The number of entries of the goal condition that do not have their required value.
pub open spec fn goal_count(task: Task, state: State) -> nat {
    task_goal(task).filter(unmet(task, state)).len()
}

impl Heuristic for GoalCount {
    open spec fn value(&self, task: Task, state: State) -> nat {
        goal_count(task, state)
    }

    fn estimate(&self, task: &Task, state: &State) -> (r: usize) {
        let entries = goal(task);
        let mut count: usize = 0;
        let mut i: usize = 0;
        while i < entries.len()
            invariant
                entries@ == task_goal(*task),
                i <= entries@.len(),
                count <= i,
                count == entries@.take(i as int).filter(unmet(*task, *state)).len(),
            decreases entries@.len() - i,
        {
            proof {
                reveal(Seq::filter);
                assert(entries@.take(i + 1).drop_last() == entries@.take(i as int));
            }
            if has_fact(task, state, &entries[i].0) != entries[i].1 {
                count += 1;
            }
            i += 1;
        }
        assert(entries@.take(i as int) == entries@);
        count
    }
}

/// The goal count is at most the size of the goal condition, and it is zero exactly for the
/// states that satisfy the goal.
pub proof fn lemma_goal_count_zero(task: Task, state: State)
    ensures
        goal_count(task, state) <= task_goal(task).len(),
        goal_count(task, state) == 0 <==> goal_satisfied(task, state),
{
    let entries = task_goal(task);
    let p = unmet(task, state);
    entries.lemma_filter_len(p);
    if goal_satisfied(task, state) {
        if entries.filter(p).len() > 0 {
            entries.lemma_filter_pred(p, 0);
            let e = entries.filter(p)[0];
            entries.lemma_filter_contains_rev(p, e);
        }
    } else {
        let i = choose|i: int|
            0 <= i < entries.len() && fact_holds(task, state, (#[trigger] entries[i]).0)
                != entries[i].1;
        entries.lemma_filter_contains(p, i);
    }
}

} // verus!
