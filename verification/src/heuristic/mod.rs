//! Heuristics: estimates of the work that remains from a state to the goal of a task.

pub mod goal_count;

use crate::heuristic::goal_count::GoalCount;
use pddllib::state::State;
use pddllib::task::Task;
use vstd::prelude::*;

verus! {

/// An estimate of how far a state is from the goal of a task.
///
/// The estimate is a function of the task and the state. It need not be admissible.
pub trait Heuristic {
    /// The estimate for `state` in `task`.
    spec fn value(&self, task: Task, state: State) -> nat;

    /// Computes the estimate for `state` in `task`.
    fn estimate(&self, task: &Task, state: &State) -> (r: usize)
        ensures
            r == self.value(*task, *state),
    ;
}

/// The heuristics to choose from.
#[derive(Clone, Copy, Debug, PartialEq, Eq, Structural)]
pub enum HeuristicKind {
    /// The number of goal facts that do not have their required value.
    GoalCount,
}

/// A heuristic of one of the kinds, chosen when a search is set up.
pub enum Chosen {
    /// The goal-count heuristic.
    GoalCount(GoalCount),
}

impl Chosen {
    /// The kind that was chosen.
    pub open spec fn kind(&self) -> HeuristicKind {
        match self {
            Chosen::GoalCount(_) => HeuristicKind::GoalCount,
        }
    }
}

impl Heuristic for Chosen {
    open spec fn value(&self, task: Task, state: State) -> nat {
        match self {
            Chosen::GoalCount(h) => h.value(task, state),
        }
    }

    fn estimate(&self, task: &Task, state: &State) -> (r: usize) {
        match self {
            Chosen::GoalCount(h) => h.estimate(task, state),
        }
    }
}

/// The heuristic of the given kind for `task`.
pub fn generate(task: &Task, kind: HeuristicKind) -> (r: Chosen)
    ensures
        r.kind() == kind,
{
    match kind {
        HeuristicKind::GoalCount => Chosen::GoalCount(GoalCount {}),
    }
}

} // verus!
