//! Best-first search: the model of a search and the contract that every strategy meets.
//!
//! A search holds the nodes generated so far and an open list of nodes that await expansion.
//! One step takes the first node of the open list, ends the search if that node satisfies the
//! goal, and otherwise takes in its successors. What a step does is said here once, as a
//! function on the model; the strategies differ only in the estimate they queue a node under.

pub mod gbfs;
pub mod laws;
pub mod lgbfs;

use crate::evaluator::capped;
use crate::heuristic::{Chosen, Heuristic};
use crate::parents::{known, nodes_wf, path};
use crate::planning::{goal_satisfied, successor_states};
use crate::queue::{least, Element};
use crate::validity::{task_is_valid, task_valid};
use pddllib::state::State;
use pddllib::task::Task;
use vstd::multiset::Multiset;
use vstd::prelude::*;

verus! {

/// Why a step did not end in a plan.
#[derive(Clone, Copy, Debug, PartialEq, Eq, Structural)]
pub enum Error {
    /// The search goes on: step again.
    Unfinished,
    /// The open list is empty and no node satisfied the goal.
    Unsolvable,
}

/// When the heuristic is asked.
#[derive(Clone, Copy, Debug, PartialEq, Eq, Structural)]
pub enum Strategy {
    /// Once for every new node, on the state of that node.
    Eager,
    /// Once for every expansion, on the state that is expanded; its children share the estimate.
    Lazy,
}

/// What a search works with: the task, its strategy and its heuristic.
pub struct Setting {
    pub task: Task,
    pub strategy: Strategy,
    pub heuristic: Chosen,
}

/// The model of a search.
pub struct SearchView {
    /// The generated states in the order of generation, each with the index of its parent.
    pub nodes: Seq<(State, usize)>,
    /// The nodes that await expansion.
    pub open: Multiset<Element>,
    /// How many successors were generated, those that were known already included; held at the
    /// largest `usize`.
    pub generated: nat,
    /// How often the heuristic was asked; held at the largest `usize`.
    pub evaluations: nat,
}

/// What a step returns.
pub enum Outcome {
    /// The open list is empty.
    Unsolvable,
    /// The first node of the open list satisfies the goal; the plan leads to it from the root.
    Solved(Seq<State>),
    /// The first node of the open list was expanded.
    Unfinished,
}

/// The outcome that a result of `step` stands for.
pub open spec fn outcome_of(result: Result<Vec<State>, Error>) -> Outcome {
    match result {
        Ok(plan) => Outcome::Solved(plan@),
        Err(Error::Unsolvable) => Outcome::Unsolvable,
        Err(Error::Unfinished) => Outcome::Unfinished,
    }
}

/// The search before its first step: the root alone, queued under estimate 0.
pub open spec fn initial_view(initial_state: State, evaluations: nat) -> SearchView {
    SearchView {
        nodes: seq![(initial_state, 0usize)],
        open: Multiset::singleton(Element { index: 0, estimate: 0 }),
        generated: 0,
        evaluations,
    }
}

/// The estimate under which a child of `expanded` is queued.
pub open spec fn priority(c: Setting, expanded: State, child: State) -> usize {
    match c.strategy {
        Strategy::Eager => c.heuristic.value(c.task, child) as usize,
        Strategy::Lazy => c.heuristic.value(c.task, expanded) as usize,
    }
}

/// The nodes after the successors of node `parent` were taken in, one after the other: a
/// successor that no node holds yet becomes the last node, one that is known changes nothing.
pub open spec fn taken_in(nodes: Seq<(State, usize)>, successors: Seq<State>, parent: usize) -> Seq<
    (State, usize),
>
    decreases successors.len(),
{
    if successors.len() == 0 {
        nodes
    } else {
        let before = taken_in(nodes, successors.drop_last(), parent);
        if known(before, successors.last()) {
            before
        } else {
            before.push((successors.last(), parent))
        }
    }
}

/// The open list after the nodes `fresh`, whose indices start at `base`, were queued.
pub open spec fn queued(
    open: Multiset<Element>,
    fresh: Seq<(State, usize)>,
    base: nat,
    c: Setting,
    expanded: State,
) -> Multiset<Element>
    decreases fresh.len(),
{
    if fresh.len() == 0 {
        open
    } else {
        queued(open, fresh.drop_last(), base, c, expanded).insert(
            Element {
                index: (base + fresh.len() - 1) as usize,
                estimate: priority(c, expanded, fresh.last().0),
            },
        )
    }
}

/// How often a step that expands a node and finds `fresh` new nodes asks the heuristic.
pub open spec fn asked(strategy: Strategy, fresh: nat) -> nat {
    match strategy {
        Strategy::Eager => fresh,
        Strategy::Lazy => 1,
    }
}

/// What holds of the state of every search: the nodes form a tree without repeated states, the
/// open list names nodes, the counters fit their type, and all nodes but the root were counted
/// as generated.
pub open spec fn view_wf(v: SearchView) -> bool {
    &&& nodes_wf(v.nodes)
    &&& v.nodes.len() <= usize::MAX + 1
    &&& forall|e: Element| v.open.count(e) > 0 ==> e.index < v.nodes.len()
    &&& v.generated <= usize::MAX
    &&& v.evaluations <= usize::MAX
    &&& v.nodes.len() <= v.generated + 1
}

/// What a step returns on a search in state `v`.
pub open spec fn outcome(v: SearchView, task: Task) -> Outcome {
    if v.open.len() == 0 {
        Outcome::Unsolvable
    } else {
        let first = least(v.open);
        if goal_satisfied(task, v.nodes[first.index as int].0) {
            Outcome::Solved(path(v.nodes, first.index as int))
        } else {
            Outcome::Unfinished
        }
    }
}

/// The state of a search after a step on state `v`.
pub open spec fn advance(v: SearchView, c: Setting) -> SearchView {
    if v.open.len() == 0 {
        v
    } else {
        let first = least(v.open);
        let expanded = v.nodes[first.index as int].0;
        let open = v.open.remove(first);
        if goal_satisfied(c.task, expanded) {
            SearchView { open, ..v }
        } else {
            let successors = successor_states(c.task, expanded);
            let nodes = taken_in(v.nodes, successors, first.index);
            let fresh = nodes.subrange(v.nodes.len() as int, nodes.len() as int);
            SearchView {
                nodes,
                open: queued(open, fresh, v.nodes.len(), c, expanded),
                generated: capped(v.generated + successors.len()),
                evaluations: capped(v.evaluations + asked(c.strategy, fresh.len())),
            }
        }
    }
}

/// A best-first search that is advanced step by step.
pub trait SearchAlgorithm {
    /// The state of the search.
    spec fn model(&self) -> SearchView;

    /// The strategy of the search.
    spec fn strategy(&self) -> Strategy;

    /// The heuristic of the search.
    spec fn heuristic(&self) -> Chosen;

    /// The time that the search has spent in its heuristic, in nanoseconds.
    spec fn spent(&self) -> nat;

    /// The invariant of the search.
    spec fn wf(&self) -> bool;

    /// The state of a search that meets its invariant is well formed.
    proof fn lemma_wf(&self)
        requires
            self.wf(),
        ensures
            view_wf(self.model()),
    ;

    /// Takes the first node from the open list. Returns the plan to it if it satisfies the
    /// goal; else takes in its successors and returns `Unfinished`. Returns `Unsolvable` if the
    /// open list is empty.
    fn step(&mut self, task: &Task) -> (r: Result<Vec<State>, Error>)
        requires
            old(self).wf(),
            task_valid(*task),
        ensures
            final(self).wf(),
            final(self).strategy() == old(self).strategy(),
            final(self).heuristic() == old(self).heuristic(),
            final(self).spent() >= old(self).spent(),
            outcome_of(r) == outcome(old(self).model(), *task),
            final(self).model() == advance(
                old(self).model(),
                (Setting {
                    task: *task,
                    strategy: old(self).strategy(),
                    heuristic: old(self).heuristic(),
                }),
            ),
            r matches Err(Error::Unsolvable) <==> old(self).model().open.len() == 0,
            r matches Ok(plan) ==> plan@.len() >= 1 && plan@.first() == old(
                self,
            ).model().nodes[0].0 && goal_satisfied(*task, plan@.last()),
    ;

    /// How many successors the search has generated, those that were known already included.
    fn generated_count(&self) -> (r: usize)
        ensures
            r == self.model().generated,
    ;
}

/// Steps the search if successor generation can work on `task`, and returns `None` with the
/// search unchanged if it cannot.
pub fn try_step<S: SearchAlgorithm>(search: &mut S, task: &Task) -> (r: Option<
    Result<Vec<State>, Error>,
>)
    requires
        old(search).wf(),
    ensures
        final(search).wf(),
        final(search).strategy() == old(search).strategy(),
        final(search).heuristic() == old(search).heuristic(),
        final(search).spent() >= old(search).spent(),
        match r {
            None => !task_valid(*task) && final(search).model() == old(search).model(),
            Some(result) => {
                &&& task_valid(*task)
                &&& outcome_of(result) == outcome(old(search).model(), *task)
                &&& final(search).model() == advance(
                    old(search).model(),
                    (Setting {
                        task: *task,
                        strategy: old(search).strategy(),
                        heuristic: old(search).heuristic(),
                    }),
                )
            },
        },
{
    if task_is_valid(task) {
        Some(search.step(task))
    } else {
        None
    }
}

} // verus!
