//! Greedy best-first search with lazy evaluation: the heuristic is asked once for the node that
//! is expanded, and every new node is queued under that estimate.

use crate::evaluator::{capped, Evaluator};
use crate::heuristic::{Chosen, Heuristic};
use crate::parents::{trace, ParentMap};
use crate::planning::{covers, successors};
use crate::queue::{lemma_least_unique, least, Element, OpenList};
use crate::search::laws::{lemma_advance_wf, lemma_least_exists, lemma_path};
use crate::search::{
    initial_view, queued, taken_in, view_wf, Error, SearchAlgorithm, SearchView, Setting,
    Strategy,
};
use pddllib::state::State;
use pddllib::task::Task;
use vstd::multiset::Multiset;
use vstd::prelude::*;

verus! {

/// A search that asks the heuristic once for every expansion.
pub struct LGBFS {
    queue: OpenList,
    parents: ParentMap,
    heuristic: Evaluator,
    generated: usize,
}

impl LGBFS {
    /// A search from `initial_state`: the root is the only node, and it is queued.
    pub fn new(initial_state: &State, heuristic: Evaluator) -> (r: LGBFS)
        ensures
            r.wf(),
            r.model() == initial_view(*initial_state, heuristic.calls()),
            r.heuristic() == heuristic.heuristic(),
            r.spent() == heuristic.spent(),
    {
        let parents = ParentMap::new(initial_state);
        let mut queue = OpenList::new();
        queue.push(Element { index: 0, estimate: 0 });
        let r = LGBFS { queue, parents, heuristic, generated: 0 };
        proof {
            assert(r.queue@ =~= Multiset::singleton(Element { index: 0, estimate: 0 }));
            heuristic.lemma_calls_bounded();
        }
        r
    }

    /// The evaluator of the search, with its count of calls and its time.
    pub fn evaluator(&self) -> (r: &Evaluator)
        ensures
            r.heuristic() == self.heuristic(),
            r.calls() == self.model().evaluations,
            r.spent() == self.spent(),
    {
        &self.heuristic
    }
}

impl SearchAlgorithm for LGBFS {
    closed spec fn model(&self) -> SearchView {
        SearchView {
            nodes: self.parents@,
            open: self.queue@,
            generated: self.generated as nat,
            evaluations: self.heuristic.calls(),
        }
    }

    open spec fn strategy(&self) -> Strategy {
        Strategy::Lazy
    }

    closed spec fn heuristic(&self) -> Chosen {
        self.heuristic.heuristic()
    }

    closed spec fn spent(&self) -> nat {
        self.heuristic.spent()
    }

    closed spec fn wf(&self) -> bool {
        self.queue.wf() && view_wf(self.model())
    }

    proof fn lemma_wf(&self) {
    }

    fn step(&mut self, task: &Task) -> (r: Result<Vec<State>, Error>) {
        let ghost c = Setting {
            task: *task,
            strategy: Strategy::Lazy,
            heuristic: self.heuristic(),
        };
        let ghost v = self.model();
        let first = match self.queue.pop() {
            Some(first) => first,
            None => {
                return Err(Error::Unsolvable);
            },
        };
        proof {
            lemma_least_exists(v.open);
            lemma_least_unique(v.open, first, least(v.open));
        }
        let index = first.index;
        let node = self.parents.state(index);
        if covers(task, node) {
            let plan = trace(&self.parents, index);
            proof {
                lemma_advance_wf(v, c);
                lemma_path(v.nodes, index as int, *task);
            }
            return Ok(plan);
        }
        let ghost expanded = *node;
        let ghost open = v.open.remove(first);
        let estimate = self.heuristic.estimate(task, node);
        let found = successors(task, node);
        let ghost all = found@;
        self.generated = self.generated.saturating_add(found.len());
        let base = self.parents.len();
        for successor in it: found
            invariant
                self.queue.wf(),
                self.parents.wf(),
                index < base == v.nodes.len(),
                c == (Setting {
                    task: *task,
                    strategy: Strategy::Lazy,
                    heuristic: self.heuristic(),
                }),
                self.generated == capped(v.generated + all.len()),
                self.heuristic.spent() >= old(self).heuristic.spent(),
                it.seq() == all,
                self.parents@ == taken_in(v.nodes, all.take(it.index() as int), index),
                base <= self.parents@.len() <= usize::MAX + 1,
                self.queue@ == queued(
                    open,
                    self.parents@.subrange(base as int, self.parents@.len() as int),
                    base as nat,
                    c,
                    expanded,
                ),
                self.heuristic.calls() == capped(v.evaluations + 1),
                estimate == self.heuristic().value(*task, expanded),
        {
            let ghost i = it.index() as int;
            let ghost before = self.parents@;
            proof {
                assert(all.take(i + 1).drop_last() == all.take(i));
            }
            match self.parents.insert_if_absent(successor, index) {
                Some(s_index) => {
                    self.queue.push(Element { index: s_index, estimate });
                    proof {
                        let fresh = self.parents@.subrange(base as int, self.parents@.len() as int);
                        assert(fresh.drop_last() == before.subrange(
                            base as int,
                            before.len() as int,
                        ));
                    }
                },
                None => {},
            }
        }
        proof {
            assert(all.take(all.len() as int) == all);
            lemma_advance_wf(v, c);
        }
        Err(Error::Unfinished)
    }

    fn generated_count(&self) -> (r: usize) {
        self.generated
    }
}

} // verus!
