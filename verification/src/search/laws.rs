//! What holds of every search, proved of the model.
//!
//! A search starts in the state `initial_view(root, ..)`, as `new` of either strategy ensures,
//! and a step takes it from state `v` to state `advance(v, c)` and returns `outcome(v, ..)`,
//! as `step` ensures. So the states that a search goes through while its steps return
//! `Unfinished` are `run(initial_view(root, ..), c, n)` for `n` from 0 on, and what a step
//! returns in such a state is `outcome` of it. The laws below speak of these states. They ask
//! that the nodes can be indexed by a `usize`, which holds of every search that exists.

use crate::parents::{known, nodes_wf, path, states_distinct};
use crate::planning::{goal_satisfied, is_successor, successor_states};
use crate::queue::{is_least, least, Element};
use crate::search::{
    advance, initial_view, outcome, priority, queued, taken_in, view_wf, Outcome, SearchView,
    Setting,
};
use pddllib::state::State;
use pddllib::task::Task;
use vstd::multiset::Multiset;
use vstd::prelude::*;

verus! {

/// A non-empty open list has a first element.
pub proof fn lemma_least_exists(m: Multiset<Element>)
    requires
        m.len() > 0,
    ensures
        is_least(m, least(m)),
    decreases m.len(),
{
    let x = m.choose();
    let rest = m.remove(x);
    assert forall|y: Element| m.count(y) > 0 implies y == x || rest.count(y) > 0 by {}
    if rest.len() == 0 {
        assert(is_least(m, x));
    } else {
        lemma_least_exists(rest);
        let r = least(rest);
        if x.precedes(r) {
            assert forall|y: Element| m.count(y) > 0 implies x.no_later_than(y) by {
                if rest.count(y) > 0 {
                    assert(r.no_later_than(y));
                }
            }
            assert(is_least(m, x));
        } else {
            assert(is_least(m, r));
        }
    }
}

/// What taking in successors does to the nodes: those that were there stay as they are, each
/// new node is a successor that was not known, with the expanded node as its parent, no state
/// comes to occur twice, and every successor is known afterwards.
pub proof fn lemma_taken_in(nodes: Seq<(State, usize)>, successors: Seq<State>, parent: usize)
    ensures
        ({
            let t = taken_in(nodes, successors, parent);
            &&& nodes.len() <= t.len() <= nodes.len() + successors.len()
            &&& forall|i: int| 0 <= i < nodes.len() ==> #[trigger] t[i] == nodes[i]
            &&& forall|j: int|
                nodes.len() <= j < t.len() ==> (#[trigger] t[j]).1 == parent
                    && successors.contains(t[j].0) && !known(nodes, t[j].0)
            &&& states_distinct(nodes) ==> states_distinct(t)
            &&& forall|k: int| 0 <= k < successors.len() ==> known(t, #[trigger] successors[k])
        }),
    decreases successors.len(),
{
    if successors.len() > 0 {
        let init = successors.drop_last();
        let last = successors.last();
        let b = taken_in(nodes, init, parent);
        let t = taken_in(nodes, successors, parent);
        lemma_taken_in(nodes, init, parent);
        assert forall|j: int| nodes.len() <= j < t.len() implies (#[trigger] t[j]).1 == parent
            && successors.contains(t[j].0) && !known(nodes, t[j].0) by {
            if j >= b.len() && known(nodes, last) {
                let i = choose|i: int| 0 <= i < nodes.len() && (#[trigger] nodes[i]).0 == last;
                assert(b[i] == nodes[i]);
            }
        }
        assert forall|k: int| 0 <= k < successors.len() implies known(
            t,
            #[trigger] successors[k],
        ) by {
            if k < init.len() {
                let i = choose|i: int| 0 <= i < b.len() && (#[trigger] b[i]).0 == init[k];
                assert(t[i] == b[i]);
            } else if !known(b, last) {
                assert(t[t.len() - 1].0 == last);
            }
        }
    }
}

/// What queueing new nodes does to the open list: what was queued stays queued, each new node
/// is queued under its own index, and nothing else is.
pub proof fn lemma_queued(
    open: Multiset<Element>,
    fresh: Seq<(State, usize)>,
    base: nat,
    c: Setting,
    expanded: State,
)
    requires
        base + fresh.len() <= usize::MAX + 1,
    ensures
        ({
            let q = queued(open, fresh, base, c, expanded);
            &&& forall|x: Element| q.count(x) >= open.count(x)
            &&& forall|x: Element|
                q.count(x) > 0 ==> open.count(x) > 0 || base <= x.index < base + fresh.len()
            &&& forall|k: int|
                0 <= k < fresh.len() ==> q.count(
                    Element {
                        index: (base + k) as usize,
                        estimate: priority(c, expanded, (#[trigger] fresh[k]).0),
                    },
                ) > 0
        }),
    decreases fresh.len(),
{
    if fresh.len() > 0 {
        let init = fresh.drop_last();
        lemma_queued(open, init, base, c, expanded);
        let q = queued(open, fresh, base, c, expanded);
        assert forall|k: int| 0 <= k < fresh.len() implies q.count(
            Element {
                index: (base + k) as usize,
                estimate: priority(c, expanded, (#[trigger] fresh[k]).0),
            },
        ) > 0 by {
            if k < init.len() {
                assert(init[k] == fresh[k]);
            }
        }
    }
}

/// A step keeps the state of a search well formed, as long as the nodes can still be indexed.
pub proof fn lemma_advance_wf(v: SearchView, c: Setting)
    requires
        view_wf(v),
        advance(v, c).nodes.len() <= usize::MAX + 1,
    ensures
        view_wf(advance(v, c)),
{
    if v.open.len() > 0 {
        lemma_least_exists(v.open);
        let first = least(v.open);
        let expanded = v.nodes[first.index as int].0;
        let open = v.open.remove(first);
        if !goal_satisfied(c.task, expanded) {
            let successors = successor_states(c.task, expanded);
            let nodes = taken_in(v.nodes, successors, first.index);
            let fresh = nodes.subrange(v.nodes.len() as int, nodes.len() as int);
            lemma_taken_in(v.nodes, successors, first.index);
            lemma_queued(open, fresh, v.nodes.len(), c, expanded);
        }
    }
}

/// Every node but the root holds a successor of the state of its parent.
pub open spec fn follows(nodes: Seq<(State, usize)>, task: Task) -> bool {
    forall|i: int|
        0 < i < nodes.len() ==> is_successor(
            task,
            nodes[(#[trigger] nodes[i]).1 as int].0,
            nodes[i].0,
        )
}

/// Node `i` does not wait in the open list: it was taken from it.
pub open spec fn expanded(v: SearchView, i: int) -> bool {
    forall|e: Element| v.open.count(e) > 0 ==> e.index != i
}

/// No node that was taken from the open list satisfies the goal.
pub open spec fn no_goal_expanded(v: SearchView, task: Task) -> bool {
    forall|i: int|
        0 <= i < v.nodes.len() && expanded(v, i) ==> !goal_satisfied(
            task,
            (#[trigger] v.nodes[i]).0,
        )
}

/// Every successor of a node that was taken from the open list is held by a node.
pub open spec fn successors_recorded(v: SearchView, task: Task) -> bool {
    forall|i: int, k: int|
        0 <= i < v.nodes.len() && expanded(v, i) && 0 <= k < successor_states(
            task,
            v.nodes[i].0,
        ).len() ==> known(v.nodes, #[trigger] successor_states(task, v.nodes[i].0)[k])
}

/// What holds of a search for `task` from `root` as long as no step has ended it: its state
/// is well formed, node 0 holds `root`, and the nodes are the states that were generated, which
/// are `root` and the successors of the nodes that were expanded, none of which satisfied the
/// goal.
pub open spec fn sound(v: SearchView, root: State, task: Task) -> bool {
    &&& view_wf(v)
    &&& v.nodes[0] == (root, 0usize)
    &&& follows(v.nodes, task)
    &&& successors_recorded(v, task)
    &&& no_goal_expanded(v, task)
}

/// The state of a search after up to `n` steps from state `v`: it is stepped as long as the
/// steps return `Unfinished`.
pub open spec fn run(v: SearchView, c: Setting, n: nat) -> SearchView
    decreases n,
{
    if n == 0 {
        v
    } else {
        let before = run(v, c, (n - 1) as nat);
        if outcome(before, c.task) is Unfinished {
            advance(before, c)
        } else {
            before
        }
    }
}

/// The indices of the nodes that the first `n` steps from state `v` take from the open list,
/// in the order in which they are taken.
pub open spec fn expansions(v: SearchView, c: Setting, n: nat) -> Seq<usize>
    decreases n,
{
    if n == 0 {
        Seq::empty()
    } else {
        let before = run(v, c, (n - 1) as nat);
        if outcome(before, c.task) is Unfinished {
            expansions(v, c, (n - 1) as nat).push(least(before.open).index)
        } else {
            expansions(v, c, (n - 1) as nat)
        }
    }
}

/// A step never takes a node away.
pub proof fn lemma_advance_grows(v: SearchView, c: Setting)
    ensures
        v.nodes.len() <= advance(v, c).nodes.len(),
{
    if v.open.len() > 0 {
        let first = least(v.open);
        let expanded = v.nodes[first.index as int].0;
        lemma_taken_in(v.nodes, successor_states(c.task, expanded), first.index);
    }
}

/// The search before its first step is sound, for every task.
pub proof fn lemma_initial_sound(root: State, evaluations: nat, task: Task)
    requires
        evaluations <= usize::MAX,
    ensures
        sound(initial_view(root, evaluations), root, task),
{
    let v = initial_view(root, evaluations);
    let first = Element { index: 0, estimate: 0 };
    assert(v.open.count(first) > 0);
}

/// A step that expands a node keeps the search sound.
pub proof fn lemma_advance_sound(v: SearchView, c: Setting, root: State)
    requires
        sound(v, root, c.task),
        outcome(v, c.task) is Unfinished,
        advance(v, c).nodes.len() <= usize::MAX + 1,
    ensures
        sound(advance(v, c), root, c.task),
{
    lemma_advance_wf(v, c);
    lemma_least_exists(v.open);
    let next = advance(v, c);
    let first = least(v.open);
    let node = v.nodes[first.index as int].0;
    let open = v.open.remove(first);
    let successors = successor_states(c.task, node);
    let nodes = taken_in(v.nodes, successors, first.index);
    let base = v.nodes.len();
    let fresh = nodes.subrange(base as int, nodes.len() as int);
    lemma_taken_in(v.nodes, successors, first.index);
    lemma_queued(open, fresh, base, c, node);
    // A node that does not wait after the step is no new node: it is the node that was
    // expanded, or it did not wait before.
    assert forall|i: int| 0 <= i < nodes.len() && expanded(next, i) implies i < base && (i
        == first.index || expanded(v, i)) by {
        if i >= base {
            let e = Element {
                index: i as usize,
                estimate: priority(c, node, fresh[i - base].0),
            };
            assert(next.open.count(e) > 0);
        } else if i != first.index {
            assert forall|e: Element| v.open.count(e) > 0 implies e.index != i by {
                if e.index == i {
                    assert(open.count(e) > 0);
                }
            }
        }
    }
    // The successors of the expanded node were taken in; those of the others were known.
    assert forall|i: int, k: int|
        0 <= i < nodes.len() && expanded(next, i) && 0 <= k < successor_states(
            c.task,
            nodes[i].0,
        ).len() implies known(nodes, #[trigger] successor_states(c.task, nodes[i].0)[k]) by {
        let s = successor_states(c.task, nodes[i].0)[k];
        if i != first.index {
            let j = choose|j: int| 0 <= j < v.nodes.len() && (#[trigger] v.nodes[j]).0 == s;
            assert(nodes[j] == v.nodes[j]);
        }
    }
}

/// A search that starts at `root` is sound after any number of steps, as long as its nodes can
/// be indexed.
pub proof fn lemma_run_sound(root: State, evaluations: nat, c: Setting, n: nat)
    requires
        evaluations <= usize::MAX,
        run(initial_view(root, evaluations), c, n).nodes.len() <= usize::MAX + 1,
    ensures
        sound(run(initial_view(root, evaluations), c, n), root, c.task),
    decreases n,
{
    let v = initial_view(root, evaluations);
    if n == 0 {
        lemma_initial_sound(root, evaluations, c.task);
    } else {
        let before = run(v, c, (n - 1) as nat);
        lemma_advance_grows(before, c);
        lemma_run_sound(root, evaluations, c, (n - 1) as nat);
        if outcome(before, c.task) is Unfinished {
            lemma_advance_sound(before, c, root);
        }
    }
}

/// The path to a node starts at the root and ends at the node, and where every node follows
/// its parent, every state on the path follows the one before it.
pub proof fn lemma_path(nodes: Seq<(State, usize)>, i: int, task: Task)
    requires
        nodes_wf(nodes),
        0 <= i < nodes.len(),
    ensures
        path(nodes, i).len() >= 1,
        path(nodes, i).first() == nodes[0].0,
        path(nodes, i).last() == nodes[i].0,
        follows(nodes, task) ==> forall|k: int|
            0 <= k < path(nodes, i).len() - 1 ==> is_successor(
                task,
                #[trigger] path(nodes, i)[k],
                path(nodes, i)[k + 1],
            ),
    decreases i,
{
    if i > 0 {
        let parent = nodes[i].1 as int;
        lemma_path(nodes, parent, task);
    }
}

/// Determinism. The order of expansion is total, so the open list has one first element, and
/// a search is a function of its nodes, its open list and its setting: two searches that agree
/// on these expand the same nodes in the same order, hold the same nodes afterwards and return
/// the same outcome, whatever their counters say.
pub proof fn law_determinism(a: SearchView, b: SearchView, c: Setting, n: nat)
    requires
        a.nodes == b.nodes,
        a.open == b.open,
    ensures
        expansions(a, c, n) == expansions(b, c, n),
        run(a, c, n).nodes == run(b, c, n).nodes,
        run(a, c, n).open == run(b, c, n).open,
        outcome(run(a, c, n), c.task) == outcome(run(b, c, n), c.task),
        forall|x: Element, y: Element|
            is_least(run(a, c, n).open, x) && is_least(run(b, c, n).open, y) ==> x == y,
    decreases n,
{
    if n > 0 {
        law_determinism(a, b, c, (n - 1) as nat);
    }
    assert forall|x: Element, y: Element|
        is_least(run(a, c, n).open, x) && is_least(run(b, c, n).open, y) implies x == y by {
        crate::queue::lemma_least_unique(run(a, c, n).open, x, y);
    }
}

/// No duplicates. In every state that a search from `root` reaches, no state is held by two
/// nodes, and the nodes are at most one more than the successors that were generated. The
/// nodes are the states that were generated: every node but the root holds a successor of its
/// parent, and every successor of a node that was expanded is held by a node.
pub proof fn law_no_duplicates(root: State, evaluations: nat, c: Setting, n: nat)
    requires
        evaluations <= usize::MAX,
        run(initial_view(root, evaluations), c, n).nodes.len() <= usize::MAX + 1,
    ensures
        states_distinct(run(initial_view(root, evaluations), c, n).nodes),
        run(initial_view(root, evaluations), c, n).nodes.len() <= run(
            initial_view(root, evaluations),
            c,
            n,
        ).generated + 1,
        follows(run(initial_view(root, evaluations), c, n).nodes, c.task),
        successors_recorded(run(initial_view(root, evaluations), c, n), c.task),
{
    lemma_run_sound(root, evaluations, c, n);
}

/// Every generated state is recorded. After a step that expands a node, each successor of that
/// node is held by a node, and every node that was there before is still there, unchanged.
pub proof fn law_successors_recorded(v: SearchView, c: Setting)
    requires
        view_wf(v),
        outcome(v, c.task) is Unfinished,
    ensures
        forall|k: int|
            0 <= k < successor_states(c.task, v.nodes[least(v.open).index as int].0).len()
                ==> known(
                advance(v, c).nodes,
                #[trigger] successor_states(c.task, v.nodes[least(v.open).index as int].0)[k],
            ),
        forall|i: int| 0 <= i < v.nodes.len() ==> #[trigger] advance(v, c).nodes[i] == v.nodes[i],
        advance(v, c).generated == crate::evaluator::capped(
            v.generated + successor_states(c.task, v.nodes[least(v.open).index as int].0).len(),
        ),
{
    let first = least(v.open);
    lemma_taken_in(v.nodes, successor_states(c.task, v.nodes[first.index as int].0), first.index);
}

/// The root. Before the first step nothing was generated, and in every state that a search
/// from `root` reaches, node 0 holds `root` and is its own parent.
pub proof fn law_root(root: State, evaluations: nat, c: Setting, n: nat)
    requires
        evaluations <= usize::MAX,
        run(initial_view(root, evaluations), c, n).nodes.len() <= usize::MAX + 1,
    ensures
        initial_view(root, evaluations).generated == 0,
        run(initial_view(root, evaluations), c, n).nodes[0] == (root, 0usize),
{
    lemma_run_sound(root, evaluations, c, n);
}

/// Goal correctness. If a step of a search from `root` returns a plan, the plan starts at
/// `root`, ends in a state that satisfies the goal, and each of its states is a successor of the
/// one before it.
pub proof fn law_goal_correct(root: State, evaluations: nat, c: Setting, n: nat)
    requires
        evaluations <= usize::MAX,
        run(initial_view(root, evaluations), c, n).nodes.len() <= usize::MAX + 1,
        outcome(run(initial_view(root, evaluations), c, n), c.task) is Solved,
    ensures
        ({
            let plan = outcome(run(initial_view(root, evaluations), c, n), c.task)->Solved_0;
            &&& plan.len() >= 1
            &&& plan.first() == root
            &&& goal_satisfied(c.task, plan.last())
            &&& forall|k: int|
                0 <= k < plan.len() - 1 ==> is_successor(c.task, #[trigger] plan[k], plan[k + 1])
        }),
{
    let v = run(initial_view(root, evaluations), c, n);
    lemma_run_sound(root, evaluations, c, n);
    lemma_least_exists(v.open);
    lemma_path(v.nodes, least(v.open).index as int, c.task);
}

/// Unsolvable correctness. If a step of a search from `root` returns `Unsolvable`, the open
/// list is empty, every node was expanded, and no node satisfies the goal.
pub proof fn law_unsolvable(root: State, evaluations: nat, c: Setting, n: nat)
    requires
        evaluations <= usize::MAX,
        run(initial_view(root, evaluations), c, n).nodes.len() <= usize::MAX + 1,
        outcome(run(initial_view(root, evaluations), c, n), c.task) is Unsolvable,
    ensures
        ({
            let v = run(initial_view(root, evaluations), c, n);
            &&& v.open.len() == 0
            &&& forall|i: int| 0 <= i < v.nodes.len() ==> expanded(v, i)
            &&& forall|i: int|
                0 <= i < v.nodes.len() ==> !goal_satisfied(c.task, (#[trigger] v.nodes[i]).0)
        }),
{
    lemma_run_sound(root, evaluations, c, n);
}

/// Trivial tasks. Where the initial state satisfies the goal, the first step returns the plan
/// that holds the initial state alone, whatever the strategy and the heuristic.
pub proof fn law_trivial_task(root: State, evaluations: nat, c: Setting)
    requires
        goal_satisfied(c.task, root),
    ensures
        outcome(initial_view(root, evaluations), c.task) == Outcome::Solved(seq![root]),
{
    lemma_least_exists(initial_view(root, evaluations).open);
}

} // verus!
