//! The parent map: every generated state, once, in the order of generation, each with the index
//! of the node it was generated from.
//!
//! The map is both the closed list of the search and its tree of parent pointers. It is an
//! `indexmap::IndexMap` from states to parent indices; the position of an entry is the index of
//! its node.

use crate::ordered_map::{
    empty_map, entries, map_get_index, map_index_of, map_insert_full, map_len,
};
use crate::planning::clone_state;
use indexmap::IndexMap;
use pddllib::state::State;
use vstd::pervasive::unreached;
use vstd::prelude::*;

verus! {

/// Some node holds `state`.
pub open spec fn known(nodes: Seq<(State, usize)>, state: State) -> bool {
    exists|i: int| 0 <= i < nodes.len() && (#[trigger] nodes[i]).0 == state
}

/// No state is held by two nodes.
pub open spec fn states_distinct(nodes: Seq<(State, usize)>) -> bool {
    forall|i: int, j: int|
        0 <= i < j < nodes.len() ==> (#[trigger] nodes[i]).0 != (#[trigger] nodes[j]).0
}

/// The nodes form a tree: node 0 is the root and its own parent, every other node has a parent
/// that was generated before it, and no state occurs twice.
pub open spec fn nodes_wf(nodes: Seq<(State, usize)>) -> bool {
    &&& nodes.len() > 0
    &&& nodes[0].1 == 0
    &&& forall|i: int| 0 < i < nodes.len() ==> (#[trigger] nodes[i]).1 < i
    &&& states_distinct(nodes)
}

/// The states from the root down to node `i`, along the parent pointers.
pub open spec fn path(nodes: Seq<(State, usize)>, i: int) -> Seq<State>
    decreases i,
{
    if 0 < i < nodes.len() && nodes[i].1 < i {
        path(nodes, nodes[i].1 as int).push(nodes[i].0)
    } else {
        seq![nodes[i].0]
    }
}

/// The generated states with their parents.
pub struct ParentMap {
    map: IndexMap<State, usize>,
}

impl View for ParentMap {
    type V = Seq<(State, usize)>;

    /// The nodes in the order of generation: each a state with the index of its parent.
    closed spec fn view(&self) -> Seq<(State, usize)> {
        entries(self.map)
    }
}

impl ParentMap {
    /// The nodes form a tree rooted at node 0 in which no state occurs twice.
    pub open spec fn wf(&self) -> bool {
        nodes_wf(self@)
    }

    /// The map that holds the root alone.
    pub fn new(initial_state: &State) -> (r: ParentMap)
        ensures
            r.wf(),
            r@ == seq![(*initial_state, 0usize)],
    {
        let mut map = empty_map();
        let _ = map_insert_full(&mut map, clone_state(initial_state), 0);
        ParentMap { map }
    }

    /// The number of nodes.
    pub fn len(&self) -> (r: usize)
        ensures
            r == self@.len(),
    {
        map_len(&self.map)
    }

    /// The state of node `index`.
    pub fn state(&self, index: usize) -> (r: &State)
        requires
            index < self@.len(),
        ensures
            *r == self@[index as int].0,
    {
        match map_get_index(&self.map, index) {
            Some((state, _)) => state,
            None => unreached(),
        }
    }

    /// The index of the parent of node `index`.
    pub fn parent(&self, index: usize) -> (r: usize)
        requires
            index < self@.len(),
        ensures
            r == self@[index as int].1,
    {
        match map_get_index(&self.map, index) {
            Some((_, parent)) => *parent,
            None => unreached(),
        }
    }

    /// The index of the node that holds `state`, if there is one.
    pub fn index_of(&self, state: &State) -> (r: Option<usize>)
        ensures
            r is Some <==> known(self@, *state),
            r matches Some(i) ==> i < self@.len() && self@[i as int].0 == *state,
    {
        map_index_of(&self.map, state)
    }

    /// Adds `state` as a child of node `parent`, unless some node holds it already: then the
    /// map stays as it is. Returns the index of the new node.
    pub fn insert_if_absent(&mut self, state: State, parent: usize) -> (r: Option<usize>)
        requires
            old(self).wf(),
            parent < old(self)@.len(),
        ensures
            final(self).wf(),
            match r {
                Some(i) => !known(old(self)@, state) && i == old(self)@.len() && final(self)@
                    == old(self)@.push((state, parent)),
                None => known(old(self)@, state) && final(self)@ == old(self)@,
            },
    {
        if map_index_of(&self.map, &state).is_some() {
            return None;
        }
        let (index, _) = map_insert_full(&mut self.map, state, parent);
        Some(index)
    }
}

/// The plan that ends in node `index`: the states from the root to that node, root first.
pub fn trace(parents: &ParentMap, index: usize) -> (plan: Vec<State>)
    requires
        parents.wf(),
        index < parents@.len(),
    ensures
        plan@ == path(parents@, index as int),
{
    let mut upward: Vec<State> = Vec::new();
    let mut i: usize = index;
    loop
        invariant_except_break
            path(parents@, index as int) == path(parents@, i as int) + upward@.reverse(),
        invariant
            parents.wf(),
            i < parents@.len(),
        ensures
            path(parents@, index as int) == upward@.reverse(),
        decreases i,
    {
        let ghost before = upward@;
        upward.push(clone_state(parents.state(i)));
        let parent = parents.parent(i);
        proof {
            lemma_reverse_push(before, parents@[i as int].0);
        }
        if parent == i {
            break ;
        }
        i = parent;
    }
    let mut plan: Vec<State> = Vec::new();
    while upward.len() > 0
        invariant
            plan@ + upward@.reverse() == path(parents@, index as int),
        decreases upward@.len(),
    {
        let state = upward.pop().unwrap();
        proof {
            lemma_reverse_push(upward@, state);
        }
        plan.push(state);
    }
    plan
}

/// Reversing a sequence that ends in `x` gives `x` followed by the rest reversed.
proof fn lemma_reverse_push(s: Seq<State>, x: State)
    ensures
        s.push(x).reverse() == seq![x] + s.reverse(),
{
}

} // verus!
