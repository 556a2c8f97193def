//! Which tasks successor generation can work on.
//!
//! `pddllib` packs a fact into 64 bits, 16 for the predicate and 16 for each of up to three
//! arguments, and looks parameters and types up by position. A task is valid when every action
//! stays inside those ranges.

use crate::planning::{actions, objects_typed, task_actions, task_objects_typed};
use pddllib::task::action::{Action, Argument, Atom};
use pddllib::task::Task;
use vstd::prelude::*;

verus! {

/// The largest predicate number that a fact can carry.
pub const MAX_PREDICATE: usize = 0xFFFF;

/// The largest object number that a fact can carry.
pub const MAX_OBJECT: usize = 0xFFFE;

/// The largest number of arguments that a fact can carry.
pub const MAX_ARITY: usize = 3;

/// A parameter position below `parameters`, or an object number in range.
pub open spec fn argument_valid(argument: Argument, parameters: nat) -> bool {
    match argument {
        Argument::Index(i) => i < parameters,
        Argument::Const(c) => c <= MAX_OBJECT,
    }
}

/// The atom can be turned into a fact for any choice of objects for the parameters.
pub open spec fn atom_valid(atom: Atom, parameters: nat) -> bool {
    &&& atom.predicate <= MAX_PREDICATE
    &&& atom.args@.len() <= MAX_ARITY
    &&& forall|k: int|
        0 <= k < atom.args@.len() ==> argument_valid(#[trigger] atom.args@[k], parameters)
}

/// A valid atom whose single argument, if it has exactly one, is a parameter.
pub open spec fn precondition_valid(atom: Atom, parameters: nat) -> bool {
    &&& atom_valid(atom, parameters)
    &&& atom.args@.len() == 1 ==> atom.args@[0] is Index
}

/// Every parameter has one of the `types` types, and every atom is valid.
pub open spec fn action_valid(action: Action, types: nat) -> bool {
    &&& forall|p: int|
        0 <= p < action.parameters@.len() ==> (#[trigger] action.parameters@[p]).type_index
            < types
    &&& forall|k: int|
        0 <= k < action.precondition@.len() ==> precondition_valid(
            #[trigger] action.precondition@[k],
            action.parameters@.len(),
        )
    &&& forall|k: int|
        0 <= k < action.effect@.len() ==> atom_valid(
            #[trigger] action.effect@[k],
            action.parameters@.len(),
        )
}

/// Every object number in the list is in range.
pub open spec fn objects_valid(objects: Seq<usize>) -> bool {
    forall|o: int| 0 <= o < objects.len() ==> #[trigger] objects[o] <= MAX_OBJECT
}

/// Every object of every type is in range, and every action is valid.
pub open spec fn task_valid(task: Task) -> bool {
    &&& forall|t: int|
        0 <= t < task_objects_typed(task).len() ==> objects_valid(
            (#[trigger] task_objects_typed(task)[t])@,
        )
    &&& forall|a: int|
        0 <= a < task_actions(task).len() ==> action_valid(
            #[trigger] task_actions(task)[a],
            task_objects_typed(task).len(),
        )
}

/// Decides [`argument_valid`].
pub fn check_argument(argument: &Argument, parameters: usize) -> (r: bool)
    ensures
        r == argument_valid(*argument, parameters as nat),
{
    match argument {
        Argument::Index(i) => *i < parameters,
        Argument::Const(c) => *c <= MAX_OBJECT,
    }
}

/// Decides [`atom_valid`].
pub fn check_atom(atom: &Atom, parameters: usize) -> (r: bool)
    ensures
        r == atom_valid(*atom, parameters as nat),
{
    if atom.predicate > MAX_PREDICATE || atom.args.len() > MAX_ARITY {
        return false;
    }
    let mut k: usize = 0;
    while k < atom.args.len()
        invariant
            k <= atom.args@.len(),
            forall|j: int|
                0 <= j < k ==> argument_valid(#[trigger] atom.args@[j], parameters as nat),
        decreases atom.args@.len() - k,
    {
        if !check_argument(&atom.args[k], parameters) {
            return false;
        }
        k += 1;
    }
    true
}

/// Decides [`precondition_valid`].
pub fn check_precondition(atom: &Atom, parameters: usize) -> (r: bool)
    ensures
        r == precondition_valid(*atom, parameters as nat),
{
    if !check_atom(atom, parameters) {
        return false;
    }
    if atom.args.len() == 1 {
        match &atom.args[0] {
            Argument::Index(_) => true,
            Argument::Const(_) => false,
        }
    } else {
        true
    }
}

/// Decides [`action_valid`].
pub fn check_action(action: &Action, types: usize) -> (r: bool)
    ensures
        r == action_valid(*action, types as nat),
{
    let parameters = action.parameters.len();
    let mut p: usize = 0;
    while p < action.parameters.len()
        invariant
            p <= action.parameters@.len(),
            forall|j: int| 0 <= j < p ==> (#[trigger] action.parameters@[j]).type_index < types,
        decreases action.parameters@.len() - p,
    {
        if action.parameters[p].type_index >= types {
            return false;
        }
        p += 1;
    }
    let mut k: usize = 0;
    while k < action.precondition.len()
        invariant
            parameters == action.parameters@.len(),
            k <= action.precondition@.len(),
            forall|j: int|
                0 <= j < k ==> precondition_valid(
                    #[trigger] action.precondition@[j],
                    parameters as nat,
                ),
        decreases action.precondition@.len() - k,
    {
        if !check_precondition(&action.precondition[k], parameters) {
            return false;
        }
        k += 1;
    }
    let mut k: usize = 0;
    while k < action.effect.len()
        invariant
            parameters == action.parameters@.len(),
            k <= action.effect@.len(),
            forall|j: int|
                0 <= j < k ==> atom_valid(#[trigger] action.effect@[j], parameters as nat),
        decreases action.effect@.len() - k,
    {
        if !check_atom(&action.effect[k], parameters) {
            return false;
        }
        k += 1;
    }
    true
}

/// Decides [`objects_valid`].
pub fn check_objects(objects: &Vec<usize>) -> (r: bool)
    ensures
        r == objects_valid(objects@),
{
    let mut o: usize = 0;
    while o < objects.len()
        invariant
            o <= objects@.len(),
            forall|j: int| 0 <= j < o ==> #[trigger] objects@[j] <= MAX_OBJECT,
        decreases objects@.len() - o,
    {
        if objects[o] > MAX_OBJECT {
            return false;
        }
        o += 1;
    }
    true
}

/// Decides [`task_valid`]: whether the search may ask for the successors of states of `task`.
pub fn task_is_valid(task: &Task) -> (r: bool)
    ensures
        r == task_valid(*task),
{
    let typed = objects_typed(task);
    let mut t: usize = 0;
    while t < typed.len()
        invariant
            typed@ == task_objects_typed(*task),
            t <= typed@.len(),
            forall|j: int| 0 <= j < t ==> objects_valid((#[trigger] typed@[j])@),
        decreases typed@.len() - t,
    {
        if !check_objects(&typed[t]) {
            return false;
        }
        t += 1;
    }
    let all = actions(task);
    let mut a: usize = 0;
    while a < all.len()
        invariant
            typed@ == task_objects_typed(*task),
            all@ == task_actions(*task),
            a <= all@.len(),
            forall|j: int| 0 <= j < a ==> action_valid(#[trigger] all@[j], typed@.len()),
        decreases all@.len() - a,
    {
        if !check_action(&all[a], typed.len()) {
            return false;
        }
        a += 1;
    }
    true
}

} // verus!
