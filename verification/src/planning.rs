//! The planning model that the search consumes, as `pddllib` provides it: tasks, states and
//! facts, the goal test and successor generation.
//!
//! A `State` and a `Fact` are values whose inside the search never reads; it compares states,
//! asks whether a fact holds in one, and asks for the states that follow one. What those
//! questions return is named here by specification functions without a body, and every
//! contract of the search speaks of these names.
//!
//! Nothing here is proved: the contract of each function says what the source of `pddllib`
//! shows of the function it calls or the field it reads.

use crate::validity::task_valid;
use pddllib::state::{Fact, State};
use pddllib::task::action::{Action, Argument, Atom, AtomKind};
use pddllib::task::parameter::Parameter;
use pddllib::task::Task;
use vstd::prelude::*;

verus! {

/// `pddllib::state::State`, a set of facts. Two states are the same value exactly when they
/// hold the same facts, which is also what `==` and the hash derived for the type go by.
#[verifier::external_type_specification]
#[verifier::external_body]
pub struct ExState(State);

/// `pddllib::state::Fact`, a predicate applied to objects.
#[verifier::external_type_specification]
#[verifier::external_body]
pub struct ExFact(Fact);

/// `pddllib::task::Task`, a planning problem.
#[verifier::external_type_specification]
#[verifier::external_body]
pub struct ExTask(Task);

/// `pddllib::task::action::AtomKind`, with its variants.
#[verifier::external_type_specification]
pub struct ExAtomKind(AtomKind);

/// `pddllib::task::action::Argument`, with its variants.
#[verifier::external_type_specification]
pub struct ExArgument(Argument);

/// `pddllib::task::action::Atom`, with its fields.
#[verifier::external_type_specification]
pub struct ExAtom(Atom);

/// `pddllib::task::parameter::Parameter`, with its fields.
#[verifier::external_type_specification]
pub struct ExParameter(Parameter);

/// `pddllib::task::action::Action`, with its fields.
#[verifier::external_type_specification]
pub struct ExAction(Action);

/// The actions of a task, in the order of its field `actions`.
pub uninterp spec fn task_actions(task: Task) -> Seq<Action>;

/// The objects of each type of a task, as its field `objects_typed` lists them.
pub uninterp spec fn task_objects_typed(task: Task) -> Seq<Vec<usize>>;

/// The goal condition of a task: facts with the truth value each must have.
pub uninterp spec fn task_goal(task: Task) -> Seq<(Fact, bool)>;

/// Whether `fact` holds in `state`, as `State::has_fact` answers it for `task`.
pub uninterp spec fn fact_holds(task: Task, state: State, fact: Fact) -> bool;

/// The states that `pddllib::successor_generation::successors` gives for `state`, in its order.
pub uninterp spec fn successor_states(task: Task, state: State) -> Seq<State>;

/// Every fact of the goal condition has its required truth value in `state`.
pub open spec fn goal_satisfied(task: Task, state: State) -> bool {
    forall|i: int|
        0 <= i < task_goal(task).len() ==> fact_holds(task, state, (#[trigger] task_goal(
            task,
        )[i]).0) == task_goal(task)[i].1
}

/// `state` is one of the states that follow `from` in `task`.
pub open spec fn is_successor(task: Task, from: State, state: State) -> bool {
    successor_states(task, from).contains(state)
}

/// Reads the field `actions` of a `pddllib` task. Trusted: the result is what
/// `task_actions` names.
#[verifier::external_body]
pub(crate) fn actions(task: &Task) -> (r: &Vec<Action>)
    ensures
        r@ == task_actions(*task),
{
    &task.actions
}

/// Reads the field `objects_typed` of a `pddllib` task. Trusted: the result is what
/// `task_objects_typed` names.
#[verifier::external_body]
pub(crate) fn objects_typed(task: &Task) -> (r: &Vec<Vec<usize>>)
    ensures
        r@ == task_objects_typed(*task),
{
    &task.objects_typed
}

/// Reads the field `goal` of a `pddllib` task. Trusted: the result is what `task_goal` names.
#[verifier::external_body]
pub(crate) fn goal(task: &Task) -> (r: &Vec<(Fact, bool)>)
    ensures
        r@ == task_goal(*task),
{
    &task.goal
}

/// Calls `State::has_fact`, which looks the fact up among the static facts of the task and the
/// facts of the state. Trusted: the answer depends on the three values alone, and `fact_holds`
/// names it.
#[verifier::external_body]
pub(crate) fn has_fact(task: &Task, state: &State, fact: &Fact) -> (r: bool)
    ensures
        r == fact_holds(*task, *state, *fact),
{
    state.has_fact(task, fact)
}

/// Calls `State::covers` with the goal of the task. Trusted: as its source shows, it answers
/// whether `has_fact` gives the required value for every entry of the goal.
#[verifier::external_body]
pub(crate) fn covers(task: &Task, state: &State) -> (r: bool)
    ensures
        r == goal_satisfied(*task, *state),
{
    state.covers(task, &task.goal)
}

/// Calls `pddllib::successor_generation::successors`. Trusted: the result depends on the task
/// and the state alone, and `successor_states` names it. On a task outside `task_valid` the
/// call may index out of range or meet an argument form that it does not handle; those tasks
/// are left out.
#[verifier::external_body]
pub(crate) fn successors(task: &Task, state: &State) -> (r: Vec<State>)
    requires
        task_valid(*task),
    ensures
        r@ == successor_states(*task, *state),
{
    pddllib::successor_generation::successors(task, state)
}

/// Calls `State::clone`. Trusted: the copy is the same value.
#[verifier::external_body]
pub(crate) fn clone_state(state: &State) -> (r: State)
    ensures
        r == *state,
{
    state.clone()
}

} // verus!
