use pddl_search::evaluator::Evaluator;
use pddl_search::heuristic::HeuristicKind;
use pddl_search::search::gbfs::GBFS;
use pddl_search::search::lgbfs::LGBFS;
use pddl_search::search::{try_step, Error, SearchAlgorithm};
use pddl_search::validity::task_is_valid;
use pddllib::state::{Fact, State};
use pddllib::successor_generation::successors;
use pddllib::task::action::{Action, Argument, Atom, AtomKind};
use pddllib::task::parameter::Parameter;
use pddllib::task::Task;
use pddllib::translation::translate;
use std::collections::BTreeSet;

const AT: usize = 0;
const ADJACENT: usize = 1;

fn literal(predicate: usize, args: Vec<Argument>, value: bool) -> Atom {
    Atom { predicate, kind: AtomKind::Fact, args, value }
}

fn plain_task(actions: Vec<Action>, init: State, goal: Vec<(Fact, bool)>) -> Task {
    Task {
        domain_name: None,
        problem_name: None,
        types: Vec::new(),
        predicates: Vec::new(),
        actions,
        objects: Vec::new(),
        objects_typed: Vec::new(),
        init,
        goal,
        static_predicates: BTreeSet::new(),
        static_facts: BTreeSet::new(),
    }
}

/// One fact `at`, false at first, to be made true by the one action.
fn switch_task() -> Task {
    let switch = Action {
        name: "switch".to_string(),
        parameters: Vec::new(),
        precondition: vec![literal(AT, Vec::new(), false)],
        effect: vec![literal(AT, Vec::new(), true)],
    };
    plain_task(vec![switch], State::new(Vec::new()), vec![(Fact::new(AT, Vec::new()), true)])
}

fn at(place: usize) -> State {
    State::new(vec![Fact::new(AT, vec![place])])
}

/// Four places with the roads 0-1, 0-2, 1-2 and 2-3, each in one direction; from 0 to 3.
fn roads_task() -> Task {
    let walk = Action {
        name: "walk".to_string(),
        parameters: vec![
            Parameter { name: "?from".to_string(), type_index: 0 },
            Parameter { name: "?to".to_string(), type_index: 0 },
        ],
        precondition: vec![
            literal(AT, vec![Argument::Index(0)], true),
            literal(ADJACENT, vec![Argument::Index(0), Argument::Index(1)], true),
        ],
        effect: vec![
            literal(AT, vec![Argument::Index(0)], false),
            literal(AT, vec![Argument::Index(1)], true),
        ],
    };
    let mut task = plain_task(vec![walk], at(0), vec![(Fact::new(AT, vec![3]), true)]);
    task.objects_typed = vec![vec![0, 1, 2, 3]];
    task.static_predicates.insert(ADJACENT);
    for (a, b) in [(0, 1), (0, 2), (1, 2), (2, 3)] {
        task.static_facts.insert(Fact::new(ADJACENT, vec![a, b]));
    }
    task
}

const DOMAIN: &str = "
(define (domain lamps)
(:requirements :strips)
(:predicates (lit ?l) (beside ?a ?b) (standing ?l))
(:action light
  :parameters (?l)
  :precondition (and (standing ?l) (not (lit ?l)))
  :effect (lit ?l))
(:action walk
  :parameters (?a ?b)
  :precondition (and (standing ?a) (beside ?a ?b))
  :effect (and (standing ?b) (not (standing ?a)))))
";

const PROBLEM: &str = "
(define (problem lamps-3)
 (:domain lamps)
 (:objects l1 l2 l3 - object)
 (:init (standing l1) (beside l1 l2) (beside l2 l3) (beside l3 l1))
 (:goal (and (lit l1) (lit l2) (lit l3))))
";

fn evaluator(task: &Task) -> Evaluator {
    Evaluator::new(task, HeuristicKind::GoalCount)
}

fn run_to_end<S: SearchAlgorithm>(
    search: &mut S,
    task: &Task,
    limit: usize,
) -> Result<Vec<State>, Error> {
    for _ in 0..limit {
        match search.step(task) {
            Err(Error::Unfinished) => {},
            done => return done,
        }
    }
    Err(Error::Unfinished)
}

fn assert_is_plan(task: &Task, plan: &[State]) {
    assert!(!plan.is_empty());
    assert_eq!(plan[0], task.init);
    assert!(plan[plan.len() - 1].covers(task, &task.goal));
    for pair in plan.windows(2) {
        assert!(successors(task, &pair[0]).contains(&pair[1]));
    }
}

#[test]
fn eager_search_solves_the_switch_in_two_steps() {
    let task = switch_task();
    assert!(task_is_valid(&task));
    let mut search = GBFS::new(&task.init, evaluator(&task));
    assert_eq!(search.generated_count(), 0);
    assert_eq!(search.step(&task), Err(Error::Unfinished));
    assert_eq!(search.generated_count(), 1);
    assert_eq!(search.evaluator().estimates(), 1);
    let plan = search.step(&task).unwrap();
    assert_eq!(plan.len(), 2);
    assert_eq!(plan[0], State::new(Vec::new()));
    assert_eq!(plan[1], State::new(vec![Fact::new(AT, Vec::new())]));
    assert_eq!(search.generated_count(), 1);
}

#[test]
fn lazy_search_solves_the_switch_in_two_steps() {
    let task = switch_task();
    let mut search = LGBFS::new(&task.init, evaluator(&task));
    assert_eq!(search.generated_count(), 0);
    assert_eq!(search.step(&task), Err(Error::Unfinished));
    assert_eq!(search.generated_count(), 1);
    assert_eq!(search.evaluator().estimates(), 1);
    let plan = search.step(&task).unwrap();
    assert_eq!(plan, vec![State::new(Vec::new()), State::new(vec![Fact::new(AT, Vec::new())])]);
}

#[test]
fn goal_count_of_the_switch_is_one_then_zero() {
    let task = switch_task();
    let mut evaluator = evaluator(&task);
    assert_eq!(evaluator.estimate(&task, &task.init), 1);
    assert_eq!(evaluator.estimate(&task, &State::new(vec![Fact::new(AT, Vec::new())])), 0);
}

#[test]
fn both_strategies_end_at_once_where_the_initial_state_is_a_goal() {
    let mut task = switch_task();
    task.init = State::new(vec![Fact::new(AT, Vec::new())]);
    let mut eager = GBFS::new(&task.init, evaluator(&task));
    assert_eq!(eager.step(&task), Ok(vec![task.init.clone()]));
    assert_eq!(eager.generated_count(), 0);
    assert_eq!(eager.evaluator().estimates(), 0);
    let mut lazy = LGBFS::new(&task.init, evaluator(&task));
    assert_eq!(lazy.step(&task), Ok(vec![task.init.clone()]));
    assert_eq!(lazy.generated_count(), 0);
    assert_eq!(lazy.evaluator().estimates(), 0);
}

#[test]
fn empty_goal_is_satisfied_by_the_initial_state() {
    let mut task = roads_task();
    task.goal = Vec::new();
    let mut search = GBFS::new(&task.init, evaluator(&task));
    assert_eq!(search.step(&task), Ok(vec![at(0)]));
}

#[test]
fn search_without_actions_is_unsolvable() {
    let goal = vec![(Fact::new(AT, Vec::new()), true)];
    let task = plain_task(Vec::new(), State::new(Vec::new()), goal);
    let mut eager = GBFS::new(&task.init, evaluator(&task));
    assert_eq!(eager.step(&task), Err(Error::Unfinished));
    assert_eq!(eager.step(&task), Err(Error::Unsolvable));
    assert_eq!(eager.generated_count(), 0);
    assert_eq!(eager.evaluator().estimates(), 0);
    let mut lazy = LGBFS::new(&task.init, evaluator(&task));
    assert_eq!(lazy.step(&task), Err(Error::Unfinished));
    assert_eq!(lazy.step(&task), Err(Error::Unsolvable));
    assert_eq!(lazy.generated_count(), 0);
    assert_eq!(lazy.evaluator().estimates(), 1);
}

#[test]
fn search_that_cannot_reach_the_goal_is_unsolvable() {
    let mut task = roads_task();
    task.static_facts.remove(&Fact::new(ADJACENT, vec![2, 3]));
    let mut search = GBFS::new(&task.init, evaluator(&task));
    assert_eq!(run_to_end(&mut search, &task, 100), Err(Error::Unsolvable));
    assert_eq!(search.generated_count(), 3);
    assert_eq!(search.evaluator().estimates(), 2);
}

#[test]
fn eager_search_walks_the_roads() {
    let task = roads_task();
    assert!(task_is_valid(&task));
    let mut search = GBFS::new(&task.init, evaluator(&task));
    assert_eq!(search.step(&task), Err(Error::Unfinished));
    assert_eq!(search.generated_count(), 2);
    assert_eq!(search.evaluator().estimates(), 2);
    assert_eq!(search.step(&task), Err(Error::Unfinished));
    assert_eq!(search.generated_count(), 3);
    assert_eq!(search.evaluator().estimates(), 2);
    assert_eq!(search.step(&task), Err(Error::Unfinished));
    assert_eq!(search.generated_count(), 4);
    assert_eq!(search.evaluator().estimates(), 3);
    assert_eq!(search.step(&task), Ok(vec![at(0), at(2), at(3)]));
    assert_eq!(search.generated_count(), 4);
    assert_eq!(search.evaluator().estimates(), 3);
}

#[test]
fn lazy_search_walks_the_roads() {
    let task = roads_task();
    let mut search = LGBFS::new(&task.init, evaluator(&task));
    assert_eq!(search.step(&task), Err(Error::Unfinished));
    assert_eq!(search.generated_count(), 2);
    assert_eq!(search.evaluator().estimates(), 1);
    assert_eq!(search.step(&task), Err(Error::Unfinished));
    assert_eq!(search.generated_count(), 3);
    assert_eq!(search.evaluator().estimates(), 2);
    assert_eq!(search.step(&task), Err(Error::Unfinished));
    assert_eq!(search.generated_count(), 4);
    assert_eq!(search.evaluator().estimates(), 3);
    assert_eq!(search.step(&task), Ok(vec![at(0), at(2), at(3)]));
    assert_eq!(search.evaluator().estimates(), 3);
}

#[test]
fn eager_search_prefers_the_better_estimate() {
    let mut task = roads_task();
    task.static_facts.insert(Fact::new(ADJACENT, vec![0, 3]));
    let mut search = GBFS::new(&task.init, evaluator(&task));
    assert_eq!(search.step(&task), Err(Error::Unfinished));
    assert_eq!(search.generated_count(), 3);
    assert_eq!(search.step(&task), Ok(vec![at(0), at(3)]));
}

#[test]
fn lazy_search_expands_in_the_order_of_generation_among_equals() {
    let mut task = roads_task();
    task.static_facts.insert(Fact::new(ADJACENT, vec![0, 3]));
    let mut search = LGBFS::new(&task.init, evaluator(&task));
    assert_eq!(search.step(&task), Err(Error::Unfinished));
    assert_eq!(search.generated_count(), 3);
    assert_eq!(search.step(&task), Err(Error::Unfinished));
    assert_eq!(search.generated_count(), 4);
    assert_eq!(search.step(&task), Err(Error::Unfinished));
    assert_eq!(search.generated_count(), 5);
    assert_eq!(search.step(&task), Ok(vec![at(0), at(3)]));
    assert_eq!(search.evaluator().estimates(), 3);
}

#[test]
fn evaluator_keeps_its_count_when_it_joins_a_search() {
    let task = switch_task();
    let mut evaluator = evaluator(&task);
    evaluator.estimate(&task, &task.init);
    evaluator.estimate(&task, &task.init);
    let mut search = GBFS::new(&task.init, evaluator);
    assert_eq!(search.evaluator().estimates(), 2);
    assert_eq!(search.step(&task), Err(Error::Unfinished));
    assert_eq!(search.evaluator().estimates(), 3);
}

#[test]
fn try_step_refuses_a_task_that_is_not_valid() {
    let mut task = switch_task();
    task.actions[0].effect[0].args = vec![Argument::Index(0)];
    assert!(!task_is_valid(&task));
    let mut search = GBFS::new(&task.init, evaluator(&task));
    assert_eq!(try_step(&mut search, &task), None);
    assert_eq!(search.generated_count(), 0);
    let good = switch_task();
    assert_eq!(try_step(&mut search, &good), Some(Err(Error::Unfinished)));
    assert_eq!(search.generated_count(), 1);
    assert_eq!(try_step(&mut search, &good).unwrap().unwrap().len(), 2);
}

#[test]
fn parsed_task_is_valid_and_solved_by_both_strategies() {
    let task = translate(DOMAIN, PROBLEM).unwrap();
    assert!(task_is_valid(&task));
    let mut eager = GBFS::new(&task.init, evaluator(&task));
    let plan = run_to_end(&mut eager, &task, 10_000).unwrap();
    assert_is_plan(&task, &plan);
    let mut lazy = LGBFS::new(&task.init, evaluator(&task));
    let plan = run_to_end(&mut lazy, &task, 10_000).unwrap();
    assert_is_plan(&task, &plan);
}

#[test]
fn repeated_runs_are_identical() {
    let task = translate(DOMAIN, PROBLEM).unwrap();
    let mut first = GBFS::new(&task.init, evaluator(&task));
    let mut second = GBFS::new(&task.init, evaluator(&task));
    loop {
        let a = first.step(&task);
        let b = second.step(&task);
        assert_eq!(a, b);
        assert_eq!(first.generated_count(), second.generated_count());
        assert_eq!(first.evaluator().estimates(), second.evaluator().estimates());
        if a != Err(Error::Unfinished) {
            break;
        }
    }
    let mut third = LGBFS::new(&task.init, evaluator(&task));
    let mut fourth = LGBFS::new(&task.init, evaluator(&task));
    assert_eq!(run_to_end(&mut third, &task, 10_000), run_to_end(&mut fourth, &task, 10_000));
    assert_eq!(third.generated_count(), fourth.generated_count());
}

#[test]
fn nodes_never_exceed_the_generated_count() {
    let task = translate(DOMAIN, PROBLEM).unwrap();
    let mut search = GBFS::new(&task.init, evaluator(&task));
    let mut evaluated = 0;
    loop {
        let result = search.step(&task);
        assert!(search.evaluator().estimates() >= evaluated);
        evaluated = search.evaluator().estimates();
        assert!(evaluated <= search.generated_count());
        if result != Err(Error::Unfinished) {
            break;
        }
    }
}

#[test]
fn task_at_the_limits_of_the_fact_encoding_is_searched() {
    let carry = Action {
        name: "carry".to_string(),
        parameters: vec![
            Parameter { name: "?a".to_string(), type_index: 0 },
            Parameter { name: "?b".to_string(), type_index: 0 },
        ],
        precondition: vec![literal(65535, vec![Argument::Index(0)], false)],
        effect: vec![
            literal(65535, vec![Argument::Index(0), Argument::Index(1), Argument::Const(65534)], true),
            literal(65535, vec![Argument::Index(0)], true),
        ],
    };
    let goal = vec![(Fact::new(65535, vec![65534, 65534, 65534]), true)];
    let mut task = plain_task(vec![carry], State::new(Vec::new()), goal);
    task.objects_typed = vec![vec![65534]];
    assert!(task_is_valid(&task));
    let mut eager = GBFS::new(&task.init, evaluator(&task));
    assert_eq!(eager.step(&task), Err(Error::Unfinished));
    assert_eq!(eager.generated_count(), 1);
    let plan = eager.step(&task).unwrap();
    assert_is_plan(&task, &plan);
    assert_eq!(plan.len(), 2);
    let mut lazy = LGBFS::new(&task.init, evaluator(&task));
    assert_eq!(run_to_end(&mut lazy, &task, 10).unwrap(), plan);
}
