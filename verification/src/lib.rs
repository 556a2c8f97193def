//! Heuristic best-first search for classical planning.
//!
//! Given a planning task, the search looks in the graph of its states for a path from the
//! initial state to a state that satisfies the goal. Tasks, states and successor generation
//! come from `pddllib`; this crate is the search itself:
//!
//! - [`queue`]: the open list, a priority queue ordered by estimate and then by node index;
//! - [`parents`]: the parent map, which holds every generated state once and from which a
//!   plan is read off;
//! - [`heuristic`] and [`evaluator`]: estimates of the remaining work, and the counting and
//!   timing of their computation;
//! - [`search`]: what a step of the search does, the eager and the lazy strategy, and what
//!   holds of every search;
//! - [`planning`] and [`validity`]: the planning model as the search sees it, and the tasks
//!   that successor generation can work on;
//! - [`ordered_map`] and [`clock`]: the map of `indexmap` that the parent map is kept in, and
//!   the time that the evaluator measures with.

pub mod clock;
pub mod evaluator;
pub mod heuristic;
pub mod ordered_map;
pub mod parents;
pub mod planning;
pub mod queue;
pub mod search;
pub mod validity;

pub use parents::{trace, ParentMap};
