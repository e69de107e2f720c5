//! Typed-context propagation and command dispatch for command-line programs.
//!
//! A parsed command line is described as the selected branch of a command
//! tree (`command`). Walking it (`walk`) collects the fields of each node into
//! a context bag that holds one value per type (`params`, `anymap`, keyed by
//! the tags of `tag`), runs the handler of each node with parameters resolved
//! from the bag by type (`handler`), and applies the effect that the handler
//! returns (`effects`) before the nodes below it run; `record` keeps the
//! record of the handler calls, which the contracts of a run speak of.
//! `dispatch` drives one invocation from a checked tree to its result and
//! exit code (`error`); `laws` states and proves what holds of every walk.
use vstd::prelude::*;

pub mod anymap;
pub mod command;
pub mod dispatch;
pub mod effects;
pub mod error;
pub mod handler;
pub mod input;
pub mod laws;
pub mod params;
pub mod record;
pub mod tag;
pub mod walk;

verus! {

} // verus!
