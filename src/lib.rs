//! Decision engine of a small cluster scheduler: quantities, resource
//! ledgers, admission predicates, the candidate-sampling state machine and
//! the per-pod reconciliation state machine.

pub mod model;
pub mod quantity;
pub mod resources;
pub mod predicates;
pub mod picker;
pub mod reconciler;
