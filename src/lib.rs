//! Time tracking on named tasks: a punch state machine over a store of
//! intervals, and reports of the time spent per task.

pub mod text;
pub mod clock;
pub mod store;
pub mod ledger;
pub mod laws;
