//! The timer task: the timing wheel together with the connections that its
//! timers belong to.

pub mod commands;
pub mod global;
pub mod index;
pub mod laws;
pub mod schedule;
pub mod types;
