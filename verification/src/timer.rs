//! Timers: the wheel, its events, and the tasks that own them.

pub mod actor;
pub mod event;
pub mod hybrid_system;
pub mod parallel;
pub mod task;
pub mod wheel;
