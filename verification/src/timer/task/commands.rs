//! Commands to the timer task, its answers, errors and statistics.

use vstd::prelude::*;

use crate::timer::event::ConnectionId;
use crate::timer::task::types::{
    BatchTimerCancellation, BatchTimerRegistration, BatchTimerResult, TimerHandle,
    TimerRegistration,
};
use crate::timer::wheel::TimingWheelStats;

verus! {

/// Commands to the timer task.
#[derive(Debug)]
pub enum TimerTaskCommand<E, C> {
    RegisterTimer { registration: TimerRegistration<E, C> },
    BatchRegisterTimers { batch_registration: BatchTimerRegistration<E, C> },
    CancelTimer { entry_id: u64 },
    BatchCancelTimers { batch_cancellation: BatchTimerCancellation },
    ClearConnectionTimers { connection_id: ConnectionId },
    GetStats,
    Shutdown,
}

/// The answer to a command.
#[derive(Debug)]
pub enum TimerTaskResponse {
    Registered(Result<TimerHandle, TimerError>),
    BatchRegistered(BatchTimerResult<TimerHandle>),
    Cancelled(bool),
    BatchCancelled(BatchTimerResult<bool>),
    Cleared(usize),
    Stats(TimerTaskStats),
    /// The task is to end.
    ShuttingDown,
}

/// What can go wrong with a timer.
#[derive(Debug, PartialEq, Eq)]
pub enum TimerError {
    /// The task that owns the timers has ended.
    TaskShutdown,
    /// A channel to the task does not work.
    ChannelError(String),
    /// There is no such timer.
    TimerNotFound,
}

/// Figures on the timer task.
#[derive(Clone, Copy, Debug, PartialEq, Eq, Structural)]
pub struct TimerTaskStats {
    /// Timers in the wheel.
    pub total_timers: usize,
    /// Connections that have a timer.
    pub active_connections: usize,
    /// Timers that have fired.
    pub processed_timers: u64,
    /// Timers that were cancelled.
    pub cancelled_timers: u64,
    pub wheel_stats: TimingWheelStats,
}

} // verus!
