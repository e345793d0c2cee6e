//! The loop of a timer task: what it does about each thing that wakes it up.

use vstd::prelude::*;

verus! {

/// The time between two looks at how often to advance, in nanoseconds.
pub const INTERVAL_UPDATE_PERIOD: u64 = 1_000_000_000;

/// What woke the loop up.
#[derive(Clone, Copy, Debug, PartialEq, Eq, Structural)]
pub enum LoopEvent {
    /// A command was carried out; `shutdown` says whether it was the one to end.
    Command { shutdown: bool },
    /// The time between two advances is over.
    IntervalTick,
    /// The first timer is due.
    Wakeup,
    /// It is time to look at how often to advance.
    UpdateDue,
}

/// What the loop does next.
#[derive(Clone, Copy, Debug, PartialEq, Eq, Structural)]
pub enum LoopAction {
    /// Wait for the next event.
    Wait,
    /// Advance the wheel.
    Advance,
    /// Advance every `interval` nanoseconds from now on.
    SetInterval { interval: u64 },
    /// End.
    Stop,
}

/// How often the loop advances, and when it looks at that again.
#[derive(Clone, Copy, Debug, PartialEq, Eq, Structural)]
pub struct AdvanceSchedule {
    pub interval: u64,
    pub next_update: u64,
}

impl AdvanceSchedule {
    /// Advances every `interval` nanoseconds from `now` on.
    pub fn new(interval: u64, now: u64) -> (schedule: Self)
        requires
            now + INTERVAL_UPDATE_PERIOD <= u64::MAX,
        ensures
            schedule.interval == interval,
            schedule.next_update == now + INTERVAL_UPDATE_PERIOD,
    {
        AdvanceSchedule { interval, next_update: now + INTERVAL_UPDATE_PERIOD }
    }

    /// Whether `event`, for which the loop waited from `now` on, makes it look at
    /// how often to advance.
    pub open spec fn looks(self, event: LoopEvent, now: u64) -> bool {
        match event {
            LoopEvent::Command { shutdown } => !shutdown && now >= self.next_update,
            LoopEvent::UpdateDue => true,
            _ => false,
        }
    }

    /// What the loop does about `event`, for which it waited from `now` on;
    /// `interval` is how often it should advance with the timers that it has.
    pub fn react(&mut self, event: LoopEvent, now: u64, interval: u64) -> (action: LoopAction)
        requires
            now + INTERVAL_UPDATE_PERIOD <= u64::MAX,
        ensures
            *final(self) == (if old(self).looks(event, now) {
                AdvanceSchedule { interval, next_update: (now + INTERVAL_UPDATE_PERIOD) as u64 }
            } else {
                *old(self)
            }),
            action == (if old(self).looks(event, now) {
                LoopAction::SetInterval { interval }
            } else {
                match event {
                    LoopEvent::Command { shutdown } => if shutdown {
                        LoopAction::Stop
                    } else {
                        LoopAction::Wait
                    },
                    _ => LoopAction::Advance,
                }
            }),
    {
        match event {
            LoopEvent::Command { shutdown } => {
                if shutdown {
                    LoopAction::Stop
                } else if now >= self.next_update {
                    *self = AdvanceSchedule::new(interval, now);
                    LoopAction::SetInterval { interval }
                } else {
                    LoopAction::Wait
                }
            },
            LoopEvent::IntervalTick => LoopAction::Advance,
            LoopEvent::Wakeup => LoopAction::Advance,
            LoopEvent::UpdateDue => {
                *self = AdvanceSchedule::new(interval, now);
                LoopAction::SetInterval { interval }
            },
        }
    }
}

} // verus!
