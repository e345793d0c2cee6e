//! Requests to the timer task, their results, and the callbacks that timers
//! are reported to.

use std::marker::PhantomData;
use vstd::prelude::*;

use crate::timer::event::{ConnectionId, TimerEventData};
use crate::timer::task::commands::TimerError;

verus! {

/// Something that a fired timer is reported to.
pub trait TimerCallback<E>: Sized {
    /// Whether the callback may be called with `event_data`.
    spec fn takes(&self, event_data: TimerEventData<E>) -> bool;

    /// Whether the callback may answer `event_data` with `result`.
    spec fn answers(&self, event_data: TimerEventData<E>, result: Result<(), ()>) -> bool;

    /// Reports a fired timer.
    fn on_timeout(&self, event_data: TimerEventData<E>) -> (result: Result<(), ()>)
        requires
            self.takes(event_data),
        ensures
            self.answers(event_data, result),
    ;
}

/// A callback that calls a closure.
pub struct ClosureCallback<E, F: Fn(TimerEventData<E>) -> Result<(), ()>> {
    callback: F,
    _phantom: PhantomData<E>,
}

impl<E, F: Fn(TimerEventData<E>) -> Result<(), ()>> ClosureCallback<E, F> {
    /// The closure that is called.
    pub closed spec fn closure(&self) -> F {
        self.callback
    }

    pub fn new(callback: F) -> (result: Self)
        ensures
            result.closure() == callback,
    {
        ClosureCallback { callback, _phantom: PhantomData }
    }
}

impl<E, F: Fn(TimerEventData<E>) -> Result<(), ()>> TimerCallback<E> for ClosureCallback<E, F> {
    open spec fn takes(&self, event_data: TimerEventData<E>) -> bool {
        call_requires(self.closure(), (event_data,))
    }

    open spec fn answers(&self, event_data: TimerEventData<E>, result: Result<(), ()>) -> bool {
        call_ensures(self.closure(), (event_data,), result)
    }

    fn on_timeout(&self, event_data: TimerEventData<E>) -> (result: Result<(), ()>) {
        (self.callback)(event_data)
    }
}

/// A callback that does nothing.
pub struct NoOpCallback<E> {
    _phantom: PhantomData<E>,
}

impl<E> NoOpCallback<E> {
    pub fn new() -> Self {
        NoOpCallback { _phantom: PhantomData }
    }
}

impl<E> TimerCallback<E> for NoOpCallback<E> {
    open spec fn takes(&self, event_data: TimerEventData<E>) -> bool {
        true
    }

    open spec fn answers(&self, event_data: TimerEventData<E>, result: Result<(), ()>) -> bool {
        result == Ok::<(), ()>(())
    }

    fn on_timeout(&self, event_data: TimerEventData<E>) -> (result: Result<(), ()>) {
        Ok(())
    }
}

/// A request for a timer that fires `delay` nanoseconds from now.
#[derive(Debug, PartialEq, Eq)]
pub struct TimerRegistration<E, C> {
    pub connection_id: ConnectionId,
    pub delay: u64,
    pub timeout_event: E,
    pub callback: C,
}

/// A request for a timer that nobody is told of.
pub type NoOpTimerRegistration<E> = TimerRegistration<E, NoOpCallback<E>>;

impl<E, C> TimerRegistration<E, C> {
    pub fn new(connection_id: ConnectionId, delay: u64, timeout_event: E, callback: C) -> (result:
        Self)
        ensures
            result == (TimerRegistration { connection_id, delay, timeout_event, callback }),
    {
        TimerRegistration { connection_id, delay, timeout_event, callback }
    }
}

impl<E> TimerRegistration<E, NoOpCallback<E>> {
    pub fn with_no_op(connection_id: ConnectionId, delay: u64, timeout_event: E) -> (result: Self)
        ensures
            result.connection_id == connection_id,
            result.delay == delay,
            result.timeout_event == timeout_event,
    {
        TimerRegistration::new(connection_id, delay, timeout_event, NoOpCallback::new())
    }
}

impl<E, F: Fn(TimerEventData<E>) -> Result<(), ()>> TimerRegistration<E, ClosureCallback<E, F>> {
    pub fn with_closure(
        connection_id: ConnectionId,
        delay: u64,
        timeout_event: E,
        callback: F,
    ) -> (result: Self)
        ensures
            result.connection_id == connection_id,
            result.delay == delay,
            result.timeout_event == timeout_event,
            result.callback.closure() == callback,
    {
        TimerRegistration::new(connection_id, delay, timeout_event, ClosureCallback::new(callback))
    }
}

/// A request for several timers.
#[derive(Debug, PartialEq, Eq)]
pub struct BatchTimerRegistration<E, C> {
    pub registrations: Vec<TimerRegistration<E, C>>,
}

impl<E, C> BatchTimerRegistration<E, C> {
    pub fn new(registrations: Vec<TimerRegistration<E, C>>) -> (result: Self)
        ensures
            result.registrations == registrations,
    {
        BatchTimerRegistration { registrations }
    }

    /// A batch without requests, with room for `capacity` of them.
    pub fn with_capacity(capacity: usize) -> (result: Self)
        ensures
            result.registrations@ == Seq::<TimerRegistration<E, C>>::empty(),
    {
        BatchTimerRegistration { registrations: Vec::with_capacity(capacity) }
    }

    pub fn add(&mut self, registration: TimerRegistration<E, C>)
        ensures
            final(self).registrations@ == old(self).registrations@.push(registration),
    {
        self.registrations.push(registration);
    }
}

/// A request to cancel several timers.
#[derive(Debug, PartialEq, Eq)]
pub struct BatchTimerCancellation {
    pub entry_ids: Vec<u64>,
}

impl BatchTimerCancellation {
    pub fn new(entry_ids: Vec<u64>) -> (result: Self)
        ensures
            result.entry_ids == entry_ids,
    {
        BatchTimerCancellation { entry_ids }
    }

    /// A batch without timers, with room for `capacity` of them.
    pub fn with_capacity(capacity: usize) -> (result: Self)
        ensures
            result.entry_ids@ == Seq::<u64>::empty(),
    {
        BatchTimerCancellation { entry_ids: Vec::with_capacity(capacity) }
    }

    pub fn add(&mut self, entry_id: u64)
        ensures
            final(self).entry_ids@ == old(self).entry_ids@.push(entry_id),
    {
        self.entry_ids.push(entry_id);
    }
}

/// What became of a batch: the results of what succeeded, and the positions and
/// errors of what did not.
#[derive(Debug, PartialEq, Eq)]
pub struct BatchTimerResult<T> {
    pub successes: Vec<T>,
    pub failures: Vec<(usize, TimerError)>,
}

impl<T> Default for BatchTimerResult<T> {
    fn default() -> (result: Self)
        ensures
            result.successes@ == Seq::<T>::empty(),
            result.failures@ == Seq::<(usize, TimerError)>::empty(),
    {
        BatchTimerResult::new()
    }
}

impl<T> BatchTimerResult<T> {
    pub fn new() -> (result: Self)
        ensures
            result.successes@ == Seq::<T>::empty(),
            result.failures@ == Seq::<(usize, TimerError)>::empty(),
    {
        BatchTimerResult { successes: Vec::new(), failures: Vec::new() }
    }

    /// A result without entries, with room for `capacity` successes.
    pub fn with_capacity(capacity: usize) -> (result: Self)
        ensures
            result.successes@ == Seq::<T>::empty(),
            result.failures@ == Seq::<(usize, TimerError)>::empty(),
    {
        BatchTimerResult { successes: Vec::with_capacity(capacity), failures: Vec::new() }
    }

    pub fn success_count(&self) -> (n: usize)
        ensures
            n == self.successes@.len(),
    {
        self.successes.len()
    }

    pub fn failure_count(&self) -> (n: usize)
        ensures
            n == self.failures@.len(),
    {
        self.failures.len()
    }

    pub fn all_succeeded(&self) -> (all: bool)
        ensures
            all == (self.failures@.len() == 0),
    {
        self.failures.len() == 0
    }
}

/// Stands for a registered timer.
#[derive(Clone, Copy, Debug, PartialEq, Eq, Structural)]
pub struct TimerHandle {
    pub entry_id: u64,
}

impl TimerHandle {
    pub fn new(entry_id: u64) -> (handle: Self)
        ensures
            handle.entry_id == entry_id,
    {
        TimerHandle { entry_id }
    }
}

} // verus!
