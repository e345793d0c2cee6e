//! The direct path for small batches, which stays on the calling thread.

use std::marker::PhantomData;
use vstd::prelude::*;

use crate::outside::{cpu_count, in_async_runtime};
use crate::timer::event::traits::{answer_of, EventDataTrait};
use crate::timer::event::zero_copy::ZeroCopyEventDelivery;
use crate::timer::event::TimerEventData;
use crate::timer::parallel::types::ProcessedTimerData;

verus! {

/// Where a batch is worked off.
#[derive(Clone, Copy, Debug, PartialEq, Eq, Structural)]
pub enum ExecutionMode {
    /// At once, on the calling thread.
    SingleThreadDirect,
    /// On one thread, by the scheduler.
    SingleThreadAsync,
    /// On several threads.
    MultiThreadParallel,
}

/// Batches up to this size go the direct path where there is one processor and
/// no runtime; larger ones go to several threads where there are several
/// processors.
pub const BYPASS_THRESHOLD: usize = 128;

/// Batches up to this size go the direct path in any case.
pub const DIRECT_BATCH_SIZE: usize = 64;

/// The mode for a batch of `batch_size` timers.
pub open spec fn mode_for(
    batch_size: usize,
    thread_count: usize,
    in_runtime: bool,
) -> ExecutionMode {
    if batch_size <= DIRECT_BATCH_SIZE || (batch_size <= BYPASS_THRESHOLD && thread_count == 1
        && !in_runtime) {
        ExecutionMode::SingleThreadDirect
    } else if batch_size > BYPASS_THRESHOLD && thread_count > 1 {
        ExecutionMode::MultiThreadParallel
    } else {
        ExecutionMode::SingleThreadAsync
    }
}

/// Chooses the mode for a batch; `in_runtime` says whether the caller runs inside
/// an asynchronous runtime.
pub fn choose_mode_for(batch_size: usize, thread_count: usize, in_runtime: bool) -> (mode:
    ExecutionMode)
    ensures
        mode == mode_for(batch_size, thread_count, in_runtime),
{
    if thread_count == 1 && !in_runtime && batch_size <= BYPASS_THRESHOLD {
        ExecutionMode::SingleThreadDirect
    } else if batch_size <= DIRECT_BATCH_SIZE {
        ExecutionMode::SingleThreadDirect
    } else if batch_size > BYPASS_THRESHOLD && thread_count > 1 {
        ExecutionMode::MultiThreadParallel
    } else {
        ExecutionMode::SingleThreadAsync
    }
}

/// Whether `inside` may be the answer where the caller asks if it runs inside an
/// asynchronous runtime. The answer depends on where the call is made.
pub closed spec fn runtime_answer(inside: bool) -> bool {
    call_ensures(in_async_runtime, (), inside)
}

/// An answer is one that the search for a runtime itself gives.
pub(crate) proof fn law_answers_come_from_the_search_for_a_runtime(inside: bool)
    ensures
        runtime_answer(inside) <==> call_ensures(in_async_runtime, (), inside),
{
}

/// Chooses modes for the machine that it was made on.
pub struct ExecutionModeSelector {
    thread_count: usize,
    in_tokio_runtime: bool,
}

impl ExecutionModeSelector {
    pub closed spec fn threads(&self) -> usize {
        self.thread_count
    }

    /// Whether the last choice was made inside a runtime.
    pub closed spec fn in_runtime(&self) -> bool {
        self.in_tokio_runtime
    }

    /// A selector for the processors of this machine.
    pub fn new() -> (selector: Self)
        ensures
            selector.threads() >= 1,
            !selector.in_runtime(),
    {
        ExecutionModeSelector { thread_count: cpu_count(), in_tokio_runtime: false }
    }

    /// The mode for a batch, which depends on where this is called from.
    pub fn choose_mode(&mut self, batch_size: usize) -> (mode: ExecutionMode)
        ensures
            mode == mode_for(batch_size, old(self).threads(), final(self).in_runtime()),
            final(self).threads() == old(self).threads(),
            runtime_answer(final(self).in_runtime()),
    {
        self.in_tokio_runtime = answer_of(in_async_runtime);
        choose_mode_for(batch_size, self.thread_count, self.in_tokio_runtime)
    }

    /// Whether a batch goes the direct path.
    pub fn should_bypass_async(&mut self, batch_size: usize) -> (bypass: bool)
        ensures
            bypass == (mode_for(batch_size, old(self).threads(), final(self).in_runtime())
                is SingleThreadDirect),
            final(self).threads() == old(self).threads(),
            runtime_answer(final(self).in_runtime()),
    {
        match self.choose_mode(batch_size) {
            ExecutionMode::SingleThreadDirect => true,
            _ => false,
        }
    }
}

impl Default for ExecutionModeSelector {
    fn default() -> (selector: Self)
        ensures
            selector.threads() >= 1,
            !selector.in_runtime(),
    {
        Self::new()
    }
}

/// Whether `count` is a right answer of `handler` to events made from `data`:
/// the number of events that it took.
pub open spec fn delivered_from<E: Clone, H: ZeroCopyEventDelivery<E>>(
    handler: H,
    data: Seq<ProcessedTimerData<E>>,
    count: usize,
) -> bool {
    exists|events: Seq<TimerEventData<E>>, outcomes: Seq<bool>|
        {
            &&& #[trigger] events_of(events, data)
            &&& outcomes.len() == events.len()
            &&& forall|i: int|
                0 <= i < outcomes.len() ==> handler.may_deliver(events[i], #[trigger] outcomes[i])
            &&& count == #[trigger] crate::timer::event::zero_copy::successes(outcomes)
        }
}

/// Whether `events` are the events of `data`, in their order.
pub open spec fn events_of<E: Clone>(
    events: Seq<TimerEventData<E>>,
    data: Seq<ProcessedTimerData<E>>,
) -> bool {
    &&& events.len() == data.len()
    &&& forall|i: int|
        0 <= i < events.len() ==> (#[trigger] events[i]).connection_id == data[i].connection_id
            && cloned(data[i].timeout_event, events[i].timeout_event)
}

/// The events of `data`, in their order.
pub fn create_events<E: Clone>(data: &[ProcessedTimerData<E>]) -> (events: Vec<TimerEventData<E>>)
    ensures
        events_of(events@, data@),
{
    let mut events: Vec<TimerEventData<E>> = Vec::with_capacity(data.len());
    let mut i: usize = 0;
    while i < data.len()
        invariant
            i <= data@.len(),
            events@.len() == i,
            forall|k: int|
                0 <= k < i ==> (#[trigger] events@[k]).connection_id == data@[k].connection_id
                    && cloned(data@[k].timeout_event, events@[k].timeout_event),
        decreases data@.len() - i,
    {
        events.push(TimerEventData::new(data[i].connection_id, data[i].timeout_event.clone()));
        i = i + 1;
    }
    events
}

/// Hands events to a handler on the calling thread.
pub struct BypassTimerProcessor<E> {
    marker: PhantomData<E>,
}

impl<E: EventDataTrait> BypassTimerProcessor<E> {
    pub fn new() -> Self {
        BypassTimerProcessor { marker: PhantomData }
    }

    /// Hands the events of `processed_data` to `handler`, and says how many it took.
    pub fn dispatch_events_bypass<H: ZeroCopyEventDelivery<E>>(
        &self,
        processed_data: &[ProcessedTimerData<E>],
        handler: &H,
    ) -> (count: usize)
        requires
            forall|event: TimerEventData<E>| #[trigger] handler.takes(event),
        ensures
            delivered_from(*handler, processed_data@, count),
    {
        let events = create_events(processed_data);
        let mut event_refs: Vec<&TimerEventData<E>> = Vec::with_capacity(events.len());
        let mut i: usize = 0;
        while i < events.len()
            invariant
                i <= events@.len(),
                event_refs@.len() == i,
                forall|k: int| 0 <= k < i ==> *#[trigger] event_refs@[k] == events@[k],
            decreases events@.len() - i,
        {
            event_refs.push(&events[i]);
            i = i + 1;
        }
        let count = handler.batch_deliver_event_refs(event_refs.as_slice());
        proof {
            let outcomes = choose|outcomes: Seq<bool>|
                {
                    &&& outcomes.len() == event_refs@.len()
                    &&& forall|i: int|
                        0 <= i < outcomes.len() ==> handler.may_deliver(
                            *event_refs@[i],
                            #[trigger] outcomes[i],
                        )
                    &&& count == #[trigger] crate::timer::event::zero_copy::successes(outcomes)
                };
            assert(events_of(events@, processed_data@));
            assert(forall|i: int|
                0 <= i < outcomes.len() ==> handler.may_deliver(
                    events@[i],
                    #[trigger] outcomes[i],
                ));
        }
        count
    }
}

impl<E: EventDataTrait> Default for BypassTimerProcessor<E> {
    fn default() -> Self {
        Self::new()
    }
}

} // verus!
