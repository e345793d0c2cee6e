//! Which channel each event goes to where events are sent by channels.

use std::marker::PhantomData;
use vstd::prelude::*;

use crate::outside::cpu_count;
use crate::timer::event::traits::{EventDataTrait, EventFactory};
use crate::timer::event::TimerEventData;
use crate::timer::parallel::types::ProcessedTimerData;

verus! {

/// There are at least this many channels.
pub const MIN_CHANNEL_COUNT: usize = 4;

/// How many events wait in a channel at most.
pub const CHANNEL_CAPACITY: usize = 1024;

/// The number of channels on a machine with `cpu_cores` processors: one for each,
/// but no fewer than there have to be.
pub open spec fn channels_for(cpu_cores: usize) -> usize {
    if cpu_cores > MIN_CHANNEL_COUNT {
        cpu_cores
    } else {
        MIN_CHANNEL_COUNT
    }
}

/// Hands out events to channels in turn. The channels themselves, and what they
/// do with the events, are the caller's.
pub struct AsyncEventDispatcher<E> {
    channel_count: usize,
    round_robin_index: usize,
    marker: PhantomData<E>,
}

impl<E: EventDataTrait> AsyncEventDispatcher<E> {
    pub closed spec fn channels(&self) -> usize {
        self.channel_count
    }

    /// How many events were handed out, as a counter of machine width.
    pub closed spec fn index(&self) -> usize {
        self.round_robin_index
    }

    pub open spec fn wf(&self) -> bool {
        self.channels() > 0
    }

    /// A dispatcher with a channel for each processor of this machine.
    pub fn new() -> (dispatcher: Self)
        ensures
            dispatcher.wf(),
            dispatcher.channels() >= MIN_CHANNEL_COUNT,
            dispatcher.index() == 0,
    {
        Self::for_cores(cpu_count())
    }

    /// A dispatcher with a channel for each of `cpu_cores` processors.
    pub fn for_cores(cpu_cores: usize) -> (dispatcher: Self)
        ensures
            dispatcher.wf(),
            dispatcher.channels() == channels_for(cpu_cores),
            dispatcher.index() == 0,
    {
        AsyncEventDispatcher {
            channel_count: if cpu_cores > MIN_CHANNEL_COUNT {
                cpu_cores
            } else {
                MIN_CHANNEL_COUNT
            },
            round_robin_index: 0,
            marker: PhantomData,
        }
    }

    pub fn channel_count(&self) -> (count: usize)
        ensures
            count == self.channels(),
    {
        self.channel_count
    }

    /// The channel for each event, and the event; the channels are taken in turn.
    pub fn dispatch_timer_events(&mut self, processed_data: Vec<ProcessedTimerData<E>>) -> (plan:
        Vec<(usize, TimerEventData<E>)>)
        requires
            old(self).wf(),
        ensures
            final(self).wf(),
            final(self).channels() == old(self).channels(),
            final(self).index() == nth_index(old(self).index(), processed_data@.len()),
            planned(plan@, processed_data@, old(self).index(), old(self).channels()),
    {
        let ghost all = processed_data@;
        let ghost start = self.round_robin_index;
        let factory: EventFactory<E> = EventFactory::new();
        let mut plan: Vec<(usize, TimerEventData<E>)> = Vec::with_capacity(processed_data.len());
        for data in iter: processed_data
            invariant
                iter.seq() == all,
                self.channel_count > 0,
                self.channel_count == old(self).channel_count,
                start == old(self).round_robin_index,
                self.round_robin_index == nth_index(start, iter.index() as nat),
                plan@.len() == iter.index(),
                forall|i: int|
                    0 <= i < plan@.len() ==> (#[trigger] plan@[i]).0 == nth_index(start, i as nat)
                        as int % self.channel_count as int && plan@[i].1 == (TimerEventData {
                        connection_id: all[i].connection_id,
                        timeout_event: all[i].timeout_event,
                    }),
        {
            let index = self.round_robin_index;
            self.round_robin_index = self.round_robin_index.wrapping_add(1);
            let channel_index: usize = index % self.channel_count;
            plan.push(
                (channel_index, factory.create_event(data.connection_id, data.timeout_event)),
            );
        }
        plan
    }
}

/// Whether `plan` gives each of the events of `data` to a channel, in turn from
/// the counter `start` on.
pub open spec fn planned<E>(
    plan: Seq<(usize, TimerEventData<E>)>,
    data: Seq<ProcessedTimerData<E>>,
    start: usize,
    channels: usize,
) -> bool {
    &&& plan.len() == data.len()
    &&& forall|i: int|
        0 <= i < plan.len() ==> (#[trigger] plan[i]).0 == nth_index(start, i as nat) as int
            % channels as int && plan[i].1 == (TimerEventData {
            connection_id: data[i].connection_id,
            timeout_event: data[i].timeout_event,
        })
}

/// The counter `start` after `n` steps.
pub open spec fn nth_index(start: usize, n: nat) -> usize
    decreases n,
{
    if n == 0 {
        start
    } else {
        nth_index(start, (n - 1) as nat).wrapping_add(1)
    }
}

/// As long as the counter has not run over, events go round the channels one by one.
pub proof fn law_channels_in_turn(start: usize, n: nat)
    requires
        start + n <= usize::MAX,
    ensures
        nth_index(start, n) == start + n,
    decreases n,
{
    if n > 0 {
        law_channels_in_turn(start, (n - 1) as nat);
    }
}

impl<E: EventDataTrait> Default for AsyncEventDispatcher<E> {
    fn default() -> (dispatcher: Self)
        ensures
            dispatcher.wf(),
            dispatcher.channels() >= MIN_CHANNEL_COUNT,
            dispatcher.index() == 0,
    {
        Self::new()
    }
}

} // verus!
