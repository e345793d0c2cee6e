//! Conversion of due timers on one thread, with connection identifiers passed
//! through wide registers.

use std::marker::PhantomData;
use vstd::prelude::*;
use wide::u32x8;

use crate::outside::subtract_from_each;
use crate::timer::event::traits::EventDataTrait;
use crate::timer::event::{ConnectionId, TimerEvent};
use crate::timer::parallel::types::{process_entry, ProcessedTimerData};
use crate::timer::task::commands::TimerError;
use crate::timer::wheel::TimerEntry;

verus! {

/// Converts due timers on one thread.
pub struct SIMDTimerProcessor<E> {
    marker: PhantomData<E>,
}

impl<E> Clone for SIMDTimerProcessor<E> {
    fn clone(&self) -> (processor: Self)
        ensures
            processor == *self,
    {
        SIMDTimerProcessor { marker: PhantomData }
    }
}

impl<E: EventDataTrait> SIMDTimerProcessor<E> {
    pub fn new() -> Self {
        SIMDTimerProcessor { marker: PhantomData }
    }

    /// What stands for each of the timers, in their order.
    pub fn process_batch<C>(&mut self, timer_entries: &[TimerEntry<TimerEvent<E, C>>]) -> (result:
        Result<Vec<ProcessedTimerData<E>>, TimerError>)
        ensures
            result is Ok,
            crate::timer::parallel::types::processed_from(result->Ok_0@, timer_entries@),
    {
        let mut connection_ids: Vec<ConnectionId> = Vec::with_capacity(timer_entries.len());
        let mut i: usize = 0;
        while i < timer_entries.len()
            invariant
                i <= timer_entries@.len(),
                connection_ids@ == timer_entries@.take(i as int).map_values(
                    |e: TimerEntry<TimerEvent<E, C>>| e.event.data.connection_id,
                ),
            decreases timer_entries@.len() - i,
        {
            connection_ids.push(timer_entries[i].event.data.connection_id);
            i = i + 1;
            assert(connection_ids@ =~= timer_entries@.take(i as int).map_values(
                |e: TimerEntry<TimerEvent<E, C>>| e.event.data.connection_id,
            ));
        }
        let ids = self.simd_process_connection_ids(connection_ids.as_slice())?;
        let mut data: Vec<ProcessedTimerData<E>> = Vec::with_capacity(timer_entries.len());
        i = 0;
        while i < timer_entries.len()
            invariant
                i <= timer_entries@.len(),
                ids@ == timer_entries@.map_values(
                    |e: TimerEntry<TimerEvent<E, C>>| e.event.data.connection_id,
                ),
                data@.len() == i,
                forall|k: int|
                    0 <= k < i ==> crate::timer::parallel::types::stands_for(
                        #[trigger] data@[k],
                        timer_entries@[k],
                        k,
                    ),
            decreases timer_entries@.len() - i,
        {
            let mut processed = process_entry(&timer_entries[i], i);
            processed.connection_id = ids[i];
            data.push(processed);
            i = i + 1;
        }
        Ok(data)
    }

    /// The identifiers themselves, eight at a time by way of a register.
    pub fn simd_process_connection_ids(&mut self, connection_ids: &[ConnectionId]) -> (result:
        Result<Vec<ConnectionId>, TimerError>)
        ensures
            result is Ok,
            result->Ok_0@ == connection_ids@,
            *final(self) == *old(self),
    {
        let total = connection_ids.len();
        let mut processed: Vec<ConnectionId> = Vec::with_capacity(total);
        let mut i: usize = 0;
        while total - i >= 8
            invariant
                i <= total == connection_ids@.len(),
                processed@ == connection_ids@.take(i as int),
            decreases total - i,
        {
            let lanes: [u32; 8] = [
                connection_ids[i],
                connection_ids[i + 1],
                connection_ids[i + 2],
                connection_ids[i + 3],
                connection_ids[i + 4],
                connection_ids[i + 5],
                connection_ids[i + 6],
                connection_ids[i + 7],
            ];
            let ids = u32x8::new(lanes).to_array();
            let mut k: usize = 0;
            while k < 8
                invariant
                    k <= 8,
                    i + 8 <= total == connection_ids@.len(),
                    ids@ == connection_ids@.subrange(i as int, i + 8),
                    processed@ == connection_ids@.take(i + k),
                decreases 8 - k,
            {
                processed.push(ids[k]);
                k = k + 1;
                assert(processed@ =~= connection_ids@.take(i + k));
            }
            i = i + 8;
        }
        while i < total
            invariant
                i <= total == connection_ids@.len(),
                processed@ == connection_ids@.take(i as int),
            decreases total - i,
        {
            processed.push(connection_ids[i]);
            i = i + 1;
            assert(processed@ =~= connection_ids@.take(i as int));
        }
        Ok(processed)
    }

    /// How far each of the times lies behind `now`, four at a time by way of a
    /// register. A time before `now` gives a difference that has wrapped around.
    pub fn simd_process_timestamps(&mut self, timestamps: &[u64], now: u64) -> (result: Result<
        Vec<u64>,
        TimerError,
    >)
        ensures
            result is Ok,
            result->Ok_0@ == timestamps@.map_values(|t: u64| t.wrapping_sub(now)),
            *final(self) == *old(self),
    {
        let total = timestamps.len();
        let ghost expected = timestamps@.map_values(|t: u64| t.wrapping_sub(now));
        let mut differences: Vec<u64> = Vec::with_capacity(total);
        let mut i: usize = 0;
        while total - i >= 4
            invariant
                i <= total == timestamps@.len(),
                expected == timestamps@.map_values(|t: u64| t.wrapping_sub(now)),
                differences@ == expected.take(i as int),
            decreases total - i,
        {
            let times: [u64; 4] = [
                timestamps[i],
                timestamps[i + 1],
                timestamps[i + 2],
                timestamps[i + 3],
            ];
            let lanes = subtract_from_each(times, now);
            let mut k: usize = 0;
            while k < 4
                invariant
                    k <= 4,
                    i + 4 <= total == timestamps@.len(),
                    expected == timestamps@.map_values(|t: u64| t.wrapping_sub(now)),
                    forall|j: int| 0 <= j < 4 ==> #[trigger] lanes@[j] == expected[i + j],
                    differences@ == expected.take(i + k),
                decreases 4 - k,
            {
                differences.push(lanes[k]);
                k = k + 1;
                assert(differences@ =~= expected.take(i + k));
            }
            i = i + 4;
        }
        while i < total
            invariant
                i <= total == timestamps@.len(),
                expected == timestamps@.map_values(|t: u64| t.wrapping_sub(now)),
                differences@ == expected.take(i as int),
            decreases total - i,
        {
            differences.push(timestamps[i].wrapping_sub(now));
            i = i + 1;
            assert(differences@ =~= expected.take(i as int));
        }
        Ok(differences)
    }
}

impl<E: EventDataTrait> Default for SIMDTimerProcessor<E> {
    fn default() -> Self {
        Self::new()
    }
}

} // verus!
