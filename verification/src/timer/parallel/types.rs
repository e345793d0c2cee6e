//! Data on batches.

use vstd::prelude::*;

use crate::timer::event::{ConnectionId, TimerEvent};
use crate::timer::parallel::strategy::OptimalParallelStrategy;
use crate::timer::wheel::TimerEntry;

verus! {

/// What is left of a due timer for its dispatch.
#[derive(Debug, PartialEq, Eq)]
pub struct ProcessedTimerData<E> {
    pub entry_id: u64,
    pub connection_id: ConnectionId,
    pub timeout_event: E,
    pub expiry_time: u64,
    /// The timer's place in the batch or chunk that it was worked off in.
    pub slot_index: usize,
}

impl<E: Clone> Clone for ProcessedTimerData<E> {
    fn clone(&self) -> (copy: Self)
        ensures
            copy.entry_id == self.entry_id,
            copy.connection_id == self.connection_id,
            cloned(self.timeout_event, copy.timeout_event),
            copy.expiry_time == self.expiry_time,
            copy.slot_index == self.slot_index,
    {
        ProcessedTimerData {
            entry_id: self.entry_id,
            connection_id: self.connection_id,
            timeout_event: self.timeout_event.clone(),
            expiry_time: self.expiry_time,
            slot_index: self.slot_index,
        }
    }
}

/// Whether `data` stands for the timer `entry` at the place `slot_index`.
pub open spec fn stands_for<E: Clone, C>(
    data: ProcessedTimerData<E>,
    entry: TimerEntry<TimerEvent<E, C>>,
    slot_index: int,
) -> bool {
    &&& data.entry_id == entry.id
    &&& data.connection_id == entry.event.data.connection_id
    &&& cloned(entry.event.data.timeout_event, data.timeout_event)
    &&& data.expiry_time == entry.expiry_time
    &&& data.slot_index == slot_index
}

/// Whether `data` stands for the timers `entries`, in their order.
pub open spec fn processed_from<E: Clone, C>(
    data: Seq<ProcessedTimerData<E>>,
    entries: Seq<TimerEntry<TimerEvent<E, C>>>,
) -> bool {
    &&& data.len() == entries.len()
    &&& forall|i: int| 0 <= i < data.len() ==> stands_for(#[trigger] data[i], entries[i], i)
}

/// Whether `data` stands for the timers `entries`, in their order, where their
/// places start anew after each `chunk_size` timers.
pub open spec fn processed_in_chunks<E: Clone, C>(
    data: Seq<ProcessedTimerData<E>>,
    entries: Seq<TimerEntry<TimerEvent<E, C>>>,
    chunk_size: int,
) -> bool {
    &&& data.len() == entries.len()
    &&& forall|i: int|
        0 <= i < data.len() ==> stands_for(#[trigger] data[i], entries[i], i % chunk_size)
}

/// What stands for `entry` at the place `slot_index`.
pub fn process_entry<E: Clone, C>(
    entry: &TimerEntry<TimerEvent<E, C>>,
    slot_index: usize,
) -> (data: ProcessedTimerData<E>)
    ensures
        stands_for(data, *entry, slot_index as int),
{
    ProcessedTimerData {
        entry_id: entry.id,
        connection_id: entry.event.data.connection_id,
        timeout_event: entry.event.data.timeout_event.clone(),
        expiry_time: entry.expiry_time,
        slot_index,
    }
}

/// How a batch was worked off, in numbers.
#[derive(Clone, Copy, Debug, PartialEq, Eq, Structural)]
pub struct DetailedProcessingStats {
    pub simd_operations: usize,
    pub rayon_chunks_processed: usize,
    pub async_dispatches: usize,
    pub cache_hits: usize,
    pub memory_allocations: usize,
}

impl Default for DetailedProcessingStats {
    fn default() -> (stats: Self)
        ensures
            stats == (DetailedProcessingStats {
                simd_operations: 0,
                rayon_chunks_processed: 0,
                async_dispatches: 0,
                cache_hits: 0,
                memory_allocations: 0,
            }),
    {
        DetailedProcessingStats {
            simd_operations: 0,
            rayon_chunks_processed: 0,
            async_dispatches: 0,
            cache_hits: 0,
            memory_allocations: 0,
        }
    }
}

/// What became of a batch.
#[derive(Clone, Copy, Debug, PartialEq, Eq, Structural)]
pub struct ParallelProcessingResult {
    pub processed_count: usize,
    /// How long it took, in nanoseconds.
    pub processing_duration: u64,
    pub strategy_used: OptimalParallelStrategy,
    pub detailed_stats: DetailedProcessingStats,
}

/// Figures on all batches so far.
#[derive(Clone, Copy, Debug, PartialEq, Eq, Structural)]
pub struct ParallelProcessingStats {
    pub total_batches_processed: u64,
    pub simd_only_count: u64,
    pub simd_rayon_count: u64,
    pub full_hybrid_count: u64,
    /// The time that all batches took, in nanoseconds.
    pub total_processing_time_ns: u64,
    /// The timers in all batches.
    pub total_operations_processed: u64,
}

impl Default for ParallelProcessingStats {
    fn default() -> (stats: Self)
        ensures
            stats == (ParallelProcessingStats {
                total_batches_processed: 0,
                simd_only_count: 0,
                simd_rayon_count: 0,
                full_hybrid_count: 0,
                total_processing_time_ns: 0,
                total_operations_processed: 0,
            }),
    {
        ParallelProcessingStats {
            total_batches_processed: 0,
            simd_only_count: 0,
            simd_rayon_count: 0,
            full_hybrid_count: 0,
            total_processing_time_ns: 0,
            total_operations_processed: 0,
        }
    }
}

} // verus!
