//! Event creation with a pool and a count of what was created.

use vstd::prelude::*;

use crate::timer::event::lockfree_ring;
use crate::timer::event::pool::{PoolConfig, PoolStats, TimerEventPool};
use crate::timer::event::traits::EventDataTrait;
use crate::timer::event::{ConnectionId, TimerEventData};

verus! {

/// How much a batch processor has done. The counters have machine width.
#[derive(Clone, Copy, Debug, PartialEq, Eq, Structural)]
pub struct BatchCounts {
    /// Events created.
    pub processed: usize,
    /// Batches below the threshold.
    pub small_batches: usize,
    /// Batches at or above it.
    pub large_batches: usize,
}

/// Creates event data from a pool, batch by batch.
#[verifier::reject_recursive_types(E)]
pub struct OptimizedBatchProcessor<E> {
    event_pool: TimerEventPool<E>,
    batch_threshold: usize,
    counts: BatchCounts,
}

/// The counts after a batch of `n` events.
pub open spec fn counted(counts: BatchCounts, threshold: usize, n: usize) -> BatchCounts {
    if n >= threshold {
        BatchCounts {
            processed: counts.processed.wrapping_add(n),
            large_batches: counts.large_batches.wrapping_add(1),
            ..counts
        }
    } else {
        BatchCounts {
            processed: counts.processed.wrapping_add(n),
            small_batches: counts.small_batches.wrapping_add(1),
            ..counts
        }
    }
}

impl<E: EventDataTrait> OptimizedBatchProcessor<E> {
    /// The objects in the pool.
    pub closed spec fn pooled(&self) -> Seq<TimerEventData<E>> {
        self.event_pool@
    }

    pub closed spec fn pool_config(&self) -> PoolConfig {
        self.event_pool.spec_config()
    }

    pub closed spec fn threshold(&self) -> usize {
        self.batch_threshold
    }

    pub closed spec fn spec_counts(&self) -> BatchCounts {
        self.counts
    }

    /// A processor whose pool holds up to `pool_size` objects, and a quarter of
    /// that to begin with.
    pub fn new(pool_size: usize, batch_threshold: usize) -> (processor: Self)
        ensures
            processor.pool_config() == (PoolConfig {
                max_size: pool_size,
                initial_size: (pool_size / 4) as usize,
                enable_batch_optimization: true,
            }),
            processor.pooled().len() == pool_size as int / 4,
            processor.threshold() == batch_threshold,
            processor.spec_counts() == (BatchCounts {
                processed: 0,
                small_batches: 0,
                large_batches: 0,
            }),
    {
        let config = PoolConfig {
            max_size: pool_size,
            initial_size: pool_size / 4,
            enable_batch_optimization: true,
        };
        OptimizedBatchProcessor {
            event_pool: TimerEventPool::new(config),
            batch_threshold,
            counts: BatchCounts { processed: 0, small_batches: 0, large_batches: 0 },
        }
    }

    /// Event data for each request, in their order.
    pub fn create_events_optimized(&mut self, requests: &[(ConnectionId, E)]) -> (data: Vec<
        TimerEventData<E>,
    >)
        ensures
            crate::timer::event::traits::made_from(data@, requests@),
            final(self).pooled() == old(self).pooled().skip(
                lockfree_ring::smaller(requests@.len() as int, old(self).pooled().len() as int),
            ),
            final(self).pool_config() == old(self).pool_config(),
            final(self).threshold() == old(self).threshold(),
            final(self).spec_counts() == counted(
                old(self).spec_counts(),
                old(self).threshold(),
                requests@.len() as usize,
            ),
    {
        let batch_size = requests.len();
        self.counts.processed = self.counts.processed.wrapping_add(batch_size);
        if batch_size >= self.batch_threshold {
            self.counts.large_batches = self.counts.large_batches.wrapping_add(1);
            self.event_pool.batch_acquire(requests)
        } else {
            self.counts.small_batches = self.counts.small_batches.wrapping_add(1);
            let mut data: Vec<TimerEventData<E>> = Vec::with_capacity(batch_size);
            let ghost before = self.event_pool@;
            let mut i: usize = 0;
            assert(before.skip(0) =~= before);
            while i < batch_size
                invariant
                    batch_size == requests@.len(),
                    i <= batch_size,
                    self.event_pool@ == before.skip(lockfree_ring::smaller(i as int, before.len() as int)),
                    self.event_pool.spec_config() == old(self).event_pool.spec_config(),
                    self.batch_threshold == old(self).batch_threshold,
                    self.counts == counted(
                        old(self).counts,
                        old(self).batch_threshold,
                        batch_size,
                    ),
                    data@.len() == i,
                    forall|k: int|
                        0 <= k < i ==> (#[trigger] data@[k]).connection_id == requests@[k].0
                            && cloned(requests@[k].1, data@[k].timeout_event),
                decreases batch_size - i,
            {
                let item = self.event_pool.acquire(requests[i].0, requests[i].1.clone());
                data.push(item);
                assert(self.event_pool@ =~= before.skip(lockfree_ring::smaller(i + 1, before.len() as int)));
                i = i + 1;
            }
            data
        }
    }

    /// Gives event data back to the pool.
    pub fn process_completed(&mut self, events: Vec<TimerEventData<E>>)
        ensures
            final(self).pooled() == old(self).pooled() + events@.take(
                crate::timer::event::pool::room_for(
                    old(self).pooled().len() as int,
                    old(self).pool_config().max_size as int,
                    events@.len() as int,
                ),
            ),
            final(self).pool_config() == old(self).pool_config(),
            final(self).threshold() == old(self).threshold(),
            final(self).spec_counts() == old(self).spec_counts(),
    {
        self.event_pool.batch_release(events);
    }

    /// What has been done so far, and the state of the pool.
    pub fn get_performance_stats(&self) -> (stats: (BatchCounts, PoolStats))
        ensures
            stats.0 == self.spec_counts(),
            stats.1.current_size == self.pooled().len(),
            stats.1.max_size == self.pool_config().max_size,
            stats.1.initial_size == self.pool_config().initial_size,
    {
        (self.counts, self.event_pool.stats())
    }
}

} // verus!
