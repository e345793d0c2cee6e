//! The whole way of a batch: the choice of a strategy, the conversion of its
//! timers, and the dispatch of their events.

use vstd::prelude::*;

use crate::outside::cpu_count;
use crate::timer::event::lockfree_ring;
use crate::timer::event::lockfree_ring::DispatcherState;
use crate::timer::event::traits::EventDataTrait;
use crate::timer::event::zero_copy;
use crate::timer::event::zero_copy::{
    RefEventHandler, ZeroCopyBatchDispatcher, ZeroCopyEventDelivery,
};
use crate::timer::event::{ConnectionId, TimerEvent, TimerEventData};
use crate::timer::parallel::async_dispatcher;
use crate::timer::parallel::async_dispatcher::AsyncEventDispatcher;
use crate::timer::parallel::memory::ZeroAllocProcessor;
use crate::timer::parallel::rayon_executor::RayonBatchExecutor;
use crate::timer::parallel::simd_processor::SIMDTimerProcessor;
use crate::timer::parallel::single_thread_bypass;
use crate::timer::parallel::single_thread_bypass::{
    create_events, BypassTimerProcessor, ExecutionModeSelector,
};
use crate::timer::parallel::strategy;
use crate::timer::parallel::strategy::{OptimalParallelStrategy, StrategySelector};
use crate::timer::parallel::types;
use crate::timer::parallel::types::{
    DetailedProcessingStats, ParallelProcessingResult, ParallelProcessingStats, ProcessedTimerData,
};
use crate::timer::task::commands::TimerError;
use crate::timer::wheel::TimerEntry;

verus! {

/// The events that a dispatcher's slot holds.
pub const SLOT_CAPACITY: usize = 1024;

/// The objects that the pool for events holds.
pub const EVENT_POOL_SIZE: usize = 1000;

/// The timers that count as one chunk in the statistics.
pub const COUNTED_CHUNK_SIZE: usize = 512;

/// The largest batch that is converted with one allocation.
pub const MEDIUM_BATCH_SIZE: usize = 4095;

/// What was done with a batch, before its time is taken.
#[derive(Clone, Copy, Debug, PartialEq, Eq, Structural)]
pub struct ProcessingResult {
    pub processed_count: usize,
    pub strategy_used: OptimalParallelStrategy,
    pub detailed_stats: DetailedProcessingStats,
}

/// What a batch of `n` timers is reported with where it went the direct path.
pub open spec fn bypass_result(n: usize) -> ProcessingResult {
    ProcessingResult {
        processed_count: n,
        strategy_used: OptimalParallelStrategy::SIMDOnly,
        detailed_stats: DetailedProcessingStats {
            simd_operations: 0,
            rayon_chunks_processed: 0,
            async_dispatches: n,
            cache_hits: 0,
            memory_allocations: if n <= 64 {
                0
            } else {
                1
            },
        },
    }
}

/// What a batch of `n` timers is reported with where it was worked off by
/// `strategy`, and `dispatched` events found room.
pub open spec fn strategy_result(
    strategy: OptimalParallelStrategy,
    n: usize,
    dispatched: usize,
) -> ProcessingResult {
    ProcessingResult {
        processed_count: n,
        strategy_used: strategy,
        detailed_stats: DetailedProcessingStats {
            simd_operations: (n as int / 8 + 1) as usize,
            rayon_chunks_processed: if strategy is SIMDOnly {
                0
            } else {
                crate::outside::chunk_count(n as int, COUNTED_CHUNK_SIZE as int) as usize
            },
            async_dispatches: dispatched,
            cache_hits: 0,
            memory_allocations: if strategy is FullHybrid && n > MEDIUM_BATCH_SIZE {
                2
            } else {
                1
            },
        },
    }
}

/// Whether `data` stands for `entries`, as `strategy` converts them.
pub open spec fn converted<E: Clone, C>(
    strategy: OptimalParallelStrategy,
    chunk_size: int,
    data: Seq<ProcessedTimerData<E>>,
    entries: Seq<TimerEntry<TimerEvent<E, C>>>,
) -> bool {
    if strategy is SIMDOnly {
        types::processed_from(data, entries)
    } else {
        types::processed_in_chunks(data, entries, chunk_size)
    }
}

/// Whether `requests` ask for the events of `data`, in their order.
pub open spec fn requests_of<E: Clone>(
    requests: Seq<(ConnectionId, E)>,
    data: Seq<ProcessedTimerData<E>>,
) -> bool {
    &&& requests.len() == data.len()
    &&& forall|i: int|
        0 <= i < requests.len() ==> (#[trigger] requests[i]).0 == data[i].connection_id && cloned(
            data[i].timeout_event,
            requests[i].1,
        )
}

/// The events that are taken out of the slots again after `dispatched` events
/// found room: up to half as many of each slot.
pub open spec fn recycled<E>(middle: DispatcherState<E>, dispatched: usize) -> Seq<
    TimerEventData<E>,
> {
    if dispatched > 0 {
        lockfree_ring::heads(middle.buffers, dispatched as int / 2)
    } else {
        Seq::empty()
    }
}

/// Whether `after` is `before` once the events of `data` were made, given to
/// the slots, and recycled.
pub open spec fn handed_over<E: EventDataTrait>(
    before: ZeroCopyBatchDispatcher<E>,
    data: Seq<ProcessedTimerData<E>>,
    after: ZeroCopyBatchDispatcher<E>,
    dispatched: usize,
) -> bool {
    exists|
        requests: Seq<(ConnectionId, E)>,
        events: Seq<TimerEventData<E>>,
        middle: DispatcherState<E>,
    |
        {
            let pool = if requests.len() <= zero_copy::DIRECT_CREATION_LIMIT {
                before.processor().pooled()
            } else {
                before.processor().pooled().skip(
                    lockfree_ring::smaller(
                        requests.len() as int,
                        before.processor().pooled().len() as int,
                    ),
                )
            };
            let back = recycled(middle, dispatched);
            &&& #[trigger] requests_of(requests, data)
            &&& crate::timer::event::traits::made_from(events, requests)
            &&& #[trigger] zero_copy::dispatches(before@, events, middle, dispatched)
            &&& after@ == (DispatcherState {
                buffers: if dispatched > 0 {
                    lockfree_ring::tails(middle.buffers, dispatched as int / 2)
                } else {
                    middle.buffers
                },
                ..middle
            })
            &&& after.processor().pool_config() == before.processor().pool_config()
            &&& after.processor().pooled() == pool + back.take(
                crate::timer::event::pool::room_for(
                    pool.len() as int,
                    before.processor().pool_config().max_size as int,
                    back.len() as int,
                ),
            )
        }
}

/// Whether `after` is `before` once the events of `data` were given to the slots.
pub open spec fn given_whole<E: EventDataTrait>(
    before: ZeroCopyBatchDispatcher<E>,
    data: Seq<ProcessedTimerData<E>>,
    after: ZeroCopyBatchDispatcher<E>,
    dispatched: usize,
) -> bool {
    exists|events: Seq<TimerEventData<E>>|
        {
            &&& #[trigger] single_thread_bypass::events_of(events, data)
            &&& zero_copy::dispatches(before@, events, after@, dispatched)
            &&& after.processor() == before.processor()
        }
}

/// The report on a batch that took `duration` nanoseconds; `sent` says how many
/// of its events channels took, where they went there.
pub open spec fn report_for(result: ProcessingResult, sent: Option<usize>, duration: u64) ->
    ParallelProcessingResult {
    ParallelProcessingResult {
        processed_count: result.processed_count,
        processing_duration: duration,
        strategy_used: result.strategy_used,
        detailed_stats: DetailedProcessingStats {
            async_dispatches: match sent {
                Some(n) => n,
                None => result.detailed_stats.async_dispatches,
            },
            ..result.detailed_stats
        },
    }
}

/// One where `hit` holds.
pub open spec fn one_if(hit: bool) -> int {
    if hit {
        1
    } else {
        0
    }
}

/// The figures after one more batch.
pub open spec fn with_batch(
    stats: ParallelProcessingStats,
    strategy: OptimalParallelStrategy,
    n: usize,
    duration: u64,
) -> ParallelProcessingStats {
    ParallelProcessingStats {
        total_batches_processed: (stats.total_batches_processed + 1) as u64,
        simd_only_count: (stats.simd_only_count + one_if(strategy is SIMDOnly)) as u64,
        simd_rayon_count: (stats.simd_rayon_count + one_if(strategy is SIMDWithRayon)) as u64,
        full_hybrid_count: (stats.full_hybrid_count + one_if(strategy is FullHybrid)) as u64,
        total_processing_time_ns: vstd::math::min(
            stats.total_processing_time_ns + duration,
            u64::MAX as int,
        ) as u64,
        total_operations_processed: vstd::math::min(
            stats.total_operations_processed + n,
            u64::MAX as int,
        ) as u64,
    }
}

/// Whether `outcome` and `after` are what comes of working off `entries` by
/// `strategy`, where `data` stands for them and `dispatched` events found room.
pub open spec fn strategy_step<E: EventDataTrait, C>(
    strategy: OptimalParallelStrategy,
    before: HybridParallelTimerSystem<E>,
    entries: Seq<TimerEntry<TimerEvent<E, C>>>,
    data: Seq<ProcessedTimerData<E>>,
    dispatched: usize,
    after: HybridParallelTimerSystem<E>,
    outcome: (ProcessingResult, Option<Vec<(usize, TimerEventData<E>)>>),
) -> bool {
    &&& converted(strategy, before.chunk_size() as int, data, entries)
    &&& if strategy is SIMDWithRayon {
        given_whole(before.dispatcher(), data, after.dispatcher(), dispatched)
    } else {
        handed_over(before.dispatcher(), data, after.dispatcher(), dispatched)
    }
    &&& outcome.0 == strategy_result(strategy, entries.len() as usize, dispatched)
    &&& settled(before.fallback(), data, dispatched, after.fallback(), outcome.1)
}

/// Whether `plan` is owed where `dispatched` of the events of `data` found room:
/// only where none did, all of them go to channels.
pub open spec fn settled<E: EventDataTrait>(
    before: AsyncEventDispatcher<E>,
    data: Seq<ProcessedTimerData<E>>,
    dispatched: usize,
    after: AsyncEventDispatcher<E>,
    plan: Option<Vec<(usize, TimerEventData<E>)>>,
) -> bool {
    if dispatched == 0 {
        &&& plan is Some
        &&& async_dispatcher::planned(plan->0@, data, before.index(), before.channels())
        &&& after.channels() == before.channels()
        &&& after.index() == async_dispatcher::nth_index(before.index(), data.len())
    } else {
        plan is None && after == before
    }
}

/// Whether `outcome` and `after` are what comes of working off `entries`.
pub open spec fn worked_off<E: EventDataTrait, C>(
    before: HybridParallelTimerSystem<E>,
    entries: Seq<TimerEntry<TimerEvent<E, C>>>,
    bypass: bool,
    after: HybridParallelTimerSystem<E>,
    outcome: (ProcessingResult, Option<Vec<(usize, TimerEventData<E>)>>),
) -> bool {
    let n = entries.len() as usize;
    &&& after.cores() == before.cores()
    &&& after.chunk_size() == before.chunk_size()
    &&& after.spec_stats() == before.spec_stats()
    &&& if bypass {
        &&& outcome.0 == bypass_result(n)
        &&& outcome.1 is None
        &&& after.dispatcher() == before.dispatcher()
        &&& after.fallback() == before.fallback()
    } else {
        exists|data: Seq<ProcessedTimerData<E>>, dispatched: usize|
            #[trigger] strategy_step(
                strategy::strategy_for(before.cores(), n),
                before,
                entries,
                data,
                dispatched,
                after,
                outcome,
            )
    }
}

/// A handler that takes every event takes them all.
proof fn lemma_all_taken<E: EventDataTrait, F: Fn(&TimerEventData<E>) -> bool>(
    handler: RefEventHandler<E, F>,
    data: Seq<ProcessedTimerData<E>>,
    count: usize,
)
    requires
        single_thread_bypass::delivered_from(handler, data, count),
        forall|event: &TimerEventData<E>, taken: bool| #[trigger]
            call_ensures(handler.closure(), (event,), taken) ==> taken,
    ensures
        count == data.len(),
{
    let (events, outcomes) = choose|events: Seq<TimerEventData<E>>, outcomes: Seq<bool>|
        {
            &&& #[trigger] single_thread_bypass::events_of(events, data)
            &&& outcomes.len() == events.len()
            &&& forall|i: int|
                0 <= i < outcomes.len() ==> handler.may_deliver(events[i], #[trigger] outcomes[i])
            &&& count == #[trigger] zero_copy::successes(outcomes)
        };
    assert forall|i: int| 0 <= i < outcomes.len() implies #[trigger] outcomes[i] by {
        assert(handler.may_deliver(events[i], outcomes[i]));
    }
    lemma_all_successes(outcomes);
}

/// A handler whose closure may be called with any event takes every event.
proof fn lemma_takes_all<E: EventDataTrait, F: Fn(&TimerEventData<E>) -> bool>(
    handler: RefEventHandler<E, F>,
)
    requires
        forall|event: &TimerEventData<E>| #[trigger] call_requires(handler.closure(), (event,)),
    ensures
        forall|event: TimerEventData<E>| #[trigger] handler.takes(event),
{
    assert forall|event: TimerEventData<E>| #[trigger] handler.takes(event) by {
        assert(call_requires(handler.closure(), (&event,)));
    }
}

proof fn lemma_all_successes(outcomes: Seq<bool>)
    requires
        forall|i: int| 0 <= i < outcomes.len() ==> #[trigger] outcomes[i],
    ensures
        zero_copy::successes(outcomes) == outcomes.len(),
    decreases outcomes.len(),
{
    if outcomes.len() > 0 {
        let front = outcomes.drop_last();
        assert forall|i: int| 0 <= i < front.len() implies #[trigger] front[i] by {
            assert(front[i] == outcomes[i]);
        }
        lemma_all_successes(front);
        assert(outcomes[outcomes.len() - 1]);
    }
}

/// Works off batches of due timers.
#[verifier::reject_recursive_types(E)]
pub struct HybridParallelTimerSystem<E> {
    simd_processor: SIMDTimerProcessor<E>,
    rayon_executor: RayonBatchExecutor,
    async_dispatcher: AsyncEventDispatcher<E>,
    zero_copy_dispatcher: ZeroCopyBatchDispatcher<E>,
    bypass_processor: BypassTimerProcessor<E>,
    mode_selector: ExecutionModeSelector,
    zero_alloc_processor: ZeroAllocProcessor<E>,
    strategy_selector: StrategySelector,
    stats: ParallelProcessingStats,
    cpu_cores: usize,
}

impl<E: EventDataTrait> HybridParallelTimerSystem<E> {
    /// The parts are in order, there is a slot for events, and the counts of the
    /// strategies add up.
    pub closed spec fn wf(&self) -> bool {
        &&& self.rayon_executor.wf()
        &&& self.async_dispatcher.wf()
        &&& self.zero_copy_dispatcher.wf()
        &&& self.zero_copy_dispatcher@.buffers.len() > 0
        &&& self.zero_alloc_processor.wf()
        &&& self.strategy_selector.cores() == self.cpu_cores
        &&& self.stats.simd_only_count + self.stats.simd_rayon_count
            + self.stats.full_hybrid_count == self.stats.total_batches_processed
    }

    pub closed spec fn cores(&self) -> usize {
        self.cpu_cores
    }

    pub closed spec fn chunk_size(&self) -> usize {
        self.rayon_executor.spec_chunk_size()
    }

    /// The slots for events, and the pool.
    pub closed spec fn dispatcher(&self) -> ZeroCopyBatchDispatcher<E> {
        self.zero_copy_dispatcher
    }

    /// The channels for events that found no slot.
    pub closed spec fn fallback(&self) -> AsyncEventDispatcher<E> {
        self.async_dispatcher
    }

    pub closed spec fn selector(&self) -> ExecutionModeSelector {
        self.mode_selector
    }

    pub closed spec fn spec_stats(&self) -> ParallelProcessingStats {
        self.stats
    }

    /// Whether the parts that no batch changes are those of `other`.
    pub closed spec fn same_parts(&self, other: Self) -> bool {
        &&& self.rayon_executor == other.rayon_executor
        &&& self.strategy_selector == other.strategy_selector
        &&& self.mode_selector == other.mode_selector
        &&& self.cpu_cores == other.cpu_cores
        &&& self.stats == other.stats
    }

    /// Systems with the same parts choose and count alike.
    pub proof fn law_same_parts_look_the_same(&self, other: Self)
        requires
            self.same_parts(other),
        ensures
            self.selector() == other.selector(),
            self.spec_stats() == other.spec_stats(),
            self.cores() == other.cores(),
            self.chunk_size() == other.chunk_size(),
    {
    }

    /// The parts of a system are in order, and it has a slot at least.
    pub proof fn law_parts_are_in_order(&self)
        requires
            self.wf(),
        ensures
            self.dispatcher().wf(),
            self.dispatcher()@.buffers.len() > 0,
            self.fallback().wf(),
            self.chunk_size() > 0,
    {
    }

    /// Each batch counts for exactly one strategy.
    pub proof fn law_strategy_counts_add_up(&self)
        requires
            self.wf(),
        ensures
            self.spec_stats().simd_only_count + self.spec_stats().simd_rayon_count
                + self.spec_stats().full_hybrid_count == self.spec_stats().total_batches_processed,
    {
    }

    /// Whether this is a system for `cpu_cores` processors that has worked off
    /// nothing yet: a slot for each processor, all of them empty, and no counts.
    pub open spec fn fresh_for(&self, cpu_cores: usize) -> bool {
        &&& self.cores() == cpu_cores
        &&& self.chunk_size() == crate::timer::parallel::rayon_executor::chunk_size_for(cpu_cores)
        &&& self.dispatcher()@ == (DispatcherState {
            buffers: Seq::new(cpu_cores as nat, |i: int| Seq::<TimerEventData<E>>::empty()),
            capacity: SLOT_CAPACITY as int,
            index: 0,
            dispatched: 0,
            rejected: 0,
        })
        &&& self.dispatcher().processor().pool_config().max_size == EVENT_POOL_SIZE
        &&& self.fallback().channels() == async_dispatcher::channels_for(cpu_cores)
        &&& self.fallback().index() == 0
        &&& self.selector().threads() >= 1
        &&& !self.selector().in_runtime()
        &&& self.spec_stats() == (ParallelProcessingStats {
            total_batches_processed: 0,
            simd_only_count: 0,
            simd_rayon_count: 0,
            full_hybrid_count: 0,
            total_processing_time_ns: 0,
            total_operations_processed: 0,
        })
    }

    /// A system for the processors of this machine.
    pub fn new() -> (system: Self)
        ensures
            system.wf(),
            system.cores() >= 1,
            system.fresh_for(system.cores()),
    {
        Self::for_cores(cpu_count())
    }

    /// A system for `cpu_cores` processors.
    pub fn for_cores(cpu_cores: usize) -> (system: Self)
        requires
            cpu_cores >= 1,
        ensures
            system.wf(),
            system.fresh_for(cpu_cores),
    {
        HybridParallelTimerSystem {
            simd_processor: SIMDTimerProcessor::new(),
            rayon_executor: RayonBatchExecutor::new(cpu_cores),
            async_dispatcher: AsyncEventDispatcher::for_cores(cpu_cores),
            zero_copy_dispatcher: ZeroCopyBatchDispatcher::new(
                SLOT_CAPACITY,
                cpu_cores,
                EVENT_POOL_SIZE,
            ),
            bypass_processor: BypassTimerProcessor::new(),
            mode_selector: ExecutionModeSelector::new(),
            zero_alloc_processor: ZeroAllocProcessor::new(),
            strategy_selector: StrategySelector::new(cpu_cores),
            stats: ParallelProcessingStats::default(),
            cpu_cores,
        }
    }

    /// The number of processors that this system is made for.
    pub fn cpu_cores(&self) -> (cores: usize)
        ensures
            cores == self.cores(),
    {
        self.cpu_cores
    }

    /// The strategy for a batch of `batch_size` timers.
    pub fn choose_optimal_strategy(&self, batch_size: usize) -> (strategy: OptimalParallelStrategy)
        requires
            self.wf(),
        ensures
            strategy == strategy::strategy_for(self.cores(), batch_size),
    {
        self.strategy_selector.choose_optimal_strategy(batch_size)
    }

    /// Works off a batch. Where no slot had room for any event, the second part
    /// of the result says which event goes to which channel.
    ///
    /// Whether a batch goes the direct path depends on where this is called from.
    pub fn process_timer_batch<C: Sync>(
        &mut self,
        timer_entries: Vec<TimerEntry<TimerEvent<E, C>>>,
    ) -> (outcome: (ProcessingResult, Option<Vec<(usize, TimerEventData<E>)>>))
        requires
            old(self).wf(),
        ensures
            final(self).wf(),
            worked_off(
                *old(self),
                timer_entries@,
                single_thread_bypass::mode_for(
                    timer_entries@.len() as usize,
                    old(self).selector().threads(),
                    final(self).selector().in_runtime(),
                ) is SingleThreadDirect,
                *final(self),
                outcome,
            ),
            final(self).selector().threads() == old(self).selector().threads(),
            single_thread_bypass::runtime_answer(final(self).selector().in_runtime()),
    {
        let bypass = self.mode_selector.should_bypass_async(timer_entries.len());
        let ghost chosen = *self;
        let outcome = self.process_in_mode(timer_entries, bypass);
        proof {
            if !bypass {
                let n = timer_entries@.len() as usize;
                let strategy = strategy::strategy_for(chosen.cores(), n);
                let (data, dispatched) = choose|
                    data: Seq<ProcessedTimerData<E>>,
                    dispatched: usize,
                | #[trigger]
                    strategy_step(
                        strategy,
                        chosen,
                        timer_entries@,
                        data,
                        dispatched,
                        *self,
                        outcome,
                    );
                assert(strategy_step(
                    strategy,
                    *old(self),
                    timer_entries@,
                    data,
                    dispatched,
                    *self,
                    outcome,
                ));
            }
        }
        outcome
    }

    /// Works off a batch, on the direct path or by the strategy for its size.
    pub fn process_in_mode<C: Sync>(
        &mut self,
        timer_entries: Vec<TimerEntry<TimerEvent<E, C>>>,
        bypass: bool,
    ) -> (outcome: (ProcessingResult, Option<Vec<(usize, TimerEventData<E>)>>))
        requires
            old(self).wf(),
        ensures
            final(self).wf(),
            worked_off(*old(self), timer_entries@, bypass, *final(self), outcome),
            final(self).selector() == old(self).selector(),
    {
        if bypass {
            return (self.process_bypass_mode(timer_entries), None);
        }
        let strategy = self.choose_optimal_strategy(timer_entries.len());
        match strategy {
            OptimalParallelStrategy::SIMDOnly => self.process_simd_only_optimized(timer_entries),
            OptimalParallelStrategy::SIMDWithRayon => self.process_simd_with_rayon_optimized(
                timer_entries,
            ),
            OptimalParallelStrategy::FullHybrid => self.process_full_hybrid_optimized(
                timer_entries,
            ),
        }
    }

    /// Converts the timers and hands their events to a handler that takes them
    /// all, on this thread.
    fn process_bypass_mode<C>(
        &mut self,
        timer_entries: Vec<TimerEntry<TimerEvent<E, C>>>,
    ) -> (result: ProcessingResult)
        requires
            old(self).wf(),
        ensures
            final(self).wf(),
            final(self).same_parts(*old(self)),
            final(self).dispatcher() == old(self).dispatcher(),
            final(self).fallback() == old(self).fallback(),
            result == bypass_result(timer_entries@.len() as usize),
    {
        let batch_size = timer_entries.len();
        let handler = RefEventHandler::new(take_any);
        let processed_data = if batch_size <= 64 {
            self.zero_alloc_processor.process_small_batch(timer_entries.as_slice())
        } else {
            self.zero_alloc_processor.process_large_batch(timer_entries.as_slice())
        };
        proof {
            lemma_takes_all(handler);
        }
        let dispatch_count = self.bypass_processor.dispatch_events_bypass(
            processed_data,
            &handler,
        );
        proof {
            lemma_all_taken(handler, processed_data@, dispatch_count);
        }
        ProcessingResult {
            processed_count: batch_size,
            strategy_used: OptimalParallelStrategy::SIMDOnly,
            detailed_stats: DetailedProcessingStats {
                simd_operations: 0,
                rayon_chunks_processed: 0,
                async_dispatches: dispatch_count,
                cache_hits: 0,
                memory_allocations: if batch_size <= 64 {
                    0
                } else {
                    1
                },
            },
        }
    }

    /// Converts the timers on this thread and hands their events to the slots.
    fn process_simd_only_optimized<C>(
        &mut self,
        timer_entries: Vec<TimerEntry<TimerEvent<E, C>>>,
    ) -> (outcome: (ProcessingResult, Option<Vec<(usize, TimerEventData<E>)>>))
        requires
            old(self).wf(),
        ensures
            final(self).wf(),
            final(self).same_parts(*old(self)),
            exists|data: Seq<ProcessedTimerData<E>>, dispatched: usize|
                #[trigger] strategy_step(
                    OptimalParallelStrategy::SIMDOnly,
                    *old(self),
                    timer_entries@,
                    data,
                    dispatched,
                    *final(self),
                    outcome,
                ),
    {
        let batch_size = timer_entries.len();
        let processed_data = all_processed(
            self.simd_processor.process_batch(timer_entries.as_slice()),
        );
        let dispatched = self.hand_over(processed_data.as_slice());
        let result = ProcessingResult {
            processed_count: batch_size,
            strategy_used: OptimalParallelStrategy::SIMDOnly,
            detailed_stats: DetailedProcessingStats {
                simd_operations: batch_size / 8 + 1,
                rayon_chunks_processed: 0,
                async_dispatches: dispatched,
                cache_hits: 0,
                memory_allocations: 1,
            },
        };
        let ghost data = processed_data@;
        let plan = self.settle(processed_data, dispatched);
        assert(strategy_step(
            OptimalParallelStrategy::SIMDOnly,
            *old(self),
            timer_entries@,
            data,
            dispatched,
            *self,
            (result, plan),
        ));
        (result, plan)
    }

    /// Converts the timers on several threads and gives their events to the slots.
    fn process_simd_with_rayon_optimized<C: Sync>(
        &mut self,
        timer_entries: Vec<TimerEntry<TimerEvent<E, C>>>,
    ) -> (outcome: (ProcessingResult, Option<Vec<(usize, TimerEventData<E>)>>))
        requires
            old(self).wf(),
        ensures
            final(self).wf(),
            final(self).same_parts(*old(self)),
            exists|data: Seq<ProcessedTimerData<E>>, dispatched: usize|
                #[trigger] strategy_step(
                    OptimalParallelStrategy::SIMDWithRayon,
                    *old(self),
                    timer_entries@,
                    data,
                    dispatched,
                    *final(self),
                    outcome,
                ),
    {
        let batch_size = timer_entries.len();
        let processed_data = all_processed(
            self.rayon_executor.parallel_process_with_simd_sync(
                timer_entries,
                &mut self.simd_processor,
            ),
        );
        let events = create_events(processed_data.as_slice());
        let dispatched = self.zero_copy_dispatcher.batch_dispatch_events(events);
        let result = ProcessingResult {
            processed_count: processed_data.len(),
            strategy_used: OptimalParallelStrategy::SIMDWithRayon,
            detailed_stats: DetailedProcessingStats {
                simd_operations: processed_data.len() / 8 + 1,
                rayon_chunks_processed: counted_chunks(processed_data.len()),
                async_dispatches: dispatched,
                cache_hits: 0,
                memory_allocations: 1,
            },
        };
        let ghost data = processed_data@;
        let plan = self.settle(processed_data, dispatched);
        assert(strategy_step(
            OptimalParallelStrategy::SIMDWithRayon,
            *old(self),
            timer_entries@,
            data,
            dispatched,
            *self,
            (result, plan),
        ));
        (result, plan)
    }

    /// Converts the timers on several threads and hands their events to the slots.
    fn process_full_hybrid_optimized<C: Sync>(
        &mut self,
        timer_entries: Vec<TimerEntry<TimerEvent<E, C>>>,
    ) -> (outcome: (ProcessingResult, Option<Vec<(usize, TimerEventData<E>)>>))
        requires
            old(self).wf(),
        ensures
            final(self).wf(),
            final(self).same_parts(*old(self)),
            exists|data: Seq<ProcessedTimerData<E>>, dispatched: usize|
                #[trigger] strategy_step(
                    OptimalParallelStrategy::FullHybrid,
                    *old(self),
                    timer_entries@,
                    data,
                    dispatched,
                    *final(self),
                    outcome,
                ),
    {
        let batch_size = timer_entries.len();
        let processed_data = all_processed(
            self.rayon_executor.parallel_process_with_simd_sync(
                timer_entries,
                &mut self.simd_processor,
            ),
        );
        let dispatched = self.hand_over(processed_data.as_slice());
        let result = ProcessingResult {
            processed_count: processed_data.len(),
            strategy_used: OptimalParallelStrategy::FullHybrid,
            detailed_stats: DetailedProcessingStats {
                simd_operations: processed_data.len() / 8 + 1,
                rayon_chunks_processed: counted_chunks(processed_data.len()),
                async_dispatches: dispatched,
                cache_hits: 0,
                memory_allocations: if batch_size <= MEDIUM_BATCH_SIZE {
                    1
                } else {
                    2
                },
            },
        };
        let ghost data = processed_data@;
        let plan = self.settle(processed_data, dispatched);
        assert(strategy_step(
            OptimalParallelStrategy::FullHybrid,
            *old(self),
            timer_entries@,
            data,
            dispatched,
            *self,
            (result, plan),
        ));
        (result, plan)
    }

    /// Makes the events of `data`, gives them to the slots, and gives some of
    /// what the slots hold back to the pool.
    fn hand_over(&mut self, data: &[ProcessedTimerData<E>]) -> (dispatched: usize)
        requires
            old(self).wf(),
        ensures
            final(self).wf(),
            final(self).same_parts(*old(self)),
            final(self).fallback() == old(self).fallback(),
            handed_over(old(self).dispatcher(), data@, final(self).dispatcher(), dispatched),
    {
        let mut requests: Vec<(ConnectionId, E)> = Vec::with_capacity(data.len());
        let mut i: usize = 0;
        while i < data.len()
            invariant
                i <= data@.len(),
                requests@.len() == i,
                forall|k: int|
                    0 <= k < i ==> (#[trigger] requests@[k]).0 == data@[k].connection_id
                        && cloned(data@[k].timeout_event, requests@[k].1),
            decreases data@.len() - i,
        {
            requests.push((data[i].connection_id, data[i].timeout_event.clone()));
            i = i + 1;
        }
        let ghost before = self.zero_copy_dispatcher;
        let dispatched = self.zero_copy_dispatcher.create_and_dispatch_events(
            requests.as_slice(),
        );
        let ghost middle = self.zero_copy_dispatcher;
        let ghost events = choose|events: Seq<TimerEventData<E>>|
            {
                &&& #[trigger] crate::timer::event::traits::made_from(events, requests@)
                &&& zero_copy::dispatches(before@, events, middle@, dispatched)
            };
        let ghost pool = middle.processor().pooled();
        proof {
            assert(requests_of(requests@, data@));
            assert(pool + Seq::<TimerEventData<E>>::empty().take(0) =~= pool);
        }
        if dispatched > 0 {
            let consumed = self.zero_copy_dispatcher.batch_consume_events(dispatched / 2);
            if consumed.len() > 0 {
                self.zero_copy_dispatcher.batch_return_to_pool(consumed);
            } else {
                assert(consumed@ =~= Seq::<TimerEventData<E>>::empty());
            }
        }
        assert(zero_copy::dispatches(before@, events, middle@, dispatched));
        dispatched
    }

    /// Says to which channels the events of `data` go where none found a slot.
    fn settle(&mut self, data: Vec<ProcessedTimerData<E>>, dispatched: usize) -> (plan: Option<
        Vec<(usize, TimerEventData<E>)>,
    >)
        requires
            old(self).wf(),
        ensures
            final(self).wf(),
            final(self).same_parts(*old(self)),
            final(self).dispatcher() == old(self).dispatcher(),
            settled(old(self).fallback(), data@, dispatched, final(self).fallback(), plan),
    {
        if dispatched == 0 {
            Some(self.async_dispatcher.dispatch_timer_events(data))
        } else {
            None
        }
    }

    /// Closes a batch that took `duration` nanoseconds. Where its events went to
    /// channels, `sent` says how many of them the channels took.
    pub fn finish_batch(&mut self, result: ProcessingResult, sent: Option<usize>, duration: u64)
        -> (report: ParallelProcessingResult)
        requires
            old(self).wf(),
            old(self).spec_stats().total_batches_processed < u64::MAX,
        ensures
            final(self).wf(),
            final(self).dispatcher() == old(self).dispatcher(),
            final(self).fallback() == old(self).fallback(),
            final(self).cores() == old(self).cores(),
            final(self).chunk_size() == old(self).chunk_size(),
            final(self).selector() == old(self).selector(),
            final(self).spec_stats() == with_batch(
                old(self).spec_stats(),
                result.strategy_used,
                result.processed_count,
                duration,
            ),
            report == report_for(result, sent, duration),
    {
        self.update_stats(result.strategy_used, result.processed_count, duration);
        let mut detailed_stats = result.detailed_stats;
        if let Some(n) = sent {
            detailed_stats.async_dispatches = n;
        }
        ParallelProcessingResult {
            processed_count: result.processed_count,
            processing_duration: duration,
            strategy_used: result.strategy_used,
            detailed_stats,
        }
    }

    fn update_stats(&mut self, strategy: OptimalParallelStrategy, batch_size: usize, duration: u64)
        requires
            old(self).wf(),
            old(self).spec_stats().total_batches_processed < u64::MAX,
        ensures
            final(self).wf(),
            *final(self) == (HybridParallelTimerSystem {
                stats: with_batch(old(self).spec_stats(), strategy, batch_size, duration),
                ..*old(self)
            }),
    {
        self.stats.total_batches_processed = self.stats.total_batches_processed + 1;
        self.stats.total_processing_time_ns = self.stats.total_processing_time_ns.saturating_add(
            duration,
        );
        self.stats.total_operations_processed =
        self.stats.total_operations_processed.saturating_add(batch_size as u64);
        match strategy {
            OptimalParallelStrategy::SIMDOnly => {
                self.stats.simd_only_count = self.stats.simd_only_count + 1;
            },
            OptimalParallelStrategy::SIMDWithRayon => {
                self.stats.simd_rayon_count = self.stats.simd_rayon_count + 1;
            },
            OptimalParallelStrategy::FullHybrid => {
                self.stats.full_hybrid_count = self.stats.full_hybrid_count + 1;
            },
        }
    }

    pub fn get_stats(&self) -> (stats: &ParallelProcessingStats)
        ensures
            *stats == self.spec_stats(),
    {
        &self.stats
    }

    /// Says to which channels the events of `processed_data` go.
    pub fn dispatch_events_async(&mut self, processed_data: Vec<ProcessedTimerData<E>>) -> (plan:
        Vec<(usize, TimerEventData<E>)>)
        requires
            old(self).wf(),
        ensures
            final(self).wf(),
            final(self).same_parts(*old(self)),
            final(self).dispatcher() == old(self).dispatcher(),
            settled(
                old(self).fallback(),
                processed_data@,
                0,
                final(self).fallback(),
                Some(plan),
            ),
    {
        self.async_dispatcher.dispatch_timer_events(processed_data)
    }

    /// The channels for events that find no slot.
    pub fn get_async_dispatcher(&self) -> (dispatcher: &AsyncEventDispatcher<E>)
        ensures
            *dispatcher == self.fallback(),
    {
        &self.async_dispatcher
    }
}

/// The converted timers; conversion does not fail.
fn all_processed<E>(result: Result<Vec<ProcessedTimerData<E>>, TimerError>) -> (data: Vec<
    ProcessedTimerData<E>,
>)
    requires
        result is Ok,
    ensures
        data == result->Ok_0,
{
    match result {
        Ok(data) => data,
        Err(_) => Vec::new(),
    }
}

/// Takes any event.
fn take_any<E>(_event: &TimerEventData<E>) -> (taken: bool)
    ensures
        taken,
{
    true
}

/// The chunks that `n` timers count for.
fn counted_chunks(n: usize) -> (count: usize)
    ensures
        count == crate::outside::chunk_count(n as int, COUNTED_CHUNK_SIZE as int),
{
    if n % COUNTED_CHUNK_SIZE == 0 {
        n / COUNTED_CHUNK_SIZE
    } else {
        n / COUNTED_CHUNK_SIZE + 1
    }
}

impl<E: EventDataTrait> Default for HybridParallelTimerSystem<E> {
    fn default() -> (system: Self)
        ensures
            system.wf(),
            system.cores() >= 1,
            system.fresh_for(system.cores()),
    {
        Self::new()
    }
}

} // verus!
