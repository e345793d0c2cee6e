//! What the way of a batch of due timers does, stated of its functions one by one and
//! of the way as a whole.

use vstd::prelude::*;

use crate::timer::event::laws;
use crate::timer::event::lockfree_ring;
use crate::timer::event::lockfree_ring::DispatcherState;
use crate::timer::event::traits::EventDataTrait;
use crate::timer::event::zero_copy;
use crate::timer::event::zero_copy::{
    RefEventHandler, ZeroCopyBatchDispatcher, ZeroCopyEventDelivery,
};
use crate::timer::event::{ConnectionId, TimerEvent, TimerEventData};
use crate::timer::parallel::async_dispatcher;
use crate::timer::parallel::async_dispatcher::AsyncEventDispatcher;
use crate::timer::parallel::memory::{MemoryPool, ZeroAllocProcessor};
use crate::timer::parallel::rayon_executor::RayonBatchExecutor;
use crate::timer::parallel::simd_processor::SIMDTimerProcessor;
use crate::timer::parallel::single_thread_bypass;
use crate::timer::parallel::single_thread_bypass::{
    choose_mode_for, create_events, BypassTimerProcessor, ExecutionMode, ExecutionModeSelector,
};
use crate::timer::parallel::strategy;
use crate::timer::parallel::strategy::{OptimalParallelStrategy, StrategySelector};
use crate::timer::parallel::system;
use crate::timer::parallel::system::{HybridParallelTimerSystem, ProcessingResult};
use crate::timer::parallel::types;
use crate::timer::parallel::types::{
    process_entry, DetailedProcessingStats, ParallelProcessingResult, ParallelProcessingStats,
    ProcessedTimerData,
};
use crate::timer::task::commands::TimerError;
use crate::timer::wheel::TimerEntry;

verus! {

/// A batch of 1024 timers or more goes to several threads where there are two
/// processors at least; all others stay in one piece.
pub proof fn law_large_batches_go_to_several_threads(
    cores: usize,
    selector: StrategySelector,
    batch_size: usize,
    chosen: OptimalParallelStrategy,
)
    requires
        call_ensures(StrategySelector::new, (cores,), selector),
        call_ensures(StrategySelector::choose_optimal_strategy, (&selector, batch_size), chosen),
    ensures
        chosen is FullHybrid <==> batch_size >= 1024 && cores >= 2,
        chosen is SIMDOnly <==> batch_size < 1024 || cores < 2,
{
}

/// The whole way chooses in the same manner, by its own number of processors.
pub proof fn law_system_sends_large_batches_to_several_threads<E: EventDataTrait>(
    system: HybridParallelTimerSystem<E>,
    cores: usize,
    batch_size: usize,
    chosen: OptimalParallelStrategy,
)
    requires
        call_ensures(HybridParallelTimerSystem::<E>::cpu_cores, (&system,), cores),
        call_ensures(
            HybridParallelTimerSystem::<E>::choose_optimal_strategy,
            (&system, batch_size),
            chosen,
        ),
    ensures
        cores == system.cores(),
        chosen is FullHybrid <==> batch_size >= 1024 && cores >= 2,
        chosen is SIMDOnly <==> batch_size < 1024 || cores < 2,
{
}

/// Up to 64 timers go the direct path, and up to 128 where there is one processor and
/// no runtime. More than 128 go to several threads where there are several processors.
/// What is left is worked off on one thread.
pub proof fn law_small_batches_go_the_direct_path(
    batch_size: usize,
    threads: usize,
    in_runtime: bool,
    mode: ExecutionMode,
)
    requires
        call_ensures(choose_mode_for, (batch_size, threads, in_runtime), mode),
    ensures
        batch_size <= 64 ==> mode is SingleThreadDirect,
        64 < batch_size <= 128 ==> (mode is SingleThreadDirect <==> threads == 1 && !in_runtime),
        64 < batch_size <= 128 ==> (mode is SingleThreadAsync <==> threads != 1 || in_runtime),
        batch_size > 128 ==> (mode is MultiThreadParallel <==> threads > 1),
        batch_size > 128 ==> (mode is SingleThreadAsync <==> threads <= 1),
{
}

/// A selector chooses by its own number of processors and by the runtime that it finds
/// itself in, and says to leave the scheduler out on the direct path alone.
pub proof fn law_selector_takes_small_batches_the_direct_path(
    selector: &mut ExecutionModeSelector,
    batch_size: usize,
    mode: ExecutionMode,
    second: &mut ExecutionModeSelector,
    bypass: bool,
)
    requires
        call_ensures(ExecutionModeSelector::choose_mode, (selector, batch_size), mode),
        call_ensures(ExecutionModeSelector::should_bypass_async, (second, batch_size), bypass),
    ensures
        final(selector).threads() == old(selector).threads(),
        single_thread_bypass::runtime_answer(final(selector).in_runtime()),
        batch_size <= 64 ==> mode is SingleThreadDirect,
        64 < batch_size <= 128 ==> (mode is SingleThreadDirect <==> old(selector).threads() == 1
            && !final(selector).in_runtime()),
        batch_size > 128 ==> (mode is MultiThreadParallel <==> old(selector).threads() > 1),
        batch_size > 128 ==> !(mode is SingleThreadDirect),
        64 < batch_size <= 128 ==> !(mode is MultiThreadParallel),
        final(second).threads() == old(second).threads(),
        single_thread_bypass::runtime_answer(final(second).in_runtime()),
        batch_size <= 64 ==> bypass,
        64 < batch_size <= 128 ==> (bypass <==> old(second).threads() == 1 && !final(
            second).in_runtime()),
        batch_size > 128 ==> !bypass,
{
}

/// A new selector has one processor at least, and has met no runtime yet.
pub proof fn law_selector_starts_outside_a_runtime(
    selector: ExecutionModeSelector,
    other: ExecutionModeSelector,
)
    requires
        call_ensures(ExecutionModeSelector::new, (), selector),
        call_ensures(ExecutionModeSelector::default, (), other),
    ensures
        selector.threads() >= 1,
        !selector.in_runtime(),
        other.threads() >= 1,
        !other.in_runtime(),
{
}

/// Whether `data` is what is kept of a timer for the dispatch: its identifier, its
/// connection, a clone of its event, its expiry and its place.
pub open spec fn kept_of<E: Clone, C>(
    entry: TimerEntry<TimerEvent<E, C>>,
    data: ProcessedTimerData<E>,
    place: int,
) -> bool {
    &&& data.entry_id == entry.id
    &&& data.connection_id == entry.event.data.connection_id
    &&& cloned(entry.event.data.timeout_event, data.timeout_event)
    &&& data.expiry_time == entry.expiry_time
    &&& data.slot_index == place
}

/// One timer is converted into what is kept of it.
pub proof fn law_timer_is_converted<E: Clone, C>(
    entry: &TimerEntry<TimerEvent<E, C>>,
    place: usize,
    data: ProcessedTimerData<E>,
    copy: ProcessedTimerData<E>,
)
    requires
        call_ensures(process_entry::<E, C>, (entry, place), data),
        call_ensures(ProcessedTimerData::<E>::clone, (&data,), copy),
    ensures
        kept_of(*entry, data, place as int),
        copy.entry_id == data.entry_id,
        copy.connection_id == data.connection_id,
        cloned(data.timeout_event, copy.timeout_event),
        copy.expiry_time == data.expiry_time,
        copy.slot_index == data.slot_index,
{
}

/// A batch is converted timer by timer, in order, each with its place.
pub proof fn law_batch_is_converted_in_order<E: EventDataTrait, C>(
    processor: &mut SIMDTimerProcessor<E>,
    entries: &[TimerEntry<TimerEvent<E, C>>],
    result: Result<Vec<ProcessedTimerData<E>>, TimerError>,
)
    requires
        call_ensures(SIMDTimerProcessor::<E>::process_batch::<C>, (processor, entries), result),
    ensures
        result is Ok,
        result->Ok_0@.len() == entries@.len(),
        forall|i: int|
            0 <= i < entries@.len() ==> kept_of(entries@[i], #[trigger] result->Ok_0@[i], i),
{
}

/// Identifiers come through the registers unchanged, and a timestamp comes out as the
/// time from now until then.
pub proof fn law_registers_keep_the_order<E: EventDataTrait>(
    processor: &mut SIMDTimerProcessor<E>,
    ids: &[ConnectionId],
    kept: Result<Vec<ConnectionId>, TimerError>,
    second: &mut SIMDTimerProcessor<E>,
    timestamps: &[u64],
    now: u64,
    left: Result<Vec<u64>, TimerError>,
)
    requires
        call_ensures(
            SIMDTimerProcessor::<E>::simd_process_connection_ids,
            (processor, ids),
            kept,
        ),
        call_ensures(
            SIMDTimerProcessor::<E>::simd_process_timestamps,
            (second, timestamps, now),
            left,
        ),
    ensures
        kept is Ok,
        kept->Ok_0@ == ids@,
        left is Ok,
        left->Ok_0@.len() == timestamps@.len(),
        forall|i: int|
            0 <= i < timestamps@.len() && timestamps@[i] >= now ==> #[trigger] left->Ok_0@[i]
                == timestamps@[i] - now,
        forall|i: int|
            0 <= i < timestamps@.len() && timestamps@[i] < now ==> #[trigger] left->Ok_0@[i]
                == timestamps@[i] - now + 0x1_0000_0000_0000_0000,
{
}

/// An executor cuts batches into chunks of 64 timers for each processor, and of 512 at
/// least.
pub proof fn law_chunks_grow_with_the_processors(
    cores: usize,
    executor: RayonBatchExecutor,
    chunk_size: usize,
    threads: usize,
)
    requires
        call_ensures(RayonBatchExecutor::new, (cores,), executor),
        call_ensures(RayonBatchExecutor::chunk_size, (&executor,), chunk_size),
        call_ensures(RayonBatchExecutor::thread_pool_size, (&executor,), threads),
    ensures
        cores <= 8 ==> chunk_size == 512,
        cores > 8 && 64 * cores <= usize::MAX ==> chunk_size == 64 * cores,
        threads == cores,
        chunk_size == executor.spec_chunk_size(),
{
    lemma_sixty_four_times(cores);
}

proof fn lemma_sixty_four_times(cores: usize)
    ensures
        64 * cores <= usize::MAX ==> cores.wrapping_mul(64) == 64 * cores,
{
    if 64 * cores <= usize::MAX {
        vstd::arithmetic::div_mod::lemma_small_mod(
            (64 * cores) as nat,
            (usize::MAX + 1) as nat,
        );
    }
}

/// Chunks change nothing but the places: the batch is converted timer by timer, in
/// order, and the places start anew in each chunk.
pub proof fn law_chunks_are_converted_in_order<E: EventDataTrait, C: Sync>(
    executor: RayonBatchExecutor,
    chunk_size: usize,
    entries: Vec<TimerEntry<TimerEvent<E, C>>>,
    processor: &mut SIMDTimerProcessor<E>,
    result: Result<Vec<ProcessedTimerData<E>>, TimerError>,
)
    requires
        executor.wf(),
        call_ensures(RayonBatchExecutor::chunk_size, (&executor,), chunk_size),
        call_ensures(
            RayonBatchExecutor::parallel_process_with_simd_sync::<E, C>,
            (&executor, entries, processor),
            result,
        ),
    ensures
        result is Ok,
        result->Ok_0@.len() == entries@.len(),
        forall|i: int|
            0 <= i < entries@.len() ==> kept_of(
                entries@[i],
                #[trigger] result->Ok_0@[i],
                i % chunk_size as int,
            ),
{
}

/// There is one event for each piece of data, in order, for its connection.
pub proof fn law_events_are_made_in_order<E: Clone>(
    data: &[ProcessedTimerData<E>],
    events: Vec<TimerEventData<E>>,
)
    requires
        call_ensures(create_events::<E>, (data,), events),
    ensures
        events@.len() == data@.len(),
        forall|i: int|
            0 <= i < data@.len() ==> (#[trigger] events@[i]).connection_id
                == data@[i].connection_id && cloned(
                data@[i].timeout_event,
                events@[i].timeout_event,
            ),
{
}

/// On the direct path each event goes to the handler, and those that it takes are
/// counted. A handler that takes the events of some connections alone counts those.
pub proof fn law_direct_path_counts_what_the_handler_takes<
    E: EventDataTrait,
    F: Fn(&TimerEventData<E>) -> bool,
>(
    bypass: BypassTimerProcessor<E>,
    data: &[ProcessedTimerData<E>],
    handler: &RefEventHandler<E, F>,
    count: usize,
    wanted: spec_fn(ConnectionId) -> bool,
)
    requires
        call_ensures(
            BypassTimerProcessor::<E>::dispatch_events_bypass::<RefEventHandler<E, F>>,
            (&bypass, data, handler),
            count,
        ),
        forall|e: &TimerEventData<E>, taken: bool| #[trigger]
            call_ensures(handler.closure(), (e,), taken) ==> taken == wanted(e.connection_id),
    ensures
        count == data@.filter(|d: ProcessedTimerData<E>| wanted(d.connection_id)).len(),
{
    let (events, outcomes) = choose|events: Seq<TimerEventData<E>>, outcomes: Seq<bool>|
        {
            &&& #[trigger] single_thread_bypass::events_of(events, data@)
            &&& outcomes.len() == events.len()
            &&& forall|i: int|
                0 <= i < outcomes.len() ==> handler.may_deliver(events[i], #[trigger] outcomes[i])
            &&& count == #[trigger] zero_copy::successes(outcomes)
        };
    let answer = |d: ProcessedTimerData<E>| wanted(d.connection_id);
    assert forall|i: int| 0 <= i < outcomes.len() implies outcomes[i] == data@.map_values(
        answer,
    )[i] by {
        assert(handler.may_deliver(events[i], outcomes[i]));
    }
    assert(outcomes =~= data@.map_values(answer));
    zero_copy::lemma_successes_filter(data@, answer);
}

/// The channels are as many as there are processors, and four at least, with room for
/// 1024 events each; they are all unused to begin with.
pub proof fn law_channels_grow_with_the_processors<E: EventDataTrait>(
    cores: usize,
    dispatcher: AsyncEventDispatcher<E>,
    fresh: AsyncEventDispatcher<E>,
    other: AsyncEventDispatcher<E>,
    count: usize,
)
    requires
        call_ensures(AsyncEventDispatcher::<E>::for_cores, (cores,), dispatcher),
        call_ensures(AsyncEventDispatcher::<E>::channel_count, (&dispatcher,), count),
        call_ensures(AsyncEventDispatcher::<E>::new, (), fresh),
        call_ensures(AsyncEventDispatcher::<E>::default, (), other),
    ensures
        cores <= 4 ==> count == 4,
        cores > 4 ==> count == cores,
        dispatcher.channels() == count,
        dispatcher.index() == 0,
        fresh.channels() >= 4,
        fresh.index() == 0,
        other.channels() >= 4,
        other.index() == 0,
        async_dispatcher::CHANNEL_CAPACITY == 1024,
{
}

/// Whether the plan has one event for each piece of data, in order and unchanged, and
/// takes the channels in turn from the one on that is due.
pub open spec fn in_turn<E>(
    plan: Seq<(usize, TimerEventData<E>)>,
    data: Seq<ProcessedTimerData<E>>,
    start: usize,
    channels: usize,
) -> bool {
    &&& plan.len() == data.len()
    &&& forall|i: int|
        0 <= i < data.len() ==> (#[trigger] plan[i]).1.connection_id == data[i].connection_id
            && plan[i].1.timeout_event == data[i].timeout_event
    &&& start + data.len() <= usize::MAX ==> forall|i: int|
        0 <= i < data.len() ==> (#[trigger] plan[i]).0 == (start + i) % (channels as int)
}

proof fn lemma_in_turn<E>(
    plan: Seq<(usize, TimerEventData<E>)>,
    data: Seq<ProcessedTimerData<E>>,
    start: usize,
    channels: usize,
)
    requires
        async_dispatcher::planned(plan, data, start, channels),
    ensures
        in_turn(plan, data, start, channels),
{
    if start + data.len() <= usize::MAX {
        assert forall|i: int| 0 <= i < data.len() implies (#[trigger] plan[i]).0 == (start + i) % (
        channels as int) by {
            async_dispatcher::law_channels_in_turn(start, i as nat);
        }
    }
}

/// Events go to the channels in turn, and the next batch goes on where this one ends.
pub proof fn law_events_go_to_the_channels_in_turn<E: EventDataTrait>(
    dispatcher: &mut AsyncEventDispatcher<E>,
    data: Vec<ProcessedTimerData<E>>,
    plan: Vec<(usize, TimerEventData<E>)>,
)
    requires
        call_ensures(
            AsyncEventDispatcher::<E>::dispatch_timer_events,
            (dispatcher, data),
            plan,
        ),
    ensures
        in_turn(plan@, data@, old(dispatcher).index(), old(dispatcher).channels()),
        old(dispatcher).index() + data@.len() <= usize::MAX ==> final(dispatcher).index() == old(
            dispatcher).index() + data@.len(),
        final(dispatcher).channels() == old(dispatcher).channels(),
{
    lemma_in_turn(plan@, data@, old(dispatcher).index(), old(dispatcher).channels());
    if old(dispatcher).index() + data@.len() <= usize::MAX {
        async_dispatcher::law_channels_in_turn(old(dispatcher).index(), data@.len());
    }
}

/// Two batches in a row go to the channels as one batch would.
pub proof fn law_channels_go_on_with_the_next_batch<E: EventDataTrait>(
    dispatcher: &mut AsyncEventDispatcher<E>,
    data: Vec<ProcessedTimerData<E>>,
    plan: Vec<(usize, TimerEventData<E>)>,
    later: &mut AsyncEventDispatcher<E>,
    more: Vec<ProcessedTimerData<E>>,
    next: Vec<(usize, TimerEventData<E>)>,
)
    requires
        call_ensures(
            AsyncEventDispatcher::<E>::dispatch_timer_events,
            (dispatcher, data),
            plan,
        ),
        *old(later) == *final(dispatcher),
        call_ensures(AsyncEventDispatcher::<E>::dispatch_timer_events, (later, more), next),
        old(dispatcher).index() + data@.len() + more@.len() <= usize::MAX,
    ensures
        in_turn(
            plan@ + next@,
            data@ + more@,
            old(dispatcher).index(),
            old(dispatcher).channels(),
        ),
{
    law_events_go_to_the_channels_in_turn(dispatcher, data, plan);
    law_events_go_to_the_channels_in_turn(later, more, next);
    let all = plan@ + next@;
    assert forall|i: int| 0 <= i < data@.len() + more@.len() implies (#[trigger] all[i]).0 == (old(
        dispatcher).index() + i) % (old(dispatcher).channels() as int) by {
        if i >= data@.len() {
            assert(next@[i - data@.len()] == all[i]);
        }
    }
}

/// A pool of buffers has as many empty buffers of each kind as were asked for.
pub proof fn law_buffers_start_empty<E: EventDataTrait>(
    count: usize,
    capacity: usize,
    pool: MemoryPool<E>,
)
    requires
        call_ensures(MemoryPool::<E>::new, (count, capacity), pool),
    ensures
        pool.data().len() == count,
        pool.ids().len() == count,
        pool.timestamps().len() == count,
        forall|i: int| 0 <= i < count ==> (#[trigger] pool.data()[i]).len() == 0,
        forall|i: int| 0 <= i < count ==> (#[trigger] pool.ids()[i]).len() == 0,
        forall|i: int| 0 <= i < count ==> (#[trigger] pool.timestamps()[i]).len() == 0,
        pool.index() == 0,
{
}

/// The buffers for data are handed out in turn, and empty; what is written to one stays
/// in its place, and no other changes.
pub proof fn law_data_buffers_are_handed_out_in_turn<E: EventDataTrait>(
    pool: &mut MemoryPool<E>,
    buffer: &mut Vec<ProcessedTimerData<E>>,
)
    requires
        old(pool).wf(),
        old(pool).data().len() > 0,
        call_ensures(MemoryPool::<E>::get_data_buffer, (pool,), buffer),
    ensures
        old(buffer)@.len() == 0,
        final(pool).data().len() == old(pool).data().len(),
        final(pool).data()[old(pool).index() as int % old(pool).data().len() as int] == final(
            buffer)@,
        forall|i: int|
            0 <= i < old(pool).data().len() && i != old(pool).index() as int % old(
                pool).data().len() as int ==> #[trigger] final(pool).data()[i] == old(
                pool).data()[i],
        old(pool).index() < usize::MAX ==> final(pool).index() == old(pool).index() + 1,
        final(pool).ids() == old(pool).ids(),
        final(pool).timestamps() == old(pool).timestamps(),
{
    vstd::arithmetic::div_mod::lemma_mod_bound(
        old(pool).index() as int,
        old(pool).data().len() as int,
    );
}

/// The buffers for identifiers and timestamps belong to the buffer that is next, and are
/// empty; what is written to them stays in its place, and no others change.
pub proof fn law_work_buffers_belong_to_the_next_buffer<E: EventDataTrait>(
    pool: &mut MemoryPool<E>,
    ids: &mut Vec<u32>,
    timestamps: &mut Vec<u64>,
)
    requires
        old(pool).wf(),
        old(pool).data().len() > 0,
        old(pool).ids().len() == old(pool).data().len(),
        old(pool).timestamps().len() == old(pool).data().len(),
        call_ensures(MemoryPool::<E>::get_work_buffers, (pool,), (ids, timestamps)),
    ensures
        ({
            let next = old(pool).index() as int % old(pool).data().len() as int;
            &&& old(ids)@.len() == 0
            &&& old(timestamps)@.len() == 0
            &&& final(pool).ids()[next] == final(ids)@
            &&& final(pool).timestamps()[next] == final(timestamps)@
            &&& forall|i: int|
                0 <= i < old(pool).ids().len() && i != next ==> #[trigger] final(pool).ids()[i]
                    == old(pool).ids()[i]
            &&& forall|i: int|
                0 <= i < old(pool).timestamps().len() && i != next ==> #[trigger] final(
                    pool).timestamps()[i] == old(pool).timestamps()[i]
        }),
        final(pool).data() == old(pool).data(),
        final(pool).index() == old(pool).index(),
{
    vstd::arithmetic::div_mod::lemma_mod_bound(
        old(pool).index() as int,
        old(pool).data().len() as int,
    );
}

/// A new processor keeps four empty buffers.
pub proof fn law_processor_keeps_four_buffers<E: EventDataTrait>(
    processor: ZeroAllocProcessor<E>,
    other: ZeroAllocProcessor<E>,
)
    requires
        call_ensures(ZeroAllocProcessor::<E>::new, (), processor),
        call_ensures(ZeroAllocProcessor::<E>::default, (), other),
    ensures
        processor.small().len() == 0,
        processor.kept().data().len() == 4,
        forall|i: int| 0 <= i < 4 ==> (#[trigger] processor.kept().data()[i]).len() == 0,
        processor.kept().index() == 0,
        other.small().len() == 0,
        other.kept().data().len() == 4,
        other.kept().index() == 0,
{
}

/// Up to 64 timers are converted in the small buffer, in order; for more it is left
/// empty. The kept buffers stay as they are.
pub proof fn law_small_batches_use_the_small_buffer<E: EventDataTrait, C>(
    processor: &mut ZeroAllocProcessor<E>,
    entries: &[TimerEntry<TimerEvent<E, C>>],
    data: &[ProcessedTimerData<E>],
)
    requires
        call_ensures(
            ZeroAllocProcessor::<E>::process_small_batch::<C>,
            (processor, entries),
            data,
        ),
    ensures
        entries@.len() <= 64 ==> data@.len() == entries@.len() && forall|i: int|
            0 <= i < entries@.len() ==> kept_of(entries@[i], #[trigger] data@[i], i),
        entries@.len() > 64 ==> data@.len() == 0,
        final(processor).small() == data@,
        final(processor).kept() == old(processor).kept(),
{
}

/// More timers are converted in one of the kept buffers, which are taken in turn.
pub proof fn law_large_batches_use_the_kept_buffers<E: EventDataTrait, C>(
    processor: &mut ZeroAllocProcessor<E>,
    entries: &[TimerEntry<TimerEvent<E, C>>],
    data: &[ProcessedTimerData<E>],
)
    requires
        call_ensures(
            ZeroAllocProcessor::<E>::process_large_batch::<C>,
            (processor, entries),
            data,
        ),
        old(processor).kept().data().len() > 0,
    ensures
        data@.len() == entries@.len(),
        forall|i: int|
            0 <= i < entries@.len() ==> kept_of(entries@[i], #[trigger] data@[i], i),
        final(processor).small() == old(processor).small(),
        old(processor).kept().index() < usize::MAX ==> final(processor).kept().index() == old(
            processor).kept().index() + 1,
        final(processor).kept().ids() == old(processor).kept().ids(),
        final(processor).kept().timestamps() == old(processor).kept().timestamps(),
        final(processor).kept().data()[old(processor).kept().index() as int % old(
            processor).kept().data().len() as int] == data@,
{
    vstd::arithmetic::div_mod::lemma_mod_bound(
        old(processor).kept().index() as int,
        old(processor).kept().data().len() as int,
    );
}

/// The report on a batch on the direct path: all of its timers were worked off in one
/// piece, and beyond 64 of them memory was taken once.
pub open spec fn worked_off_directly(result: ProcessingResult, n: int) -> bool {
    &&& result.processed_count == n
    &&& result.strategy_used is SIMDOnly
    &&& result.detailed_stats.simd_operations == 0
    &&& result.detailed_stats.rayon_chunks_processed == 0
    &&& result.detailed_stats.async_dispatches == n
    &&& result.detailed_stats.cache_hits == 0
    &&& n <= 64 ==> result.detailed_stats.memory_allocations == 0
    &&& n > 64 ==> result.detailed_stats.memory_allocations == 1
}

/// The report on a batch of `n` timers on any other path, of which `dispatched` found
/// room in the slots.
pub open spec fn worked_off_by_strategy(
    result: ProcessingResult,
    cores: usize,
    n: int,
    dispatched: usize,
) -> bool {
    let chunks = result.detailed_stats.rayon_chunks_processed;
    &&& result.processed_count == n
    &&& result.strategy_used is FullHybrid <==> n >= 1024 && cores >= 2
    &&& result.strategy_used is SIMDOnly <==> n < 1024 || cores < 2
    &&& 8 * (result.detailed_stats.simd_operations - 1) <= n < 8
        * result.detailed_stats.simd_operations
    &&& result.strategy_used is SIMDOnly ==> chunks == 0
    &&& result.strategy_used is FullHybrid ==> 512 * (chunks - 1) < n <= 512 * chunks
    &&& result.detailed_stats.async_dispatches == dispatched
    &&& result.detailed_stats.cache_hits == 0
    &&& result.detailed_stats.memory_allocations == if n >= 4096 && cores >= 2 {
        2int
    } else {
        1
    }
}

/// Whether `event` is a clone of `timeout_event`, made in three steps.
pub open spec fn cloned_on<E: Clone>(timeout_event: E, event: E) -> bool {
    exists|a: E, b: E|
        #[trigger] cloned(timeout_event, a) && #[trigger] cloned(a, b) && cloned(b, event)
}

/// Whether the events are those of the timers, in order.
pub open spec fn events_for<E: Clone, C>(
    entries: Seq<TimerEntry<TimerEvent<E, C>>>,
    events: Seq<TimerEventData<E>>,
) -> bool {
    &&& events.len() == entries.len()
    &&& forall|i: int|
        0 <= i < entries.len() ==> (#[trigger] events[i]).connection_id
            == entries[i].event.data.connection_id && cloned_on(
            entries[i].event.data.timeout_event,
            events[i].timeout_event,
        )
}

/// Whether the slots took the events of a batch, and half as many as they took, but no
/// more than there are, were taken from the front of each slot again and given back to
/// the pool. `middle` is the state in between, and `back` what was given back.
pub open spec fn went_through_the_slots<E: EventDataTrait>(
    before: ZeroCopyBatchDispatcher<E>,
    events: Seq<TimerEventData<E>>,
    dispatched: usize,
    middle: DispatcherState<E>,
    back: Seq<TimerEventData<E>>,
    after: ZeroCopyBatchDispatcher<E>,
) -> bool {
    let pooled = before.processor().pooled();
    &&& laws::taken_by_slots(before@, events, middle, dispatched)
    &&& after@.buffers.len() == middle.buffers.len()
    &&& forall|i: int|
        0 <= i < middle.buffers.len() ==> {
            let n = middle.buffers[i].len() - (#[trigger] after@.buffers[i]).len();
            &&& 0 <= n <= dispatched as int / 2
            &&& n == dispatched as int / 2 || after@.buffers[i].len() == 0
            &&& after@.buffers[i] == middle.buffers[i].skip(n)
        }
    &&& laws::held(after@.buffers).add(back.to_multiset()) == laws::held(middle.buffers)
    &&& after@.capacity == middle.capacity
    &&& after@.index == middle.index
    &&& after@.dispatched == middle.dispatched
    &&& after@.rejected == middle.rejected
    &&& after.processor().pool_config() == before.processor().pool_config()
    &&& exists|left: Seq<TimerEventData<E>>|
        {
            &&& events.len() <= 64 ==> left == pooled
            &&& events.len() > 64 ==> laws::stays(pooled, events.len() as int, left)
            &&& #[trigger] laws::comes_back(
                left,
                before.processor().pool_config().max_size as int,
                back,
                after.processor().pooled(),
            )
        }
}

/// Whether a plan for the channels is made where the slots took nothing, and only
/// there: it has the event of each timer, in order, and takes the channels in turn.
pub open spec fn falls_back<E: EventDataTrait, C>(
    before: AsyncEventDispatcher<E>,
    entries: Seq<TimerEntry<TimerEvent<E, C>>>,
    dispatched: usize,
    after: AsyncEventDispatcher<E>,
    plan: Option<Vec<(usize, TimerEventData<E>)>>,
) -> bool {
    &&& plan is Some <==> dispatched == 0
    &&& plan is None ==> after == before
    &&& plan matches Some(p) ==> {
        &&& p@.len() == entries.len()
        &&& forall|i: int|
            0 <= i < entries.len() ==> (#[trigger] p@[i]).1.connection_id
                == entries[i].event.data.connection_id && cloned(
                entries[i].event.data.timeout_event,
                p@[i].1.timeout_event,
            )
        &&& before.index() + entries.len() <= usize::MAX ==> after.index() == before.index()
            + entries.len() && forall|i: int|
            0 <= i < entries.len() ==> (#[trigger] p@[i]).0 == (before.index() + i) % (
            before.channels() as int)
        &&& after.channels() == before.channels()
    }
}

/// Whether a batch was worked off by its strategy: its events went through the slots or,
/// where these took nothing, are planned for the channels, and the report says so.
pub open spec fn worked_off_as_planned<E: EventDataTrait, C>(
    before: HybridParallelTimerSystem<E>,
    entries: Seq<TimerEntry<TimerEvent<E, C>>>,
    events: Seq<TimerEventData<E>>,
    dispatched: usize,
    middle: DispatcherState<E>,
    back: Seq<TimerEventData<E>>,
    after: HybridParallelTimerSystem<E>,
    outcome: (ProcessingResult, Option<Vec<(usize, TimerEventData<E>)>>),
) -> bool {
    &&& events_for(entries, events)
    &&& went_through_the_slots(
        before.dispatcher(),
        events,
        dispatched,
        middle,
        back,
        after.dispatcher(),
    )
    &&& worked_off_by_strategy(outcome.0, before.cores(), entries.len() as int, dispatched)
    &&& falls_back(before.fallback(), entries, dispatched, after.fallback(), outcome.1)
}

proof fn lemma_consumed_is_held<T>(buffers: Seq<Seq<T>>, max: int)
    requires
        0 <= max,
    ensures
        laws::held(lockfree_ring::tails(buffers, max)).add(
            lockfree_ring::heads(buffers, max).to_multiset(),
        ) == laws::held(buffers),
    decreases buffers.len(),
{
    let heads = lockfree_ring::heads(buffers, max);
    let tails = lockfree_ring::tails(buffers, max);
    if buffers.len() == 0 {
        heads.to_multiset_ensures();
        assert(laws::held(tails).add(heads.to_multiset()) =~= laws::held(buffers));
    } else {
        let front = buffers.drop_last();
        let last = buffers.last();
        let n = lockfree_ring::smaller(max, last.len() as int);
        lemma_consumed_is_held(front, max);
        assert(tails.drop_last() =~= lockfree_ring::tails(front, max));
        assert(tails.last() == last.skip(n));
        assert(last =~= last.take(n) + last.skip(n));
        vstd::seq_lib::lemma_multiset_commutative(last.take(n), last.skip(n));
        vstd::seq_lib::lemma_multiset_commutative(
            lockfree_ring::heads(front, max),
            last.take(n),
        );
        assert(laws::held(tails).add(heads.to_multiset()) =~= laws::held(buffers));
    }
}

proof fn lemma_went_through<E: EventDataTrait>(
    before: ZeroCopyBatchDispatcher<E>,
    data: Seq<ProcessedTimerData<E>>,
    after: ZeroCopyBatchDispatcher<E>,
    dispatched: usize,
) -> (seen: (Seq<(ConnectionId, E)>, Seq<TimerEventData<E>>, DispatcherState<E>))
    requires
        before.wf(),
        data.len() <= usize::MAX,
        system::handed_over(before, data, after, dispatched),
    ensures
        system::requests_of(seen.0, data),
        crate::timer::event::traits::made_from(seen.1, seen.0),
        went_through_the_slots(
            before,
            seen.1,
            dispatched,
            seen.2,
            system::recycled(seen.2, dispatched),
            after,
        ),
{
    let (requests, events, middle) = choose|
        requests: Seq<(ConnectionId, E)>,
        events: Seq<TimerEventData<E>>,
        middle: DispatcherState<E>,
    |
        {
            let pool = if requests.len() <= zero_copy::DIRECT_CREATION_LIMIT {
                before.processor().pooled()
            } else {
                before.processor().pooled().skip(
                    lockfree_ring::smaller(
                        requests.len() as int,
                        before.processor().pooled().len() as int,
                    ),
                )
            };
            let back = system::recycled(middle, dispatched);
            &&& #[trigger] system::requests_of(requests, data)
            &&& crate::timer::event::traits::made_from(events, requests)
            &&& #[trigger] zero_copy::dispatches(before@, events, middle, dispatched)
            &&& after@ == (DispatcherState {
                buffers: if dispatched > 0 {
                    lockfree_ring::tails(middle.buffers, dispatched as int / 2)
                } else {
                    middle.buffers
                },
                ..middle
            })
            &&& after.processor().pool_config() == before.processor().pool_config()
            &&& after.processor().pooled() == pool + back.take(
                crate::timer::event::pool::room_for(
                    pool.len() as int,
                    before.processor().pool_config().max_size as int,
                    back.len() as int,
                ),
            )
        };
    let pooled = before.processor().pooled();
    let left = if requests.len() <= 64 {
        pooled
    } else {
        pooled.skip(
            if requests.len() <= pooled.len() {
                requests.len() as int
            } else {
                pooled.len() as int
            },
        )
    };
    let back = system::recycled(middle, dispatched);
    before.law_slots_stay_in_bounds();
    laws::lemma_dispatches(before@, events, middle, dispatched);
    laws::lemma_comes_back(left, before.processor().pool_config().max_size as int, back);
    if dispatched > 0 {
        lemma_consumed_is_held(middle.buffers, dispatched as int / 2);
        assert forall|i: int| 0 <= i < middle.buffers.len() implies ({
            let n = middle.buffers[i].len() - (#[trigger] after@.buffers[i]).len();
            &&& 0 <= n <= dispatched as int / 2
            &&& n == dispatched as int / 2 || after@.buffers[i].len() == 0
            &&& after@.buffers[i] == middle.buffers[i].skip(n)
        }) by {}
    } else {
        back.to_multiset_ensures();
        assert(laws::held(after@.buffers).add(back.to_multiset()) =~= laws::held(middle.buffers));
        assert forall|i: int| 0 <= i < middle.buffers.len() implies (
        #[trigger] after@.buffers[i]) == middle.buffers[i].skip(0) by {
            assert(middle.buffers[i].skip(0) =~= middle.buffers[i]);
        }
    }
    assert(laws::comes_back(
        left,
        before.processor().pool_config().max_size as int,
        back,
        after.processor().pooled(),
    ));
    (requests, events, middle)
}

pub(crate) proof fn lemma_worked_off<E: EventDataTrait, C>(
    before: HybridParallelTimerSystem<E>,
    entries: Seq<TimerEntry<TimerEvent<E, C>>>,
    after: HybridParallelTimerSystem<E>,
    outcome: (ProcessingResult, Option<Vec<(usize, TimerEventData<E>)>>),
)
    requires
        before.wf(),
        entries.len() <= usize::MAX,
        system::worked_off(before, entries, false, after, outcome),
    ensures
        exists|
            events: Seq<TimerEventData<E>>,
            dispatched: usize,
            middle: DispatcherState<E>,
            back: Seq<TimerEventData<E>>,
        |
            #[trigger] worked_off_as_planned(
                before,
                entries,
                events,
                dispatched,
                middle,
                back,
                after,
                outcome,
            ),
{
    let n = entries.len() as usize;
    let chosen = strategy::strategy_for(before.cores(), n);
    let (data, dispatched) = choose|data: Seq<ProcessedTimerData<E>>, dispatched: usize|
        #[trigger] system::strategy_step(
            chosen,
            before,
            entries,
            data,
            dispatched,
            after,
            outcome,
        );
    before.law_parts_are_in_order();
    let (requests, events, middle) = lemma_went_through(
        before.dispatcher(),
        data,
        after.dispatcher(),
        dispatched,
    );
    assert forall|i: int| 0 <= i < entries.len() implies (#[trigger] events[i]).connection_id
        == entries[i].event.data.connection_id && cloned_on(
        entries[i].event.data.timeout_event,
        events[i].timeout_event,
    ) by {
        let _ = data[i];
        assert(requests[i].0 == data[i].connection_id);
        assert(cloned(entries[i].event.data.timeout_event, data[i].timeout_event));
        assert(cloned(data[i].timeout_event, requests[i].1));
    }
    if dispatched == 0 {
        let plan = outcome.1->0@;
        lemma_in_turn(plan, data, before.fallback().index(), before.fallback().channels());
        if before.fallback().index() + data.len() <= usize::MAX {
            async_dispatcher::law_channels_in_turn(before.fallback().index(), data.len());
        }
        assert forall|i: int| 0 <= i < entries.len() implies (#[trigger] plan[i]).1.connection_id
            == entries[i].event.data.connection_id && cloned(
            entries[i].event.data.timeout_event,
            plan[i].1.timeout_event,
        ) by {
            let _ = data[i];
        }
    }
    assert(worked_off_as_planned(
        before,
        entries,
        events,
        dispatched,
        middle,
        system::recycled(middle, dispatched),
        after,
        outcome,
    ));
}

/// A batch is worked off on the direct path, where nothing but the report comes of it,
/// or by its strategy. Neither touches the figures.
pub proof fn law_batch_is_worked_off_in_its_mode<E: EventDataTrait, C: Sync>(
    system: &mut HybridParallelTimerSystem<E>,
    entries: Vec<TimerEntry<TimerEvent<E, C>>>,
    bypass: bool,
    outcome: (ProcessingResult, Option<Vec<(usize, TimerEventData<E>)>>),
)
    requires
        old(system).wf(),
        call_ensures(
            HybridParallelTimerSystem::<E>::process_in_mode::<C>,
            (system, entries, bypass),
            outcome,
        ),
    ensures
        bypass ==> worked_off_directly(outcome.0, entries@.len() as int) && outcome.1 is None
            && final(system).dispatcher() == old(system).dispatcher() && final(system).fallback()
            == old(system).fallback(),
        !bypass ==> exists|
            events: Seq<TimerEventData<E>>,
            dispatched: usize,
            middle: DispatcherState<E>,
            back: Seq<TimerEventData<E>>,
        |
            #[trigger] worked_off_as_planned(
                *old(system),
                entries@,
                events,
                dispatched,
                middle,
                back,
                *final(system),
                outcome,
            ),
        final(system).selector() == old(system).selector(),
        final(system).spec_stats() == old(system).spec_stats(),
        final(system).cores() == old(system).cores(),
        final(system).chunk_size() == old(system).chunk_size(),
{
    assert(entries@.len() == entries.len());
    if !bypass {
        lemma_worked_off(*old(system), entries@, *final(system), outcome);
    }
}

/// A batch of up to 64 timers goes the direct path, and one of up to 128 where there is
/// one processor and no runtime. All others go by their strategy.
pub proof fn law_batch_goes_its_way<E: EventDataTrait, C: Sync>(
    system: &mut HybridParallelTimerSystem<E>,
    entries: Vec<TimerEntry<TimerEvent<E, C>>>,
    outcome: (ProcessingResult, Option<Vec<(usize, TimerEventData<E>)>>),
)
    requires
        old(system).wf(),
        call_ensures(
            HybridParallelTimerSystem::<E>::process_timer_batch::<C>,
            (system, entries),
            outcome,
        ),
    ensures
        ({
            let n = entries@.len();
            let alone = old(system).selector().threads() == 1 && !final(
                system).selector().in_runtime();
            let direct = n <= 64 || (n <= 128 && alone);
            &&& direct ==> worked_off_directly(outcome.0, n as int) && outcome.1 is None && final(
                system).dispatcher() == old(system).dispatcher() && final(system).fallback() == old(
                system).fallback()
            &&& !direct ==> exists|
                events: Seq<TimerEventData<E>>,
                dispatched: usize,
                middle: DispatcherState<E>,
                back: Seq<TimerEventData<E>>,
            |
                #[trigger] worked_off_as_planned(
                    *old(system),
                    entries@,
                    events,
                    dispatched,
                    middle,
                    back,
                    *final(system),
                    outcome,
                )
        }),
        final(system).selector().threads() == old(system).selector().threads(),
        single_thread_bypass::runtime_answer(final(system).selector().in_runtime()),
        final(system).spec_stats() == old(system).spec_stats(),
        final(system).cores() == old(system).cores(),
        final(system).chunk_size() == old(system).chunk_size(),
{
    assert(entries@.len() == entries.len());
    let n = entries@.len();
    let alone = old(system).selector().threads() == 1 && !final(system).selector().in_runtime();
    if !(n <= 64 || (n <= 128 && alone)) {
        lemma_worked_off(*old(system), entries@, *final(system), outcome);
    }
}

/// When a batch is done, it is counted once and under its strategy, its timers and its
/// time are added up, and the report says what the channels took where they were used.
pub proof fn law_finished_batch_is_counted_once<E: EventDataTrait>(
    system: &mut HybridParallelTimerSystem<E>,
    result: ProcessingResult,
    sent: Option<usize>,
    duration: u64,
    report: ParallelProcessingResult,
    stats: &ParallelProcessingStats,
)
    requires
        old(system).wf(),
        old(system).spec_stats().total_batches_processed < u64::MAX,
        call_ensures(
            HybridParallelTimerSystem::<E>::finish_batch,
            (system, result, sent, duration),
            report,
        ),
        call_ensures(HybridParallelTimerSystem::<E>::get_stats, (&*final(system),), stats),
    ensures
        ({
            let before = old(system).spec_stats();
            &&& stats.total_batches_processed == before.total_batches_processed + 1
            &&& stats.simd_only_count == before.simd_only_count + if result.strategy_used is SIMDOnly {
                1int
            } else {
                0
            }
            &&& stats.simd_rayon_count == before.simd_rayon_count
                + if result.strategy_used is SIMDWithRayon {
                1int
            } else {
                0
            }
            &&& stats.full_hybrid_count == before.full_hybrid_count
                + if result.strategy_used is FullHybrid {
                1int
            } else {
                0
            }
            &&& before.total_processing_time_ns + duration <= u64::MAX
                ==> stats.total_processing_time_ns == before.total_processing_time_ns + duration
            &&& before.total_processing_time_ns + duration > u64::MAX
                ==> stats.total_processing_time_ns == u64::MAX
            &&& before.total_operations_processed + result.processed_count <= u64::MAX
                ==> stats.total_operations_processed == before.total_operations_processed
                + result.processed_count
            &&& before.total_operations_processed + result.processed_count > u64::MAX
                ==> stats.total_operations_processed == u64::MAX
        }),
        report.processed_count == result.processed_count,
        report.processing_duration == duration,
        report.strategy_used == result.strategy_used,
        sent matches Some(n) ==> report.detailed_stats.async_dispatches == n,
        sent is None ==> report.detailed_stats == result.detailed_stats,
        report.detailed_stats.simd_operations == result.detailed_stats.simd_operations,
        report.detailed_stats.rayon_chunks_processed
            == result.detailed_stats.rayon_chunks_processed,
        report.detailed_stats.cache_hits == result.detailed_stats.cache_hits,
        report.detailed_stats.memory_allocations == result.detailed_stats.memory_allocations,
        final(system).dispatcher() == old(system).dispatcher(),
        final(system).fallback() == old(system).fallback(),
        final(system).selector() == old(system).selector(),
        final(system).cores() == old(system).cores(),
        final(system).chunk_size() == old(system).chunk_size(),
{
    old(system).law_strategy_counts_add_up();
}

/// Events that are sent by way of the channels take them in turn.
pub proof fn law_system_uses_the_channels_in_turn<E: EventDataTrait>(
    system: &mut HybridParallelTimerSystem<E>,
    data: Vec<ProcessedTimerData<E>>,
    plan: Vec<(usize, TimerEventData<E>)>,
    channels: &AsyncEventDispatcher<E>,
)
    requires
        call_ensures(
            HybridParallelTimerSystem::<E>::dispatch_events_async,
            (system, data),
            plan,
        ),
        call_ensures(
            HybridParallelTimerSystem::<E>::get_async_dispatcher,
            (&*final(system),),
            channels,
        ),
    ensures
        in_turn(plan@, data@, old(system).fallback().index(), old(system).fallback().channels()),
        old(system).fallback().index() + data@.len() <= usize::MAX ==> channels.index() == old(
            system).fallback().index() + data@.len(),
        channels.channels() == old(system).fallback().channels(),
        final(system).dispatcher() == old(system).dispatcher(),
        final(system).selector() == old(system).selector(),
        final(system).spec_stats() == old(system).spec_stats(),
        final(system).cores() == old(system).cores(),
        final(system).chunk_size() == old(system).chunk_size(),
{
    final(system).law_same_parts_look_the_same(*old(system));
    lemma_in_turn(
        plan@,
        data@,
        old(system).fallback().index(),
        old(system).fallback().channels(),
    );
    if old(system).fallback().index() + data@.len() <= usize::MAX {
        async_dispatcher::law_channels_in_turn(old(system).fallback().index(), data@.len());
    }
}

/// Whether a system is as new, for that many processors: a slot of 1024 events for each
/// of them, a pool of 1000 objects, a channel for each but four at least, and nothing
/// counted.
pub open spec fn as_new<E: EventDataTrait>(system: HybridParallelTimerSystem<E>, cores: usize) -> bool {
    &&& system.cores() == cores
    &&& cores <= 8 ==> system.chunk_size() == 512
    &&& cores > 8 && 64 * cores <= usize::MAX ==> system.chunk_size() == 64 * cores
    &&& system.dispatcher()@.buffers.len() == cores
    &&& forall|i: int|
        0 <= i < cores ==> (#[trigger] system.dispatcher()@.buffers[i]).len() == 0
    &&& system.dispatcher()@.capacity == 1024
    &&& system.dispatcher()@.index == 0
    &&& system.dispatcher()@.dispatched == 0
    &&& system.dispatcher()@.rejected == 0
    &&& system.dispatcher().processor().pool_config().max_size == 1000
    &&& cores <= 4 ==> system.fallback().channels() == 4
    &&& cores > 4 ==> system.fallback().channels() == cores
    &&& system.fallback().index() == 0
    &&& system.selector().threads() >= 1
    &&& !system.selector().in_runtime()
    &&& system.spec_stats().total_batches_processed == 0
    &&& system.spec_stats().simd_only_count == 0
    &&& system.spec_stats().simd_rayon_count == 0
    &&& system.spec_stats().full_hybrid_count == 0
    &&& system.spec_stats().total_processing_time_ns == 0
    &&& system.spec_stats().total_operations_processed == 0
}

/// A system for a number of processors starts as new.
pub proof fn law_system_starts_as_new<E: EventDataTrait>(
    cores: usize,
    system: HybridParallelTimerSystem<E>,
    here: HybridParallelTimerSystem<E>,
    other: HybridParallelTimerSystem<E>,
)
    requires
        call_ensures(HybridParallelTimerSystem::<E>::for_cores, (cores,), system),
        call_ensures(HybridParallelTimerSystem::<E>::new, (), here),
        call_ensures(HybridParallelTimerSystem::<E>::default, (), other),
    ensures
        as_new(system, cores),
        here.cores() >= 1,
        as_new(here, here.cores()),
        other.cores() >= 1,
        as_new(other, other.cores()),
{
    lemma_as_new(system, cores);
    lemma_as_new(here, here.cores());
    lemma_as_new(other, other.cores());
}

pub(crate) proof fn lemma_as_new<E: EventDataTrait>(
    system: HybridParallelTimerSystem<E>,
    cores: usize,
)
    requires
        system.fresh_for(cores),
    ensures
        as_new(system, cores),
{
    lemma_sixty_four_times(cores);
}

/// New figures are all zero.
pub proof fn law_figures_start_at_zero(
    details: DetailedProcessingStats,
    stats: ParallelProcessingStats,
)
    requires
        call_ensures(DetailedProcessingStats::default, (), details),
        call_ensures(ParallelProcessingStats::default, (), stats),
    ensures
        details.simd_operations == 0,
        details.rayon_chunks_processed == 0,
        details.async_dispatches == 0,
        details.cache_hits == 0,
        details.memory_allocations == 0,
        stats.total_batches_processed == 0,
        stats.simd_only_count == 0,
        stats.simd_rayon_count == 0,
        stats.full_hybrid_count == 0,
        stats.total_processing_time_ns == 0,
        stats.total_operations_processed == 0,
{
}

} // verus!
