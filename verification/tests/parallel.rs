//! Working off batches of due timers.

use reliable_udp::timer::event::performance_bench::BenchConfig;
use reliable_udp::timer::event::zero_copy::RefEventHandler;
use reliable_udp::timer::event::{TimeoutEvent, TimerEvent, TimerEventData};
use reliable_udp::timer::parallel::async_dispatcher::AsyncEventDispatcher;
use reliable_udp::timer::parallel::memory::{MemoryPool, ZeroAllocProcessor};
use reliable_udp::timer::parallel::rayon_executor::RayonBatchExecutor;
use reliable_udp::timer::parallel::simd_processor::SIMDTimerProcessor;
use reliable_udp::timer::parallel::single_thread_bypass::{
    choose_mode_for, BypassTimerProcessor, ExecutionMode, ExecutionModeSelector,
};
use reliable_udp::timer::parallel::strategy::{OptimalParallelStrategy, StrategySelector};
use reliable_udp::timer::parallel::system::HybridParallelTimerSystem;
use reliable_udp::timer::parallel::types::{process_entry, ProcessedTimerData};
use reliable_udp::timer::wheel::TimerEntry;

type Entry = TimerEntry<TimerEvent<TimeoutEvent, ()>>;

fn entries(count: usize) -> Vec<Entry> {
    (0..count)
        .map(|i| TimerEntry {
            id: i as u64,
            expiry_time: 1000 + i as u64,
            event: TimerEvent::new(
                i as u64,
                TimerEventData::new((i % 10000) as u32 + 7, TimeoutEvent::ConnectionTimeout),
                (),
            ),
        })
        .collect()
}

fn processed(count: usize) -> Vec<ProcessedTimerData<TimeoutEvent>> {
    entries(count).iter().enumerate().map(|(i, e)| process_entry(e, i)).collect()
}

#[test]
fn test_hybrid_parallel_system_creation() {
    let system = HybridParallelTimerSystem::<TimeoutEvent>::new();
    assert!(system.cpu_cores() > 0);
    assert_eq!(system.get_stats().total_batches_processed, 0);
}

#[test]
fn test_strategy_selection() {
    let system = HybridParallelTimerSystem::<TimeoutEvent>::for_cores(4);
    assert_eq!(system.choose_optimal_strategy(100), OptimalParallelStrategy::SIMDOnly);
    assert_eq!(system.choose_optimal_strategy(1000), OptimalParallelStrategy::SIMDOnly);
    assert_eq!(system.choose_optimal_strategy(10000), OptimalParallelStrategy::FullHybrid);
}

#[test]
fn strategy_limits() {
    let several = StrategySelector::new(2);
    assert_eq!(several.choose_optimal_strategy(1023), OptimalParallelStrategy::SIMDOnly);
    assert_eq!(several.choose_optimal_strategy(1024), OptimalParallelStrategy::FullHybrid);
    let one = StrategySelector::new(1);
    assert_eq!(one.choose_optimal_strategy(1024), OptimalParallelStrategy::SIMDOnly);
    assert_eq!(one.choose_optimal_strategy(100_000), OptimalParallelStrategy::SIMDOnly);
}

#[test]
fn test_simd_processor() {
    let mut processor = SIMDTimerProcessor::<TimeoutEvent>::new();
    let test_entries: Vec<Entry> = vec![];
    let result = processor.process_batch(&test_entries);
    assert!(result.is_ok());
    let processed = result.unwrap();
    assert_eq!(processed.len(), 0);
}

#[test]
fn conversion_keeps_every_timer() {
    let mut processor = SIMDTimerProcessor::<TimeoutEvent>::new();
    let converted = processor.process_batch(&entries(21)).unwrap();
    assert_eq!(converted, processed(21));
    assert_eq!(converted[20].entry_id, 20);
    assert_eq!(converted[20].connection_id, 27);
    assert_eq!(converted[20].expiry_time, 1020);
    assert_eq!(converted[20].slot_index, 20);
    let ids: Vec<u32> = (0..19).map(|i| i * i).collect();
    assert_eq!(processor.simd_process_connection_ids(&ids).unwrap(), ids);
}

#[test]
fn chunks_keep_the_order_and_count_places_anew() {
    let executor = RayonBatchExecutor::new(2);
    assert_eq!(executor.chunk_size(), 512);
    assert_eq!(executor.thread_pool_size(), 2);
    assert_eq!(RayonBatchExecutor::new(16).chunk_size(), 1024);
    let mut processor = SIMDTimerProcessor::new();
    let converted =
        executor.parallel_process_with_simd_sync(entries(1300), &mut processor).unwrap();
    assert_eq!(converted.len(), 1300);
    for (i, data) in converted.iter().enumerate() {
        assert_eq!(data.entry_id, i as u64);
        assert_eq!(data.connection_id, i as u32 + 7);
        assert_eq!(data.slot_index, i % 512);
    }
}

#[test]
fn execution_modes() {
    assert_eq!(choose_mode_for(64, 8, true), ExecutionMode::SingleThreadDirect);
    assert_eq!(choose_mode_for(65, 8, true), ExecutionMode::SingleThreadAsync);
    assert_eq!(choose_mode_for(128, 1, false), ExecutionMode::SingleThreadDirect);
    assert_eq!(choose_mode_for(128, 1, true), ExecutionMode::SingleThreadAsync);
    assert_eq!(choose_mode_for(129, 2, false), ExecutionMode::MultiThreadParallel);
    assert_eq!(choose_mode_for(129, 1, false), ExecutionMode::SingleThreadAsync);
    let mut selector = ExecutionModeSelector::new();
    assert!(selector.should_bypass_async(64));
    assert!(!selector.should_bypass_async(129));
}

#[test]
fn runtime_is_noticed() {
    let runtime = tokio::runtime::Builder::new_current_thread().build().unwrap();
    let inside = runtime.block_on(async {
        let mut selector = ExecutionModeSelector::new();
        selector.choose_mode(100)
    });
    assert_eq!(inside, ExecutionMode::SingleThreadAsync);
}

#[test]
fn bypass_counts_what_the_handler_takes() {
    let processor = BypassTimerProcessor::<TimeoutEvent>::new();
    let handler = RefEventHandler::new(|event: &TimerEventData<TimeoutEvent>| event.connection_id % 2 == 1);
    assert_eq!(processor.dispatch_events_bypass(&processed(5), &handler), 3);
}

#[test]
fn buffers_are_used_in_turn() {
    let mut pool = MemoryPool::<TimeoutEvent>::new(2, 4);
    pool.get_data_buffer().extend(processed(3));
    pool.get_data_buffer().extend(processed(1));
    assert!(pool.get_data_buffer().is_empty());
    let (ids, times) = pool.get_work_buffers();
    ids.push(1);
    times.push(2);
    let (ids, times) = pool.get_work_buffers();
    assert!(ids.is_empty() && times.is_empty());
    let mut processor = ZeroAllocProcessor::<TimeoutEvent>::new();
    assert_eq!(processor.process_small_batch(&entries(64)).len(), 64);
    assert!(processor.process_small_batch(&entries(65)).is_empty());
    assert_eq!(processor.process_large_batch(&entries(65)), &processed(65)[..]);
}

#[test]
fn channels_are_taken_in_turn() {
    let mut dispatcher = AsyncEventDispatcher::<TimeoutEvent>::for_cores(2);
    assert_eq!(dispatcher.channel_count(), 4);
    assert_eq!(AsyncEventDispatcher::<TimeoutEvent>::for_cores(9).channel_count(), 9);
    assert!(AsyncEventDispatcher::<TimeoutEvent>::new().channel_count() >= 4);
    let plan = dispatcher.dispatch_timer_events(processed(6));
    assert_eq!(plan.iter().map(|p| p.0).collect::<Vec<usize>>(), vec![0, 1, 2, 3, 0, 1]);
    assert_eq!(plan[5].1, TimerEventData::new(12, TimeoutEvent::ConnectionTimeout));
    assert_eq!(dispatcher.dispatch_timer_events(processed(1))[0].0, 2);
}

#[test]
fn direct_path_reports_every_timer() {
    let mut system = HybridParallelTimerSystem::<TimeoutEvent>::for_cores(4);
    let (result, plan) = system.process_timer_batch(entries(10));
    assert!(plan.is_none());
    assert_eq!(result.processed_count, 10);
    assert_eq!(result.strategy_used, OptimalParallelStrategy::SIMDOnly);
    assert_eq!(result.detailed_stats.simd_operations, 0);
    assert_eq!(result.detailed_stats.async_dispatches, 10);
    assert_eq!(result.detailed_stats.memory_allocations, 0);
    let (result, _) = system.process_in_mode(entries(100), true);
    assert_eq!(result.detailed_stats.memory_allocations, 1);
    let report = system.finish_batch(result, None, 500);
    assert_eq!(report.detailed_stats, result.detailed_stats);
    assert_eq!(report.processing_duration, 500);
}

#[test]
fn strategies_report_their_work() {
    let mut system = HybridParallelTimerSystem::<TimeoutEvent>::for_cores(4);
    let (result, plan) = system.process_in_mode(entries(200), false);
    assert!(plan.is_none());
    assert_eq!(result.strategy_used, OptimalParallelStrategy::SIMDOnly);
    assert_eq!(result.detailed_stats.simd_operations, 26);
    assert_eq!(result.detailed_stats.rayon_chunks_processed, 0);
    assert_eq!(result.detailed_stats.async_dispatches, 200);
    assert_eq!(result.detailed_stats.memory_allocations, 1);
    system.finish_batch(result, None, 10);
    let (result, _) = system.process_in_mode(entries(1100), false);
    assert_eq!(result.strategy_used, OptimalParallelStrategy::FullHybrid);
    assert_eq!(result.detailed_stats.simd_operations, 138);
    assert_eq!(result.detailed_stats.rayon_chunks_processed, 3);
    assert_eq!(result.detailed_stats.memory_allocations, 1);
    system.finish_batch(result, None, 20);
    let (result, _) = system.process_in_mode(entries(5000), false);
    assert_eq!(result.detailed_stats.memory_allocations, 2);
    system.finish_batch(result, None, 30);
    let stats = system.get_stats();
    assert_eq!(stats.total_batches_processed, 3);
    assert_eq!(stats.simd_only_count, 1);
    assert_eq!(stats.simd_rayon_count, 0);
    assert_eq!(stats.full_hybrid_count, 2);
    assert_eq!(stats.total_processing_time_ns, 60);
    assert_eq!(stats.total_operations_processed, 6300);
}

#[test]
fn events_without_room_go_to_channels() {
    let mut system = HybridParallelTimerSystem::<TimeoutEvent>::for_cores(1);
    let mut planned = None;
    for _ in 0..40 {
        let (result, plan) = system.process_in_mode(entries(900), false);
        if let Some(plan) = plan {
            planned = Some((result, plan));
            break;
        }
        assert!(result.detailed_stats.async_dispatches > 0);
    }
    // Only half of what finds room is taken out again, so the slot fills up.
    let (result, plan) = planned.unwrap();
    assert_eq!(result.processed_count, 900);
    assert_eq!(result.detailed_stats.async_dispatches, 0);
    assert_eq!(plan.len(), 900);
    assert_eq!(plan[899].0, 3);
    assert_eq!(plan[899].1, TimerEventData::new(906, TimeoutEvent::ConnectionTimeout));
    let plan = system.dispatch_events_async(processed(5));
    assert_eq!(plan.len(), 5);
    assert_eq!(plan[4].0, 0);
    let (result, _) = system.process_in_mode(entries(1), true);
    let report = system.finish_batch(result, Some(3), 1);
    assert_eq!(report.detailed_stats.async_dispatches, 3);
    assert_eq!(system.get_async_dispatcher().channel_count(), 4);
}

#[test]
fn benchmark_sizes() {
    let config = BenchConfig::default();
    assert_eq!(config.batch_sizes, vec![32, 128, 512, 2048, 8192]);
    assert_eq!(config.dispatcher_counts, vec![1, 4, 8, 16]);
    assert_eq!(config.slot_counts, vec![64, 256, 1024, 4096]);
    assert_eq!(config.iterations, 100);
}

#[test]
fn differences_of_times_wrap_around() {
    let mut processor: SIMDTimerProcessor<TimeoutEvent> = SIMDTimerProcessor::new();
    let times: Vec<u64> = vec![10, 11, 12, 9, 100, 10];
    let differences = processor.simd_process_timestamps(&times, 10).unwrap();
    assert_eq!(differences, vec![0, 1, 2, u64::MAX, 90, 0]);
}

#[test]
fn defaults_start_afresh() {
    let dispatcher: AsyncEventDispatcher<TimeoutEvent> = AsyncEventDispatcher::default();
    assert!(dispatcher.channel_count() >= 4);
    let system: HybridParallelTimerSystem<TimeoutEvent> = HybridParallelTimerSystem::default();
    assert!(system.cpu_cores() > 0);
    assert_eq!(system.get_async_dispatcher().channel_count(), system.cpu_cores().max(4));
    let stats = system.get_stats();
    assert_eq!(stats.total_batches_processed, 0);
    assert_eq!(stats.simd_only_count + stats.simd_rayon_count + stats.full_hybrid_count, 0);
    assert_eq!(stats.total_operations_processed, 0);
}
