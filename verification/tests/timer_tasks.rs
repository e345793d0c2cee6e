//! The timer task, and the one that works off large batches in parallel.

use reliable_udp::timer::event::{TimeoutEvent, TimerEvent, TimerEventData};
use reliable_udp::timer::hybrid_system::HybridTimerTask;
use reliable_udp::timer::task::commands::{TimerError, TimerTaskCommand, TimerTaskResponse};
use reliable_udp::timer::task::global::GlobalTimerTask;
use reliable_udp::timer::task::schedule::{AdvanceSchedule, LoopAction, LoopEvent};
use reliable_udp::timer::task::types::{
    BatchTimerCancellation, BatchTimerRegistration, BatchTimerResult, ClosureCallback,
    NoOpCallback, TimerCallback, TimerRegistration,
};
use reliable_udp::timer::wheel::TimerEntry;
use std::cell::Cell;
use std::time::{Duration, Instant};
use wide::u64x4;

const MS: u64 = 1_000_000;
const SECOND: u64 = 1000 * MS;

fn registration(connection: u32, delay: u64) -> TimerRegistration<TimeoutEvent, ()> {
    TimerRegistration::new(connection, delay, TimeoutEvent::IdleTimeout, ())
}

fn fired(entries: &[TimerEntry<TimerEvent<TimeoutEvent, ()>>]) -> Vec<u64> {
    let mut ids: Vec<u64> = entries.iter().map(|e| e.id).collect();
    ids.sort();
    ids
}

#[test]
fn test_timer_task_creation() {
    let task: HybridTimerTask<TimeoutEvent, ()> = HybridTimerTask::new_default(0);
    assert_eq!(task.get_stats().total_timers, 0);
}

#[test]
fn test_register_and_cancel_timer() {
    let mut task = HybridTimerTask::new_default(0);
    let handle = task.register_timer(registration(1, 100 * MS), 0).unwrap();
    assert_eq!(task.cancel_timer(handle.entry_id), Ok(true));
    assert_eq!(task.cancel_timer(handle.entry_id), Ok(false));
    assert!(task.advance_timing_wheel_hybrid(200 * MS).notifications.is_empty());
}

#[test]
fn test_timer_expiration() {
    let mut task = HybridTimerTask::new_default(0);
    task.register_timer(registration(1, 100 * MS), 0).unwrap();
    assert!(task.advance_timing_wheel_hybrid(99 * MS).notifications.is_empty());
    let advance = task.advance_timing_wheel_hybrid(100 * MS);
    assert_eq!(advance.notifications.len(), 1);
    assert!(advance.batch.is_none());
    let event_data = &advance.notifications[0].data;
    assert_eq!(event_data.connection_id, 1);
    assert_eq!(event_data.timeout_event, TimeoutEvent::IdleTimeout);
}

#[test]
fn test_clear_connection_timers() {
    let mut task = HybridTimerTask::new_default(0);
    for i in 0..3 {
        task.register_timer(registration(1, (1000 + i * 100) * MS), 0).unwrap();
    }
    let cleared = task.clear_connection_timers(1);
    assert_eq!(cleared, 3);
    assert_eq!(task.clear_connection_timers(1), 0);
}

#[test]
fn test_timer_stats() {
    let mut task = HybridTimerTask::new_default(0);
    for i in 1..=3 {
        task.register_timer(registration(i, 10 * SECOND), 0).unwrap();
    }
    let stats = task.get_stats();
    assert_eq!(stats.total_timers, 3);
    assert_eq!(stats.active_connections, 3);
}

#[test]
fn test_multiple_timer_types() {
    let mut task = HybridTimerTask::new_default(0);
    let timeout_types = vec![
        TimeoutEvent::IdleTimeout,
        TimeoutEvent::PacketRetransmissionTimeout { sequence_number: 1, timer_id: 123 },
        TimeoutEvent::PathValidationTimeout,
        TimeoutEvent::ConnectionTimeout,
    ];
    for (i, timeout_type) in timeout_types.iter().enumerate() {
        let registration =
            TimerRegistration::new(i as u32 + 1, (120 + i as u64 * 50) * MS, *timeout_type, ());
        task.register_timer(registration, 0).unwrap();
    }
    let mut received = Vec::new();
    for step in 1..=30 {
        for notification in task.advance_timing_wheel_hybrid(step * 10 * MS).notifications {
            received.push(notification.data.timeout_event);
        }
    }
    assert_eq!(received, timeout_types);
}

#[test]
fn large_batches_go_through_the_parallel_system() {
    let mut task = HybridTimerTask::new(4, 0);
    for i in 0..5 {
        task.register_timer(registration(i, 50 * MS), 0).unwrap();
    }
    let advance = task.advance_timing_wheel_hybrid(60 * MS);
    assert_eq!(advance.notifications.len(), 5);
    let (result, plan) = advance.batch.unwrap();
    assert!(plan.is_none());
    assert_eq!(result.processed_count, 5);
    assert_eq!(result.detailed_stats.async_dispatches, 5);
    let report = task.finish_batch(result, None, 1234);
    assert_eq!(report.processing_duration, 1234);
    assert_eq!(task.get_parallel_stats().total_batches_processed, 1);
    assert_eq!(task.get_parallel_stats().total_operations_processed, 5);
    assert_eq!(task.get_stats().processed_timers, 5);
    // Each of them is told of once.
    assert!(task.advance_timing_wheel_hybrid(SECOND).notifications.is_empty());
}

#[test]
fn timers_are_accounted_for() {
    let mut task = GlobalTimerTask::new(0);
    let batch = BatchTimerRegistration::new((0..6).map(|i| registration(i % 2, (i as u64 + 1) * 20 * MS)).collect());
    let result = task.batch_register_timers(batch, 0);
    assert_eq!(result.successes.iter().map(|h| h.entry_id).collect::<Vec<u64>>(), vec![1, 2, 3, 4, 5, 6]);
    assert!(task.cancel_timer(6));
    assert_eq!(fired(&task.advance_timing_wheel(45 * MS)), vec![1, 2]);
    assert_eq!(task.clear_connection_timers(0), 2);
    let stats = task.get_stats();
    assert_eq!(stats.total_timers, 1);
    assert_eq!(stats.processed_timers, 2);
    assert_eq!(stats.cancelled_timers, 3);
    assert_eq!(stats.active_connections, 1);
    assert_eq!(stats.wheel_stats.total_slots, 512);
}

#[test]
fn slots_of_the_task_are_ten_milliseconds() {
    let start = 7 * MS;
    let mut task = GlobalTimerTask::new(start);
    task.register_timer(registration(1, 0), start).unwrap();
    task.register_timer(registration(1, 9 * MS), start).unwrap();
    assert_eq!(task.get_stats().wheel_stats.non_empty_slots, 1);
    task.register_timer(registration(1, 10 * MS), start).unwrap();
    task.register_timer(registration(1, 20 * MS), start).unwrap();
    assert_eq!(task.get_stats().wheel_stats.non_empty_slots, 3);
    // A timer that is overdue goes to the slot of the current tick.
    assert_eq!(fired(&task.advance_timing_wheel(start + 15 * MS)), vec![1, 2, 3]);
    assert_eq!(task.get_stats().wheel_stats.non_empty_slots, 1);
    task.register_timer(registration(1, 0), start).unwrap();
    assert_eq!(task.get_stats().wheel_stats.non_empty_slots, 2);
}

#[test]
fn batch_cancellation_names_what_it_did_not_find() {
    let mut task = GlobalTimerTask::new(0);
    for i in 0..3 {
        task.register_timer(registration(i, SECOND), 0).unwrap();
    }
    let result = task.batch_cancel_timers(BatchTimerCancellation::new(vec![2, 9, 2, 3]));
    assert_eq!(result.successes, vec![true, true]);
    assert_eq!(
        result.failures,
        vec![(1, TimerError::TimerNotFound), (2, TimerError::TimerNotFound)]
    );
    assert_eq!(result.success_count(), 2);
    assert_eq!(result.failure_count(), 2);
    assert!(!result.all_succeeded());
    assert!(BatchTimerResult::<bool>::new().all_succeeded());
}

#[test]
fn commands_are_answered() {
    let mut task = GlobalTimerTask::new(0);
    match task.handle_command(TimerTaskCommand::RegisterTimer { registration: registration(1, SECOND) }, 0) {
        TimerTaskResponse::Registered(Ok(handle)) => assert_eq!(handle.entry_id, 1),
        _ => panic!("a timer is registered"),
    }
    let mut batch = BatchTimerRegistration::with_capacity(2);
    batch.add(registration(1, SECOND));
    batch.add(registration(2, SECOND));
    match task.handle_command(TimerTaskCommand::BatchRegisterTimers { batch_registration: batch }, 0) {
        TimerTaskResponse::BatchRegistered(result) => assert!(result.all_succeeded()),
        _ => panic!("timers are registered"),
    }
    assert!(matches!(
        task.handle_command(TimerTaskCommand::CancelTimer { entry_id: 2 }, 0),
        TimerTaskResponse::Cancelled(true)
    ));
    let mut cancellation = BatchTimerCancellation::with_capacity(1);
    cancellation.add(2);
    match task.handle_command(TimerTaskCommand::BatchCancelTimers { batch_cancellation: cancellation }, 0) {
        TimerTaskResponse::BatchCancelled(result) => assert_eq!(result.failure_count(), 1),
        _ => panic!("a cancellation is answered"),
    }
    assert!(matches!(
        task.handle_command(TimerTaskCommand::ClearConnectionTimers { connection_id: 2 }, 0),
        TimerTaskResponse::Cleared(1)
    ));
    match task.handle_command(TimerTaskCommand::GetStats, 0) {
        TimerTaskResponse::Stats(stats) => {
            assert_eq!(stats.total_timers, 1);
            assert_eq!(stats.cancelled_timers, 2);
        }
        _ => panic!("figures are given"),
    }
    assert!(matches!(
        task.handle_command(TimerTaskCommand::Shutdown, 0),
        TimerTaskResponse::ShuttingDown
    ));
}

#[test]
fn waiting_times() {
    let mut task = GlobalTimerTask::new(0);
    assert_eq!(task.calculate_advance_interval(), 100 * MS);
    assert_eq!(task.get_next_wakeup_time(7), 7 + SECOND);
    task.register_timer(registration(1, 300 * MS), 0).unwrap();
    assert_eq!(task.get_next_wakeup_time(0), 300 * MS);
    assert_eq!(task.get_next_wakeup_time(298 * MS), 303 * MS);
    let batch = BatchTimerRegistration::new((0..999).map(|i| registration(i, SECOND)).collect());
    task.batch_register_timers(batch, 0);
    assert_eq!(task.calculate_advance_interval(), 20 * MS);
}

#[test]
fn callbacks() {
    let told = Cell::new(0);
    let callback = ClosureCallback::new(|data: TimerEventData<TimeoutEvent>| {
        told.set(data.connection_id);
        if data.connection_id == 4 { Ok(()) } else { Err(()) }
    });
    assert_eq!(callback.on_timeout(TimerEventData::new(4, TimeoutEvent::IdleTimeout)), Ok(()));
    assert_eq!(told.get(), 4);
    assert_eq!(callback.on_timeout(TimerEventData::new(5, TimeoutEvent::IdleTimeout)), Err(()));
    let quiet = NoOpCallback::new();
    assert_eq!(quiet.on_timeout(TimerEventData::new(5, TimeoutEvent::IdleTimeout)), Ok(()));
    let silent = TimerRegistration::with_no_op(3, 9, TimeoutEvent::IdleTimeout);
    assert_eq!((silent.connection_id, silent.delay), (3, 9));
    let loud = TimerRegistration::with_closure(6, 1, TimeoutEvent::IdleTimeout, |_| Err(()));
    assert_eq!(loud.callback.on_timeout(TimerEventData::new(6, TimeoutEvent::IdleTimeout)), Err(()));
}

#[test]
fn test_timer_replacement() {
    let mut task = HybridTimerTask::new_default(0);
    task.register_timer(registration(1, 5 * SECOND), 0).unwrap();
    task.register_timer(registration(1, 100 * MS), 0).unwrap();
    let fired = task.advance_timing_wheel_hybrid(100 * MS).notifications;
    assert_eq!(fired.len(), 1);
    assert_eq!(fired[0].data.connection_id, 1);
    assert_eq!(fired[0].data.timeout_event, TimeoutEvent::IdleTimeout);
    assert!(task.advance_timing_wheel_hybrid(200 * MS).notifications.is_empty());
}

#[test]
fn test_cache_performance() {
    let mut task = HybridTimerTask::new_default(0);
    for i in 0..500 {
        task.register_timer(registration(i, (60 + i as u64) * SECOND), 0).unwrap();
    }
    let start_time = Instant::now();
    for _ in 0..100 {
        task.get_stats();
    }
    assert!(start_time.elapsed() < Duration::from_millis(10));
}

#[test]
fn test_global_timer_task_error_recovery() {
    let mut task = HybridTimerTask::new_default(0);

    let result = task.batch_cancel_timers(BatchTimerCancellation::new(vec![99999, 88888, 77777]));
    assert_eq!(result.success_count(), 0);
    assert_eq!(result.failure_count(), 3);
    for (_, error) in &result.failures {
        assert_eq!(*error, TimerError::TimerNotFound);
    }

    let mut valid = Vec::new();
    for i in 0..3 {
        valid.push(task.register_timer(registration(i, 60 * SECOND), 0).unwrap());
    }
    let mixed_ids =
        vec![valid[0].entry_id, 99999, valid[1].entry_id, 88888, valid[2].entry_id];
    let result = task.batch_cancel_timers(BatchTimerCancellation::new(mixed_ids));
    assert_eq!(result.success_count(), 3);
    assert_eq!(result.failure_count(), 2);
    assert_eq!(result.failures[0].0, 1);
    assert_eq!(result.failures[1].0, 3);

    let result = task.batch_register_timers(BatchTimerRegistration::with_capacity(0), 0);
    assert_eq!(result.success_count(), 0);
    assert_eq!(result.failure_count(), 0);
    let result = task.batch_cancel_timers(BatchTimerCancellation::new(vec![]));
    assert_eq!(result.success_count(), 0);
    assert_eq!(result.failure_count(), 0);
}

#[test]
fn test_connection_lifecycle_management() {
    let mut task = HybridTimerTask::new_default(0);
    for i in 0..5 {
        task.register_timer(registration(1, (60 + i) * SECOND), 0).unwrap();
    }
    for i in 0..3 {
        let timeout_event = TimeoutEvent::PacketRetransmissionTimeout {
            sequence_number: (i + 100) as u32,
            timer_id: i + 1000,
        };
        let registration = TimerRegistration::new(2, (70 + i) * SECOND, timeout_event, ());
        task.register_timer(registration, 0).unwrap();
    }
    let stats = task.get_stats();
    assert_eq!(stats.total_timers, 8);
    assert_eq!(stats.active_connections, 2);

    assert_eq!(task.clear_connection_timers(1), 5);
    let stats = task.get_stats();
    assert_eq!(stats.total_timers, 3);
    assert_eq!(stats.active_connections, 1);

    assert_eq!(task.clear_connection_timers(1), 0);
    assert_eq!(task.get_stats().total_timers, 3);
    assert_eq!(task.clear_connection_timers(999), 0);

    task.clear_connection_timers(2);
    let reused = TimerRegistration::new(1, 100 * MS, TimeoutEvent::ConnectionTimeout, ());
    task.register_timer(reused, 0).unwrap();
    let stats = task.get_stats();
    assert_eq!(stats.total_timers, 1);
    assert_eq!(stats.active_connections, 1);
    let fired = task.advance_timing_wheel_hybrid(100 * MS).notifications;
    assert_eq!(fired.len(), 1);
    assert_eq!(fired[0].data.connection_id, 1);
    assert_eq!(fired[0].data.timeout_event, TimeoutEvent::ConnectionTimeout);
}

#[test]
fn test_high_load_batch_processing() {
    let mut task = HybridTimerTask::new_default(0);
    let batch_size = 10000;
    let mut batch_registration = BatchTimerRegistration::with_capacity(batch_size);
    for i in 0..batch_size {
        batch_registration.add(registration((i % 1000) as u32, 3600 * SECOND));
    }
    let result = task.batch_register_timers(batch_registration, 0);
    assert_eq!(result.success_count(), batch_size);
    assert!(result.all_succeeded());
    let stats = task.get_stats();
    assert_eq!(stats.total_timers, batch_size);
    assert_eq!(stats.active_connections, 1000);

    let entry_ids: Vec<u64> = result.successes.into_iter().map(|h| h.entry_id).collect();
    let cancel_result = task.batch_cancel_timers(BatchTimerCancellation::new(entry_ids));
    assert_eq!(cancel_result.success_count(), batch_size);
    assert!(cancel_result.all_succeeded());
    let stats = task.get_stats();
    assert_eq!(stats.total_timers, 0);
    assert_eq!(stats.active_connections, 0);

    let iterations = 10;
    let batch_size_per_iteration = 1000;
    for iteration in 0..iterations {
        let mut batch_registration =
            BatchTimerRegistration::with_capacity(batch_size_per_iteration);
        for i in 0..batch_size_per_iteration {
            let connection = (iteration * batch_size_per_iteration + i) as u32;
            batch_registration.add(registration(connection, 3600 * SECOND));
        }
        let result = task.batch_register_timers(batch_registration, 0);
        assert_eq!(result.success_count(), batch_size_per_iteration);
        let entry_ids: Vec<u64> = result.successes.into_iter().map(|h| h.entry_id).collect();
        let cancel_result = task.batch_cancel_timers(BatchTimerCancellation::new(entry_ids));
        assert_eq!(cancel_result.success_count(), batch_size_per_iteration);
    }
    let stats = task.get_stats();
    assert_eq!(stats.total_timers, 0);
    assert_eq!(stats.active_connections, 0);
}

#[test]
fn test_simd_compatibility_and_fallback() {
    let sum = u64x4::new([1, 2, 3, 4]) + u64x4::new([5, 6, 7, 8]);
    assert_eq!(sum.to_array(), [6, 8, 10, 12]);

    let mut task = HybridTimerTask::new_default(0);
    let batch_size = 64;
    let mut batch = BatchTimerRegistration::with_capacity(batch_size);
    for i in 0..batch_size {
        batch.add(registration(i as u32, 1000 * MS));
    }
    let result = task.batch_register_timers(batch, 0);
    assert_eq!(result.success_count(), batch_size);
    let entry_ids: Vec<u64> = result.successes.into_iter().map(|h| h.entry_id).collect();
    task.batch_cancel_timers(BatchTimerCancellation::new(entry_ids));
    assert_eq!(task.get_stats().total_timers, 0);
}

#[test]
fn commands_that_lead_too_far_are_noticed() {
    let task: HybridTimerTask<TimeoutEvent, ()> = HybridTimerTask::new_default(0);
    let register = |delay: u64| TimerTaskCommand::RegisterTimer {
        registration: registration(1, delay),
    };
    assert!(task.can_handle(&register(u64::MAX - 5), 5));
    assert!(!task.can_handle(&register(u64::MAX - 5), 6));
    let batch_registration =
        BatchTimerRegistration::new(vec![registration(1, 1), registration(1, u64::MAX)]);
    let batch = TimerTaskCommand::BatchRegisterTimers { batch_registration };
    assert!(task.can_handle(&batch, 0));
    assert!(!task.can_handle(&batch, 1));
    assert!(task.can_handle(&TimerTaskCommand::GetStats, u64::MAX));
}

#[test]
fn loop_looks_at_its_interval_once_a_second() {
    let mut schedule = AdvanceSchedule::new(100 * MS, 7);
    assert_eq!(schedule.next_update, SECOND + 7);
    assert_eq!(schedule.react(LoopEvent::IntervalTick, 8, 50 * MS), LoopAction::Advance);
    assert_eq!(schedule.react(LoopEvent::Wakeup, 8, 50 * MS), LoopAction::Advance);
    let command = LoopEvent::Command { shutdown: false };
    assert_eq!(schedule.react(command, SECOND + 6, 50 * MS), LoopAction::Wait);
    assert_eq!(schedule.interval, 100 * MS);
    assert_eq!(
        schedule.react(command, SECOND + 7, 50 * MS),
        LoopAction::SetInterval { interval: 50 * MS }
    );
    assert_eq!(schedule, AdvanceSchedule { interval: 50 * MS, next_update: 2 * SECOND + 7 });
    assert_eq!(
        schedule.react(LoopEvent::UpdateDue, SECOND + 8, 20 * MS),
        LoopAction::SetInterval { interval: 20 * MS }
    );
    assert_eq!(schedule.next_update, 2 * SECOND + 8);
    let shutdown = LoopEvent::Command { shutdown: true };
    assert_eq!(schedule.react(shutdown, 5 * SECOND, 10 * MS), LoopAction::Stop);
    assert_eq!(schedule.interval, 20 * MS);
}
