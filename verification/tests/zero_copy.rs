//! Delivery by reference, slots, and the dispatcher over them.

use reliable_udp::timer::event::traits::EventFactory;
use reliable_udp::timer::event::zero_copy::{
    EventSlot, RefEventHandler, ZeroCopyBatchDispatcher, ZeroCopyEventDelivery,
};
use reliable_udp::timer::event::{TimeoutEvent, TimerEventData};
use std::sync::atomic::{AtomicUsize, Ordering};
use std::sync::Arc;
use std::time::{Duration, Instant};

fn create_test_event_data(connection_id: u32) -> TimerEventData<TimeoutEvent> {
    TimerEventData::new(connection_id, TimeoutEvent::IdleTimeout)
}

fn create_test_event_data_batch(count: usize) -> Vec<TimerEventData<TimeoutEvent>> {
    (0..count).map(|i| create_test_event_data(i as u32)).collect()
}

fn ids(events: &[TimerEventData<TimeoutEvent>]) -> Vec<u32> {
    events.iter().map(|e| e.connection_id).collect()
}

#[test]
fn test_fast_event_slot_creation() {
    let mut slot = EventSlot::<TimeoutEvent>::new(64);
    let event = create_test_event_data(1);
    assert!(slot.write_event(event));
}

#[test]
fn test_fast_event_slot_non_power_of_two() {
    let mut slot = EventSlot::<TimeoutEvent>::new(100);
    let event = create_test_event_data(1);
    assert!(slot.write_event(event));
}

#[test]
fn test_fast_event_slot_write_single() {
    let mut slot = EventSlot::<TimeoutEvent>::new(16);
    let event = create_test_event_data(1);
    let success = slot.write_event(event);
    assert!(success);
}

#[test]
fn test_fast_event_slot_write_multiple() {
    let mut slot = EventSlot::<TimeoutEvent>::new(16);
    let mut success_count = 0;
    for i in 0..10 {
        let event = create_test_event_data(i);
        if slot.write_event(event) {
            success_count += 1;
        }
    }
    assert!(success_count >= 8);
}

#[test]
fn slot_counts_its_writes() {
    let mut slot = EventSlot::<TimeoutEvent>::new(2);
    assert!(slot.write_event(create_test_event_data(1)));
    assert!(slot.try_write_event(create_test_event_data(2)).is_ok());
    assert_eq!(slot.try_write_event(create_test_event_data(3)).unwrap_err().connection_id, 3);
    assert!(!slot.write_event(create_test_event_data(4)));
    assert_eq!(slot.get_stats(), (2, 2, 2, 2));
    assert_eq!(slot.try_read().unwrap().connection_id, 1);
    assert_eq!(slot.batch_write_events(create_test_event_data_batch(3)), 1);
    assert_eq!(slot.get_stats(), (3, 2, 2, 2));
    assert_eq!(ids(&slot.batch_read(5)), vec![2, 0]);
    assert!(slot.try_read().is_none());
}

#[test]
fn test_ref_event_handler_single() {
    let processed_events = Arc::new(AtomicUsize::new(0));
    let processed_events_clone = Arc::clone(&processed_events);
    let handler = RefEventHandler::new(move |event: &TimerEventData<TimeoutEvent>| {
        processed_events_clone.fetch_add(1, Ordering::Relaxed);
        event.connection_id < 1000
    });
    let event = create_test_event_data(123);
    let success = handler.deliver_event_ref(&event);
    assert!(success);
    assert_eq!(processed_events.load(Ordering::Relaxed), 1);
}

#[test]
fn test_ref_event_handler_batch() {
    let processed_events = Arc::new(AtomicUsize::new(0));
    let processed_events_clone = Arc::clone(&processed_events);
    let handler = RefEventHandler::new(move |event: &TimerEventData<TimeoutEvent>| {
        processed_events_clone.fetch_add(1, Ordering::Relaxed);
        event.connection_id % 2 == 0
    });
    let events = create_test_event_data_batch(10);
    let event_refs: Vec<&TimerEventData<TimeoutEvent>> = events.iter().collect();
    let delivered_count = handler.batch_deliver_event_refs(&event_refs);
    assert_eq!(delivered_count, 5);
    assert_eq!(processed_events.load(Ordering::Relaxed), 10);
}

#[test]
fn a_batch_is_delivered_like_its_events_one_by_one() {
    let handler =
        RefEventHandler::new(|event: &TimerEventData<TimeoutEvent>| event.connection_id % 3 == 1);
    let events = create_test_event_data_batch(10);
    let event_refs: Vec<&TimerEventData<TimeoutEvent>> = events.iter().collect();
    let singles = event_refs.iter().filter(|event| handler.deliver_event_ref(event)).count();
    let answers = events.iter().filter(|event| event.connection_id % 3 == 1).count();
    assert_eq!(handler.batch_deliver_event_refs(&event_refs), singles);
    assert_eq!(singles, answers);
    assert_eq!(handler.batch_deliver_event_refs(&[]), 0);
}

#[test]
fn test_zero_copy_batch_dispatcher_creation() {
    let mut dispatcher = ZeroCopyBatchDispatcher::<TimeoutEvent>::new(64, 4, 1000);
    let events = create_test_event_data_batch(4);
    let dispatched = dispatcher.batch_dispatch_events(events);
    assert_eq!(dispatched, 4);
}

#[test]
fn test_zero_copy_batch_dispatcher_single_batch() {
    let mut dispatcher = ZeroCopyBatchDispatcher::<TimeoutEvent>::new(32, 2, 1000);
    let events = create_test_event_data_batch(10);
    let dispatched_count = dispatcher.batch_dispatch_events(events);
    assert_eq!(dispatched_count, 10);
}

#[test]
fn test_zero_copy_batch_dispatcher_multiple_batches() {
    let mut dispatcher = ZeroCopyBatchDispatcher::<TimeoutEvent>::new(64, 4, 1000);
    let mut total_dispatched = 0;
    for batch_id in 0..5 {
        let events = create_test_event_data_batch(20);
        let dispatched = dispatcher.batch_dispatch_events(events);
        total_dispatched += dispatched;
        println!("Batch {}: {} events dispatched", batch_id, dispatched);
    }
    assert_eq!(total_dispatched, 100);
}

#[test]
fn test_zero_copy_batch_dispatcher_load_balancing() {
    let mut dispatcher = ZeroCopyBatchDispatcher::<TimeoutEvent>::new(16, 4, 1000);
    let events = create_test_event_data_batch(100);
    let start = Instant::now();
    let dispatched_count = dispatcher.batch_dispatch_events(events);
    let duration = start.elapsed();
    assert!(dispatched_count > 0);
    assert!(dispatched_count <= 100);
    assert!(duration < Duration::from_millis(10));
    // Two shares of twenty-five for the first slot, one for each of the next two.
    assert_eq!(dispatcher.get_stats(), (48, 52, vec![16, 16, 16, 0], 16));
}

#[test]
fn test_zero_copy_performance_small_batch() {
    let mut dispatcher = ZeroCopyBatchDispatcher::<TimeoutEvent>::new(64, 4, 1000);
    let events = create_test_event_data_batch(32);
    let start = Instant::now();
    let dispatched_count = dispatcher.batch_dispatch_events(events);
    let duration = start.elapsed();
    assert_eq!(dispatched_count, 32);
    let nanos_per_event = duration.as_nanos() / 32;
    assert!(nanos_per_event < 50000);
}

#[test]
fn test_zero_copy_performance_medium_batch() {
    let mut dispatcher = ZeroCopyBatchDispatcher::<TimeoutEvent>::new(256, 8, 1000);
    let events = create_test_event_data_batch(512);
    let start = Instant::now();
    let dispatched_count = dispatcher.batch_dispatch_events(events);
    let duration = start.elapsed();
    assert_eq!(dispatched_count, 512);
    let nanos_per_event = duration.as_nanos() / 512;
    assert!(nanos_per_event < 30000);
}

#[test]
fn test_zero_copy_performance_large_batch() {
    let mut dispatcher = ZeroCopyBatchDispatcher::<TimeoutEvent>::new(1024, 16, 1000);
    let events = create_test_event_data_batch(2048);
    let start = Instant::now();
    let dispatched_count = dispatcher.batch_dispatch_events(events);
    let duration = start.elapsed();
    assert_eq!(dispatched_count, 2048);
    let nanos_per_event = duration.as_nanos() / 2048;
    assert!(nanos_per_event < 20000);
}

#[test]
fn test_memory_efficiency_no_cloning() {
    let mut dispatcher = ZeroCopyBatchDispatcher::<TimeoutEvent>::new(1024, 8, 1000);
    let mut total_dispatched = 0;
    for i in 0..10 {
        let events = create_test_event_data_batch(10);
        let initial_len = events.len();
        let dispatched_count = dispatcher.batch_dispatch_events(events);
        total_dispatched += dispatched_count;
        println!("Iteration {}: {} of {} events", i, dispatched_count, initial_len);
        assert!(dispatched_count <= initial_len);
    }
    assert!(total_dispatched > 0);
}

#[test]
fn test_zero_copy_empty_batch() {
    let mut dispatcher = ZeroCopyBatchDispatcher::<TimeoutEvent>::new(32, 2, 1000);
    let empty_events = Vec::new();
    let dispatched_count = dispatcher.batch_dispatch_events(empty_events);
    assert_eq!(dispatched_count, 0);
}

#[test]
fn test_zero_copy_single_event() {
    let mut dispatcher = ZeroCopyBatchDispatcher::<TimeoutEvent>::new(32, 2, 1000);
    let single_event = vec![create_test_event_data(42)];
    let dispatched_count = dispatcher.batch_dispatch_events(single_event);
    assert_eq!(dispatched_count, 1);
}

#[test]
fn test_zero_copy_max_batch_size() {
    let mut dispatcher = ZeroCopyBatchDispatcher::<TimeoutEvent>::new(512, 8, 1000);
    let large_batch = create_test_event_data_batch(10000);
    let start = Instant::now();
    let dispatched_count = dispatcher.batch_dispatch_events(large_batch);
    let duration = start.elapsed();
    assert!(dispatched_count > 0);
    assert!(dispatched_count <= 10000);
    assert!(duration < Duration::from_millis(100));
}

#[test]
fn test_complete_zero_copy_workflow() {
    let factory = EventFactory::<TimeoutEvent>::new();
    let mut dispatcher = ZeroCopyBatchDispatcher::<TimeoutEvent>::new(128, 4, 1000);
    let requests = vec![
        (1, TimeoutEvent::IdleTimeout),
        (2, TimeoutEvent::PathValidationTimeout),
        (3, TimeoutEvent::IdleTimeout),
        (4, TimeoutEvent::PathValidationTimeout),
    ];
    let start = Instant::now();
    let events = factory.batch_create_events(&requests);
    let dispatched_count = dispatcher.batch_dispatch_events(events);
    let workflow_duration = start.elapsed();
    assert_eq!(dispatched_count, 4);
    assert!(workflow_duration < Duration::from_millis(1));
}

#[test]
fn small_batch_uses_all_room() {
    let mut dispatcher = ZeroCopyBatchDispatcher::<TimeoutEvent>::new(2, 3, 8);
    assert_eq!(dispatcher.batch_dispatch_events(create_test_event_data_batch(4)), 4);
    assert_eq!(dispatcher.get_stats().2, vec![2, 1, 1]);
    assert_eq!(dispatcher.batch_dispatch_events((10..15).map(create_test_event_data).collect()), 2);
    assert_eq!(dispatcher.get_stats(), (6, 3, vec![2, 2, 2], 2));
    assert_eq!(ids(&dispatcher.batch_consume_events(9)), vec![0, 3, 1, 10, 2, 11]);
}

#[test]
fn large_batch_gives_two_shares_to_the_first_slot() {
    let mut dispatcher = ZeroCopyBatchDispatcher::<TimeoutEvent>::new(64, 4, 8);
    assert_eq!(dispatcher.batch_dispatch_events(create_test_event_data_batch(41)), 41);
    // Shares of ten: twenty, ten, ten, and what is left.
    assert_eq!(dispatcher.get_stats().2, vec![20, 10, 10, 1]);
    let second = dispatcher.batch_consume_events(2);
    assert_eq!(ids(&second), vec![0, 1, 20, 21, 30, 31, 40]);
}

#[test]
fn events_are_made_dispatched_consumed_and_given_back() {
    let mut dispatcher = ZeroCopyBatchDispatcher::<TimeoutEvent>::new(64, 4, 40);
    let requests: Vec<(u32, TimeoutEvent)> =
        (0..70).map(|i| (i, TimeoutEvent::RetransmissionTimeout)).collect();
    assert_eq!(dispatcher.create_and_dispatch_events(&requests), 70);
    let events = dispatcher.batch_consume_events(64);
    assert_eq!(events.len(), 70);
    assert!(events.iter().all(|e| e.timeout_event == TimeoutEvent::RetransmissionTimeout));
    let mut seen = ids(&events);
    seen.sort();
    assert_eq!(seen, (0..70).collect::<Vec<u32>>());
    dispatcher.batch_return_to_pool(events);
    assert_eq!(dispatcher.create_and_dispatch_events(&[]), 0);
}
