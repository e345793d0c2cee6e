//! Ring buffers, the dispatcher over them, and the batch processor.

use reliable_udp::timer::event::lockfree_ring::{OptimizedZeroCopyDispatcher, RingBuffer};
use reliable_udp::timer::event::memory_pool::OptimizedBatchProcessor;
use reliable_udp::timer::event::{TimeoutEvent, TimerEventData};

fn create_test_event(id: u32) -> TimerEventData<TimeoutEvent> {
    TimerEventData::new(id, TimeoutEvent::IdleTimeout)
}

fn ids(events: &[TimerEventData<TimeoutEvent>]) -> Vec<u32> {
    events.iter().map(|e| e.connection_id).collect()
}

#[test]
fn test_ring_buffer_basic_operations() {
    let mut buffer = RingBuffer::<TimeoutEvent>::new(16);
    let event = create_test_event(1);
    assert!(buffer.try_write(event).is_ok());
    let read_event = buffer.try_read().unwrap();
    assert_eq!(read_event.connection_id, 1);
    assert!(buffer.try_read().is_none());
}

#[test]
fn test_ring_buffer_batch_operations() {
    let mut buffer = RingBuffer::<TimeoutEvent>::new(64);
    let events: Vec<_> = (0..32).map(create_test_event).collect();
    let written = buffer.batch_write(events);
    assert_eq!(written, 32);
    let read_events = buffer.batch_read(20);
    assert_eq!(read_events.len(), 20);
    let remaining_events = buffer.batch_read(20);
    assert_eq!(remaining_events.len(), 12);
}

#[test]
fn test_optimized_dispatcher() {
    let mut dispatcher = OptimizedZeroCopyDispatcher::<TimeoutEvent>::new(128, 4);
    let events: Vec<_> = (0..100).map(create_test_event).collect();
    let dispatched = dispatcher.batch_dispatch_events(events);
    assert_eq!(dispatched, 100);
    let (total_dispatched, total_rejected, lengths, capacity) = dispatcher.get_stats();
    assert_eq!(total_dispatched, 100);
    assert_eq!(total_rejected, 0);
    let avg_util = lengths.iter().map(|n| *n as f64 / capacity as f64).sum::<f64>()
        / lengths.len() as f64;
    assert!(avg_util > 0.0);
}

#[test]
fn test_ring_buffer_capacity_behavior() {
    let mut buffer = RingBuffer::<TimeoutEvent>::new(8);
    let mut written_count = 0;
    for i in 0..20 {
        match buffer.try_write(create_test_event(i)) {
            Ok(()) => {
                written_count += 1;
            }
            Err(_) => {
                break;
            }
        }
    }
    assert!(written_count >= 7, "at least 7, written: {}", written_count);
    assert!(written_count <= 8, "at most 8, written: {}", written_count);
    let read_event = buffer.try_read();
    assert!(read_event.is_some(), "an event can be read");
    let write_result = buffer.try_write(create_test_event(100));
    assert!(write_result.is_ok(), "there is room after a read");
}

#[test]
fn ring_buffer_keeps_the_order_and_gives_back_what_does_not_fit() {
    let mut buffer = RingBuffer::<TimeoutEvent>::new(2);
    assert_eq!(buffer.batch_write(vec![create_test_event(1), create_test_event(2), create_test_event(3)]), 2);
    assert!(buffer.is_full());
    assert_eq!(buffer.try_write(create_test_event(4)).unwrap_err().connection_id, 4);
    assert_eq!(ids(&buffer.batch_read(10)), vec![1, 2]);
    assert!(buffer.is_empty());
    assert_eq!(RingBuffer::<TimeoutEvent>::new(0).capacity(), 1);
}

#[test]
fn dispatcher_prefers_the_least_used_buffer_and_counts_rejections() {
    let mut dispatcher = OptimizedZeroCopyDispatcher::<TimeoutEvent>::new(3, 2);
    assert_eq!(dispatcher.batch_dispatch_events((0..2).map(create_test_event).collect()), 2);
    assert_eq!(dispatcher.get_stats().2, vec![2, 0]);
    assert_eq!(dispatcher.batch_dispatch_events((2..7).map(create_test_event).collect()), 3);
    let (dispatched, rejected, lengths, capacity) = dispatcher.get_stats();
    assert_eq!((dispatched, rejected, lengths, capacity), (5, 2, vec![2, 3], 3));
    assert_eq!(ids(&dispatcher.batch_consume_events(1)), vec![0, 2]);
    assert_eq!(ids(&dispatcher.batch_consume_events(9)), vec![1, 3, 4]);
    assert_eq!(dispatcher.batch_dispatch_events(Vec::new()), 0);
}

#[test]
fn test_optimized_batch_processor() {
    let mut processor = OptimizedBatchProcessor::<TimeoutEvent>::new(100, 32);
    let small_requests = vec![
        (1, TimeoutEvent::IdleTimeout),
        (2, TimeoutEvent::PathValidationTimeout),
    ];
    let small_events = processor.create_events_optimized(&small_requests);
    assert_eq!(small_events.len(), 2);
    let large_requests: Vec<_> = (0..50).map(|i| (i, TimeoutEvent::IdleTimeout)).collect();
    let large_events = processor.create_events_optimized(&large_requests);
    assert_eq!(large_events.len(), 50);
    processor.process_completed(small_events);
    processor.process_completed(large_events);
    let (counts, _) = processor.get_performance_stats();
    assert_eq!(counts.processed, 52);
    let large_batch_ratio =
        counts.large_batches as f64 / (counts.large_batches + counts.small_batches) as f64;
    assert!(large_batch_ratio > 0.0);
    assert_eq!((counts.small_batches, counts.large_batches), (1, 1));
}

#[test]
fn batch_processor_takes_from_the_pool_and_fills_it_again() {
    let mut processor = OptimizedBatchProcessor::<TimeoutEvent>::new(8, 4);
    assert_eq!(processor.get_performance_stats().1.current_size, 2);
    let requests: Vec<_> = (10..15).map(|i| (i, TimeoutEvent::ConnectionTimeout)).collect();
    let events = processor.create_events_optimized(&requests);
    assert_eq!(ids(&events), vec![10, 11, 12, 13, 14]);
    assert!(events.iter().all(|e| e.timeout_event == TimeoutEvent::ConnectionTimeout));
    assert_eq!(processor.get_performance_stats().1.current_size, 0);
    processor.process_completed(events);
    assert_eq!(processor.get_performance_stats().1.current_size, 5);
}
