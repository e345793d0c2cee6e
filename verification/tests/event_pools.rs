//! Pools of event data, and how event data is made.

use reliable_udp::timer::event::pool::{PoolConfig, TimerEventPool};
use reliable_udp::timer::event::pool_manager::{PoolManager, TypedPool};
use reliable_udp::timer::event::traits::{
    is_copy_like_type, should_pool_type, CloneStrategy, CopyStrategy, EventCreationStrategy,
    EventFactory,
};
use reliable_udp::timer::event::{TimeoutEvent, TimerEvent, TimerEventData};
use std::time::Instant;

#[derive(Debug, Clone, Copy, Default, PartialEq)]
struct TestEvent(u32);

#[derive(Debug, Clone, Copy, Default, PartialEq)]
struct SimpleCopyEvent(u32);

#[derive(Debug, Clone, Default, PartialEq)]
struct ComplexCloneEvent {
    data: Vec<u8>,
    id: String,
}

#[test]
fn test_timer_event_pool_basic_operations() {
    let mut pool = TimerEventPool::new(PoolConfig::default());
    let data = pool.acquire(123, TestEvent(456));
    assert_eq!(data.connection_id, 123);
    assert_eq!(data.timeout_event, TestEvent(456));
    pool.release(data);
    assert!(pool.stats().current_size > 0);
}

#[test]
fn test_pool_with_capacity() {
    let pool = TimerEventPool::<TestEvent>::with_capacity(512);
    assert_eq!(pool.config().max_size, 512);
    assert!(pool.config().initial_size > 0);
    assert!(pool.config().enable_batch_optimization);
}

#[test]
fn test_batch_operations() {
    let mut pool = TimerEventPool::<TestEvent>::new_default();
    let requests = vec![(1, TestEvent(100)), (2, TestEvent(200)), (3, TestEvent(300))];
    let objects = pool.batch_acquire(&requests);
    assert_eq!(objects.len(), 3);
    for (i, obj) in objects.iter().enumerate() {
        assert_eq!(obj.connection_id, requests[i].0);
        assert_eq!(obj.timeout_event, requests[i].1);
    }
    pool.batch_release(objects);
    assert!(pool.stats().current_size > 0);
}

#[test]
fn test_typed_pool_basic_operations() {
    let mut pool = TypedPool::new(PoolConfig::default());
    let data = pool.acquire(123, TestEvent(456));
    assert_eq!(data.connection_id, 123);
    assert_eq!(data.timeout_event, TestEvent(456));
    pool.release(data);
    assert!(pool.stats().current_size > 0);
}

#[test]
fn test_pool_manager() {
    let mut manager: PoolManager<TestEvent> = PoolManager::new(PoolConfig::default());
    let pool1 = manager.get_or_create_pool(7);
    let pool2 = manager.get_or_create_pool(7);
    assert_eq!(pool1, pool2);
    let other = manager.get_or_create_pool(8);
    assert_ne!(pool1, other);
    let data = manager.pool_mut(pool1).acquire(1, TestEvent(2));
    assert_eq!(manager.get_pool_stats(7).unwrap().current_size, 63);
    assert_eq!(manager.get_pool_stats(8).unwrap().current_size, 64);
    manager.pool_mut(pool2).release(data);
    assert_eq!(manager.get_pool_stats(7).unwrap().current_size, 64);
    assert!(manager.get_pool_stats(9).is_none());
}

#[test]
fn figures_on_the_pools_of_a_manager() {
    let config = || PoolConfig {
        max_size: 9,
        initial_size: 3,
        enable_batch_optimization: true,
    };
    let mut manager: PoolManager<TestEvent> = PoolManager::new(config());
    // Asking for figures makes no pool.
    assert!(manager.get_pool_stats(5).is_none());
    assert!(manager.get_pool_stats(5).is_none());
    manager.get_or_create_pool(5);
    let stats = manager.get_pool_stats(5).unwrap();
    assert_eq!(stats.current_size, 3);
    assert_eq!(stats.max_size, config().max_size);
    assert_eq!(stats.initial_size, config().initial_size);
    assert_eq!(manager.get_pool_stats(5), Some(stats));
    assert!(manager.get_pool_stats(6).is_none());
}

#[test]
fn pool_sizes() {
    assert_eq!(TimerEventPool::<TestEvent>::with_capacity(16).stats().current_size, 4);
    // A pool starts with no more objects than it holds.
    for max_size in 0..4 {
        let pool = TimerEventPool::<TestEvent>::with_capacity(max_size);
        assert_eq!(pool.stats().current_size, max_size);
        assert_eq!(pool.stats().initial_size, max_size);
        assert_eq!(pool.stats().max_size, max_size);
    }
    assert_eq!(TimerEventPool::<TestEvent>::with_capacity(512).stats().current_size, 32);
    assert_eq!(TimerEventPool::<TestEvent>::with_capacity(1 << 20).stats().current_size, 64);
    let mut pool = TimerEventPool::new(PoolConfig {
        max_size: 2,
        initial_size: 1,
        enable_batch_optimization: false,
    });
    let objects = pool.batch_acquire(&[(1, TestEvent(1)), (2, TestEvent(2)), (3, TestEvent(3))]);
    assert_eq!(pool.stats().current_size, 0);
    pool.batch_release(objects);
    assert_eq!(pool.stats().current_size, 2);
    pool.release(TimerEventData::new(9, TestEvent(9)));
    assert_eq!(pool.stats().current_size, 2);
}

#[test]
fn long_batches_keep_every_identifier() {
    let mut pool = TimerEventPool::<TestEvent>::new(PoolConfig {
        max_size: 64,
        initial_size: 21,
        enable_batch_optimization: true,
    });
    let requests: Vec<(u32, TestEvent)> = (0..43).map(|i| (i * 3 + 1, TestEvent(i + 100))).collect();
    let objects = pool.batch_acquire(&requests);
    assert_eq!(objects.len(), 43);
    for (object, request) in objects.iter().zip(requests.iter()) {
        assert_eq!(object.connection_id, request.0);
        assert_eq!(object.timeout_event, request.1);
    }
    assert_eq!(pool.stats().current_size, 0);
}

#[test]
fn test_copy_type_strategy_selection() {
    let factory = EventFactory::<SimpleCopyEvent>::new();
    assert!(factory.is_copy_like());
    assert!(!factory.should_use_pool());
    let event = factory.create_event(123, SimpleCopyEvent(456));
    assert_eq!(event.connection_id, 123);
    assert_eq!(event.timeout_event, SimpleCopyEvent(456));
}

#[test]
fn test_clone_type_strategy_selection() {
    let factory = EventFactory::<ComplexCloneEvent>::new();
    assert!(!factory.is_copy_like());
    assert!(factory.should_use_pool());
    let complex_event = ComplexCloneEvent { data: vec![1, 2, 3], id: "test".to_string() };
    let event = factory.create_event(123, complex_event.clone());
    assert_eq!(event.connection_id, 123);
    assert_eq!(event.timeout_event, complex_event);
}

#[test]
fn test_batch_creation_copy_type() {
    let factory = EventFactory::<SimpleCopyEvent>::new();
    let requests =
        vec![(1, SimpleCopyEvent(100)), (2, SimpleCopyEvent(200)), (3, SimpleCopyEvent(300))];
    let events = factory.batch_create_events(&requests);
    assert_eq!(events.len(), 3);
    for (i, event) in events.iter().enumerate() {
        assert_eq!(event.connection_id, requests[i].0);
        assert_eq!(event.timeout_event, requests[i].1);
    }
}

#[test]
fn test_batch_creation_clone_type() {
    let factory = EventFactory::<ComplexCloneEvent>::new();
    let requests = vec![
        (1, ComplexCloneEvent { data: vec![1], id: "first".to_string() }),
        (2, ComplexCloneEvent { data: vec![2], id: "second".to_string() }),
    ];
    let events = factory.batch_create_events(&requests);
    assert_eq!(events.len(), 2);
    for (i, event) in events.iter().enumerate() {
        assert_eq!(event.connection_id, requests[i].0);
        assert_eq!(event.timeout_event, requests[i].1);
    }
}

#[test]
fn test_pool_usage_copy_type() {
    let factory = EventFactory::<SimpleCopyEvent>::new();
    let mut pool = TimerEventPool::new(PoolConfig::default());
    let event = factory.create_with_pool(&mut pool, 123, SimpleCopyEvent(456));
    assert_eq!(event.connection_id, 123);
    assert_eq!(event.timeout_event, SimpleCopyEvent(456));
    factory.return_to_pool(event, &mut pool);
    assert_eq!(pool.stats().current_size, 64);
}

#[test]
fn test_pool_usage_clone_type() {
    let factory = EventFactory::<ComplexCloneEvent>::new();
    let mut pool = TimerEventPool::new(PoolConfig::default());
    let complex_event = ComplexCloneEvent { data: vec![1, 2, 3], id: "test".to_string() };
    let event = factory.create_with_pool(&mut pool, 123, complex_event.clone());
    assert_eq!(event.connection_id, 123);
    assert_eq!(event.timeout_event, complex_event);
    assert_eq!(pool.stats().current_size, 63);
    factory.return_to_pool(event, &mut pool);
    assert!(pool.stats().current_size > 0);
    assert_eq!(pool.stats().current_size, 64);
}

#[test]
fn batches_through_the_factory_and_the_pool() {
    let factory = EventFactory::<ComplexCloneEvent>::new();
    let mut pool = TimerEventPool::new(PoolConfig::default());
    let requests: Vec<(u32, ComplexCloneEvent)> = (0..3)
        .map(|i| (i, ComplexCloneEvent { data: vec![i as u8], id: String::new() }))
        .collect();
    let events = factory.batch_create_with_pool(&mut pool, &requests);
    assert_eq!(events.iter().map(|e| e.timeout_event.data[0]).collect::<Vec<u8>>(), vec![0, 1, 2]);
    assert_eq!(pool.stats().current_size, 61);
    factory.batch_return_to_pool(events, &mut pool);
    assert_eq!(pool.stats().current_size, 64);
}

#[test]
fn test_strategy_traits_copy() {
    let event = <CopyStrategy as EventCreationStrategy<SimpleCopyEvent>>::create_single(
        123,
        SimpleCopyEvent(456),
    );
    assert_eq!(event.connection_id, 123);
    assert_eq!(event.timeout_event, SimpleCopyEvent(456));
    let requests = vec![(1, SimpleCopyEvent(100)), (2, SimpleCopyEvent(200))];
    let events = <CopyStrategy as EventCreationStrategy<SimpleCopyEvent>>::create_batch(&requests);
    assert_eq!(events.len(), 2);
    assert!(!<CopyStrategy as EventCreationStrategy<SimpleCopyEvent>>::should_use_pool());
}

#[test]
fn test_strategy_traits_clone() {
    let complex_event = ComplexCloneEvent { data: vec![1, 2, 3], id: "test".to_string() };
    let event = <CloneStrategy as EventCreationStrategy<ComplexCloneEvent>>::create_single(
        123,
        complex_event.clone(),
    );
    assert_eq!(event.connection_id, 123);
    assert_eq!(event.timeout_event, complex_event);
    let requests = vec![(1, complex_event.clone())];
    let events =
        <CloneStrategy as EventCreationStrategy<ComplexCloneEvent>>::create_batch(&requests);
    assert_eq!(events.len(), 1);
    assert!(<CloneStrategy as EventCreationStrategy<ComplexCloneEvent>>::should_use_pool());
}

#[test]
fn test_event_factory_copy_strategy() {
    let factory = EventFactory::<TimeoutEvent>::new();
    let event = factory.create_event(123, TimeoutEvent::IdleTimeout);
    assert_eq!(event.connection_id, 123);
    assert_eq!(event.timeout_event, TimeoutEvent::IdleTimeout);
}

#[test]
fn test_event_factory_batch_creation() {
    let factory = EventFactory::<TimeoutEvent>::new();
    let requests = vec![
        (1, TimeoutEvent::IdleTimeout),
        (2, TimeoutEvent::PathValidationTimeout),
        (3, TimeoutEvent::IdleTimeout),
    ];
    let events = factory.batch_create_events(&requests);
    assert_eq!(events.len(), 3);
    for (i, event) in events.iter().enumerate() {
        assert_eq!(event.connection_id, requests[i].0);
        assert_eq!(event.timeout_event, requests[i].1);
    }
}

#[test]
fn test_event_factory_performance() {
    let factory = EventFactory::<TimeoutEvent>::new();
    let requests: Vec<(u32, TimeoutEvent)> =
        (0..1000).map(|i| (i as u32, TimeoutEvent::IdleTimeout)).collect();
    let start = Instant::now();
    let events = factory.batch_create_events(&requests);
    let duration = start.elapsed();
    assert_eq!(events.len(), 1000);
    let nanos_per_event = duration.as_nanos() / 1000;
    println!("EventFactory batch creation: {} ns/event", nanos_per_event);
    assert!(nanos_per_event < 10000);
}

#[test]
fn small_plain_types_are_not_pooled() {
    assert!(is_copy_like_type(64, false));
    assert!(!is_copy_like_type(65, false));
    assert!(!is_copy_like_type(8, true));
    assert!(!should_pool_type(64, false));
    assert!(should_pool_type(65, false));
    assert!(should_pool_type(8, true));
}

#[test]
fn event_data_and_events_from_a_pool() {
    let mut pool = TimerEventPool::<TestEvent>::new(PoolConfig {
        max_size: 4,
        initial_size: 3,
        enable_batch_optimization: true,
    });
    let data = TimerEventData::from_pool(&mut pool, 5, TestEvent(6));
    assert_eq!(data, TimerEventData { connection_id: 5, timeout_event: TestEvent(6) });
    assert_eq!(pool.stats().current_size, 2);
    data.return_to_pool(&mut pool);
    assert_eq!(pool.stats().current_size, 3);
    let requests = [(1, TestEvent(10)), (2, TestEvent(20))];
    let events = TimerEvent::batch_from_pool(&mut pool, 40, &requests, &['a', 'b']);
    assert_eq!(events[0], TimerEvent { id: 40, data: TimerEventData::new(1, TestEvent(10)), callback: 'a' });
    assert_eq!(events[1], TimerEvent { id: 41, data: TimerEventData::new(2, TestEvent(20)), callback: 'b' });
    assert_eq!(pool.stats().current_size, 1);
    let event = TimerEvent::from_pool(&mut pool, 7, 8, TestEvent(9), ());
    assert_eq!(event, TimerEvent::new(7, TimerEventData::new(8, TestEvent(9)), ()));
    assert_eq!(pool.stats().current_size, 0);
    let objects = TimerEventData::batch_from_pool(&mut pool, &requests);
    TimerEventData::batch_return_to_pool(objects, &mut pool);
    assert_eq!(pool.stats().current_size, 2);
}
