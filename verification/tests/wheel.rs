//! The timing wheel.

use reliable_udp::timer::event::{TimeoutEvent, TimerEvent, TimerEventData};
use reliable_udp::timer::wheel::TimingWheel;
use std::collections::HashSet;
use std::time::Duration;

const MS: u64 = 1_000_000;

type Event = TimerEvent<TimeoutEvent, ()>;

fn create_test_timer_event(id: u64) -> Event {
    let data = TimerEventData::new(id as u32, TimeoutEvent::IdleTimeout);
    TimerEvent::new(id, data, ())
}

fn create_test_timer_events(count: usize) -> Vec<Event> {
    (0..count).map(|i| create_test_timer_event(i as u64)).collect()
}

#[test]
fn test_timing_wheel_creation() {
    let wheel: TimingWheel<Event> = TimingWheel::new(8, 100 * MS, 0);
    assert_eq!(wheel.slot_count(), 8);
    assert_eq!(wheel.slot_duration(), 100 * MS);
    assert_eq!(wheel.current_slot(), 0);
    assert!(wheel.is_empty());
}

#[test]
fn test_default_wheel_creation() {
    let wheel: TimingWheel<Event> = TimingWheel::new_default(0);
    assert_eq!(wheel.slot_count(), 512);
    assert_eq!(wheel.slot_duration(), 100 * MS);
    assert!(wheel.is_empty());
}

#[test]
fn test_add_timer() {
    let mut wheel = TimingWheel::new(8, 100 * MS, 0);
    let event = create_test_timer_event(1);
    let timer_id = wheel.add_timer(500 * MS, event, 0);
    assert_eq!(timer_id, 1);
    assert_eq!(wheel.timer_count(), 1);
    assert!(!wheel.is_empty());
}

#[test]
fn test_cancel_timer() {
    let mut wheel = TimingWheel::new(8, 100 * MS, 0);
    let event = create_test_timer_event(1);
    let timer_id = wheel.add_timer(500 * MS, event, 0);
    assert!(wheel.cancel_timer(timer_id));
    assert_eq!(wheel.timer_count(), 0);
    assert!(wheel.is_empty());
    assert!(!wheel.cancel_timer(999));
}

#[test]
fn test_advance_timing_wheel() {
    let mut wheel = TimingWheel::new(8, 100 * MS, 0);
    let event = create_test_timer_event(1);
    wheel.add_timer(500 * MS, event, 0);
    let expired = wheel.advance(0);
    assert!(expired.is_empty());
    let expired = wheel.advance(600 * MS);
    assert_eq!(expired.len(), 1);
    assert_eq!(expired[0].id, 1);
}

#[test]
fn test_next_expiry_time() {
    let mut wheel = TimingWheel::new(8, 100 * MS, 0);
    assert!(wheel.next_expiry_time().is_none());
    let event = create_test_timer_event(1);
    wheel.add_timer(500 * MS, event, 0);
    assert!(wheel.next_expiry_time().is_some());
    assert_eq!(wheel.next_expiry_time(), Some(500 * MS));
}

#[test]
fn test_timing_wheel_stats() {
    let mut wheel = TimingWheel::new(8, 100 * MS, 0);
    let stats = wheel.stats();
    assert_eq!(stats.total_slots, 8);
    assert_eq!(stats.non_empty_slots, 0);
    assert_eq!(stats.total_timers, 0);
    let event = create_test_timer_event(1);
    wheel.add_timer(500 * MS, event, 0);
    let stats = wheel.stats();
    assert_eq!(stats.non_empty_slots, 1);
    assert_eq!(stats.total_timers, 1);
}

#[test]
fn test_clear_timers() {
    let mut wheel = TimingWheel::new(8, 100 * MS, 0);
    for i in 1..=5 {
        let event = create_test_timer_event(i);
        wheel.add_timer(i * 100 * MS, event, 0);
    }
    assert_eq!(wheel.timer_count(), 5);
    wheel.clear();
    assert_eq!(wheel.timer_count(), 0);
    assert!(wheel.is_empty());
}

#[test]
fn test_batch_add_timers_small() {
    let mut wheel = TimingWheel::new(64, 10 * MS, 0);
    let events = create_test_timer_events(8);
    let timer_data: Vec<(u64, Event)> = events
        .into_iter()
        .enumerate()
        .map(|(i, event)| (((i + 1) * 50) as u64 * MS, event))
        .collect();
    let timer_ids = wheel.batch_add_timers(timer_data, 0);
    assert_eq!(timer_ids.len(), 8);
    assert_eq!(wheel.timer_count(), 8);
    for (i, &id) in timer_ids.iter().enumerate() {
        assert_eq!(id, (i + 1) as u64);
    }
}

#[test]
fn test_batch_add_timers_large() {
    let mut wheel = TimingWheel::new(512, 10 * MS, 0);
    let events = create_test_timer_events(128);
    let timer_data: Vec<(u64, Event)> = events
        .into_iter()
        .enumerate()
        .map(|(i, event)| (((i + 1) * 10) as u64 * MS, event))
        .collect();
    let start_time = std::time::Instant::now();
    let timer_ids = wheel.batch_add_timers(timer_data, 0);
    let duration = start_time.elapsed();
    assert_eq!(timer_ids.len(), 128);
    assert_eq!(wheel.timer_count(), 128);
    println!("Batch add 128 timers took: {:?}", duration);
    assert!(duration < Duration::from_millis(1));
}

#[test]
fn test_simd_u32_id_range() {
    let mut wheel = TimingWheel::new(64, 10 * MS, 0);
    let events = create_test_timer_events(16);
    let timer_data: Vec<(u64, Event)> = events
        .into_iter()
        .enumerate()
        .map(|(i, event)| (((i + 1) * 10) as u64 * MS, event))
        .collect();
    let timer_ids = wheel.batch_add_timers(timer_data, 0);
    assert_eq!(timer_ids.len(), 16);
    for &id in &timer_ids {
        assert!(id <= u32::MAX as u64);
    }
}

#[test]
fn test_next_expiry_cache() {
    let mut wheel = TimingWheel::new(8, 100 * MS, 0);
    assert!(wheel.next_expiry_time().is_none());
    let event = create_test_timer_event(1);
    wheel.add_timer(500 * MS, event, 0);
    let expiry1 = wheel.next_expiry_time();
    assert!(expiry1.is_some());
    let expiry2 = wheel.next_expiry_time();
    assert_eq!(expiry1, expiry2);
    let event2 = create_test_timer_event(2);
    wheel.add_timer(200 * MS, event2, 0);
    let expiry3 = wheel.next_expiry_time();
    assert!(expiry3.is_some());
    assert!(expiry3.unwrap() < expiry1.unwrap());
}

#[test]
fn test_immediate_timer_basic() {
    let mut wheel = TimingWheel::new(8, 100 * MS, 0);
    let event = create_test_timer_event(1);
    let timer_id = wheel.add_timer(MS, event, 0);
    assert_eq!(timer_id, 1);
    assert_eq!(wheel.timer_count(), 1);
    assert!(!wheel.is_empty());
    assert!(wheel.next_expiry_time().is_some());
}

#[test]
fn test_very_long_duration_timer() {
    let mut wheel = TimingWheel::new(8, 100 * MS, 0);
    let event = create_test_timer_event(1);
    let long_duration = 3600 * 1000 * MS;
    let timer_id = wheel.add_timer(long_duration, event, 0);
    assert_eq!(timer_id, 1);
    assert_eq!(wheel.timer_count(), 1);
    // The wheel goes round many times before the timer is due.
    assert!(wheel.advance(1800 * 1000 * MS).is_empty());
    assert_eq!(wheel.advance(3601 * 1000 * MS).len(), 1);
}

#[test]
fn test_multiple_timers_same_slot() {
    let mut wheel = TimingWheel::new(8, 100 * MS, 0);
    for i in 1..=5 {
        let event = create_test_timer_event(i);
        wheel.add_timer(500 * MS, event, 0);
    }
    assert_eq!(wheel.timer_count(), 5);
    let future_time = 600 * MS;
    let expired = wheel.advance(future_time);
    assert_eq!(expired.len(), 5);
    let expired_ids: HashSet<u64> = expired.iter().map(|t| t.id).collect();
    let expected_ids: HashSet<u64> = (1..=5).collect();
    assert_eq!(expired_ids, expected_ids);
}

#[test]
fn test_wrap_around_slot_calculation() {
    let mut wheel = TimingWheel::new(8, 100 * MS, 0);
    for i in 0..16 {
        let event = create_test_timer_event(i);
        wheel.add_timer(i * 100 * MS, event, 0);
    }
    assert_eq!(wheel.timer_count(), 16);
    let stats = wheel.stats();
    assert_eq!(stats.non_empty_slots, 8);
}

#[test]
fn test_large_scale_operations() {
    let mut wheel = TimingWheel::new(512, 10 * MS, 0);
    let timer_count = 1000;
    let events = create_test_timer_events(timer_count);
    let timer_data: Vec<(u64, Event)> = events
        .into_iter()
        .enumerate()
        .map(|(i, event)| (((i % 100 + 1) * 10) as u64 * MS, event))
        .collect();
    let start_time = std::time::Instant::now();
    let timer_ids = wheel.batch_add_timers(timer_data, 0);
    let add_duration = start_time.elapsed();
    assert_eq!(timer_ids.len(), timer_count);
    assert_eq!(wheel.timer_count(), timer_count);
    let start_time = std::time::Instant::now();
    let mut cancelled_count = 0;
    for &id in timer_ids.iter().step_by(2) {
        if wheel.cancel_timer(id) {
            cancelled_count += 1;
        }
    }
    let cancel_duration = start_time.elapsed();
    assert_eq!(cancelled_count, timer_count / 2);
    assert_eq!(wheel.timer_count(), timer_count - cancelled_count);
    println!("Add {} timers: {:?}", timer_count, add_duration);
    println!("Cancel {} timers: {:?}", cancelled_count, cancel_duration);
    assert!(add_duration < Duration::from_millis(10));
    assert!(cancel_duration < Duration::from_millis(5));
}

#[test]
fn test_memory_efficiency() {
    let mut wheel = TimingWheel::new(64, 10 * MS, 0);
    for _ in 0..5 {
        let events = create_test_timer_events(100);
        let timer_data: Vec<(u64, Event)> = events
            .into_iter()
            .enumerate()
            .map(|(i, event)| (((i + 1) * 10) as u64 * MS, event))
            .collect();
        wheel.batch_add_timers(timer_data, 0);
        assert_eq!(wheel.timer_count(), 100);
        wheel.clear();
        assert_eq!(wheel.timer_count(), 0);
        assert!(wheel.is_empty());
    }
    let stats = wheel.stats();
    assert_eq!(stats.total_timers, 0);
    assert_eq!(stats.non_empty_slots, 0);
}

#[test]
fn test_timer_id_uniqueness() {
    let mut wheel = TimingWheel::new(64, 10 * MS, 0);
    let mut all_ids = HashSet::new();
    for i in 0..1000 {
        let event = create_test_timer_event(i);
        let timer_id = wheel.add_timer((i % 100 + 1) * 10 * MS, event, 0);
        assert!(all_ids.insert(timer_id), "Timer ID {} is not unique", timer_id);
    }
    assert_eq!(all_ids.len(), 1000);
    assert_eq!(wheel.timer_count(), 1000);
}

#[test]
fn each_timer_fires_once() {
    let mut wheel = TimingWheel::new(8, 100 * MS, 0);
    let first = wheel.add_timer(150 * MS, create_test_timer_event(1), 0);
    let second = wheel.add_timer(950 * MS, create_test_timer_event(2), 0);
    let mut fired = Vec::new();
    for step in 1..=20 {
        for entry in wheel.advance(step * 100 * MS) {
            fired.push(entry.id);
        }
    }
    assert_eq!(fired, vec![first, second]);
    assert!(wheel.is_empty());
}

#[test]
fn timer_does_not_fire_early() {
    let mut wheel = TimingWheel::new(8, 100 * MS, 0);
    wheel.add_timer(250 * MS, create_test_timer_event(1), 0);
    assert!(wheel.advance(249 * MS).is_empty());
    assert_eq!(wheel.advance(250 * MS).len(), 1);
}

#[test]
fn cancelled_timer_never_fires() {
    let mut wheel = TimingWheel::new(8, 100 * MS, 0);
    let id = wheel.add_timer(150 * MS, create_test_timer_event(1), 0);
    assert!(wheel.cancel_timer(id));
    assert!(!wheel.cancel_timer(id));
    assert!(wheel.advance(10_000 * MS).is_empty());
}

#[test]
fn batch_cancel_counts_each_timer_once() {
    let mut wheel = TimingWheel::new(8, 100 * MS, 0);
    let timers = create_test_timer_events(4).into_iter().map(|e| (100 * MS, e)).collect();
    let ids = wheel.batch_add_timers(timers, 0);
    assert_eq!(wheel.batch_cancel_timers(&[ids[0], ids[2], ids[0], 99]), 2);
    assert_eq!(wheel.timer_count(), 2);
    assert_eq!(wheel.batch_cancel_timers(&[]), 0);
}

#[test]
fn batch_is_one_by_one() {
    let mut one = TimingWheel::new(8, 100 * MS, 0);
    let mut all = TimingWheel::new(8, 100 * MS, 0);
    for (i, event) in create_test_timer_events(3).into_iter().enumerate() {
        one.add_timer(i as u64 * 70 * MS, event, 5 * MS);
    }
    let timers = create_test_timer_events(3)
        .into_iter()
        .enumerate()
        .map(|(i, event)| (i as u64 * 70 * MS, event))
        .collect();
    all.batch_add_timers(timers, 5 * MS);
    let mut a: Vec<(u64, u64)> = one.advance(80 * MS).iter().map(|e| (e.id, e.expiry_time)).collect();
    let mut b: Vec<(u64, u64)> = all.advance(80 * MS).iter().map(|e| (e.id, e.expiry_time)).collect();
    a.sort();
    b.sort();
    assert_eq!(a, b);
    assert_eq!(a, vec![(1, 5 * MS), (2, 75 * MS)]);
    assert_eq!(one.timer_count(), 1);
    assert_eq!(all.timer_count(), 1);
}
