//! Routing of frames, early frames, and draining.

use bytes::Bytes;
use reliable_udp::packet::{Frame, PeerAddr};
use reliable_udp::socket::draining::DrainingPool;
use reliable_udp::socket::event_loop::routing::FrameRouter;
use reliable_udp::socket::routing::FrameRouter as PlainRouter;
use reliable_udp::socket::routing::{ConnectionMeta, Dispatch, RoutingResult};

const SECOND: u64 = 1_000_000_000;

fn create_test_router() -> FrameRouter<&'static str> {
    let draining_pool = DrainingPool::new(10 * SECOND);
    FrameRouter::new(draining_pool)
}

fn localhost(port: u16) -> PeerAddr {
    PeerAddr::v4(0x7f00_0001, port)
}

fn create_test_address() -> PeerAddr {
    localhost(8080)
}

fn push(cid: u32, sequence: u32, data: &[u8]) -> Frame {
    Frame::new_push(cid, sequence, 0, 1024, 12345, Bytes::copy_from_slice(data))
}

fn is_cached(step: &Dispatch) -> bool {
    matches!(step, Dispatch::Done(RoutingResult::FrameCached))
}

#[test]
fn test_draining_pool_insert_and_contains() {
    let mut pool = DrainingPool::new(5 * SECOND);
    assert!(!pool.contains(&123));
    pool.insert(123, 0);
    assert!(pool.contains(&123));
}

#[test]
fn test_draining_pool_cleanup() {
    let timeout = 2 * SECOND;
    let mut pool = DrainingPool::new(timeout);
    pool.insert(1, 0);
    pool.insert(2, 0);
    assert_eq!(pool.len(), 2);
    pool.cleanup(SECOND);
    assert_eq!(pool.len(), 2);
    assert!(pool.contains(&1));
    assert!(pool.contains(&2));
    pool.insert(3, SECOND);
    assert_eq!(pool.len(), 3);
    pool.cleanup(2 * SECOND);
    assert_eq!(pool.len(), 1);
    assert!(!pool.contains(&1));
    assert!(!pool.contains(&2));
    assert!(pool.contains(&3));
    pool.cleanup(3 * SECOND);
    assert_eq!(pool.len(), 0);
}

#[test]
fn test_early_frame_caching() {
    let mut router = create_test_router();
    let remote_addr = create_test_address();
    let cid = 123u32;
    let step = router.dispatch_frame(push(cid, 0, b"test data"), remote_addr, 0);
    assert!(is_cached(&step));
    let cache_key = cid as u64;
    assert_eq!(router.get_cache_key(cid, remote_addr), cache_key);
    assert_eq!(router.pending(cache_key).unwrap().len(), 1);
    let batches =
        router.register_connection(cid, remote_addr, ConnectionMeta { sender: "peer" }, 0);
    assert_eq!(batches.len(), 1);
    for batch in batches {
        router.settle_forward(batch, remote_addr);
    }
    assert!(router.pending(cache_key).is_none());
}

#[test]
fn test_multiple_early_frames_caching() {
    let mut router = create_test_router();
    let remote_addr = create_test_address();
    let cid = 456u32;
    let result1 = router.dispatch_frame(push(cid, 0, b"data1"), remote_addr, 0);
    let result2 = router.dispatch_frame(push(cid, 1, b"data2"), remote_addr, 0);
    assert!(is_cached(&result1));
    assert!(is_cached(&result2));
    let cache_key = cid as u64;
    assert_eq!(router.pending(cache_key).unwrap().len(), 2);
}

#[test]
fn test_non_push_frames_not_cached() {
    let mut router = create_test_router();
    let remote_addr = create_test_address();
    let cid = 789u32;
    let ack_frame = Frame::new_ack(cid, 0, 1024, Bytes::new(), 12345);
    let result = router.dispatch_frame(ack_frame, remote_addr, 0);
    assert!(matches!(result, Dispatch::Done(RoutingResult::ConnectionNotFound)));
    let cache_key = cid as u64;
    assert!(router.pending(cache_key).is_none());
}

#[test]
fn test_cleanup_expired_frames() {
    let mut router = create_test_router();
    let remote_addr = create_test_address();
    let cid = 999u32;
    let result = router.dispatch_frame(push(cid, 0, b"test data"), remote_addr, 0);
    assert!(is_cached(&result));
    let cache_key = cid as u64;
    assert!(router.pending(cache_key).is_some());
    router.cleanup_expired_frames(1, 500);
    assert!(router.pending(cache_key).is_none());
}

#[test]
fn fresh_frames_stay() {
    let mut router = create_test_router();
    let addr = create_test_address();
    router.dispatch_frame(push(5, 0, b"old"), addr, 0);
    router.dispatch_frame(push(5, 1, b"new"), addr, 8);
    router.cleanup_expired_frames(5, 10);
    let left = router.pending(5).unwrap();
    assert_eq!(left.len(), 1);
    assert_eq!(left[0].frame, push(5, 1, b"new"));
    assert_eq!(left[0].arrival_time, 8);
}

#[test]
fn test_forward_cached_frames_success() {
    let mut router = create_test_router();
    let remote_addr = create_test_address();
    let cid = 555u32;
    router.dispatch_frame(push(cid, 0, b"cached data"), remote_addr, 0);
    let batches =
        router.register_connection(cid, remote_addr, ConnectionMeta { sender: "peer" }, 0);
    let cache_key = cid as u64;
    assert!(router.pending(cache_key).is_none());
    assert_eq!(batches.len(), 1);
    let forwarded = batches[0].next_match(0, remote_addr).unwrap();
    assert_eq!(batches[0].frames[forwarded].frame, push(cid, 0, b"cached data"));
    assert_eq!(batches[0].frames[forwarded].remote_addr, remote_addr);
    assert!(batches[0].next_match(forwarded + 1, remote_addr).is_none());
}

#[test]
fn test_zero_rtt_early_frames_caching() {
    let mut router = create_test_router();
    let remote_addr = create_test_address();
    let cid = 0u32;
    let result = router.dispatch_frame(push(cid, 0, b"0-RTT data"), remote_addr, 0);
    assert!(is_cached(&result));
    let addr_cache_key = router.get_cache_key(0, remote_addr);
    assert_eq!(router.pending(addr_cache_key).unwrap().len(), 1);
    let actual_cid = 123u32;
    let batches =
        router.register_connection(actual_cid, remote_addr, ConnectionMeta { sender: "peer" }, 0);
    assert_eq!(batches.len(), 1);
    for batch in batches {
        router.settle_forward(batch, remote_addr);
    }
    assert!(router.pending(addr_cache_key).is_none());
}

#[test]
fn test_multiple_clients_zero_rtt_isolation() {
    let mut router = create_test_router();
    let addr1 = localhost(8081);
    let addr2 = localhost(8082);
    let result1 = router.dispatch_frame(push(0, 0, b"client1 data"), addr1, 0);
    let result2 = router.dispatch_frame(push(0, 1, b"client2 data"), addr2, 0);
    assert!(is_cached(&result1));
    assert!(is_cached(&result2));
    let cache_key1 = router.get_cache_key(0, addr1);
    let cache_key2 = router.get_cache_key(0, addr2);
    assert_ne!(cache_key1, cache_key2);
    assert_eq!(router.pending(cache_key1).unwrap().len(), 1);
    assert_eq!(router.pending(cache_key2).unwrap().len(), 1);
    // Identifiers and addresses never share a key.
    assert!(cache_key1 > u32::MAX as u64);
}

#[test]
fn frames_of_another_peer_stay() {
    let mut router = create_test_router();
    let addr = localhost(1);
    let other = localhost(2);
    router.dispatch_frame(push(7, 0, b"a"), addr, 0);
    router.dispatch_frame(push(7, 1, b"b"), other, 0);
    router.dispatch_frame(push(7, 2, b"c"), addr, 0);
    router.dispatch_frame(push(7, 3, b"d"), other, 0);
    let batches = router.register_connection(7, addr, ConnectionMeta { sender: "peer" }, 0);
    assert_eq!(batches.len(), 1);
    for batch in batches {
        router.settle_forward(batch, addr);
    }
    let left = router.pending(7).unwrap();
    assert_eq!(left.len(), 2);
    assert!(left.iter().all(|pending| pending.remote_addr == other));
    assert_eq!(left[0].frame, push(7, 1, b"b"));
    assert_eq!(left[1].frame, push(7, 3, b"d"));
}

#[test]
fn frames_go_to_their_connection_by_identifier_and_by_address() {
    let mut router = create_test_router();
    let addr = localhost(4000);
    router.register_connection(11, addr, ConnectionMeta { sender: "peer" }, 0);
    match router.dispatch_frame(push(11, 0, b"x"), localhost(4001), 0) {
        Dispatch::Deliver { cid, frame, remote_addr } => {
            assert_eq!(cid, 11);
            assert_eq!(frame, push(11, 0, b"x"));
            assert_eq!(remote_addr, localhost(4001));
        }
        Dispatch::Done(_) => panic!("the connection exists"),
    }
    assert!(matches!(
        router.dispatch_frame(push(0, 0, b"x"), addr, 0),
        Dispatch::Deliver { cid: 11, .. }
    ));
    assert_eq!(router.complete_dispatch(11, true, 0), RoutingResult::Dispatched);
    assert_eq!(router.connection(11).unwrap().sender, "peer");
}

#[test]
fn removed_connection_drains_for_the_timeout() {
    let mut router = create_test_router();
    let addr = localhost(4000);
    router.register_connection(11, addr, ConnectionMeta { sender: "peer" }, 0);
    assert!(matches!(router.complete_dispatch(11, false, SECOND), RoutingResult::ConnectionNotFound));
    assert!(!router.connection_exists(11));
    assert!(router.is_draining(11));
    assert!(matches!(
        router.dispatch_frame(push(11, 1, b"late"), addr, 2 * SECOND),
        Dispatch::Done(RoutingResult::ConnectionDraining)
    ));
    router.cleanup_draining_pool(11 * SECOND - 1);
    assert!(router.is_draining(11));
    router.cleanup_draining_pool(11 * SECOND);
    assert!(!router.is_draining(11));
}

#[test]
fn newer_connection_of_an_address_replaces_the_older() {
    let mut router = PlainRouter::new(DrainingPool::new(10 * SECOND));
    let addr = localhost(4000);
    router.register_connection(1, addr, ConnectionMeta { sender: 'a' }, 0);
    router.register_connection(2, addr, ConnectionMeta { sender: 'b' }, 0);
    assert!(!router.connection_exists(1));
    assert!(router.is_draining(1));
    assert!(router.connection_exists(2));
    assert_eq!(router.route(0, addr), Some(2));
    assert!(!router.may_use_connection_id(1));
    assert!(!router.may_use_connection_id(2));
    assert!(router.may_use_connection_id(3));
    assert!(router.has_free_connection_id());
    let cid = router.generate_unique_connection_id();
    assert!(cid != 1 && cid != 2);
}

#[test]
fn migrated_connection_is_found_at_its_new_address() {
    let mut router = PlainRouter::new(DrainingPool::new(10 * SECOND));
    let old_addr = localhost(4000);
    let new_addr = localhost(4001);
    router.register_connection(9, old_addr, ConnectionMeta { sender: () }, 0);
    router.update_connection_address(9, new_addr);
    assert_eq!(router.route(0, new_addr), Some(9));
    assert_eq!(router.route(0, old_addr), None);
    router.remove_connection_by_cid(9, 5);
    assert_eq!(router.route(0, new_addr), None);
    assert!(matches!(
        router.dispatch_frame(push(9, 0, b"x"), new_addr),
        Dispatch::Done(RoutingResult::ConnectionDraining)
    ));
    assert!(matches!(
        router.dispatch_frame(push(8, 0, b"x"), new_addr),
        Dispatch::Done(RoutingResult::ConnectionNotFound)
    ));
}
