//! What the router with a cache and the session coordinator over it do, stated of
//! their functions one by one and of several calls in a row.

use bytes::Bytes;
use std::collections::hash_map::DefaultHasher;
use vstd::prelude::*;
use vstd::std_specs::hash::*;

use crate::error::Error;
use crate::packet::{Frame, PeerAddr};
use crate::socket::actor::NewConnection;
use crate::socket::command::{SocketAction, SocketActorCommand};
use crate::socket::draining::DrainingPool;
use crate::socket::event_loop::routing;
use crate::socket::event_loop::routing::{ForwardBatch, FrameRouter as CachingRouter, PendingFrame};
use crate::socket::event_loop::session_coordinator;
use crate::socket::event_loop::session_coordinator::SocketSessionCoordinator;
use crate::socket::routing::{ConnectionMeta, Dispatch, RouterState, RoutingResult};

verus! {

/// A frame of any kind that names an active connection goes to that connection,
/// and any other frame whose peer address belongs to an active connection goes
/// there; nothing else is delivered. The connections stay as they are, and at
/// most the address that the frame came from is forgotten.
pub proof fn law_caching_delivers_by_identifier_and_address<S>(
    router: &mut CachingRouter<S>,
    frame: Frame,
    named: u32,
    remote_addr: PeerAddr,
    now: u64,
    step: Dispatch,
)
    requires
        named == (match frame {
            Frame::Syn { header } => header.destination_cid,
            Frame::SynAck { header } => header.destination_cid,
            Frame::Push { header, .. } => header.connection_id,
            Frame::Ack { header, .. } => header.connection_id,
        }),
        call_ensures(CachingRouter::<S>::dispatch_frame, (router, frame, remote_addr, now), step),
    ensures
        ({
            let pre = old(router)@.router;
            let post = final(router)@.router;
            let by_name = named != 0 && pre.connections.contains_key(named);
            let by_addr = pre.routes.contains_key(remote_addr) && pre.connections.contains_key(
                pre.routes[remote_addr],
            );
            &&& by_name ==> step == (Dispatch::Deliver { cid: named, frame, remote_addr })
            &&& !by_name && by_addr ==> step == (Dispatch::Deliver {
                cid: pre.routes[remote_addr],
                frame,
                remote_addr,
            })
            &&& step is Done <==> !by_name && !by_addr
            &&& step is Done ==> step == Dispatch::Done(
                if pre.draining.contains_key(named) {
                    RoutingResult::ConnectionDraining
                } else if frame is Push {
                    RoutingResult::FrameCached
                } else {
                    RoutingResult::ConnectionNotFound
                },
            )
            &&& step is Deliver ==> final(router)@ == old(router)@
            &&& post.connections == pre.connections
            &&& post.draining == pre.draining
            &&& post.drain_timeout == pre.drain_timeout
            &&& forall|a: PeerAddr|
                a != remote_addr ==> #[trigger] post.routes.contains_key(a)
                    == pre.routes.contains_key(a) && (pre.routes.contains_key(a)
                    ==> post.routes[a] == pre.routes[a])
        }),
{
}

/// Once a connection is registered, a frame that names it goes to it from wherever
/// the frame comes, and a frame from its address that names no other active
/// connection goes to it too. Its endpoint is the one that it was registered with.
pub proof fn law_caching_reaches_a_registered_connection<S>(
    first: &mut CachingRouter<S>,
    cid: u32,
    addr: PeerAddr,
    sender: S,
    now: u64,
    batches: Vec<ForwardBatch>,
    second: &mut CachingRouter<S>,
    frame: Frame,
    named: u32,
    remote_addr: PeerAddr,
    arrival: u64,
    step: Dispatch,
)
    requires
        call_ensures(CachingRouter::<S>::register_connection, (first, cid, addr, ConnectionMeta { sender }, now), batches),
        old(second)@ == final(first)@,
        named == (match frame {
            Frame::Syn { header } => header.destination_cid,
            Frame::SynAck { header } => header.destination_cid,
            Frame::Push { header, .. } => header.connection_id,
            Frame::Ack { header, .. } => header.connection_id,
        }),
        call_ensures(CachingRouter::<S>::dispatch_frame, (second, frame, remote_addr, arrival), step),
    ensures
        old(second)@.router.connections.contains_key(cid),
        old(second)@.router.connections[cid].sender == sender,
        named == cid && cid != 0 ==> step == (Dispatch::Deliver { cid, frame, remote_addr }),
        remote_addr == addr && (named == 0 || !old(second)@.router.connections.contains_key(named))
            ==> step == (Dispatch::Deliver { cid, frame, remote_addr }),
{
}

/// A registration changes its own connection and its own address alone, but for
/// an older connection of that address, which gives way: it is no longer active,
/// and its identifier drains from now on.
pub proof fn law_caching_registration_replaces_one_connection<S>(
    first: &mut CachingRouter<S>,
    cid: u32,
    addr: PeerAddr,
    sender: S,
    now: u64,
    batches: Vec<ForwardBatch>,
)
    requires
        call_ensures(CachingRouter::<S>::register_connection, (first, cid, addr, ConnectionMeta { sender }, now), batches),
    ensures
        ({
            let pre = old(first)@.router;
            let post = final(first)@.router;
            let replaced = |c: u32| pre.routes.contains_key(addr) && pre.routes[addr] == c && c != cid;
            &&& post.routes.contains_key(addr) && post.routes[addr] == cid
            &&& forall|c: u32|
                c != cid ==> (#[trigger] post.connections.contains_key(c)
                    <==> pre.connections.contains_key(c) && !replaced(c))
            &&& forall|c: u32|
                c != cid && #[trigger] post.connections.contains_key(c) ==> post.connections[c]
                    == pre.connections[c]
            &&& forall|c: u32| #[trigger]
                post.draining.contains_key(c) <==> pre.draining.contains_key(c) || (replaced(c)
                    && pre.connections.contains_key(c))
            &&& forall|c: u32| #[trigger]
                post.draining.contains_key(c) ==> post.draining[c] == (if replaced(c)
                    && pre.connections.contains_key(c) {
                    now
                } else {
                    pre.draining[c]
                })
            &&& forall|a: PeerAddr|
                a != addr && #[trigger] post.routes.contains_key(a) ==> pre.routes.contains_key(a)
                    && post.routes[a] == pre.routes[a]
            &&& forall|a: PeerAddr|
                a != addr && pre.routes.contains_key(a) && !replaced(pre.routes[a]) ==> #[trigger]
                    post.routes.contains_key(a)
            &&& post.drain_timeout == pre.drain_timeout
        }),
{
    let pre = old(first)@.router;
    let post = final(first)@.router;
    let mid = choose|mid: RouterState<S>|
        {
            &&& if pre.routes.contains_key(addr) && pre.routes[addr] != cid {
                pre.removed(pre.routes[addr], now, mid)
            } else {
                mid == pre
            }
            &&& post == (#[trigger] mid.with_route(cid, addr, ConnectionMeta { sender }))
        };
    assert(post.connections == mid.connections.insert(cid, ConnectionMeta { sender }));
}

/// A registered connection is found with its endpoint, and the others are found
/// as before, but for one that gave way.
pub proof fn law_caching_finds_what_was_registered<S>(
    first: &mut CachingRouter<S>,
    cid: u32,
    addr: PeerAddr,
    sender: S,
    now: u64,
    batches: Vec<ForwardBatch>,
    before: CachingRouter<S>,
    after: CachingRouter<S>,
    other: u32,
    was: Option<&ConnectionMeta<S>>,
    found: Option<&ConnectionMeta<S>>,
)
    requires
        call_ensures(CachingRouter::<S>::register_connection, (first, cid, addr, ConnectionMeta { sender }, now), batches),
        before == *old(first),
        after == *final(first),
        call_ensures(CachingRouter::<S>::connection, (&before, other), was),
        call_ensures(CachingRouter::<S>::connection, (&after, other), found),
    ensures
        other == cid ==> found == Some(&ConnectionMeta { sender }),
        other != cid && !(before@.router.routes.contains_key(addr) && before@.router.routes[addr] == other)
            ==> found == was,
{
}

/// A removed connection is found no more, and all others are found as before.
pub proof fn law_caching_forgets_what_was_removed<S>(
    first: &mut CachingRouter<S>,
    cid: u32,
    now: u64,
    before: CachingRouter<S>,
    after: CachingRouter<S>,
    other: u32,
    was: Option<&ConnectionMeta<S>>,
    found: Option<&ConnectionMeta<S>>,
)
    requires
        call_ensures(CachingRouter::<S>::remove_connection_by_cid, (first, cid, now), ()),
        before == *old(first),
        after == *final(first),
        call_ensures(CachingRouter::<S>::connection, (&before, other), was),
        call_ensures(CachingRouter::<S>::connection, (&after, other), found),
    ensures
        other == cid ==> found is None,
        other != cid ==> found == was,
{
}

/// Removing a connection
/// ends that connection alone, and lets its identifier drain from now on; where
/// there is no such connection, nothing changes. No frame reaches it any more.
pub proof fn law_caching_removal_ends_one_connection<S>(
    first: &mut CachingRouter<S>,
    cid: u32,
    now: u64,
    second: &mut CachingRouter<S>,
    frame: Frame,
    remote_addr: PeerAddr,
    arrival: u64,
    step: Dispatch,
)
    requires
        call_ensures(CachingRouter::<S>::remove_connection_by_cid, (first, cid, now), ()),
        old(second)@ == final(first)@,
        call_ensures(CachingRouter::<S>::dispatch_frame, (second, frame, remote_addr, arrival), step),
    ensures
        ({
            let pre = old(first)@.router;
            let post = final(first)@.router;
            let there = pre.connections.contains_key(cid);
            &&& !post.connections.contains_key(cid)
            &&& forall|c: u32|
                c != cid ==> #[trigger] post.connections.contains_key(c)
                    == pre.connections.contains_key(c) && (pre.connections.contains_key(c)
                    ==> post.connections[c] == pre.connections[c])
            &&& there ==> post.draining.contains_key(cid) && post.draining[cid] == now
            &&& forall|c: u32|
                (c != cid || !there) ==> #[trigger] post.draining.contains_key(c)
                    == pre.draining.contains_key(c) && (pre.draining.contains_key(c)
                    ==> post.draining[c] == pre.draining[c])
            &&& !there ==> final(first)@ == old(first)@
            &&& forall|a: PeerAddr| #[trigger]
                post.routes.contains_key(a) ==> pre.routes.contains_key(a) && post.routes[a]
                    == pre.routes[a]
            &&& forall|a: PeerAddr|
                pre.routes.contains_key(a) && pre.routes[a] != cid ==> #[trigger]
                    post.routes.contains_key(a)
            &&& final(first)@.pending == old(first)@.pending
        }),
        step matches Dispatch::Deliver { cid: to, .. } ==> to != cid,
{
}

/// A connection whose endpoint does not take a frame is removed: doing so
/// ends that connection alone, and lets its identifier drain from now on; where
/// there is no such connection, nothing changes. No frame reaches it any more.
pub proof fn law_caching_failed_delivery_ends_one_connection<S>(
    first: &mut CachingRouter<S>,
    cid: u32,
    now: u64,
    result: RoutingResult,
    second: &mut CachingRouter<S>,
    frame: Frame,
    remote_addr: PeerAddr,
    arrival: u64,
    step: Dispatch,
)
    requires
        call_ensures(CachingRouter::<S>::complete_dispatch, (first, cid, false, now), result),
        old(second)@ == final(first)@,
        call_ensures(CachingRouter::<S>::dispatch_frame, (second, frame, remote_addr, arrival), step),
    ensures
        result is ConnectionNotFound,
        ({
            let pre = old(first)@.router;
            let post = final(first)@.router;
            let there = pre.connections.contains_key(cid);
            &&& !post.connections.contains_key(cid)
            &&& forall|c: u32|
                c != cid ==> #[trigger] post.connections.contains_key(c)
                    == pre.connections.contains_key(c) && (pre.connections.contains_key(c)
                    ==> post.connections[c] == pre.connections[c])
            &&& there ==> post.draining.contains_key(cid) && post.draining[cid] == now
            &&& forall|c: u32|
                (c != cid || !there) ==> #[trigger] post.draining.contains_key(c)
                    == pre.draining.contains_key(c) && (pre.draining.contains_key(c)
                    ==> post.draining[c] == pre.draining[c])
            &&& !there ==> final(first)@ == old(first)@
            &&& forall|a: PeerAddr| #[trigger]
                post.routes.contains_key(a) ==> pre.routes.contains_key(a) && post.routes[a]
                    == pre.routes[a]
            &&& forall|a: PeerAddr|
                pre.routes.contains_key(a) && pre.routes[a] != cid ==> #[trigger]
                    post.routes.contains_key(a)
            &&& final(first)@.pending == old(first)@.pending
        }),
        step matches Dispatch::Deliver { cid: to, .. } ==> to != cid,
{
}

/// A frame that was taken changes nothing.
pub proof fn law_caching_delivered_frame_changes_nothing<S>(
    router: &mut CachingRouter<S>,
    cid: u32,
    now: u64,
    result: RoutingResult,
)
    requires
        call_ensures(CachingRouter::<S>::complete_dispatch, (router, cid, true, now), result),
    ensures
        final(router)@ == old(router)@,
        result is Dispatched,
{
}

/// Changing the address of a connection
/// lets the new address lead to it, and changes neither a connection nor the way
/// of any address that belongs to another one. Where one address belonged to the
/// connection before, that one no longer leads to it. A frame that names no
/// active connection and comes from the new address then goes to an active `cid`.
pub proof fn law_caching_migration_moves_the_connection<S>(
    first: &mut CachingRouter<S>,
    cid: u32,
    new_addr: PeerAddr,
    old_addr: PeerAddr,
    second: &mut CachingRouter<S>,
    frame: Frame,
    named: u32,
    remote_addr: PeerAddr,
    arrival: u64,
    step: Dispatch,
)
    requires
        call_ensures(CachingRouter::<S>::update_connection_address, (first, cid, new_addr), ()),
        old(second)@ == final(first)@,
        named == (match frame {
            Frame::Syn { header } => header.destination_cid,
            Frame::SynAck { header } => header.destination_cid,
            Frame::Push { header, .. } => header.connection_id,
            Frame::Ack { header, .. } => header.connection_id,
        }),
        named == 0 || !old(first)@.router.connections.contains_key(named),
        call_ensures(CachingRouter::<S>::dispatch_frame, (second, frame, remote_addr, arrival), step),
    ensures
        ({
            let pre = old(first)@.router;
            let post = final(first)@.router;
            let alone = forall|a: PeerAddr| #[trigger]
                pre.routes.contains_key(a) && pre.routes[a] == cid ==> a == old_addr;
            &&& post.routes.contains_key(new_addr) && post.routes[new_addr] == cid
            &&& alone && old_addr != new_addr ==> !post.routes.contains_key(old_addr)
                || post.routes[old_addr] != cid
            &&& forall|a: PeerAddr|
                a != new_addr && #[trigger] post.routes.contains_key(a) ==> pre.routes.contains_key(a)
                    && post.routes[a] == pre.routes[a]
            &&& forall|a: PeerAddr|
                a != new_addr && pre.routes.contains_key(a) && pre.routes[a] != cid ==> #[trigger]
                    post.routes.contains_key(a)
            &&& post.connections == pre.connections
            &&& post.draining == pre.draining
            &&& post.drain_timeout == pre.drain_timeout
            &&& final(first)@.pending == old(first)@.pending
            &&& remote_addr == new_addr && pre.connections.contains_key(cid) ==> step == (
            Dispatch::Deliver { cid, frame, remote_addr })
            &&& alone && old_addr != new_addr && remote_addr == old_addr ==> !(step matches
                Dispatch::Deliver { cid: to, .. } && to == cid)
        }),
{
}

/// The clearing frees exactly the identifiers whose time is up, and touches
/// neither connections nor addresses.
pub proof fn law_caching_frees_what_has_drained<S>(router: &mut CachingRouter<S>, now: u64)
    requires
        call_ensures(CachingRouter::<S>::cleanup_draining_pool, (router, now), ()),
    ensures
        ({
            let pre = old(router)@.router;
            let post = final(router)@.router;
            let over = |start: u64|
                if now >= start {
                    now - start >= pre.drain_timeout
                } else {
                    pre.drain_timeout == 0
                };
            &&& forall|c: u32| #[trigger]
                post.draining.contains_key(c) <==> pre.draining.contains_key(c) && !over(
                    pre.draining[c],
                )
            &&& forall|c: u32| #[trigger]
                post.draining.contains_key(c) ==> post.draining[c] == pre.draining[c]
            &&& post.connections == pre.connections
            &&& post.routes == pre.routes
            &&& post.drain_timeout == pre.drain_timeout
        }),
{
}

/// An identifier that is drawn for a new connection is neither active nor draining.
pub proof fn law_caching_draws_unused_identifiers<S>(router: CachingRouter<S>, cid: u32)
    requires
        call_ensures(CachingRouter::<S>::generate_unique_connection_id, (&router,), cid),
    ensures
        !router@.router.connections.contains_key(cid),
        !router@.router.draining.contains_key(cid),
{
}

/// An identifier is left for a new connection exactly where one is neither active
/// nor draining.
pub proof fn law_caching_knows_whether_an_identifier_is_left<S>(router: CachingRouter<S>, free: bool)
    requires
        call_ensures(CachingRouter::<S>::has_free_connection_id, (&router,), free),
    ensures
        !free <==> forall|c: u32|
            (#[trigger] router@.router.connections.contains_key(c)) || router@.router.draining.contains_key(c),
{
    if exists|c: u32|
        !((#[trigger] router@.router.connections.contains_key(c)) || router@.router.draining.contains_key(c)) {
        let c = choose|c: u32|
            !((#[trigger] router@.router.connections.contains_key(c)) || router@.router.draining.contains_key(
                c,
            ));
        assert(router@.router.is_free(c));
    } else {
        assert(!router@.router.has_free_cid());
    }
}

/// A connection that ends drains for the set time and no longer: a clearing at
/// `later` frees its identifier exactly where that time is over by then.
pub proof fn law_caching_identifier_drains_for_its_time<S>(
    first: &mut CachingRouter<S>,
    cid: u32,
    now: u64,
    second: &mut CachingRouter<S>,
    later: u64,
    after: CachingRouter<S>,
    draining: bool,
)
    requires
        old(first)@.router.connections.contains_key(cid),
        now <= later,
        call_ensures(CachingRouter::<S>::remove_connection_by_cid, (first, cid, now), ()),
        old(second)@ == final(first)@,
        call_ensures(CachingRouter::<S>::cleanup_draining_pool, (second, later), ()),
        after == *final(second),
        call_ensures(CachingRouter::<S>::is_draining, (&after, cid), draining),
    ensures
        draining <==> later - now < old(first)@.router.drain_timeout,
{
}

/// What is active and what is draining is as the state says.
pub proof fn law_caching_tells_active_from_draining<S>(
    router: CachingRouter<S>,
    cid: u32,
    active: bool,
    draining: bool,
)
    requires
        call_ensures(CachingRouter::<S>::connection_exists, (&router, cid), active),
        call_ensures(CachingRouter::<S>::is_draining, (&router, cid), draining),
    ensures
        active == router@.router.connections.contains_key(cid),
        draining == router@.router.draining.contains_key(cid),
{
}

/// A frame of any kind that names an active connection goes to that connection,
/// and any other frame whose peer address belongs to an active connection goes
/// there; nothing else is delivered. The connections stay as they are, and at
/// most the address that the frame came from is forgotten.
pub proof fn law_session_delivers_by_identifier_and_address<S>(
    coordinator: &mut SocketSessionCoordinator<S>,
    frame: Frame,
    named: u32,
    remote_addr: PeerAddr,
    now: u64,
    step: Dispatch,
)
    requires
        named == (match frame {
            Frame::Syn { header } => header.destination_cid,
            Frame::SynAck { header } => header.destination_cid,
            Frame::Push { header, .. } => header.connection_id,
            Frame::Ack { header, .. } => header.connection_id,
        }),
        call_ensures(SocketSessionCoordinator::<S>::dispatch_frame, (coordinator, frame, remote_addr, now), step),
    ensures
        ({
            let pre = old(coordinator)@.router;
            let post = final(coordinator)@.router;
            let by_name = named != 0 && pre.connections.contains_key(named);
            let by_addr = pre.routes.contains_key(remote_addr) && pre.connections.contains_key(
                pre.routes[remote_addr],
            );
            &&& by_name ==> step == (Dispatch::Deliver { cid: named, frame, remote_addr })
            &&& !by_name && by_addr ==> step == (Dispatch::Deliver {
                cid: pre.routes[remote_addr],
                frame,
                remote_addr,
            })
            &&& step is Done <==> !by_name && !by_addr
            &&& step is Done ==> step == Dispatch::Done(
                if pre.draining.contains_key(named) {
                    RoutingResult::ConnectionDraining
                } else if frame is Push {
                    RoutingResult::FrameCached
                } else {
                    RoutingResult::ConnectionNotFound
                },
            )
            &&& step is Deliver ==> final(coordinator)@ == old(coordinator)@
            &&& post.connections == pre.connections
            &&& post.draining == pre.draining
            &&& post.drain_timeout == pre.drain_timeout
            &&& forall|a: PeerAddr|
                a != remote_addr ==> #[trigger] post.routes.contains_key(a)
                    == pre.routes.contains_key(a) && (pre.routes.contains_key(a)
                    ==> post.routes[a] == pre.routes[a])
        }),
{
}

/// Once a connection is registered, a frame that names it goes to it from wherever
/// the frame comes, and a frame from its address that names no other active
/// connection goes to it too. Its endpoint is the one that it was registered with.
pub proof fn law_session_reaches_a_registered_connection<S>(
    first: &mut SocketSessionCoordinator<S>,
    cid: u32,
    addr: PeerAddr,
    sender: S,
    now: u64,
    batches: Vec<ForwardBatch>,
    second: &mut SocketSessionCoordinator<S>,
    frame: Frame,
    named: u32,
    remote_addr: PeerAddr,
    arrival: u64,
    step: Dispatch,
)
    requires
        call_ensures(SocketSessionCoordinator::<S>::register_connection_to_router, (first, cid, addr, sender, now), batches),
        old(second)@ == final(first)@,
        named == (match frame {
            Frame::Syn { header } => header.destination_cid,
            Frame::SynAck { header } => header.destination_cid,
            Frame::Push { header, .. } => header.connection_id,
            Frame::Ack { header, .. } => header.connection_id,
        }),
        call_ensures(SocketSessionCoordinator::<S>::dispatch_frame, (second, frame, remote_addr, arrival), step),
    ensures
        old(second)@.router.connections.contains_key(cid),
        old(second)@.router.connections[cid].sender == sender,
        named == cid && cid != 0 ==> step == (Dispatch::Deliver { cid, frame, remote_addr }),
        remote_addr == addr && (named == 0 || !old(second)@.router.connections.contains_key(named))
            ==> step == (Dispatch::Deliver { cid, frame, remote_addr }),
{
}

/// A registration changes its own connection and its own address alone, but for
/// an older connection of that address, which gives way: it is no longer active,
/// and its identifier drains from now on.
pub proof fn law_session_registration_replaces_one_connection<S>(
    first: &mut SocketSessionCoordinator<S>,
    cid: u32,
    addr: PeerAddr,
    sender: S,
    now: u64,
    batches: Vec<ForwardBatch>,
)
    requires
        call_ensures(SocketSessionCoordinator::<S>::register_connection_to_router, (first, cid, addr, sender, now), batches),
    ensures
        ({
            let pre = old(first)@.router;
            let post = final(first)@.router;
            let replaced = |c: u32| pre.routes.contains_key(addr) && pre.routes[addr] == c && c != cid;
            &&& post.routes.contains_key(addr) && post.routes[addr] == cid
            &&& forall|c: u32|
                c != cid ==> (#[trigger] post.connections.contains_key(c)
                    <==> pre.connections.contains_key(c) && !replaced(c))
            &&& forall|c: u32|
                c != cid && #[trigger] post.connections.contains_key(c) ==> post.connections[c]
                    == pre.connections[c]
            &&& forall|c: u32| #[trigger]
                post.draining.contains_key(c) <==> pre.draining.contains_key(c) || (replaced(c)
                    && pre.connections.contains_key(c))
            &&& forall|c: u32| #[trigger]
                post.draining.contains_key(c) ==> post.draining[c] == (if replaced(c)
                    && pre.connections.contains_key(c) {
                    now
                } else {
                    pre.draining[c]
                })
            &&& forall|a: PeerAddr|
                a != addr && #[trigger] post.routes.contains_key(a) ==> pre.routes.contains_key(a)
                    && post.routes[a] == pre.routes[a]
            &&& forall|a: PeerAddr|
                a != addr && pre.routes.contains_key(a) && !replaced(pre.routes[a]) ==> #[trigger]
                    post.routes.contains_key(a)
            &&& post.drain_timeout == pre.drain_timeout
        }),
{
    let pre = old(first)@.router;
    let post = final(first)@.router;
    let mid = choose|mid: RouterState<S>|
        {
            &&& if pre.routes.contains_key(addr) && pre.routes[addr] != cid {
                pre.removed(pre.routes[addr], now, mid)
            } else {
                mid == pre
            }
            &&& post == (#[trigger] mid.with_route(cid, addr, ConnectionMeta { sender }))
        };
    assert(post.connections == mid.connections.insert(cid, ConnectionMeta { sender }));
}

/// A registered connection is found with its endpoint, and the others are found
/// as before, but for one that gave way.
pub proof fn law_session_finds_what_was_registered<S>(
    first: &mut SocketSessionCoordinator<S>,
    cid: u32,
    addr: PeerAddr,
    sender: S,
    now: u64,
    batches: Vec<ForwardBatch>,
    before: SocketSessionCoordinator<S>,
    after: SocketSessionCoordinator<S>,
    other: u32,
    was: Option<&ConnectionMeta<S>>,
    found: Option<&ConnectionMeta<S>>,
)
    requires
        call_ensures(SocketSessionCoordinator::<S>::register_connection_to_router, (first, cid, addr, sender, now), batches),
        before == *old(first),
        after == *final(first),
        call_ensures(SocketSessionCoordinator::<S>::connection, (&before, other), was),
        call_ensures(SocketSessionCoordinator::<S>::connection, (&after, other), found),
    ensures
        other == cid ==> found == Some(&ConnectionMeta { sender }),
        other != cid && !(before@.router.routes.contains_key(addr) && before@.router.routes[addr] == other)
            ==> found == was,
{
}

/// A removed connection is found no more, and all others are found as before.
pub proof fn law_session_forgets_what_was_removed<S>(
    first: &mut SocketSessionCoordinator<S>,
    cid: u32,
    now: u64,
    action: SocketAction,
    before: SocketSessionCoordinator<S>,
    after: SocketSessionCoordinator<S>,
    other: u32,
    was: Option<&ConnectionMeta<S>>,
    found: Option<&ConnectionMeta<S>>,
)
    requires
        call_ensures(SocketSessionCoordinator::<S>::handle_actor_command, (first, SocketActorCommand::RemoveConnection { cid }, now), action),
        before == *old(first),
        after == *final(first),
        call_ensures(SocketSessionCoordinator::<S>::connection, (&before, other), was),
        call_ensures(SocketSessionCoordinator::<S>::connection, (&after, other), found),
    ensures
        other == cid ==> found is None,
        other != cid ==> found == was,
{
}

/// A connection that the listener does not take is removed: doing so
/// ends that connection alone, and lets its identifier drain from now on; where
/// there is no such connection, nothing changes. No frame reaches it any more.
pub proof fn law_session_refusal_ends_one_connection<S>(
    first: &mut SocketSessionCoordinator<S>,
    cid: u32,
    now: u64,
    result: Result<(), Error>,
    second: &mut SocketSessionCoordinator<S>,
    frame: Frame,
    remote_addr: PeerAddr,
    arrival: u64,
    step: Dispatch,
)
    requires
        call_ensures(SocketSessionCoordinator::<S>::send_connection_to_user, (first, cid, false, now), result),
        old(second)@ == final(first)@,
        call_ensures(SocketSessionCoordinator::<S>::dispatch_frame, (second, frame, remote_addr, arrival), step),
    ensures
        result == Err::<(), Error>(Error::ChannelClosed),
        ({
            let pre = old(first)@.router;
            let post = final(first)@.router;
            let there = pre.connections.contains_key(cid);
            &&& !post.connections.contains_key(cid)
            &&& forall|c: u32|
                c != cid ==> #[trigger] post.connections.contains_key(c)
                    == pre.connections.contains_key(c) && (pre.connections.contains_key(c)
                    ==> post.connections[c] == pre.connections[c])
            &&& there ==> post.draining.contains_key(cid) && post.draining[cid] == now
            &&& forall|c: u32|
                (c != cid || !there) ==> #[trigger] post.draining.contains_key(c)
                    == pre.draining.contains_key(c) && (pre.draining.contains_key(c)
                    ==> post.draining[c] == pre.draining[c])
            &&& !there ==> final(first)@ == old(first)@
            &&& forall|a: PeerAddr| #[trigger]
                post.routes.contains_key(a) ==> pre.routes.contains_key(a) && post.routes[a]
                    == pre.routes[a]
            &&& forall|a: PeerAddr|
                pre.routes.contains_key(a) && pre.routes[a] != cid ==> #[trigger]
                    post.routes.contains_key(a)
            &&& final(first)@.pending == old(first)@.pending
        }),
        step matches Dispatch::Deliver { cid: to, .. } ==> to != cid,
{
}

/// A connection whose endpoint does not take a frame is removed: doing so
/// ends that connection alone, and lets its identifier drain from now on; where
/// there is no such connection, nothing changes. No frame reaches it any more.
pub proof fn law_session_failed_delivery_ends_one_connection<S>(
    first: &mut SocketSessionCoordinator<S>,
    cid: u32,
    now: u64,
    result: RoutingResult,
    second: &mut SocketSessionCoordinator<S>,
    frame: Frame,
    remote_addr: PeerAddr,
    arrival: u64,
    step: Dispatch,
)
    requires
        call_ensures(SocketSessionCoordinator::<S>::complete_dispatch, (first, cid, false, now), result),
        old(second)@ == final(first)@,
        call_ensures(SocketSessionCoordinator::<S>::dispatch_frame, (second, frame, remote_addr, arrival), step),
    ensures
        result is ConnectionNotFound,
        ({
            let pre = old(first)@.router;
            let post = final(first)@.router;
            let there = pre.connections.contains_key(cid);
            &&& !post.connections.contains_key(cid)
            &&& forall|c: u32|
                c != cid ==> #[trigger] post.connections.contains_key(c)
                    == pre.connections.contains_key(c) && (pre.connections.contains_key(c)
                    ==> post.connections[c] == pre.connections[c])
            &&& there ==> post.draining.contains_key(cid) && post.draining[cid] == now
            &&& forall|c: u32|
                (c != cid || !there) ==> #[trigger] post.draining.contains_key(c)
                    == pre.draining.contains_key(c) && (pre.draining.contains_key(c)
                    ==> post.draining[c] == pre.draining[c])
            &&& !there ==> final(first)@ == old(first)@
            &&& forall|a: PeerAddr| #[trigger]
                post.routes.contains_key(a) ==> pre.routes.contains_key(a) && post.routes[a]
                    == pre.routes[a]
            &&& forall|a: PeerAddr|
                pre.routes.contains_key(a) && pre.routes[a] != cid ==> #[trigger]
                    post.routes.contains_key(a)
            &&& final(first)@.pending == old(first)@.pending
        }),
        step matches Dispatch::Deliver { cid: to, .. } ==> to != cid,
{
}

/// The command to remove a connection
/// ends that connection alone, and lets its identifier drain from now on; where
/// there is no such connection, nothing changes. No frame reaches it any more.
pub proof fn law_session_removal_command_ends_one_connection<S>(
    first: &mut SocketSessionCoordinator<S>,
    cid: u32,
    now: u64,
    action: SocketAction,
    second: &mut SocketSessionCoordinator<S>,
    frame: Frame,
    remote_addr: PeerAddr,
    arrival: u64,
    step: Dispatch,
)
    requires
        call_ensures(SocketSessionCoordinator::<S>::handle_actor_command, (first, SocketActorCommand::RemoveConnection { cid }, now), action),
        old(second)@ == final(first)@,
        call_ensures(SocketSessionCoordinator::<S>::dispatch_frame, (second, frame, remote_addr, arrival), step),
    ensures
        action is Nothing,
        ({
            let pre = old(first)@.router;
            let post = final(first)@.router;
            let there = pre.connections.contains_key(cid);
            &&& !post.connections.contains_key(cid)
            &&& forall|c: u32|
                c != cid ==> #[trigger] post.connections.contains_key(c)
                    == pre.connections.contains_key(c) && (pre.connections.contains_key(c)
                    ==> post.connections[c] == pre.connections[c])
            &&& there ==> post.draining.contains_key(cid) && post.draining[cid] == now
            &&& forall|c: u32|
                (c != cid || !there) ==> #[trigger] post.draining.contains_key(c)
                    == pre.draining.contains_key(c) && (pre.draining.contains_key(c)
                    ==> post.draining[c] == pre.draining[c])
            &&& !there ==> final(first)@ == old(first)@
            &&& forall|a: PeerAddr| #[trigger]
                post.routes.contains_key(a) ==> pre.routes.contains_key(a) && post.routes[a]
                    == pre.routes[a]
            &&& forall|a: PeerAddr|
                pre.routes.contains_key(a) && pre.routes[a] != cid ==> #[trigger]
                    post.routes.contains_key(a)
            &&& final(first)@.pending == old(first)@.pending
        }),
        step matches Dispatch::Deliver { cid: to, .. } ==> to != cid,
{
}

/// A frame that was taken changes nothing.
pub proof fn law_session_delivered_frame_changes_nothing<S>(
    coordinator: &mut SocketSessionCoordinator<S>,
    cid: u32,
    now: u64,
    result: RoutingResult,
)
    requires
        call_ensures(SocketSessionCoordinator::<S>::complete_dispatch, (coordinator, cid, true, now), result),
    ensures
        final(coordinator)@ == old(coordinator)@,
        result is Dispatched,
{
}

/// A connection that the listener takes stays as it is.
pub proof fn law_session_accepted_connection_stays<S>(
    coordinator: &mut SocketSessionCoordinator<S>,
    local_cid: u32,
    now: u64,
    result: Result<(), Error>,
)
    requires
        call_ensures(SocketSessionCoordinator::<S>::send_connection_to_user, (coordinator, local_cid, true, now), result),
    ensures
        final(coordinator)@ == old(coordinator)@,
        result == Ok::<(), Error>(()),
{
}

/// The command to change the address of a connection
/// lets the new address lead to it, and changes neither a connection nor the way
/// of any address that belongs to another one. Where one address belonged to the
/// connection before, that one no longer leads to it. A frame that names no
/// active connection and comes from the new address then goes to an active `cid`.
pub proof fn law_session_address_command_moves_the_connection<S>(
    first: &mut SocketSessionCoordinator<S>,
    cid: u32,
    new_addr: PeerAddr,
    old_addr: PeerAddr,
    now: u64,
    action: SocketAction,
    second: &mut SocketSessionCoordinator<S>,
    frame: Frame,
    named: u32,
    remote_addr: PeerAddr,
    arrival: u64,
    step: Dispatch,
)
    requires
        call_ensures(SocketSessionCoordinator::<S>::handle_actor_command, (first, SocketActorCommand::UpdateAddr { cid, new_addr }, now), action),
        old(second)@ == final(first)@,
        named == (match frame {
            Frame::Syn { header } => header.destination_cid,
            Frame::SynAck { header } => header.destination_cid,
            Frame::Push { header, .. } => header.connection_id,
            Frame::Ack { header, .. } => header.connection_id,
        }),
        named == 0 || !old(first)@.router.connections.contains_key(named),
        call_ensures(SocketSessionCoordinator::<S>::dispatch_frame, (second, frame, remote_addr, arrival), step),
    ensures
        action is Nothing,
        ({
            let pre = old(first)@.router;
            let post = final(first)@.router;
            let alone = forall|a: PeerAddr| #[trigger]
                pre.routes.contains_key(a) && pre.routes[a] == cid ==> a == old_addr;
            &&& post.routes.contains_key(new_addr) && post.routes[new_addr] == cid
            &&& alone && old_addr != new_addr ==> !post.routes.contains_key(old_addr)
                || post.routes[old_addr] != cid
            &&& forall|a: PeerAddr|
                a != new_addr && #[trigger] post.routes.contains_key(a) ==> pre.routes.contains_key(a)
                    && post.routes[a] == pre.routes[a]
            &&& forall|a: PeerAddr|
                a != new_addr && pre.routes.contains_key(a) && pre.routes[a] != cid ==> #[trigger]
                    post.routes.contains_key(a)
            &&& post.connections == pre.connections
            &&& post.draining == pre.draining
            &&& post.drain_timeout == pre.drain_timeout
            &&& final(first)@.pending == old(first)@.pending
            &&& remote_addr == new_addr && pre.connections.contains_key(cid) ==> step == (
            Dispatch::Deliver { cid, frame, remote_addr })
            &&& alone && old_addr != new_addr && remote_addr == old_addr ==> !(step matches
                Dispatch::Deliver { cid: to, .. } && to == cid)
        }),
{
}

/// The clearing frees exactly the identifiers whose time is up, and touches
/// neither connections nor addresses.
pub proof fn law_session_frees_what_has_drained<S>(coordinator: &mut SocketSessionCoordinator<S>, now: u64)
    requires
        call_ensures(SocketSessionCoordinator::<S>::handle_cleanup_tick, (coordinator, now), ()),
    ensures
        ({
            let pre = old(coordinator)@.router;
            let post = final(coordinator)@.router;
            let over = |start: u64|
                if now >= start {
                    now - start >= pre.drain_timeout
                } else {
                    pre.drain_timeout == 0
                };
            &&& forall|c: u32| #[trigger]
                post.draining.contains_key(c) <==> pre.draining.contains_key(c) && !over(
                    pre.draining[c],
                )
            &&& forall|c: u32| #[trigger]
                post.draining.contains_key(c) ==> post.draining[c] == pre.draining[c]
            &&& post.connections == pre.connections
            &&& post.routes == pre.routes
            &&& post.drain_timeout == pre.drain_timeout
        }),
{
}

/// An identifier that is drawn for a new connection is neither active nor draining.
pub proof fn law_session_draws_unused_identifiers<S>(coordinator: SocketSessionCoordinator<S>, cid: u32)
    requires
        call_ensures(SocketSessionCoordinator::<S>::generate_unique_connection_id, (&coordinator,), cid),
    ensures
        !coordinator@.router.connections.contains_key(cid),
        !coordinator@.router.draining.contains_key(cid),
{
}

/// An identifier is left for a new connection exactly where one is neither active
/// nor draining.
pub proof fn law_session_knows_whether_an_identifier_is_left<S>(coordinator: SocketSessionCoordinator<S>, free: bool)
    requires
        call_ensures(SocketSessionCoordinator::<S>::has_free_connection_id, (&coordinator,), free),
    ensures
        !free <==> forall|c: u32|
            (#[trigger] coordinator@.router.connections.contains_key(c)) || coordinator@.router.draining.contains_key(c),
{
    if exists|c: u32|
        !((#[trigger] coordinator@.router.connections.contains_key(c)) || coordinator@.router.draining.contains_key(c)) {
        let c = choose|c: u32|
            !((#[trigger] coordinator@.router.connections.contains_key(c)) || coordinator@.router.draining.contains_key(
                c,
            ));
        assert(coordinator@.router.is_free(c));
    } else {
        assert(!coordinator@.router.has_free_cid());
    }
}

/// An attempt is accepted exactly where its first frame asks for a connection in
/// the very version that is spoken here, and any other version, lower or higher,
/// is ignored. The new connection gets an identifier that is neither active nor
/// draining, the peer's own identifier, and the data frames that came along, in
/// their order.
pub proof fn law_session_accepts_its_own_version_alone<S>(
    coordinator: SocketSessionCoordinator<S>,
    frames: Vec<Frame>,
    step: NewConnection,
)
    requires
        call_ensures(SocketSessionCoordinator::<S>::handle_new_connection, (&coordinator, frames), step),
    ensures
        step is Accepted <==> frames@.len() > 0 && (frames@[0] matches Frame::Syn { header }
            && header.protocol_version == coordinator.spec_protocol_version()),
        step matches NewConnection::Accepted { local_cid, peer_cid, zero_rtt } ==> {
            &&& !coordinator@.router.connections.contains_key(local_cid)
            &&& !coordinator@.router.draining.contains_key(local_cid)
            &&& frames@[0] matches Frame::Syn { header } && peer_cid == header.source_cid
            &&& zero_rtt@ == frames@.skip(1).filter(|f: Frame| f is Push)
        },
{
}

/// Whether an attempt can be decided on: one in the version that is spoken here
/// needs an identifier that is neither active nor draining, and no other one does.
pub proof fn law_session_decides_where_an_identifier_is_free<S>(
    coordinator: SocketSessionCoordinator<S>,
    frames: &[Frame],
    can: bool,
)
    requires
        call_ensures(SocketSessionCoordinator::<S>::can_handle_new_connection, (&coordinator, frames), can),
    ensures
        !can <==> frames@.len() > 0 && (frames@[0] matches Frame::Syn { header }
            && header.protocol_version == coordinator.spec_protocol_version()) && forall|c: u32|
            (#[trigger] coordinator@.router.connections.contains_key(c)) || coordinator@.router.draining.contains_key(c),
{
    if forall|c: u32|
        (#[trigger] coordinator@.router.connections.contains_key(c)) || coordinator@.router.draining.contains_key(c) {
        assert(!coordinator@.router.has_free_cid());
    } else {
        let c = choose|c: u32|
            !((#[trigger] coordinator@.router.connections.contains_key(c)) || coordinator@.router.draining.contains_key(
                c,
            ));
        assert(coordinator@.router.is_free(c));
    }
}

/// The commands that concern the socket itself leave the connections alone, and
/// say what is to be done: a new connection is started under an identifier that is
/// neither active nor draining, with the address and the data of the command.
pub proof fn law_session_answers_commands<S>(
    coordinator: &mut SocketSessionCoordinator<S>,
    command: SocketActorCommand,
    now: u64,
    action: SocketAction,
)
    requires
        call_ensures(SocketSessionCoordinator::<S>::handle_actor_command, (coordinator, command, now), action),
    ensures
        command is Connect || command is Rebind || command is GetLocalAddr ==> final(coordinator)@ == old(
            coordinator)@,
        command matches SocketActorCommand::Connect { remote_addr, initial_data } ==> (
        action matches SocketAction::StartClient { local_cid, remote_addr: to, initial_data: data }
            && to == remote_addr && data == initial_data && !old(coordinator)@.router.connections.contains_key(
            local_cid,
        ) && !old(coordinator)@.router.draining.contains_key(local_cid)),
        command matches SocketActorCommand::Rebind { new_local_addr } ==> action == (
        SocketAction::Rebind { new_local_addr }),
        command is GetLocalAddr ==> action is ReportLocalAddr,
{
}

/// What is taken out for a connection are whole places, each once.
proof fn lemma_waiting(pending: Map<u64, Seq<PendingFrame>>, cid: u32, addr: PeerAddr)
    ensures
        ({
            let waiting = routing::waiting_for(pending, cid, addr);
            let left = routing::without_waiting(pending, cid, addr);
            &&& forall|i: int|
                0 <= i < waiting.len() ==> {
                    let (key, frames) = #[trigger] waiting[i];
                    &&& pending.contains_key(key)
                    &&& frames == pending[key]
                    &&& !left.contains_key(key)
                }
            &&& forall|i: int, j: int|
                0 <= i < j < waiting.len() ==> (#[trigger] waiting[i]).0 != (#[trigger] waiting[j]).0
            &&& forall|key: u64|
                pending.contains_key(key) && !(#[trigger] left.contains_key(key)) ==> exists|i: int|
                    0 <= i < waiting.len() && (#[trigger] waiting[i]).0 == key
        }),
{
    let waiting = routing::waiting_for(pending, cid, addr);
    let left = routing::without_waiting(pending, cid, addr);
    let by_addr = routing::cache_key(0, addr);
    let first = routing::batch_under(pending, cid as u64);
    let second = routing::batch_under(pending, by_addr);
    if cid != 0 {
        routing::law_cache_keys_apart(cid, addr, addr);
        assert(waiting == first + second);
    } else {
        assert(waiting == second);
    }
    assert forall|key: u64|
        pending.contains_key(key) && !(#[trigger] left.contains_key(key)) implies exists|i: int|
        0 <= i < waiting.len() && (#[trigger] waiting[i]).0 == key by {
        if key == by_addr {
            assert(waiting[waiting.len() - 1] == second[0]);
        } else {
            assert(waiting[0] == first[0]);
        }
    }
}

/// A data frame that is kept stands behind the others of its place with its address
/// and its time of arrival; every other early frame stays where it is. A frame that
/// is not kept leaves the early frames alone.
pub proof fn law_caching_keeps_an_early_frame<S>(
    router: &mut CachingRouter<S>,
    frame: Frame,
    remote_addr: PeerAddr,
    now: u64,
    step: Dispatch,
)
    requires
        call_ensures(CachingRouter::<S>::dispatch_frame, (router, frame, remote_addr, now), step),
    ensures
        step == Dispatch::Done(RoutingResult::FrameCached) ==> exists|key: u64|
            {
                &&& #[trigger] final(router)@.pending.contains_key(key)
                &&& final(router)@.pending[key] == (if old(router)@.pending.contains_key(key) {
                    old(router)@.pending[key]
                } else {
                    Seq::empty()
                }).push(PendingFrame { frame, remote_addr, arrival_time: now })
                &&& final(router)@.pending.remove(key) == old(router)@.pending.remove(key)
            },
        step != Dispatch::Done(RoutingResult::FrameCached) ==> final(router)@.pending == old(
            router)@.pending,
{
    if step == Dispatch::Done(RoutingResult::FrameCached) {
        let cid = frame.spec_destination_cid();
        let key = routing::cache_key(cid, remote_addr);
        let early = PendingFrame { frame, remote_addr, arrival_time: now };
        let before = old(router)@.pending;
        let after = final(router)@.pending;
        assert(after.contains_key(key));
        assert(Seq::<PendingFrame>::empty().push(early) =~= seq![early]);
        if before.contains_key(key) {
            assert(before[key].push(early) =~= before[key] + seq![early]);
        }
        assert(after.remove(key) =~= before.remove(key));
    }
}

/// An early frame is handed out when its connection is registered: the connection
/// that it names, or any connection of its peer's address where it names none. It
/// is handed out as it came.
pub proof fn law_caching_hands_out_an_early_frame<S>(
    first: &mut CachingRouter<S>,
    frame: Frame,
    named: u32,
    addr: PeerAddr,
    now: u64,
    step: Dispatch,
    second: &mut CachingRouter<S>,
    cid: u32,
    sender: S,
    later: u64,
    batches: Vec<ForwardBatch>,
)
    requires
        named == (match frame {
            Frame::Syn { header } => header.destination_cid,
            Frame::SynAck { header } => header.destination_cid,
            Frame::Push { header, .. } => header.connection_id,
            Frame::Ack { header, .. } => header.connection_id,
        }),
        named == 0 || named == cid,
        call_ensures(CachingRouter::<S>::dispatch_frame, (first, frame, addr, now), step),
        step == Dispatch::Done(RoutingResult::FrameCached),
        old(second)@ == final(first)@,
        call_ensures(CachingRouter::<S>::register_connection, (second, cid, addr, ConnectionMeta { sender }, later), batches),
    ensures
        exists|i: int|
            0 <= i < batches@.len() && (#[trigger] batches@[i]).frames@.contains(
                PendingFrame { frame, remote_addr: addr, arrival_time: now },
            ),
{
    let early = PendingFrame { frame, remote_addr: addr, arrival_time: now };
    let given = batches@.map_values(|b: ForwardBatch| b@);
    routing::law_early_frame_is_forwarded(old(first)@.pending, named, early, cid);
    let i = choose|i: int| 0 <= i < given.len() && #[trigger] given[i].1.contains(early);
    assert(batches@[i]@ == given[i]);
    assert(batches@[i].frames@.contains(early));
}

/// An early frame that names another connection is not handed out when `cid` is
/// registered: it goes on waiting.
pub proof fn law_caching_keeps_early_frames_of_others<S>(
    first: &mut CachingRouter<S>,
    frame: Frame,
    named: u32,
    from: PeerAddr,
    now: u64,
    step: Dispatch,
    second: &mut CachingRouter<S>,
    cid: u32,
    addr: PeerAddr,
    sender: S,
    later: u64,
    batches: Vec<ForwardBatch>,
)
    requires
        named == (match frame {
            Frame::Syn { header } => header.destination_cid,
            Frame::SynAck { header } => header.destination_cid,
            Frame::Push { header, .. } => header.connection_id,
            Frame::Ack { header, .. } => header.connection_id,
        }),
        named != 0 && named != cid,
        call_ensures(CachingRouter::<S>::dispatch_frame, (first, frame, from, now), step),
        step == Dispatch::Done(RoutingResult::FrameCached),
        old(second)@ == final(first)@,
        call_ensures(CachingRouter::<S>::register_connection, (second, cid, addr, ConnectionMeta { sender }, later), batches),
    ensures
        exists|key: u64| #[trigger]
            final(second)@.pending.contains_key(key) && final(second)@.pending[key].contains(
                PendingFrame { frame, remote_addr: from, arrival_time: now },
            ),
{
    let early = PendingFrame { frame, remote_addr: from, arrival_time: now };
    let key = routing::cache_key(named, from);
    routing::law_cache_keys_apart(named, from, addr);
    let list = old(second)@.pending[key];
    assert(list[list.len() - 1] == early);
    assert(final(second)@.pending.contains_key(key));
    assert(final(second)@.pending[key] == list);
}

/// What a registration hands out and what it leaves are together all early frames,
/// each place as a whole, and no place twice.
pub proof fn law_caching_hands_out_whole_places<S>(
    router: &mut CachingRouter<S>,
    cid: u32,
    addr: PeerAddr,
    sender: S,
    now: u64,
    batches: Vec<ForwardBatch>,
)
    requires
        call_ensures(CachingRouter::<S>::register_connection, (router, cid, addr, ConnectionMeta { sender }, now), batches),
    ensures
        ({
            let before = old(router)@.pending;
            let after = final(router)@.pending;
            &&& forall|i: int|
                0 <= i < batches@.len() ==> {
                    let batch = #[trigger] batches@[i];
                    &&& before.contains_key(batch.key)
                    &&& batch.frames@ == before[batch.key]
                    &&& !after.contains_key(batch.key)
                }
            &&& forall|i: int, j: int|
                0 <= i < j < batches@.len() ==> (#[trigger] batches@[i]).key != (
                #[trigger] batches@[j]).key
            &&& forall|key: u64| #[trigger]
                after.contains_key(key) ==> before.contains_key(key) && after[key] == before[key]
            &&& forall|key: u64|
                before.contains_key(key) && !(#[trigger] after.contains_key(key)) ==> exists|i: int|
                    0 <= i < batches@.len() && (#[trigger] batches@[i]).key == key
        }),
{
    let before = old(router)@.pending;
    let after = final(router)@.pending;
    let given = batches@.map_values(|b: ForwardBatch| b@);
    lemma_waiting(before, cid, addr);
    assert forall|i: int| 0 <= i < batches@.len() implies {
        let batch = #[trigger] batches@[i];
        &&& before.contains_key(batch.key)
        &&& batch.frames@ == before[batch.key]
        &&& !after.contains_key(batch.key)
    } by {
        assert(given[i] == batches@[i]@);
    }
    assert forall|i: int, j: int| 0 <= i < j < batches@.len() implies (#[trigger] batches@[i]).key
        != (#[trigger] batches@[j]).key by {
        assert(given[i] == batches@[i]@);
        assert(given[j] == batches@[j]@);
    }
    assert forall|key: u64|
        before.contains_key(key) && !(#[trigger] after.contains_key(key)) implies exists|i: int|
        0 <= i < batches@.len() && (#[trigger] batches@[i]).key == key by {
        let i = choose|i: int| 0 <= i < given.len() && (#[trigger] given[i]).0 == key;
        assert(given[i] == batches@[i]@);
    }
}

/// After a batch was forwarded, its frames of other peers go back to their place, in
/// their order and behind what came meanwhile, and nothing else changes.
pub proof fn law_caching_puts_foreign_frames_back<S>(
    router: &mut CachingRouter<S>,
    batch: ForwardBatch,
    remote_addr: PeerAddr,
)
    requires
        call_ensures(CachingRouter::<S>::settle_forward, (router, batch, remote_addr), ()),
    ensures
        ({
            let before = old(router)@.pending;
            let after = final(router)@.pending;
            let foreign = batch.frames@.filter(|p: PendingFrame| p.remote_addr != remote_addr);
            let there = if before.contains_key(batch.key) {
                before[batch.key]
            } else {
                Seq::empty()
            };
            &&& final(router)@.router == old(router)@.router
            &&& foreign.len() > 0 ==> after.contains_key(batch.key) && after[batch.key] == there
                + foreign
            &&& foreign.len() == 0 ==> after == before
            &&& after.remove(batch.key) == before.remove(batch.key)
        }),
{
    let before = old(router)@.pending;
    let after = final(router)@.pending;
    let foreign = batch.frames@.filter(|p: PendingFrame| p.remote_addr != remote_addr);
    assert(Seq::<PendingFrame>::empty() + foreign =~= foreign);
    assert(after.remove(batch.key) =~= before.remove(batch.key));
}

/// A data frame that is kept stands behind the others of its place with its address
/// and its time of arrival; every other early frame stays where it is. A frame that
/// is not kept leaves the early frames alone.
pub proof fn law_session_keeps_an_early_frame<S>(
    coordinator: &mut SocketSessionCoordinator<S>,
    frame: Frame,
    remote_addr: PeerAddr,
    now: u64,
    step: Dispatch,
)
    requires
        call_ensures(SocketSessionCoordinator::<S>::dispatch_frame, (coordinator, frame, remote_addr, now), step),
    ensures
        step == Dispatch::Done(RoutingResult::FrameCached) ==> exists|key: u64|
            {
                &&& #[trigger] final(coordinator)@.pending.contains_key(key)
                &&& final(coordinator)@.pending[key] == (if old(coordinator)@.pending.contains_key(key) {
                    old(coordinator)@.pending[key]
                } else {
                    Seq::empty()
                }).push(PendingFrame { frame, remote_addr, arrival_time: now })
                &&& final(coordinator)@.pending.remove(key) == old(coordinator)@.pending.remove(key)
            },
        step != Dispatch::Done(RoutingResult::FrameCached) ==> final(coordinator)@.pending == old(
            coordinator)@.pending,
{
    if step == Dispatch::Done(RoutingResult::FrameCached) {
        let cid = frame.spec_destination_cid();
        let key = routing::cache_key(cid, remote_addr);
        let early = PendingFrame { frame, remote_addr, arrival_time: now };
        let before = old(coordinator)@.pending;
        let after = final(coordinator)@.pending;
        assert(after.contains_key(key));
        assert(Seq::<PendingFrame>::empty().push(early) =~= seq![early]);
        if before.contains_key(key) {
            assert(before[key].push(early) =~= before[key] + seq![early]);
        }
        assert(after.remove(key) =~= before.remove(key));
    }
}

/// An early frame is handed out when its connection is registered: the connection
/// that it names, or any connection of its peer's address where it names none. It
/// is handed out as it came.
pub proof fn law_session_hands_out_an_early_frame<S>(
    first: &mut SocketSessionCoordinator<S>,
    frame: Frame,
    named: u32,
    addr: PeerAddr,
    now: u64,
    step: Dispatch,
    second: &mut SocketSessionCoordinator<S>,
    cid: u32,
    sender: S,
    later: u64,
    batches: Vec<ForwardBatch>,
)
    requires
        named == (match frame {
            Frame::Syn { header } => header.destination_cid,
            Frame::SynAck { header } => header.destination_cid,
            Frame::Push { header, .. } => header.connection_id,
            Frame::Ack { header, .. } => header.connection_id,
        }),
        named == 0 || named == cid,
        call_ensures(SocketSessionCoordinator::<S>::dispatch_frame, (first, frame, addr, now), step),
        step == Dispatch::Done(RoutingResult::FrameCached),
        old(second)@ == final(first)@,
        call_ensures(SocketSessionCoordinator::<S>::register_connection_to_router, (second, cid, addr, sender, later), batches),
    ensures
        exists|i: int|
            0 <= i < batches@.len() && (#[trigger] batches@[i]).frames@.contains(
                PendingFrame { frame, remote_addr: addr, arrival_time: now },
            ),
{
    let early = PendingFrame { frame, remote_addr: addr, arrival_time: now };
    let given = batches@.map_values(|b: ForwardBatch| b@);
    routing::law_early_frame_is_forwarded(old(first)@.pending, named, early, cid);
    let i = choose|i: int| 0 <= i < given.len() && #[trigger] given[i].1.contains(early);
    assert(batches@[i]@ == given[i]);
    assert(batches@[i].frames@.contains(early));
}

/// An early frame that names another connection is not handed out when `cid` is
/// registered: it goes on waiting.
pub proof fn law_session_keeps_early_frames_of_others<S>(
    first: &mut SocketSessionCoordinator<S>,
    frame: Frame,
    named: u32,
    from: PeerAddr,
    now: u64,
    step: Dispatch,
    second: &mut SocketSessionCoordinator<S>,
    cid: u32,
    addr: PeerAddr,
    sender: S,
    later: u64,
    batches: Vec<ForwardBatch>,
)
    requires
        named == (match frame {
            Frame::Syn { header } => header.destination_cid,
            Frame::SynAck { header } => header.destination_cid,
            Frame::Push { header, .. } => header.connection_id,
            Frame::Ack { header, .. } => header.connection_id,
        }),
        named != 0 && named != cid,
        call_ensures(SocketSessionCoordinator::<S>::dispatch_frame, (first, frame, from, now), step),
        step == Dispatch::Done(RoutingResult::FrameCached),
        old(second)@ == final(first)@,
        call_ensures(SocketSessionCoordinator::<S>::register_connection_to_router, (second, cid, addr, sender, later), batches),
    ensures
        exists|key: u64| #[trigger]
            final(second)@.pending.contains_key(key) && final(second)@.pending[key].contains(
                PendingFrame { frame, remote_addr: from, arrival_time: now },
            ),
{
    let early = PendingFrame { frame, remote_addr: from, arrival_time: now };
    let key = routing::cache_key(named, from);
    routing::law_cache_keys_apart(named, from, addr);
    let list = old(second)@.pending[key];
    assert(list[list.len() - 1] == early);
    assert(final(second)@.pending.contains_key(key));
    assert(final(second)@.pending[key] == list);
}

/// What a registration hands out and what it leaves are together all early frames,
/// each place as a whole, and no place twice.
pub proof fn law_session_hands_out_whole_places<S>(
    coordinator: &mut SocketSessionCoordinator<S>,
    cid: u32,
    addr: PeerAddr,
    sender: S,
    now: u64,
    batches: Vec<ForwardBatch>,
)
    requires
        call_ensures(SocketSessionCoordinator::<S>::register_connection_to_router, (coordinator, cid, addr, sender, now), batches),
    ensures
        ({
            let before = old(coordinator)@.pending;
            let after = final(coordinator)@.pending;
            &&& forall|i: int|
                0 <= i < batches@.len() ==> {
                    let batch = #[trigger] batches@[i];
                    &&& before.contains_key(batch.key)
                    &&& batch.frames@ == before[batch.key]
                    &&& !after.contains_key(batch.key)
                }
            &&& forall|i: int, j: int|
                0 <= i < j < batches@.len() ==> (#[trigger] batches@[i]).key != (
                #[trigger] batches@[j]).key
            &&& forall|key: u64| #[trigger]
                after.contains_key(key) ==> before.contains_key(key) && after[key] == before[key]
            &&& forall|key: u64|
                before.contains_key(key) && !(#[trigger] after.contains_key(key)) ==> exists|i: int|
                    0 <= i < batches@.len() && (#[trigger] batches@[i]).key == key
        }),
{
    let before = old(coordinator)@.pending;
    let after = final(coordinator)@.pending;
    let given = batches@.map_values(|b: ForwardBatch| b@);
    lemma_waiting(before, cid, addr);
    assert forall|i: int| 0 <= i < batches@.len() implies {
        let batch = #[trigger] batches@[i];
        &&& before.contains_key(batch.key)
        &&& batch.frames@ == before[batch.key]
        &&& !after.contains_key(batch.key)
    } by {
        assert(given[i] == batches@[i]@);
    }
    assert forall|i: int, j: int| 0 <= i < j < batches@.len() implies (#[trigger] batches@[i]).key
        != (#[trigger] batches@[j]).key by {
        assert(given[i] == batches@[i]@);
        assert(given[j] == batches@[j]@);
    }
    assert forall|key: u64|
        before.contains_key(key) && !(#[trigger] after.contains_key(key)) implies exists|i: int|
        0 <= i < batches@.len() && (#[trigger] batches@[i]).key == key by {
        let i = choose|i: int| 0 <= i < given.len() && (#[trigger] given[i]).0 == key;
        assert(given[i] == batches@[i]@);
    }
}

/// After a batch was forwarded, its frames of other peers go back to their place, in
/// their order and behind what came meanwhile, and nothing else changes.
pub proof fn law_session_puts_foreign_frames_back<S>(
    coordinator: &mut SocketSessionCoordinator<S>,
    batch: ForwardBatch,
    remote_addr: PeerAddr,
)
    requires
        call_ensures(SocketSessionCoordinator::<S>::settle_forward, (coordinator, batch, remote_addr), ()),
    ensures
        ({
            let before = old(coordinator)@.pending;
            let after = final(coordinator)@.pending;
            let foreign = batch.frames@.filter(|p: PendingFrame| p.remote_addr != remote_addr);
            let there = if before.contains_key(batch.key) {
                before[batch.key]
            } else {
                Seq::empty()
            };
            &&& final(coordinator)@.router == old(coordinator)@.router
            &&& foreign.len() > 0 ==> after.contains_key(batch.key) && after[batch.key] == there
                + foreign
            &&& foreign.len() == 0 ==> after == before
            &&& after.remove(batch.key) == before.remove(batch.key)
        }),
{
    let before = old(coordinator)@.pending;
    let after = final(coordinator)@.pending;
    let foreign = batch.frames@.filter(|p: PendingFrame| p.remote_addr != remote_addr);
    assert(Seq::<PendingFrame>::empty() + foreign =~= foreign);
    assert(after.remove(batch.key) =~= before.remove(batch.key));
}

/// The early frames of a given age and older are dropped, and the others stay in
/// their places and in their order.
pub proof fn law_caching_drops_old_early_frames<S>(router: &mut CachingRouter<S>, max_age: u64, now: u64)
    requires
        call_ensures(CachingRouter::<S>::cleanup_expired_frames, (router, max_age, now), ()),
    ensures
        ({
            let before = old(router)@.pending;
            let after = final(router)@.pending;
            let young = |p: PendingFrame|
                if now >= p.arrival_time {
                    now - p.arrival_time < max_age
                } else {
                    0 < max_age
                };
            &&& forall|key: u64| #[trigger]
                after.contains_key(key) ==> before.contains_key(key) && after[key]
                    == before[key].filter(young) && after[key].len() > 0
            &&& forall|key: u64|
                before.contains_key(key) && before[key].filter(young).len() > 0 ==> #[trigger]
                    after.contains_key(key)
        }),
{
    let before = old(router)@.pending;
    let after = final(router)@.pending;
    let young = |p: PendingFrame|
        if now >= p.arrival_time {
            now - p.arrival_time < max_age
        } else {
            0 < max_age
        };
    let kept = |p: PendingFrame| crate::socket::draining::elapsed(p.arrival_time, now) < max_age;
    assert(kept =~= young);
}

/// The periodic clearing drops the early frames of five seconds and older, and the
/// others stay in their places and in their order.
pub proof fn law_session_drops_old_early_frames<S>(coordinator: &mut SocketSessionCoordinator<S>, now: u64)
    requires
        call_ensures(SocketSessionCoordinator::<S>::handle_cleanup_tick, (coordinator, now), ()),
    ensures
        ({
            let before = old(coordinator)@.pending;
            let after = final(coordinator)@.pending;
            let young = |p: PendingFrame|
                if now >= p.arrival_time {
                    now - p.arrival_time < 5_000_000_000
                } else {
                    0 < 5_000_000_000
                };
            &&& forall|key: u64| #[trigger]
                after.contains_key(key) ==> before.contains_key(key) && after[key]
                    == before[key].filter(young) && after[key].len() > 0
            &&& forall|key: u64|
                before.contains_key(key) && before[key].filter(young).len() > 0 ==> #[trigger]
                    after.contains_key(key)
        }),
{
    let before = old(coordinator)@.pending;
    let after = final(coordinator)@.pending;
    let young = |p: PendingFrame|
        if now >= p.arrival_time {
            now - p.arrival_time < 5_000_000_000
        } else {
            0 < 5_000_000_000
        };
    let kept = |p: PendingFrame| crate::socket::draining::elapsed(p.arrival_time, now) < 5_000_000_000;
    assert(kept =~= young);
}

/// Frames wait for a connection that is active only: of any other one nothing is
/// taken out.
pub proof fn law_nothing_is_handed_out_to_unknown_connections<S>(
    router: &mut CachingRouter<S>,
    cid: u32,
    remote_addr: PeerAddr,
    batches: Vec<ForwardBatch>,
)
    requires
        call_ensures(CachingRouter::<S>::forward_cached_frames, (router, cid, remote_addr), batches),
    ensures
        final(router)@.router == old(router)@.router,
        !old(router)@.router.connections.contains_key(cid) ==> batches@.len() == 0 && final(router)@
            == old(router)@,
        forall|i: int|
            0 <= i < batches@.len() ==> old(router)@.pending.contains_key(
                (#[trigger] batches@[i]).key,
            ) && batches@[i].frames@ == old(router)@.pending[batches@[i].key],
{
    let given = batches@.map_values(|b: ForwardBatch| b@);
    lemma_waiting(old(router)@.pending, cid, remote_addr);
    assert forall|i: int| 0 <= i < batches@.len() implies old(router)@.pending.contains_key(
        (#[trigger] batches@[i]).key,
    ) && batches@[i].frames@ == old(router)@.pending[batches@[i].key] by {
        assert(given[i] == batches@[i]@);
    }
}

/// Going through a batch from match to match meets exactly the frames of the peer.
pub proof fn law_matches_are_the_frames_of_the_peer(
    batch: ForwardBatch,
    from: usize,
    remote_addr: PeerAddr,
    found: Option<usize>,
    j: int,
)
    requires
        call_ensures(ForwardBatch::next_match, (&batch, from, remote_addr), found),
        from <= j < batch.frames@.len(),
        batch.frames@[j].remote_addr == remote_addr,
    ensures
        found matches Some(i) && from <= i <= j && batch.frames@[i as int].remote_addr == remote_addr,
{
}

/// The identifier and the data of an outbound connection: the identifier is neither
/// active nor draining, and the address and the data are those that were given.
pub proof fn law_session_starts_outbound_connections<S>(
    coordinator: SocketSessionCoordinator<S>,
    remote_addr: PeerAddr,
    initial_data: Option<Bytes>,
    action: SocketAction,
)
    requires
        call_ensures(
            SocketSessionCoordinator::<S>::create_client_connection,
            (&coordinator, remote_addr, initial_data),
            action,
        ),
    ensures
        action matches SocketAction::StartClient { local_cid, remote_addr: to, initial_data: data }
            && to == remote_addr && data == initial_data
            && !coordinator@.router.connections.contains_key(local_cid)
            && !coordinator@.router.draining.contains_key(local_cid),
{
}

/// A version is accepted where it is the one that is spoken here.
pub proof fn law_session_speaks_one_version<S>(
    coordinator: SocketSessionCoordinator<S>,
    client_version: u8,
    valid: bool,
)
    requires
        call_ensures(
            SocketSessionCoordinator::<S>::validate_protocol_version,
            (&coordinator, client_version),
            valid,
        ),
    ensures
        valid <==> client_version == coordinator.spec_protocol_version(),
{
}

/// A new router has no connections, no addresses and no early frames, and goes on with
/// the draining pool that it is given. So does the coordinator over it.
pub proof fn law_caching_starts_without_connections<S>(
    pool: DrainingPool,
    router: CachingRouter<S>,
    version: u8,
    session: SocketSessionCoordinator<S>,
    inner: &CachingRouter<S>,
)
    requires
        call_ensures(CachingRouter::<S>::new, (pool,), router),
        call_ensures(SocketSessionCoordinator::<S>::new, (router, version), session),
        call_ensures(SocketSessionCoordinator::<S>::frame_router, (&session,), inner),
    ensures
        forall|cid: u32| !#[trigger] router@.router.connections.contains_key(cid),
        forall|addr: PeerAddr| !#[trigger] router@.router.routes.contains_key(addr),
        forall|key: u64| !#[trigger] router@.pending.contains_key(key),
        router@.router.draining == pool@,
        router@.router.drain_timeout == pool.spec_timeout(),
        session@ == router@,
        session.spec_protocol_version() == version,
        inner@ == router@,
{
}

/// A router shows the frames that wait under a key.
pub proof fn law_caching_shows_what_waits<S>(
    router: CachingRouter<S>,
    key: u64,
    frames: Option<&Vec<PendingFrame>>,
)
    requires
        call_ensures(CachingRouter::<S>::pending, (&router, key), frames),
    ensures
        frames is Some <==> router@.pending.contains_key(key),
        frames matches Some(list) ==> list@ == router@.pending[key],
{
}

/// Whether the bytes tell the address: its number, its port, its flow information, its
/// scope and its version, one behind the other.
pub open spec fn tells(bytes: Seq<u8>, addr: PeerAddr) -> bool {
    &&& bytes.len() == 27
    &&& vstd::bytes::spec_u128_from_le_bytes(bytes.subrange(0, 16)) == addr.ip
    &&& vstd::bytes::spec_u16_from_le_bytes(bytes.subrange(16, 18)) == addr.port
    &&& vstd::bytes::spec_u32_from_le_bytes(bytes.subrange(18, 22)) == addr.flowinfo
    &&& vstd::bytes::spec_u32_from_le_bytes(bytes.subrange(22, 26)) == addr.scope_id
    &&& bytes[26] == if addr.v6 {
        1u8
    } else {
        0u8
    }
}

/// A frame is filed under the identifier that it names. One that names none is filed
/// under a digest of the whole address, far above all identifiers.
pub proof fn law_caching_files_by_identifier_or_address<S>(
    router: CachingRouter<S>,
    cid: u32,
    addr: PeerAddr,
    key: u64,
)
    requires
        call_ensures(CachingRouter::<S>::get_cache_key, (&router, cid, addr), key),
    ensures
        cid != 0 ==> key == cid,
        cid == 0 ==> key >= 0x8000_0000_0000_0000,
        cid == 0 ==> exists|bytes: Seq<u8>| #[trigger]
            tells(bytes, addr) && key == (DefaultHasher::spec_finish(seq![bytes]) | (1u64 << 63)),
{
    vstd::bytes::lemma_auto_spec_u128_to_from_le_bytes();
    vstd::bytes::lemma_auto_spec_u32_to_from_le_bytes();
    vstd::bytes::lemma_auto_spec_u16_to_from_le_bytes();
    let bytes = routing::addr_bytes(addr);
    let ip = vstd::bytes::spec_u128_to_le_bytes(addr.ip);
    let port = vstd::bytes::spec_u16_to_le_bytes(addr.port);
    let flowinfo = vstd::bytes::spec_u32_to_le_bytes(addr.flowinfo);
    let scope_id = vstd::bytes::spec_u32_to_le_bytes(addr.scope_id);
    assert(bytes.subrange(0, 16) =~= ip);
    assert(bytes.subrange(16, 18) =~= port);
    assert(bytes.subrange(18, 22) =~= flowinfo);
    assert(bytes.subrange(22, 26) =~= scope_id);
    assert(tells(bytes, addr));
    let digest = DefaultHasher::spec_finish(seq![bytes]);
    assert(digest | (1u64 << 63) >= 0x8000_0000_0000_0000) by (bit_vector);
}

/// No operation changes the version that is spoken here: a coordinator that went through
/// all of them accepts what it accepted before.
pub proof fn law_session_keeps_its_version<S>(
    commanded: &mut SocketSessionCoordinator<S>,
    command: SocketActorCommand,
    now: u64,
    action: SocketAction,
    dispatched: &mut SocketSessionCoordinator<S>,
    frame: Frame,
    addr: PeerAddr,
    step: Dispatch,
    completed: &mut SocketSessionCoordinator<S>,
    cid: u32,
    yes: bool,
    result: RoutingResult,
    registered: &mut SocketSessionCoordinator<S>,
    sender: S,
    batches: Vec<ForwardBatch>,
    settled: &mut SocketSessionCoordinator<S>,
    batch: ForwardBatch,
    offered: &mut SocketSessionCoordinator<S>,
    answer: Result<(), Error>,
    cleaned: &mut SocketSessionCoordinator<S>,
)
    requires
        call_ensures(
            SocketSessionCoordinator::<S>::handle_actor_command,
            (commanded, command, now),
            action,
        ),
        *old(dispatched) == *final(commanded),
        call_ensures(
            SocketSessionCoordinator::<S>::dispatch_frame,
            (dispatched, frame, addr, now),
            step,
        ),
        *old(completed) == *final(dispatched),
        call_ensures(
            SocketSessionCoordinator::<S>::complete_dispatch,
            (completed, cid, yes, now),
            result,
        ),
        *old(registered) == *final(completed),
        call_ensures(
            SocketSessionCoordinator::<S>::register_connection_to_router,
            (registered, cid, addr, sender, now),
            batches,
        ),
        *old(settled) == *final(registered),
        call_ensures(SocketSessionCoordinator::<S>::settle_forward, (settled, batch, addr), ()),
        *old(offered) == *final(settled),
        call_ensures(
            SocketSessionCoordinator::<S>::send_connection_to_user,
            (offered, cid, yes, now),
            answer,
        ),
        *old(cleaned) == *final(offered),
        call_ensures(SocketSessionCoordinator::<S>::handle_cleanup_tick, (cleaned, now), ()),
    ensures
        final(cleaned).spec_protocol_version() == old(commanded).spec_protocol_version(),
{
}

/// Where the caches are cleaned at every interval, no early frame is kept for longer than
/// seven seconds.
pub proof fn law_early_frames_are_kept_for_seconds_alone()
    ensures
        session_coordinator::CLEANUP_INTERVAL == 2_000_000_000,
        session_coordinator::EARLY_FRAME_MAX_AGE + session_coordinator::CLEANUP_INTERVAL
            == 7_000_000_000,
{
}

/// A frame that came too early waits behind those that are filed under the same key, with
/// the address that it came from and the time. No other frame is touched, and neither are
/// the connections.
pub proof fn law_caching_files_an_early_frame<S>(
    router: &mut CachingRouter<S>,
    cid: u32,
    frame: Frame,
    addr: PeerAddr,
    now: u64,
    key: u64,
)
    requires
        call_ensures(CachingRouter::<S>::cache_early_frame, (router, cid, frame, addr, now), ()),
        call_ensures(CachingRouter::<S>::get_cache_key, (&*old(router), cid, addr), key),
    ensures
        final(router)@.pending.contains_key(key),
        final(router)@.pending[key].len() > 0,
        final(router)@.pending[key].last().frame == frame,
        final(router)@.pending[key].last().remote_addr == addr,
        final(router)@.pending[key].last().arrival_time == now,
        old(router)@.pending.contains_key(key) ==> final(router)@.pending[key].drop_last() == old(
            router)@.pending[key],
        !old(router)@.pending.contains_key(key) ==> final(router)@.pending[key].len() == 1,
        forall|other: u64|
            other != key ==> (#[trigger] final(router)@.pending.contains_key(other) <==> old(
                router)@.pending.contains_key(other)) && final(router)@.pending[other] == old(
                router)@.pending[other],
        final(router)@.router == old(router)@.router,
{
    let early = PendingFrame { frame, remote_addr: addr, arrival_time: now };
    if old(router)@.pending.contains_key(key) {
        assert(old(router)@.pending[key] + seq![early] =~= old(router)@.pending[key].push(early));
        assert(old(router)@.pending[key].push(early).drop_last() =~= old(router)@.pending[key]);
    }
}

} // verus!
