//! What the plain router and the socket actor over it do, stated of their
//! functions one by one and of several calls in a row.

use bytes::Bytes;
use vstd::prelude::*;

use crate::error::Error;
use crate::packet::{Frame, PeerAddr};
use crate::socket::actor::{NewConnection, TransportSocketActor};
use crate::socket::command::{SocketAction, SocketActorCommand};
use crate::socket::address_table::AddressTable;
use crate::socket::draining::DrainingPool;
use crate::socket::handshake;
use crate::socket::handshake::{DatagramKind, SynVerdict};
use crate::socket::initial_data::{InitialData, PacketLimits};
use crate::socket::routing::{ConnectionMeta, Dispatch, FrameRouter, RouterState, RoutingResult};
use crate::socket::transport;
use crate::socket::transport::{FrameBatch, Polled, SendQueue, SenderTaskCommand, TransportCommand};

verus! {

/// A frame of any kind that names an active connection goes to that connection,
/// and any other frame whose peer address belongs to an active connection goes
/// there; nothing else is delivered. The connections stay as they are, and at
/// most the address that the frame came from is forgotten.
pub proof fn law_router_delivers_by_identifier_and_address<S>(
    router: &mut FrameRouter<S>,
    frame: Frame,
    named: u32,
    remote_addr: PeerAddr,
    step: Dispatch,
)
    requires
        named == (match frame {
            Frame::Syn { header } => header.destination_cid,
            Frame::SynAck { header } => header.destination_cid,
            Frame::Push { header, .. } => header.connection_id,
            Frame::Ack { header, .. } => header.connection_id,
        }),
        call_ensures(FrameRouter::<S>::dispatch_frame, (router, frame, remote_addr), step),
    ensures
        ({
            let pre = old(router)@;
            let post = final(router)@;
            let by_name = named != 0 && pre.connections.contains_key(named);
            let by_addr = pre.routes.contains_key(remote_addr) && pre.connections.contains_key(
                pre.routes[remote_addr],
            );
            &&& by_name ==> step == (Dispatch::Deliver { cid: named, frame, remote_addr })
            &&& !by_name && by_addr ==> step == (Dispatch::Deliver {
                cid: pre.routes[remote_addr],
                frame,
                remote_addr,
            })
            &&& step is Done <==> !by_name && !by_addr
            &&& step is Done ==> step == Dispatch::Done(
                if pre.draining.contains_key(named) {
                    RoutingResult::ConnectionDraining
                } else {
                    RoutingResult::ConnectionNotFound
                },
            )
            &&& step is Deliver ==> final(router)@ == old(router)@
            &&& post.connections == pre.connections
            &&& post.draining == pre.draining
            &&& post.drain_timeout == pre.drain_timeout
            &&& forall|a: PeerAddr|
                a != remote_addr ==> #[trigger] post.routes.contains_key(a)
                    == pre.routes.contains_key(a) && (pre.routes.contains_key(a)
                    ==> post.routes[a] == pre.routes[a])
        }),
{
}

/// Once a connection is registered, a frame that names it goes to it from wherever
/// the frame comes, and a frame from its address that names no other active
/// connection goes to it too. Its endpoint is the one that it was registered with.
pub proof fn law_router_reaches_a_registered_connection<S>(
    first: &mut FrameRouter<S>,
    cid: u32,
    addr: PeerAddr,
    sender: S,
    now: u64,
    second: &mut FrameRouter<S>,
    frame: Frame,
    named: u32,
    remote_addr: PeerAddr,
    step: Dispatch,
)
    requires
        call_ensures(FrameRouter::<S>::register_connection, (first, cid, addr, ConnectionMeta { sender }, now), ()),
        old(second)@ == final(first)@,
        named == (match frame {
            Frame::Syn { header } => header.destination_cid,
            Frame::SynAck { header } => header.destination_cid,
            Frame::Push { header, .. } => header.connection_id,
            Frame::Ack { header, .. } => header.connection_id,
        }),
        call_ensures(FrameRouter::<S>::dispatch_frame, (second, frame, remote_addr), step),
    ensures
        old(second)@.connections.contains_key(cid),
        old(second)@.connections[cid].sender == sender,
        named == cid && cid != 0 ==> step == (Dispatch::Deliver { cid, frame, remote_addr }),
        remote_addr == addr && (named == 0 || !old(second)@.connections.contains_key(named))
            ==> step == (Dispatch::Deliver { cid, frame, remote_addr }),
{
}

/// A registration changes its own connection and its own address alone, but for
/// an older connection of that address, which gives way: it is no longer active,
/// and its identifier drains from now on.
pub proof fn law_router_registration_replaces_one_connection<S>(
    first: &mut FrameRouter<S>,
    cid: u32,
    addr: PeerAddr,
    sender: S,
    now: u64,
)
    requires
        call_ensures(FrameRouter::<S>::register_connection, (first, cid, addr, ConnectionMeta { sender }, now), ()),
    ensures
        ({
            let pre = old(first)@;
            let post = final(first)@;
            let replaced = |c: u32| pre.routes.contains_key(addr) && pre.routes[addr] == c && c != cid;
            &&& post.routes.contains_key(addr) && post.routes[addr] == cid
            &&& forall|c: u32|
                c != cid ==> (#[trigger] post.connections.contains_key(c)
                    <==> pre.connections.contains_key(c) && !replaced(c))
            &&& forall|c: u32|
                c != cid && #[trigger] post.connections.contains_key(c) ==> post.connections[c]
                    == pre.connections[c]
            &&& forall|c: u32| #[trigger]
                post.draining.contains_key(c) <==> pre.draining.contains_key(c) || (replaced(c)
                    && pre.connections.contains_key(c))
            &&& forall|c: u32| #[trigger]
                post.draining.contains_key(c) ==> post.draining[c] == (if replaced(c)
                    && pre.connections.contains_key(c) {
                    now
                } else {
                    pre.draining[c]
                })
            &&& forall|a: PeerAddr|
                a != addr && #[trigger] post.routes.contains_key(a) ==> pre.routes.contains_key(a)
                    && post.routes[a] == pre.routes[a]
            &&& forall|a: PeerAddr|
                a != addr && pre.routes.contains_key(a) && !replaced(pre.routes[a]) ==> #[trigger]
                    post.routes.contains_key(a)
            &&& post.drain_timeout == pre.drain_timeout
        }),
{
    let pre = old(first)@;
    let post = final(first)@;
    let mid = choose|mid: RouterState<S>|
        {
            &&& if pre.routes.contains_key(addr) && pre.routes[addr] != cid {
                pre.removed(pre.routes[addr], now, mid)
            } else {
                mid == pre
            }
            &&& post == (#[trigger] mid.with_route(cid, addr, ConnectionMeta { sender }))
        };
    assert(post.connections == mid.connections.insert(cid, ConnectionMeta { sender }));
}

/// A registered connection is found with its endpoint, and the others are found
/// as before, but for one that gave way.
pub proof fn law_router_finds_what_was_registered<S>(
    first: &mut FrameRouter<S>,
    cid: u32,
    addr: PeerAddr,
    sender: S,
    now: u64,
    before: FrameRouter<S>,
    after: FrameRouter<S>,
    other: u32,
    was: Option<&ConnectionMeta<S>>,
    found: Option<&ConnectionMeta<S>>,
)
    requires
        call_ensures(FrameRouter::<S>::register_connection, (first, cid, addr, ConnectionMeta { sender }, now), ()),
        before == *old(first),
        after == *final(first),
        call_ensures(FrameRouter::<S>::connection, (&before, other), was),
        call_ensures(FrameRouter::<S>::connection, (&after, other), found),
    ensures
        other == cid ==> found == Some(&ConnectionMeta { sender }),
        other != cid && !(before@.routes.contains_key(addr) && before@.routes[addr] == other)
            ==> found == was,
{
}

/// A removed connection is found no more, and all others are found as before.
pub proof fn law_router_forgets_what_was_removed<S>(
    first: &mut FrameRouter<S>,
    cid: u32,
    now: u64,
    before: FrameRouter<S>,
    after: FrameRouter<S>,
    other: u32,
    was: Option<&ConnectionMeta<S>>,
    found: Option<&ConnectionMeta<S>>,
)
    requires
        call_ensures(FrameRouter::<S>::remove_connection_by_cid, (first, cid, now), ()),
        before == *old(first),
        after == *final(first),
        call_ensures(FrameRouter::<S>::connection, (&before, other), was),
        call_ensures(FrameRouter::<S>::connection, (&after, other), found),
    ensures
        other == cid ==> found is None,
        other != cid ==> found == was,
{
}

/// Removing a connection
/// ends that connection alone, and lets its identifier drain from now on; where
/// there is no such connection, nothing changes. No frame reaches it any more.
pub proof fn law_router_removal_ends_one_connection<S>(
    first: &mut FrameRouter<S>,
    cid: u32,
    now: u64,
    second: &mut FrameRouter<S>,
    frame: Frame,
    remote_addr: PeerAddr,
    step: Dispatch,
)
    requires
        call_ensures(FrameRouter::<S>::remove_connection_by_cid, (first, cid, now), ()),
        old(second)@ == final(first)@,
        call_ensures(FrameRouter::<S>::dispatch_frame, (second, frame, remote_addr), step),
    ensures
        ({
            let pre = old(first)@;
            let post = final(first)@;
            let there = pre.connections.contains_key(cid);
            &&& !post.connections.contains_key(cid)
            &&& forall|c: u32|
                c != cid ==> #[trigger] post.connections.contains_key(c)
                    == pre.connections.contains_key(c) && (pre.connections.contains_key(c)
                    ==> post.connections[c] == pre.connections[c])
            &&& there ==> post.draining.contains_key(cid) && post.draining[cid] == now
            &&& forall|c: u32|
                (c != cid || !there) ==> #[trigger] post.draining.contains_key(c)
                    == pre.draining.contains_key(c) && (pre.draining.contains_key(c)
                    ==> post.draining[c] == pre.draining[c])
            &&& !there ==> final(first)@ == old(first)@
            &&& forall|a: PeerAddr| #[trigger]
                post.routes.contains_key(a) ==> pre.routes.contains_key(a) && post.routes[a]
                    == pre.routes[a]
            &&& forall|a: PeerAddr|
                pre.routes.contains_key(a) && pre.routes[a] != cid ==> #[trigger]
                    post.routes.contains_key(a)
        }),
        step matches Dispatch::Deliver { cid: to, .. } ==> to != cid,
{
}

/// A connection whose endpoint does not take a frame is removed: doing so
/// ends that connection alone, and lets its identifier drain from now on; where
/// there is no such connection, nothing changes. No frame reaches it any more.
pub proof fn law_router_failed_delivery_ends_one_connection<S>(
    first: &mut FrameRouter<S>,
    cid: u32,
    now: u64,
    result: RoutingResult,
    second: &mut FrameRouter<S>,
    frame: Frame,
    remote_addr: PeerAddr,
    step: Dispatch,
)
    requires
        call_ensures(FrameRouter::<S>::complete_dispatch, (first, cid, false, now), result),
        old(second)@ == final(first)@,
        call_ensures(FrameRouter::<S>::dispatch_frame, (second, frame, remote_addr), step),
    ensures
        result is ConnectionNotFound,
        ({
            let pre = old(first)@;
            let post = final(first)@;
            let there = pre.connections.contains_key(cid);
            &&& !post.connections.contains_key(cid)
            &&& forall|c: u32|
                c != cid ==> #[trigger] post.connections.contains_key(c)
                    == pre.connections.contains_key(c) && (pre.connections.contains_key(c)
                    ==> post.connections[c] == pre.connections[c])
            &&& there ==> post.draining.contains_key(cid) && post.draining[cid] == now
            &&& forall|c: u32|
                (c != cid || !there) ==> #[trigger] post.draining.contains_key(c)
                    == pre.draining.contains_key(c) && (pre.draining.contains_key(c)
                    ==> post.draining[c] == pre.draining[c])
            &&& !there ==> final(first)@ == old(first)@
            &&& forall|a: PeerAddr| #[trigger]
                post.routes.contains_key(a) ==> pre.routes.contains_key(a) && post.routes[a]
                    == pre.routes[a]
            &&& forall|a: PeerAddr|
                pre.routes.contains_key(a) && pre.routes[a] != cid ==> #[trigger]
                    post.routes.contains_key(a)
        }),
        step matches Dispatch::Deliver { cid: to, .. } ==> to != cid,
{
}

/// A frame that was taken changes nothing.
pub proof fn law_router_delivered_frame_changes_nothing<S>(
    router: &mut FrameRouter<S>,
    cid: u32,
    now: u64,
    result: RoutingResult,
)
    requires
        call_ensures(FrameRouter::<S>::complete_dispatch, (router, cid, true, now), result),
    ensures
        final(router)@ == old(router)@,
        result is Dispatched,
{
}

/// Changing the address of a connection
/// lets the new address lead to it, and changes neither a connection nor the way
/// of any address that belongs to another one. Where one address belonged to the
/// connection before, that one no longer leads to it. A frame that names no
/// active connection and comes from the new address then goes to an active `cid`.
pub proof fn law_router_migration_moves_the_connection<S>(
    first: &mut FrameRouter<S>,
    cid: u32,
    new_addr: PeerAddr,
    old_addr: PeerAddr,
    second: &mut FrameRouter<S>,
    frame: Frame,
    named: u32,
    remote_addr: PeerAddr,
    step: Dispatch,
)
    requires
        call_ensures(FrameRouter::<S>::update_connection_address, (first, cid, new_addr), ()),
        old(second)@ == final(first)@,
        named == (match frame {
            Frame::Syn { header } => header.destination_cid,
            Frame::SynAck { header } => header.destination_cid,
            Frame::Push { header, .. } => header.connection_id,
            Frame::Ack { header, .. } => header.connection_id,
        }),
        named == 0 || !old(first)@.connections.contains_key(named),
        call_ensures(FrameRouter::<S>::dispatch_frame, (second, frame, remote_addr), step),
    ensures
        ({
            let pre = old(first)@;
            let post = final(first)@;
            let alone = forall|a: PeerAddr| #[trigger]
                pre.routes.contains_key(a) && pre.routes[a] == cid ==> a == old_addr;
            &&& post.routes.contains_key(new_addr) && post.routes[new_addr] == cid
            &&& alone && old_addr != new_addr ==> !post.routes.contains_key(old_addr)
                || post.routes[old_addr] != cid
            &&& forall|a: PeerAddr|
                a != new_addr && #[trigger] post.routes.contains_key(a) ==> pre.routes.contains_key(a)
                    && post.routes[a] == pre.routes[a]
            &&& forall|a: PeerAddr|
                a != new_addr && pre.routes.contains_key(a) && pre.routes[a] != cid ==> #[trigger]
                    post.routes.contains_key(a)
            &&& post.connections == pre.connections
            &&& post.draining == pre.draining
            &&& post.drain_timeout == pre.drain_timeout
            &&& remote_addr == new_addr && pre.connections.contains_key(cid) ==> step == (
            Dispatch::Deliver { cid, frame, remote_addr })
            &&& alone && old_addr != new_addr && remote_addr == old_addr ==> !(step matches
                Dispatch::Deliver { cid: to, .. } && to == cid)
        }),
{
}

/// The clearing frees exactly the identifiers whose time is up, and touches
/// neither connections nor addresses.
pub proof fn law_router_frees_what_has_drained<S>(router: &mut FrameRouter<S>, now: u64)
    requires
        call_ensures(FrameRouter::<S>::cleanup_draining_pool, (router, now), ()),
    ensures
        ({
            let pre = old(router)@;
            let post = final(router)@;
            let over = |start: u64|
                if now >= start {
                    now - start >= pre.drain_timeout
                } else {
                    pre.drain_timeout == 0
                };
            &&& forall|c: u32| #[trigger]
                post.draining.contains_key(c) <==> pre.draining.contains_key(c) && !over(
                    pre.draining[c],
                )
            &&& forall|c: u32| #[trigger]
                post.draining.contains_key(c) ==> post.draining[c] == pre.draining[c]
            &&& post.connections == pre.connections
            &&& post.routes == pre.routes
            &&& post.drain_timeout == pre.drain_timeout
        }),
{
}

/// An identifier that is drawn for a new connection is neither active nor draining.
pub proof fn law_router_draws_unused_identifiers<S>(router: FrameRouter<S>, cid: u32)
    requires
        call_ensures(FrameRouter::<S>::generate_unique_connection_id, (&router,), cid),
    ensures
        !router@.connections.contains_key(cid),
        !router@.draining.contains_key(cid),
{
}

/// An identifier is left for a new connection exactly where one is neither active
/// nor draining.
pub proof fn law_router_knows_whether_an_identifier_is_left<S>(router: FrameRouter<S>, free: bool)
    requires
        call_ensures(FrameRouter::<S>::has_free_connection_id, (&router,), free),
    ensures
        !free <==> forall|c: u32|
            (#[trigger] router@.connections.contains_key(c)) || router@.draining.contains_key(c),
{
    if exists|c: u32|
        !((#[trigger] router@.connections.contains_key(c)) || router@.draining.contains_key(c)) {
        let c = choose|c: u32|
            !((#[trigger] router@.connections.contains_key(c)) || router@.draining.contains_key(
                c,
            ));
        assert(router@.is_free(c));
    } else {
        assert(!router@.has_free_cid());
    }
}

/// A connection that ends drains for the set time and no longer: a clearing at
/// `later` frees its identifier exactly where that time is over by then.
pub proof fn law_router_identifier_drains_for_its_time<S>(
    first: &mut FrameRouter<S>,
    cid: u32,
    now: u64,
    second: &mut FrameRouter<S>,
    later: u64,
    after: FrameRouter<S>,
    draining: bool,
)
    requires
        old(first)@.connections.contains_key(cid),
        now <= later,
        call_ensures(FrameRouter::<S>::remove_connection_by_cid, (first, cid, now), ()),
        old(second)@ == final(first)@,
        call_ensures(FrameRouter::<S>::cleanup_draining_pool, (second, later), ()),
        after == *final(second),
        call_ensures(FrameRouter::<S>::is_draining, (&after, cid), draining),
    ensures
        draining <==> later - now < old(first)@.drain_timeout,
{
}

/// What is active and what is draining is as the state says.
pub proof fn law_router_tells_active_from_draining<S>(
    router: FrameRouter<S>,
    cid: u32,
    active: bool,
    draining: bool,
)
    requires
        call_ensures(FrameRouter::<S>::connection_exists, (&router, cid), active),
        call_ensures(FrameRouter::<S>::is_draining, (&router, cid), draining),
    ensures
        active == router@.connections.contains_key(cid),
        draining == router@.draining.contains_key(cid),
{
}

/// A frame of any kind that names an active connection goes to that connection,
/// and any other frame whose peer address belongs to an active connection goes
/// there; nothing else is delivered. The connections stay as they are, and at
/// most the address that the frame came from is forgotten.
pub proof fn law_actor_delivers_by_identifier_and_address<S>(
    actor: &mut TransportSocketActor<S>,
    frame: Frame,
    named: u32,
    remote_addr: PeerAddr,
    step: Dispatch,
)
    requires
        named == (match frame {
            Frame::Syn { header } => header.destination_cid,
            Frame::SynAck { header } => header.destination_cid,
            Frame::Push { header, .. } => header.connection_id,
            Frame::Ack { header, .. } => header.connection_id,
        }),
        call_ensures(TransportSocketActor::<S>::dispatch_frame, (actor, frame, remote_addr), step),
    ensures
        ({
            let pre = old(actor)@;
            let post = final(actor)@;
            let by_name = named != 0 && pre.connections.contains_key(named);
            let by_addr = pre.routes.contains_key(remote_addr) && pre.connections.contains_key(
                pre.routes[remote_addr],
            );
            &&& by_name ==> step == (Dispatch::Deliver { cid: named, frame, remote_addr })
            &&& !by_name && by_addr ==> step == (Dispatch::Deliver {
                cid: pre.routes[remote_addr],
                frame,
                remote_addr,
            })
            &&& step is Done <==> !by_name && !by_addr
            &&& step is Done ==> step == Dispatch::Done(
                if pre.draining.contains_key(named) {
                    RoutingResult::ConnectionDraining
                } else {
                    RoutingResult::ConnectionNotFound
                },
            )
            &&& step is Deliver ==> final(actor)@ == old(actor)@
            &&& post.connections == pre.connections
            &&& post.draining == pre.draining
            &&& post.drain_timeout == pre.drain_timeout
            &&& forall|a: PeerAddr|
                a != remote_addr ==> #[trigger] post.routes.contains_key(a)
                    == pre.routes.contains_key(a) && (pre.routes.contains_key(a)
                    ==> post.routes[a] == pre.routes[a])
        }),
{
}

/// Once a connection is registered, a frame that names it goes to it from wherever
/// the frame comes, and a frame from its address that names no other active
/// connection goes to it too. Its endpoint is the one that it was registered with.
pub proof fn law_actor_reaches_a_registered_connection<S>(
    first: &mut TransportSocketActor<S>,
    cid: u32,
    addr: PeerAddr,
    sender: S,
    now: u64,
    second: &mut TransportSocketActor<S>,
    frame: Frame,
    named: u32,
    remote_addr: PeerAddr,
    step: Dispatch,
)
    requires
        call_ensures(TransportSocketActor::<S>::register_connection, (first, cid, addr, sender, now), ()),
        old(second)@ == final(first)@,
        named == (match frame {
            Frame::Syn { header } => header.destination_cid,
            Frame::SynAck { header } => header.destination_cid,
            Frame::Push { header, .. } => header.connection_id,
            Frame::Ack { header, .. } => header.connection_id,
        }),
        call_ensures(TransportSocketActor::<S>::dispatch_frame, (second, frame, remote_addr), step),
    ensures
        old(second)@.connections.contains_key(cid),
        old(second)@.connections[cid].sender == sender,
        named == cid && cid != 0 ==> step == (Dispatch::Deliver { cid, frame, remote_addr }),
        remote_addr == addr && (named == 0 || !old(second)@.connections.contains_key(named))
            ==> step == (Dispatch::Deliver { cid, frame, remote_addr }),
{
}

/// A registration changes its own connection and its own address alone, but for
/// an older connection of that address, which gives way: it is no longer active,
/// and its identifier drains from now on.
pub proof fn law_actor_registration_replaces_one_connection<S>(
    first: &mut TransportSocketActor<S>,
    cid: u32,
    addr: PeerAddr,
    sender: S,
    now: u64,
)
    requires
        call_ensures(TransportSocketActor::<S>::register_connection, (first, cid, addr, sender, now), ()),
    ensures
        ({
            let pre = old(first)@;
            let post = final(first)@;
            let replaced = |c: u32| pre.routes.contains_key(addr) && pre.routes[addr] == c && c != cid;
            &&& post.routes.contains_key(addr) && post.routes[addr] == cid
            &&& forall|c: u32|
                c != cid ==> (#[trigger] post.connections.contains_key(c)
                    <==> pre.connections.contains_key(c) && !replaced(c))
            &&& forall|c: u32|
                c != cid && #[trigger] post.connections.contains_key(c) ==> post.connections[c]
                    == pre.connections[c]
            &&& forall|c: u32| #[trigger]
                post.draining.contains_key(c) <==> pre.draining.contains_key(c) || (replaced(c)
                    && pre.connections.contains_key(c))
            &&& forall|c: u32| #[trigger]
                post.draining.contains_key(c) ==> post.draining[c] == (if replaced(c)
                    && pre.connections.contains_key(c) {
                    now
                } else {
                    pre.draining[c]
                })
            &&& forall|a: PeerAddr|
                a != addr && #[trigger] post.routes.contains_key(a) ==> pre.routes.contains_key(a)
                    && post.routes[a] == pre.routes[a]
            &&& forall|a: PeerAddr|
                a != addr && pre.routes.contains_key(a) && !replaced(pre.routes[a]) ==> #[trigger]
                    post.routes.contains_key(a)
            &&& post.drain_timeout == pre.drain_timeout
        }),
{
    let pre = old(first)@;
    let post = final(first)@;
    let mid = choose|mid: RouterState<S>|
        {
            &&& if pre.routes.contains_key(addr) && pre.routes[addr] != cid {
                pre.removed(pre.routes[addr], now, mid)
            } else {
                mid == pre
            }
            &&& post == (#[trigger] mid.with_route(cid, addr, ConnectionMeta { sender }))
        };
    assert(post.connections == mid.connections.insert(cid, ConnectionMeta { sender }));
}

/// A registered connection is found with its endpoint, and the others are found
/// as before, but for one that gave way.
pub proof fn law_actor_finds_what_was_registered<S>(
    first: &mut TransportSocketActor<S>,
    cid: u32,
    addr: PeerAddr,
    sender: S,
    now: u64,
    before: TransportSocketActor<S>,
    after: TransportSocketActor<S>,
    other: u32,
    was: Option<&ConnectionMeta<S>>,
    found: Option<&ConnectionMeta<S>>,
)
    requires
        call_ensures(TransportSocketActor::<S>::register_connection, (first, cid, addr, sender, now), ()),
        before == *old(first),
        after == *final(first),
        call_ensures(TransportSocketActor::<S>::connection, (&before, other), was),
        call_ensures(TransportSocketActor::<S>::connection, (&after, other), found),
    ensures
        other == cid ==> found == Some(&ConnectionMeta { sender }),
        other != cid && !(before@.routes.contains_key(addr) && before@.routes[addr] == other)
            ==> found == was,
{
}

/// A removed connection is found no more, and all others are found as before.
pub proof fn law_actor_forgets_what_was_removed<S>(
    first: &mut TransportSocketActor<S>,
    cid: u32,
    now: u64,
    action: SocketAction,
    before: TransportSocketActor<S>,
    after: TransportSocketActor<S>,
    other: u32,
    was: Option<&ConnectionMeta<S>>,
    found: Option<&ConnectionMeta<S>>,
)
    requires
        call_ensures(TransportSocketActor::<S>::handle_actor_command, (first, SocketActorCommand::RemoveConnection { cid }, now), action),
        before == *old(first),
        after == *final(first),
        call_ensures(TransportSocketActor::<S>::connection, (&before, other), was),
        call_ensures(TransportSocketActor::<S>::connection, (&after, other), found),
    ensures
        other == cid ==> found is None,
        other != cid ==> found == was,
{
}

/// A connection that the listener does not take is removed: doing so
/// ends that connection alone, and lets its identifier drain from now on; where
/// there is no such connection, nothing changes. No frame reaches it any more.
pub proof fn law_actor_refusal_ends_one_connection<S>(
    first: &mut TransportSocketActor<S>,
    cid: u32,
    now: u64,
    second: &mut TransportSocketActor<S>,
    frame: Frame,
    remote_addr: PeerAddr,
    step: Dispatch,
)
    requires
        call_ensures(TransportSocketActor::<S>::connection_offered, (first, cid, false, now), ()),
        old(second)@ == final(first)@,
        call_ensures(TransportSocketActor::<S>::dispatch_frame, (second, frame, remote_addr), step),
    ensures
        ({
            let pre = old(first)@;
            let post = final(first)@;
            let there = pre.connections.contains_key(cid);
            &&& !post.connections.contains_key(cid)
            &&& forall|c: u32|
                c != cid ==> #[trigger] post.connections.contains_key(c)
                    == pre.connections.contains_key(c) && (pre.connections.contains_key(c)
                    ==> post.connections[c] == pre.connections[c])
            &&& there ==> post.draining.contains_key(cid) && post.draining[cid] == now
            &&& forall|c: u32|
                (c != cid || !there) ==> #[trigger] post.draining.contains_key(c)
                    == pre.draining.contains_key(c) && (pre.draining.contains_key(c)
                    ==> post.draining[c] == pre.draining[c])
            &&& !there ==> final(first)@ == old(first)@
            &&& forall|a: PeerAddr| #[trigger]
                post.routes.contains_key(a) ==> pre.routes.contains_key(a) && post.routes[a]
                    == pre.routes[a]
            &&& forall|a: PeerAddr|
                pre.routes.contains_key(a) && pre.routes[a] != cid ==> #[trigger]
                    post.routes.contains_key(a)
        }),
        step matches Dispatch::Deliver { cid: to, .. } ==> to != cid,
{
}

/// A connection whose endpoint does not take a frame is removed: doing so
/// ends that connection alone, and lets its identifier drain from now on; where
/// there is no such connection, nothing changes. No frame reaches it any more.
pub proof fn law_actor_failed_delivery_ends_one_connection<S>(
    first: &mut TransportSocketActor<S>,
    cid: u32,
    now: u64,
    result: RoutingResult,
    second: &mut TransportSocketActor<S>,
    frame: Frame,
    remote_addr: PeerAddr,
    step: Dispatch,
)
    requires
        call_ensures(TransportSocketActor::<S>::complete_dispatch, (first, cid, false, now), result),
        old(second)@ == final(first)@,
        call_ensures(TransportSocketActor::<S>::dispatch_frame, (second, frame, remote_addr), step),
    ensures
        result is ConnectionNotFound,
        ({
            let pre = old(first)@;
            let post = final(first)@;
            let there = pre.connections.contains_key(cid);
            &&& !post.connections.contains_key(cid)
            &&& forall|c: u32|
                c != cid ==> #[trigger] post.connections.contains_key(c)
                    == pre.connections.contains_key(c) && (pre.connections.contains_key(c)
                    ==> post.connections[c] == pre.connections[c])
            &&& there ==> post.draining.contains_key(cid) && post.draining[cid] == now
            &&& forall|c: u32|
                (c != cid || !there) ==> #[trigger] post.draining.contains_key(c)
                    == pre.draining.contains_key(c) && (pre.draining.contains_key(c)
                    ==> post.draining[c] == pre.draining[c])
            &&& !there ==> final(first)@ == old(first)@
            &&& forall|a: PeerAddr| #[trigger]
                post.routes.contains_key(a) ==> pre.routes.contains_key(a) && post.routes[a]
                    == pre.routes[a]
            &&& forall|a: PeerAddr|
                pre.routes.contains_key(a) && pre.routes[a] != cid ==> #[trigger]
                    post.routes.contains_key(a)
        }),
        step matches Dispatch::Deliver { cid: to, .. } ==> to != cid,
{
}

/// The command to remove a connection
/// ends that connection alone, and lets its identifier drain from now on; where
/// there is no such connection, nothing changes. No frame reaches it any more.
pub proof fn law_actor_removal_command_ends_one_connection<S>(
    first: &mut TransportSocketActor<S>,
    cid: u32,
    now: u64,
    action: SocketAction,
    second: &mut TransportSocketActor<S>,
    frame: Frame,
    remote_addr: PeerAddr,
    step: Dispatch,
)
    requires
        call_ensures(TransportSocketActor::<S>::handle_actor_command, (first, SocketActorCommand::RemoveConnection { cid }, now), action),
        old(second)@ == final(first)@,
        call_ensures(TransportSocketActor::<S>::dispatch_frame, (second, frame, remote_addr), step),
    ensures
        action is Nothing,
        ({
            let pre = old(first)@;
            let post = final(first)@;
            let there = pre.connections.contains_key(cid);
            &&& !post.connections.contains_key(cid)
            &&& forall|c: u32|
                c != cid ==> #[trigger] post.connections.contains_key(c)
                    == pre.connections.contains_key(c) && (pre.connections.contains_key(c)
                    ==> post.connections[c] == pre.connections[c])
            &&& there ==> post.draining.contains_key(cid) && post.draining[cid] == now
            &&& forall|c: u32|
                (c != cid || !there) ==> #[trigger] post.draining.contains_key(c)
                    == pre.draining.contains_key(c) && (pre.draining.contains_key(c)
                    ==> post.draining[c] == pre.draining[c])
            &&& !there ==> final(first)@ == old(first)@
            &&& forall|a: PeerAddr| #[trigger]
                post.routes.contains_key(a) ==> pre.routes.contains_key(a) && post.routes[a]
                    == pre.routes[a]
            &&& forall|a: PeerAddr|
                pre.routes.contains_key(a) && pre.routes[a] != cid ==> #[trigger]
                    post.routes.contains_key(a)
        }),
        step matches Dispatch::Deliver { cid: to, .. } ==> to != cid,
{
}

/// A frame that was taken changes nothing.
pub proof fn law_actor_delivered_frame_changes_nothing<S>(
    actor: &mut TransportSocketActor<S>,
    cid: u32,
    now: u64,
    result: RoutingResult,
)
    requires
        call_ensures(TransportSocketActor::<S>::complete_dispatch, (actor, cid, true, now), result),
    ensures
        final(actor)@ == old(actor)@,
        result is Dispatched,
{
}

/// A connection that the listener takes stays as it is.
pub proof fn law_actor_accepted_connection_stays<S>(
    actor: &mut TransportSocketActor<S>,
    local_cid: u32,
    now: u64,
)
    requires
        call_ensures(TransportSocketActor::<S>::connection_offered, (actor, local_cid, true, now), ()),
    ensures
        final(actor)@ == old(actor)@,
{
}

/// The command to change the address of a connection
/// lets the new address lead to it, and changes neither a connection nor the way
/// of any address that belongs to another one. Where one address belonged to the
/// connection before, that one no longer leads to it. A frame that names no
/// active connection and comes from the new address then goes to an active `cid`.
pub proof fn law_actor_address_command_moves_the_connection<S>(
    first: &mut TransportSocketActor<S>,
    cid: u32,
    new_addr: PeerAddr,
    old_addr: PeerAddr,
    now: u64,
    action: SocketAction,
    second: &mut TransportSocketActor<S>,
    frame: Frame,
    named: u32,
    remote_addr: PeerAddr,
    step: Dispatch,
)
    requires
        call_ensures(TransportSocketActor::<S>::handle_actor_command, (first, SocketActorCommand::UpdateAddr { cid, new_addr }, now), action),
        old(second)@ == final(first)@,
        named == (match frame {
            Frame::Syn { header } => header.destination_cid,
            Frame::SynAck { header } => header.destination_cid,
            Frame::Push { header, .. } => header.connection_id,
            Frame::Ack { header, .. } => header.connection_id,
        }),
        named == 0 || !old(first)@.connections.contains_key(named),
        call_ensures(TransportSocketActor::<S>::dispatch_frame, (second, frame, remote_addr), step),
    ensures
        action is Nothing,
        ({
            let pre = old(first)@;
            let post = final(first)@;
            let alone = forall|a: PeerAddr| #[trigger]
                pre.routes.contains_key(a) && pre.routes[a] == cid ==> a == old_addr;
            &&& post.routes.contains_key(new_addr) && post.routes[new_addr] == cid
            &&& alone && old_addr != new_addr ==> !post.routes.contains_key(old_addr)
                || post.routes[old_addr] != cid
            &&& forall|a: PeerAddr|
                a != new_addr && #[trigger] post.routes.contains_key(a) ==> pre.routes.contains_key(a)
                    && post.routes[a] == pre.routes[a]
            &&& forall|a: PeerAddr|
                a != new_addr && pre.routes.contains_key(a) && pre.routes[a] != cid ==> #[trigger]
                    post.routes.contains_key(a)
            &&& post.connections == pre.connections
            &&& post.draining == pre.draining
            &&& post.drain_timeout == pre.drain_timeout
            &&& remote_addr == new_addr && pre.connections.contains_key(cid) ==> step == (
            Dispatch::Deliver { cid, frame, remote_addr })
            &&& alone && old_addr != new_addr && remote_addr == old_addr ==> !(step matches
                Dispatch::Deliver { cid: to, .. } && to == cid)
        }),
{
}

/// The clearing frees exactly the identifiers whose time is up, and touches
/// neither connections nor addresses.
pub proof fn law_actor_frees_what_has_drained<S>(actor: &mut TransportSocketActor<S>, now: u64)
    requires
        call_ensures(TransportSocketActor::<S>::handle_cleanup_tick, (actor, now), ()),
    ensures
        ({
            let pre = old(actor)@;
            let post = final(actor)@;
            let over = |start: u64|
                if now >= start {
                    now - start >= pre.drain_timeout
                } else {
                    pre.drain_timeout == 0
                };
            &&& forall|c: u32| #[trigger]
                post.draining.contains_key(c) <==> pre.draining.contains_key(c) && !over(
                    pre.draining[c],
                )
            &&& forall|c: u32| #[trigger]
                post.draining.contains_key(c) ==> post.draining[c] == pre.draining[c]
            &&& post.connections == pre.connections
            &&& post.routes == pre.routes
            &&& post.drain_timeout == pre.drain_timeout
        }),
{
}

/// An identifier is left for a new connection exactly where one is neither active
/// nor draining.
pub proof fn law_actor_knows_whether_an_identifier_is_left<S>(actor: TransportSocketActor<S>, free: bool)
    requires
        call_ensures(TransportSocketActor::<S>::has_free_connection_id, (&actor,), free),
    ensures
        !free <==> forall|c: u32|
            (#[trigger] actor@.connections.contains_key(c)) || actor@.draining.contains_key(c),
{
    if exists|c: u32|
        !((#[trigger] actor@.connections.contains_key(c)) || actor@.draining.contains_key(c)) {
        let c = choose|c: u32|
            !((#[trigger] actor@.connections.contains_key(c)) || actor@.draining.contains_key(
                c,
            ));
        assert(actor@.is_free(c));
    } else {
        assert(!actor@.has_free_cid());
    }
}

/// An attempt is accepted exactly where its first frame asks for a connection in
/// the very version that is spoken here, and any other version, lower or higher,
/// is ignored. The new connection gets an identifier that is neither active nor
/// draining, the peer's own identifier, and the data frames that came along, in
/// their order.
pub proof fn law_actor_accepts_its_own_version_alone<S>(
    actor: TransportSocketActor<S>,
    frames: Vec<Frame>,
    step: NewConnection,
)
    requires
        call_ensures(TransportSocketActor::<S>::handle_new_connection, (&actor, frames), step),
    ensures
        step is Accepted <==> frames@.len() > 0 && (frames@[0] matches Frame::Syn { header }
            && header.protocol_version == actor.spec_protocol_version()),
        step matches NewConnection::Accepted { local_cid, peer_cid, zero_rtt } ==> {
            &&& !actor@.connections.contains_key(local_cid)
            &&& !actor@.draining.contains_key(local_cid)
            &&& frames@[0] matches Frame::Syn { header } && peer_cid == header.source_cid
            &&& zero_rtt@ == frames@.skip(1).filter(|f: Frame| f is Push)
        },
{
}

/// Whether an attempt can be decided on: one in the version that is spoken here
/// needs an identifier that is neither active nor draining, and no other one does.
pub proof fn law_actor_decides_where_an_identifier_is_free<S>(
    actor: TransportSocketActor<S>,
    frames: &[Frame],
    can: bool,
)
    requires
        call_ensures(TransportSocketActor::<S>::can_handle_new_connection, (&actor, frames), can),
    ensures
        !can <==> frames@.len() > 0 && (frames@[0] matches Frame::Syn { header }
            && header.protocol_version == actor.spec_protocol_version()) && forall|c: u32|
            (#[trigger] actor@.connections.contains_key(c)) || actor@.draining.contains_key(c),
{
    if forall|c: u32|
        (#[trigger] actor@.connections.contains_key(c)) || actor@.draining.contains_key(c) {
        assert(!actor@.has_free_cid());
    } else {
        let c = choose|c: u32|
            !((#[trigger] actor@.connections.contains_key(c)) || actor@.draining.contains_key(
                c,
            ));
        assert(actor@.is_free(c));
    }
}

/// The commands that concern the socket itself leave the connections alone, and
/// say what is to be done: a new connection is started under an identifier that is
/// neither active nor draining, with the address and the data of the command.
pub proof fn law_actor_answers_commands<S>(
    actor: &mut TransportSocketActor<S>,
    command: SocketActorCommand,
    now: u64,
    action: SocketAction,
)
    requires
        call_ensures(TransportSocketActor::<S>::handle_actor_command, (actor, command, now), action),
    ensures
        command is Connect || command is Rebind || command is GetLocalAddr ==> final(actor)@ == old(
            actor)@,
        command matches SocketActorCommand::Connect { remote_addr, initial_data } ==> (
        action matches SocketAction::StartClient { local_cid, remote_addr: to, initial_data: data }
            && to == remote_addr && data == initial_data && !old(actor)@.connections.contains_key(
            local_cid,
        ) && !old(actor)@.draining.contains_key(local_cid)),
        command matches SocketActorCommand::Rebind { new_local_addr } ==> action == (
        SocketAction::Rebind { new_local_addr }),
        command is GetLocalAddr ==> action is ReportLocalAddr,
{
}

/// The first frame alone decides what a datagram is for.
pub proof fn law_first_frame_tells_what_a_datagram_is_for(frames: &[Frame], kind: DatagramKind)
    requires
        call_ensures(handshake::classify_datagram, (frames,), kind),
    ensures
        kind is Empty <==> frames@.len() == 0,
        kind is NewConnection <==> frames@.len() > 0 && frames@[0] is Syn,
        kind is ExistingConnections <==> frames@.len() > 0 && !(frames@[0] is Syn),
{
}

/// The verdict on an attempt goes by its first frame: whether it asks for a
/// connection, and whether its version is the very one that is spoken here. The
/// data frames behind it come along in their order, and no others do.
pub proof fn law_verdict_goes_by_kind_and_version(
    frames: Vec<Frame>,
    server_version: u8,
    verdict: SynVerdict,
)
    requires
        call_ensures(handshake::judge_syn, (frames, server_version), verdict),
    ensures
        verdict is NotASyn <==> frames@.len() == 0 || !(frames@[0] is Syn),
        verdict is Acceptable <==> frames@.len() > 0 && (frames@[0] matches Frame::Syn { header }
            && header.protocol_version == server_version),
        verdict matches SynVerdict::WrongVersion { client_version } ==> (
        frames@[0] matches Frame::Syn { header } && header.protocol_version == client_version
            && client_version != server_version),
        verdict matches SynVerdict::Acceptable { peer_cid, zero_rtt } ==> (
        frames@[0] matches Frame::Syn { header } && header.source_cid == peer_cid)
            && zero_rtt@ == frames@.skip(1).filter(|f: Frame| f is Push),
{
}

/// A version is accepted where it is the one that is spoken here, and an attempt
/// where its first frame asks for a connection in that version.
pub proof fn law_versions_have_to_be_equal(
    frames: &[Frame],
    client_version: u8,
    server_version: u8,
    valid: bool,
    acceptable: bool,
)
    requires
        call_ensures(
            handshake::validate_protocol_version,
            (client_version, server_version),
            valid,
        ),
        call_ensures(handshake::is_acceptable_syn, (frames, server_version), acceptable),
    ensures
        valid <==> client_version == server_version,
        acceptable <==> frames@.len() > 0 && (frames@[0] matches Frame::Syn { header }
            && header.protocol_version == server_version),
{
}

/// Exactly the data frames go to a new endpoint ahead of everything else.
pub proof fn law_only_data_frames_come_along(frames: Vec<Frame>, pushes: Vec<Frame>)
    requires
        call_ensures(handshake::handle_zero_rtt_frames, (frames,), pushes),
    ensures
        pushes@ == frames@.filter(|f: Frame| f is Push),
        forall|i: int| 0 <= i < pushes@.len() ==> (#[trigger] pushes@[i]) is Push,
        forall|i: int|
            0 <= i < frames@.len() && frames@[i] is Push ==> pushes@.contains(#[trigger] frames@[i]),
{
    broadcast use vstd::seq_lib::group_filter_ensures;

    assert forall|i: int| 0 <= i < pushes@.len() implies (#[trigger] pushes@[i]) is Push by {
        assert(pushes@.contains(pushes@[i]));
    }
}

/// The connection that a frame is addressed to stands in its header, and what kind
/// of frame it is shows in its variant.
pub proof fn law_frames_name_their_connection(frame: Frame, cid: u32, push: bool, syn: bool)
    requires
        call_ensures(Frame::destination_cid, (&frame,), cid),
        call_ensures(Frame::is_push, (&frame,), push),
        call_ensures(Frame::is_syn, (&frame,), syn),
    ensures
        cid == (match frame {
            Frame::Syn { header } => header.destination_cid,
            Frame::SynAck { header } => header.destination_cid,
            Frame::Push { header, .. } => header.connection_id,
            Frame::Ack { header, .. } => header.connection_id,
        }),
        push <==> frame is Push,
        syn <==> frame is Syn,
{
}

/// An identifier that is put into the pool at `now` is there after a clearing at
/// `later` exactly where its time is not over by then; the others go by their own
/// times, and none comes from nowhere.
pub proof fn law_pool_keeps_identifiers_for_their_time(
    first: &mut DrainingPool,
    cid: u32,
    now: u64,
    second: &mut DrainingPool,
    later: u64,
    after: DrainingPool,
    other: u32,
    found: bool,
)
    requires
        call_ensures(DrainingPool::insert, (first, cid, now), ()),
        *old(second) == *final(first),
        call_ensures(DrainingPool::cleanup, (second, later), ()),
        after == *final(second),
        call_ensures(DrainingPool::contains, (&after, &other), found),
        now <= later,
    ensures
        other == cid ==> (found <==> later - now < old(first).spec_timeout()),
        other != cid && old(first)@.contains_key(other) && old(first)@[other] <= later ==> (found
            <==> later - old(first)@[other] < old(first).spec_timeout()),
        other != cid && !old(first)@.contains_key(other) ==> !found,
        after.spec_timeout() == old(first).spec_timeout(),
{
}

/// An address leads where it was last told to, until it is taken out, and no other
/// address is touched by that.
pub proof fn law_addresses_lead_where_they_were_told(
    first: &mut AddressTable,
    addr: PeerAddr,
    cid: u32,
    second: &mut AddressTable,
    gone: PeerAddr,
    after: AddressTable,
    asked: PeerAddr,
    found: Option<u32>,
)
    requires
        call_ensures(AddressTable::insert, (first, addr, cid), ()),
        *old(second) == *final(first),
        call_ensures(AddressTable::remove, (second, gone), ()),
        after == *final(second),
        call_ensures(AddressTable::get, (&after, asked), found),
    ensures
        asked == gone ==> found is None,
        asked != gone && asked == addr ==> found == Some(cid),
        asked != gone && asked != addr ==> found == (if old(first)@.contains_key(asked) {
            Some(old(first)@[asked])
        } else {
            None
        }),
{
}

/// The address that is found for a connection leads to it, and none is found only
/// where none does.
pub proof fn law_address_of_a_connection_leads_to_it(
    table: AddressTable,
    cid: u32,
    addr: Option<PeerAddr>,
)
    requires
        call_ensures(AddressTable::find_by_cid, (&table, cid), addr),
    ensures
        addr matches Some(a) ==> table@.contains_key(a) && table@[a] == cid,
        addr is None ==> forall|a: PeerAddr| #[trigger]
            table@.contains_key(a) ==> table@[a] != cid,
{
}

/// Data for a first packet is taken exactly where the packet holds it: `frames`
/// data frames are enough for it and no fewer are, and the packet takes a byte and
/// a header for each of them and for the frame that opens the connection. What is
/// taken is the data itself.
pub proof fn law_first_packet_holds_what_fits(
    data: &[u8],
    limits: PacketLimits,
    result: Result<InitialData, Error>,
    frames: int,
)
    requires
        call_ensures(InitialData::new, (data, &limits), result),
        data@.len() > 0 ==> limits.max_payload_size > 0,
        data@.len() <= frames * limits.max_payload_size,
        frames > 0 ==> (frames - 1) * limits.max_payload_size < data@.len(),
        frames >= 0,
    ensures
        data@.len() == 0 ==> result is Ok,
        data@.len() > 0 ==> (result is Ok <==> 1 + limits.long_header_size + frames * (1
            + limits.short_header_size) + data@.len() <= limits.max_packet_size),
        result is Err ==> result->Err_0 == Error::InitialDataTooLarge,
        result matches Ok(initial) ==> initial@ == data@,
{
    if data@.len() > 0 {
        let n = data@.len() as int;
        let m = limits.max_payload_size as int;
        assert(frames >= 1) by (nonlinear_arith)
            requires
                n > 0,
                m > 0,
                n <= frames * m,
                frames >= 0,
        ;
        assert((n + m - 1) / m == frames) by (nonlinear_arith)
            requires
                m > 0,
                n <= frames * m,
                (frames - 1) * m < n,
        ;
    }
}

/// What a command for a plain socket means to a transport is its batch, as it is.
pub proof fn law_batches_pass_through_the_adapter<S>(
    command: SenderTaskCommand<S>,
    batch: Option<FrameBatch>,
)
    requires
        call_ensures(transport::adapt_command::<S>, (command,), batch),
    ensures
        command matches SenderTaskCommand::Send(sent) ==> batch == Some(sent),
        command is SwapSocket ==> batch is None,
{
}

/// A queue keeps the batches in the order in which they were offered, and goes on
/// exactly as long as batches come and fewer than sixty-four are there. Any other
/// command is handed back, unchanged, and ends the gathering.
pub proof fn law_queue_gathers_in_order<T>(
    queue: &mut SendQueue,
    polled: Option<TransportCommand<T>>,
    taken: Polled<T>,
    whole: SendQueue,
    batches: Vec<FrameBatch>,
)
    requires
        call_ensures(SendQueue::offer::<T>, (queue, polled), taken),
        whole == *final(queue),
        call_ensures(SendQueue::into_batches, (whole,), batches),
    ensures
        polled matches Some(TransportCommand::Send(batch)) ==> batches@ == old(queue)@.push(batch)
            && taken.other is None && (taken.more <==> old(queue)@.len() + 1 < 64),
        !(polled matches Some(TransportCommand::Send(_))) ==> batches@ == old(queue)@ && taken.other
            == polled && !taken.more,
{
}

/// A queue starts with the batch that it is made for, and has room for sixty-four.
pub proof fn law_queue_starts_with_one_batch(
    first: FrameBatch,
    queue: SendQueue,
    some: SendQueue,
    room: bool,
)
    requires
        call_ensures(SendQueue::new, (first,), queue),
        call_ensures(SendQueue::has_room, (&some,), room),
    ensures
        queue@ == seq![first],
        room <==> some@.len() < 64,
{
}

/// What is sent for a batch is the encoding of its frames, one behind the other in
/// their order, where `encode` writes `enc` for each; nothing is sent for a batch
/// without frames, and by a plain socket nothing without bytes.
pub proof fn law_datagrams_hold_all_frames<E: Fn(&Frame) -> Vec<u8>>(
    batch: FrameBatch,
    encode: E,
    enc: spec_fn(Frame) -> Seq<u8>,
    datagram: Option<Vec<u8>>,
    packet: Option<Vec<u8>>,
    buffer: Vec<u8>,
    all: Seq<u8>,
)
    requires
        forall|f: &Frame, part: Vec<u8>| #[trigger]
            call_ensures(encode, (f,), part) ==> part@ == enc(*f),
        all == batch.frames@.map_values(enc).flatten(),
        call_ensures(transport::datagram_for::<E>, (&batch, encode), datagram),
        call_ensures(transport::coalesce_frames::<E>, (&batch, encode), packet),
        exists|slice: &[Frame]|
            slice@ == batch.frames@ && #[trigger] call_ensures(
                transport::serialize_frames::<E>,
                (slice, encode),
                buffer,
            ),
    ensures
        buffer@ == all,
        datagram is None <==> batch.frames@.len() == 0,
        datagram matches Some(bytes) ==> bytes@ == all,
        packet is None <==> all.len() == 0,
        packet matches Some(bytes) ==> bytes@ == all,
{
    assert forall|written: Seq<u8>| #[trigger]
        transport::written_as(encode, batch.frames@, written) implies written == all by {
        let parts = choose|parts: Seq<Vec<u8>>|
            {
                &&& parts.len() == batch.frames@.len()
                &&& forall|i: int|
                    0 <= i < parts.len() ==> call_ensures(
                        encode,
                        (&batch.frames@[i],),
                        #[trigger] parts[i],
                    )
                &&& written == transport::concat(#[trigger] transport::views(parts))
            };
        assert forall|i: int| 0 <= i < parts.len() implies transport::views(parts)[i]
            == batch.frames@.map_values(enc)[i] by {
            assert(call_ensures(encode, (&batch.frames@[i],), parts[i]));
        }
        assert(transport::views(parts) =~= batch.frames@.map_values(enc));
        lemma_concat_is_flatten(transport::views(parts));
    }
    if batch.frames@.len() == 0 {
        assert(all =~= Seq::<u8>::empty()) by {
            assert(batch.frames@.map_values(enc).len() == 0);
        }
    }
}

/// One behind the other, from the back and from the front.
proof fn lemma_concat_is_flatten(parts: Seq<Seq<u8>>)
    ensures
        transport::concat(parts) == parts.flatten(),
    decreases parts.len(),
{
    if parts.len() > 0 {
        lemma_concat_is_flatten(parts.drop_last());
        assert(parts =~= parts.drop_last().push(parts.last()));
        parts.drop_last().lemma_flatten_push(parts.last());
    }
}

/// What is read from a datagram are the frames that were encoded into it, for every
/// encoding that takes at least one byte per frame and that `decode` recognises
/// wherever it stands.
pub proof fn law_what_was_encoded_is_read<D: Fn(&[u8], usize) -> Option<(Frame, usize)>>(
    decode: D,
    enc: spec_fn(Frame) -> Seq<u8>,
    buffer: &[u8],
    sent: Seq<Frame>,
    received: Vec<Frame>,
)
    requires
        buffer@ == sent.map_values(enc).flatten(),
        forall|f: Frame| (#[trigger] enc(f)).len() > 0,
        forall|pos: usize, f: Frame, got: Option<(Frame, usize)>|
            pos + (#[trigger] enc(f)).len() <= buffer@.len() && buffer@.subrange(
                pos as int,
                pos + enc(f).len(),
            ) == enc(f) && #[trigger] call_ensures(decode, (buffer, pos), got) ==> got is Some
                && (got->0).0 == f && (got->0).1 == pos + enc(f).len(),
        call_ensures(transport::deserialize_frames::<D>, (buffer, decode), received),
    ensures
        received@ == sent,
{
    lemma_concat_is_flatten(sent.map_values(enc));
    let starts = choose|starts: Seq<usize>| #[trigger]
        transport::reads_as(decode, buffer, received@, starts);
    transport::law_frames_survive_the_wire(decode, enc, buffer, sent, received@, starts);
}

/// A new router has no connections and no addresses, and goes on with the draining pool
/// that it is given.
pub proof fn law_router_starts_without_connections<S>(
    timeout: u64,
    pool: DrainingPool,
    router: FrameRouter<S>,
    version: u8,
    actor: TransportSocketActor<S>,
    size: usize,
)
    requires
        call_ensures(DrainingPool::new, (timeout,), pool),
        call_ensures(DrainingPool::len, (&pool,), size),
        call_ensures(FrameRouter::<S>::new, (pool,), router),
        call_ensures(TransportSocketActor::<S>::new, (router, version), actor),
    ensures
        size == 0,
        forall|cid: u32| !#[trigger] router@.connections.contains_key(cid),
        forall|addr: PeerAddr| !#[trigger] router@.routes.contains_key(addr),
        forall|cid: u32| !#[trigger] router@.draining.contains_key(cid),
        router@.drain_timeout == timeout,
        actor@ == router@,
        actor.spec_protocol_version() == version,
{
}

/// A router goes on with what its draining pool has, for as long as the pool says.
pub proof fn law_router_keeps_its_draining_pool<S>(pool: DrainingPool, router: FrameRouter<S>, n: usize)
    requires
        call_ensures(FrameRouter::<S>::new, (pool,), router),
        call_ensures(DrainingPool::len, (&pool,), n),
    ensures
        router@.draining == pool@,
        router@.drain_timeout == pool.spec_timeout(),
        n == router@.draining.dom().len(),
{
}

/// A new table leads no address anywhere.
pub proof fn law_address_table_starts_empty(table: AddressTable, addr: PeerAddr, found: Option<u32>)
    requires
        call_ensures(AddressTable::new, (), table),
        call_ensures(AddressTable::get, (&table, addr), found),
    ensures
        found is None,
{
}

/// A connection that a frame names is its target; for any other frame it is the
/// connection that the peer address leads to. An address that leads to a connection
/// that is gone is forgotten, and nothing else changes.
pub proof fn law_router_finds_the_target<S>(
    router: &mut FrameRouter<S>,
    cid: u32,
    addr: PeerAddr,
    target: Option<u32>,
)
    requires
        call_ensures(FrameRouter::<S>::route, (router, cid, addr), target),
    ensures
        ({
            let before = old(router)@;
            let after = final(router)@;
            let named = cid != 0 && before.connections.contains_key(cid);
            let known = before.routes.contains_key(addr) && before.connections.contains_key(
                before.routes[addr],
            );
            &&& named ==> target == Some(cid)
            &&& !named && known ==> target == Some(before.routes[addr])
            &&& !named && !known ==> target is None && !after.routes.contains_key(addr)
            &&& target is Some ==> after == before
            &&& after.connections == before.connections
            &&& after.draining == before.draining
            &&& after.drain_timeout == before.drain_timeout
            &&& forall|other: PeerAddr|
                other != addr ==> (#[trigger] after.routes.contains_key(other)
                    <==> before.routes.contains_key(other)) && after.routes[other]
                    == before.routes[other]
        }),
{
}

/// An identifier may be used while no connection has it and none that drains had it.
pub proof fn law_router_tells_which_identifiers_are_free<S>(
    router: FrameRouter<S>,
    cid: u32,
    usable: bool,
)
    requires
        call_ensures(FrameRouter::<S>::may_use_connection_id, (&router, cid), usable),
    ensures
        usable <==> !router@.connections.contains_key(cid) && !router@.draining.contains_key(cid),
{
}

/// The data that goes along with the first frame is the data that was given.
pub proof fn law_initial_data_is_kept(
    data: &[u8],
    limits: PacketLimits,
    kept: InitialData,
    bytes: Bytes,
)
    requires
        call_ensures(InitialData::new, (data, &limits), Ok::<InitialData, Error>(kept)),
        call_ensures(InitialData::into_bytes, (kept,), bytes),
    ensures
        crate::outside::bytes_contents(bytes) == data@,
{
}

/// A frame holds what it is made of.
pub proof fn law_frames_hold_what_they_are_made_of(
    version: u8,
    source: u32,
    destination: u32,
    sequence: u32,
    next: u32,
    window: u16,
    timestamp: u32,
    payload: Bytes,
    syn: Frame,
    push: Frame,
    ack: Frame,
)
    requires
        call_ensures(Frame::new_syn, (version, source, destination), syn),
        call_ensures(
            Frame::new_push,
            (destination, sequence, next, window, timestamp, payload),
            push,
        ),
        call_ensures(Frame::new_ack, (destination, next, window, payload, timestamp), ack),
    ensures
        syn matches Frame::Syn { header } && header.protocol_version == version
            && header.source_cid == source && header.destination_cid == destination,
        push matches Frame::Push { header, payload: carried } && header.connection_id
            == destination && header.sequence_number == sequence && header.recv_next_sequence
            == next && header.recv_window_size == window && header.timestamp == timestamp
            && carried == payload,
        ack matches Frame::Ack { header, payload: ranges } && header.connection_id == destination
            && header.recv_next_sequence == next && header.recv_window_size == window
            && header.timestamp == timestamp && header.sequence_number == 0 && ranges == payload,
{
}

/// An address of the fourth version has its number and its port, and nothing else.
pub proof fn law_address_holds_what_it_is_made_of(ip: u32, port: u16, addr: PeerAddr)
    requires
        call_ensures(PeerAddr::v4, (ip, port), addr),
    ensures
        !addr.v6,
        addr.ip == ip,
        addr.port == port,
        addr.flowinfo == 0,
        addr.scope_id == 0,
{
}

/// No operation changes the version that is spoken here: an actor that went through all
/// of them accepts what it accepted before.
pub proof fn law_actor_keeps_its_version<S>(
    commanded: &mut TransportSocketActor<S>,
    command: SocketActorCommand,
    now: u64,
    action: SocketAction,
    dispatched: &mut TransportSocketActor<S>,
    frame: Frame,
    addr: PeerAddr,
    step: Dispatch,
    completed: &mut TransportSocketActor<S>,
    cid: u32,
    yes: bool,
    result: RoutingResult,
    registered: &mut TransportSocketActor<S>,
    sender: S,
    offered: &mut TransportSocketActor<S>,
    cleaned: &mut TransportSocketActor<S>,
)
    requires
        call_ensures(
            TransportSocketActor::<S>::handle_actor_command,
            (commanded, command, now),
            action,
        ),
        *old(dispatched) == *final(commanded),
        call_ensures(TransportSocketActor::<S>::dispatch_frame, (dispatched, frame, addr), step),
        *old(completed) == *final(dispatched),
        call_ensures(
            TransportSocketActor::<S>::complete_dispatch,
            (completed, cid, yes, now),
            result,
        ),
        *old(registered) == *final(completed),
        call_ensures(
            TransportSocketActor::<S>::register_connection,
            (registered, cid, addr, sender, now),
            (),
        ),
        *old(offered) == *final(registered),
        call_ensures(TransportSocketActor::<S>::connection_offered, (offered, cid, yes, now), ()),
        *old(cleaned) == *final(offered),
        call_ensures(TransportSocketActor::<S>::handle_cleanup_tick, (cleaned, now), ()),
    ensures
        final(cleaned).spec_protocol_version() == old(commanded).spec_protocol_version(),
{
}

} // verus!
