//! Routing of frames to connections.
//!
//! A frame goes to the connection whose identifier it names, which keeps
//! working when the peer changes its address. Frames of a handshake that is
//! still under way name no connection; they go by the peer's address.

use std::collections::HashMap;
use vstd::prelude::*;

use crate::outside::random_u32;
use crate::packet::{Frame, PeerAddr};
use crate::socket::address_table::AddressTable;
use crate::socket::draining::DrainingPool;

verus! {

broadcast use vstd::std_specs::hash::group_hash_axioms;

/// What the router knows of a connection: how to reach its endpoint.
#[derive(Debug)]
pub struct ConnectionMeta<S> {
    pub sender: S,
}

/// What became of a frame.
#[derive(Clone, Copy, Debug, PartialEq, Eq, Structural)]
pub enum RoutingResult {
    /// The frame went to an existing connection.
    Dispatched,
    /// No connection takes the frame.
    ConnectionNotFound,
    /// The frame is for a connection that is draining.
    ConnectionDraining,
    /// The frame waits for its connection to be established.
    FrameCached,
}

/// The next step for a frame.
#[derive(Debug)]
pub enum Dispatch {
    /// Send the frame to the endpoint of `cid`, then report the outcome with
    /// `complete_dispatch`.
    Deliver { cid: u32, frame: Frame, remote_addr: PeerAddr },
    /// Nothing is left to do.
    Done(RoutingResult),
}

/// The routing state as mathematical maps.
#[verifier::ext_equal]
pub struct RouterState<S> {
    /// Active connections by local identifier.
    pub connections: Map<u32, ConnectionMeta<S>>,
    /// The connection that each peer address belongs to.
    pub routes: Map<PeerAddr, u32>,
    /// Identifiers that are draining, with the instant at which each began.
    pub draining: Map<u32, u64>,
    /// How long an identifier drains.
    pub drain_timeout: u64,
}

impl<S> RouterState<S> {
    /// The connection that a frame for `cid` from `addr` goes to.
    pub open spec fn target(self, cid: u32, addr: PeerAddr) -> Option<u32> {
        if cid != 0 && self.connections.contains_key(cid) {
            Some(cid)
        } else if self.routes.contains_key(addr) && self.connections.contains_key(
            self.routes[addr],
        ) {
            Some(self.routes[addr])
        } else {
            None
        }
    }

    /// Whether `cid` may be given to a new connection.
    pub open spec fn is_free(self, cid: u32) -> bool {
        !self.connections.contains_key(cid) && !self.draining.contains_key(cid)
    }

    /// Whether some identifier may be given to a new connection.
    pub open spec fn has_free_cid(self) -> bool {
        exists|cid: u32| self.is_free(cid)
    }

    /// At most one address belongs to `cid`.
    pub open spec fn at_most_one_route(self, cid: u32) -> bool {
        forall|a: PeerAddr, b: PeerAddr| #[trigger]
            self.routes.contains_key(a) && #[trigger] self.routes.contains_key(b) && self.routes[a]
                == cid && self.routes[b] == cid ==> a == b
    }

    /// No active connection is draining.
    pub open spec fn active_not_draining(self) -> bool {
        self.connections.dom().disjoint(self.draining.dom())
    }

    /// `post` is this state without the connection `cid`, which starts to
    /// drain at `now`; a connection that is not active changes nothing.
    pub open spec fn removed(self, cid: u32, now: u64, post: Self) -> bool {
        if self.connections.contains_key(cid) {
            &&& post.connections == self.connections.remove(cid)
            &&& post.draining == self.draining.insert(cid, now)
            &&& post.drain_timeout == self.drain_timeout
            &&& unrouted(self.routes, cid, post.routes)
        } else {
            post == self
        }
    }

    /// `post` is this state with the connection `cid` reached by `meta` and
    /// `addr`. A different connection that `addr` belonged to is removed first.
    pub open spec fn registered(
        self,
        cid: u32,
        addr: PeerAddr,
        meta: ConnectionMeta<S>,
        now: u64,
        post: Self,
    ) -> bool {
        exists|mid: Self|
            {
                &&& if self.routes.contains_key(addr) && self.routes[addr] != cid {
                    self.removed(self.routes[addr], now, mid)
                } else {
                    mid == self
                }
                &&& post == (#[trigger] mid.with_route(cid, addr, meta))
            }
    }

    /// This state with `cid` active and `addr` leading to it.
    pub open spec fn with_route(self, cid: u32, addr: PeerAddr, meta: ConnectionMeta<S>) -> Self {
        RouterState {
            connections: self.connections.insert(cid, meta),
            routes: self.routes.insert(addr, cid),
            ..self
        }
    }
}

/// `post` is `routes` without one of the addresses that belong to `cid`, or
/// `routes` itself where there is none.
pub open spec fn unrouted(
    routes: Map<PeerAddr, u32>,
    cid: u32,
    post: Map<PeerAddr, u32>,
) -> bool {
    ||| (forall|a: PeerAddr| #[trigger] routes.contains_key(a) ==> routes[a] != cid) && post
        == routes
    ||| exists|a: PeerAddr| #[trigger]
        routes.contains_key(a) && routes[a] == cid && post == routes.remove(a)
}

/// Active connections, the addresses that lead to them, and the identifiers
/// that are draining.
#[derive(Debug)]
pub struct FrameRouter<S> {
    active_connections: HashMap<u32, ConnectionMeta<S>>,
    address_routing: AddressTable,
    draining_pool: DrainingPool,
}

impl<S> View for FrameRouter<S> {
    type V = RouterState<S>;

    closed spec fn view(&self) -> RouterState<S> {
        RouterState {
            connections: self.active_connections@,
            routes: self.address_routing@,
            draining: self.draining_pool@,
            drain_timeout: self.draining_pool.spec_timeout(),
        }
    }
}

impl<S> FrameRouter<S> {
    pub closed spec fn wf(&self) -> bool {
        self.address_routing.wf()
    }

    /// A router without connections.
    pub fn new(draining_pool: DrainingPool) -> (router: Self)
        ensures
            router.wf(),
            router@ == (RouterState {
                connections: Map::<u32, ConnectionMeta<S>>::empty(),
                routes: Map::<PeerAddr, u32>::empty(),
                draining: draining_pool@,
                drain_timeout: draining_pool.spec_timeout(),
            }),
    {
        FrameRouter {
            active_connections: HashMap::new(),
            address_routing: AddressTable::new(),
            draining_pool,
        }
    }

    /// The connection for a frame that names `cid` and comes from
    /// `remote_addr`. An address that leads nowhere is forgotten.
    pub fn route(&mut self, cid: u32, remote_addr: PeerAddr) -> (target: Option<u32>)
        requires
            old(self).wf(),
        ensures
            final(self).wf(),
            target == old(self)@.target(cid, remote_addr),
            final(self)@ == (if target is Some {
                old(self)@
            } else {
                RouterState { routes: old(self)@.routes.remove(remote_addr), ..old(self)@ }
            }),
    {
        if cid != 0 {
            if self.active_connections.contains_key(&cid) {
                return Some(cid);
            }
        }
        if let Some(existing_cid) = self.address_routing.get(remote_addr) {
            if self.active_connections.contains_key(&existing_cid) {
                return Some(existing_cid);
            }
            self.address_routing.remove(remote_addr);
        } else {
            assert(self@.routes.remove(remote_addr) =~= self@.routes);
        }
        None
    }

    /// Finds the connection for `frame`. A stale address entry is dropped on
    /// the way; a frame that no connection takes is done with.
    pub fn dispatch_frame(&mut self, frame: Frame, remote_addr: PeerAddr) -> (step: Dispatch)
        requires
            old(self).wf(),
        ensures
            final(self).wf(),
            match old(self)@.target(frame.spec_destination_cid(), remote_addr) {
                Some(cid) => step == (Dispatch::Deliver { cid, frame, remote_addr }) && final(self)@
                    == old(self)@,
                None => {
                    &&& final(self)@ == (RouterState {
                        routes: old(self)@.routes.remove(remote_addr),
                        ..old(self)@
                    })
                    &&& step == Dispatch::Done(
                        if old(self)@.draining.contains_key(frame.spec_destination_cid()) {
                            RoutingResult::ConnectionDraining
                        } else {
                            RoutingResult::ConnectionNotFound
                        },
                    )
                },
            },
    {
        let cid = frame.destination_cid();
        match self.route(cid, remote_addr) {
            Some(target) => Dispatch::Deliver { cid: target, frame, remote_addr },
            None => {
                if self.draining_pool.contains(&cid) {
                    Dispatch::Done(RoutingResult::ConnectionDraining)
                } else {
                    Dispatch::Done(RoutingResult::ConnectionNotFound)
                }
            },
        }
    }

    /// Takes note of whether the endpoint of `cid` took the frame. An endpoint
    /// that did not is gone, and so is its connection.
    pub fn complete_dispatch(&mut self, cid: u32, delivered: bool, now: u64) -> (result:
        RoutingResult)
        requires
            old(self).wf(),
        ensures
            final(self).wf(),
            delivered ==> result is Dispatched && final(self)@ == old(self)@,
            !delivered ==> result is ConnectionNotFound && old(self)@.removed(cid, now, final(self)@),
    {
        if delivered {
            RoutingResult::Dispatched
        } else {
            self.remove_connection_by_cid(cid, now);
            RoutingResult::ConnectionNotFound
        }
    }

    /// Adds a connection. An older connection of the same address gives way.
    pub fn register_connection(
        &mut self,
        cid: u32,
        remote_addr: PeerAddr,
        meta: ConnectionMeta<S>,
        now: u64,
    )
        requires
            old(self).wf(),
        ensures
            final(self).wf(),
            old(self)@.registered(cid, remote_addr, meta, now, final(self)@),
    {
        if let Some(old_cid) = self.address_routing.get(remote_addr) {
            if old_cid != cid {
                self.remove_connection_by_cid(old_cid, now);
            }
        }
        let ghost mid = self@;
        self.active_connections.insert(cid, meta);
        self.address_routing.insert(remote_addr, cid);
        assert(self@ == mid.with_route(cid, remote_addr, meta));
    }

    /// Lets `new_addr` lead to `cid` in place of an address that did so far.
    pub fn update_connection_address(&mut self, cid: u32, new_addr: PeerAddr)
        requires
            old(self).wf(),
        ensures
            final(self).wf(),
            exists|mid: Map<PeerAddr, u32>|
                unrouted(old(self)@.routes, cid, mid) && final(self)@ == (RouterState {
                    routes: #[trigger] mid.insert(new_addr, cid),
                    ..old(self)@
                }),
    {
        if let Some(addr) = self.address_routing.find_by_cid(cid) {
            self.address_routing.remove(addr);
        }
        let ghost mid = self@.routes;
        assert(unrouted(old(self)@.routes, cid, mid));
        self.address_routing.insert(new_addr, cid);
        assert(self@ == (RouterState { routes: mid.insert(new_addr, cid), ..old(self)@ }));
    }

    /// Removes the connection `cid` with its address, and lets its identifier drain.
    pub fn remove_connection_by_cid(&mut self, cid: u32, now: u64)
        requires
            old(self).wf(),
        ensures
            final(self).wf(),
            old(self)@.removed(cid, now, final(self)@),
    {
        if self.active_connections.remove(&cid).is_none() {
            assert(self@.connections =~= old(self)@.connections);
            return;
        }
        if let Some(addr) = self.address_routing.find_by_cid(cid) {
            self.address_routing.remove(addr);
        }
        self.draining_pool.insert(cid, now);
    }

    /// Whether `cid` is an active connection.
    pub fn connection_exists(&self, cid: u32) -> (found: bool)
        ensures
            found == self@.connections.contains_key(cid),
    {
        self.active_connections.contains_key(&cid)
    }

    /// Whether `cid` is draining.
    pub fn is_draining(&self, cid: u32) -> (found: bool)
        ensures
            found == self@.draining.contains_key(cid),
    {
        self.draining_pool.contains(&cid)
    }

    /// Frees the identifiers that have drained long enough at `now`.
    pub fn cleanup_draining_pool(&mut self, now: u64)
        requires
            old(self).wf(),
        ensures
            final(self).wf(),
            final(self)@ == (RouterState {
                draining: crate::socket::draining::still_draining(
                    old(self)@.draining,
                    old(self)@.drain_timeout,
                    now,
                ),
                ..old(self)@
            }),
    {
        self.draining_pool.cleanup(now);
    }

    /// Whether some identifier is neither active nor draining.
    pub fn has_free_connection_id(&self) -> (free: bool)
        ensures
            free == self@.has_free_cid(),
    {
        self.first_free_connection_id().is_some()
    }

    /// An identifier that is neither active nor draining, where there is one.
    fn first_free_connection_id(&self) -> (cid: Option<u32>)
        ensures
            match cid {
                Some(c) => self@.is_free(c),
                None => !self@.has_free_cid(),
            },
    {
        let mut candidate: u32 = 0;
        loop
            invariant
                forall|c: u32| c < candidate ==> !self@.is_free(c),
            decreases u32::MAX - candidate,
        {
            if !self.connection_exists(candidate) && !self.is_draining(candidate) {
                return Some(candidate);
            }
            if candidate == u32::MAX {
                return None;
            }
            candidate = candidate + 1;
        }
    }

    /// A random identifier for a new connection that is neither active nor draining.
    pub fn generate_unique_connection_id(&self) -> (cid: u32)
        requires
            self@.has_free_cid(),
        ensures
            self@.is_free(cid),
    {
        let mut attempts: u64 = u64::MAX;
        while attempts > 0
            invariant
                self@.has_free_cid(),
            decreases attempts,
        {
            let candidate = random_u32();
            if self.may_use_connection_id(candidate) {
                return candidate;
            }
            attempts = attempts - 1;
        }
        match self.first_free_connection_id() {
            Some(cid) => cid,
            None => 0,
        }
    }

    /// Whether a new connection may have `candidate` as its identifier.
    pub fn may_use_connection_id(&self, candidate: u32) -> (usable: bool)
        ensures
            usable == self@.is_free(candidate),
    {
        !self.connection_exists(candidate) && !self.is_draining(candidate)
    }

    /// The endpoint of an active connection.
    pub fn connection(&self, cid: u32) -> (meta: Option<&ConnectionMeta<S>>)
        ensures
            meta == (if self@.connections.contains_key(cid) {
                Some(&self@.connections[cid])
            } else {
                None
            }),
    {
        self.active_connections.get(&cid)
    }
}

/// A removed connection gets no frame any more, whatever identifier a frame
/// names and wherever it comes from, and removing it again changes nothing.
pub proof fn law_removed_gets_no_frames<S>(
    pre: RouterState<S>,
    post: RouterState<S>,
    cid: u32,
    now: u64,
    frame_cid: u32,
    addr: PeerAddr,
    again: RouterState<S>,
    later: u64,
)
    requires
        pre.removed(cid, now, post),
        post.removed(cid, later, again),
    ensures
        post.target(frame_cid, addr) != Some(cid),
        again == post,
{
}

/// Removing a connection leaves every other connection reachable by its identifier.
pub proof fn law_removal_keeps_others<S>(
    pre: RouterState<S>,
    post: RouterState<S>,
    cid: u32,
    now: u64,
    other: u32,
    addr: PeerAddr,
)
    requires
        pre.removed(cid, now, post),
        other != cid,
    ensures
        pre.target(other, addr) == Some(other) ==> post.target(other, addr) == Some(other),
        post.connections.contains_key(other) == pre.connections.contains_key(other),
        pre.connections.contains_key(other) ==> post.connections[other] == pre.connections[other],
{
}

/// Where at most one address belongs to a connection, removing the connection
/// leaves no address behind and takes no other away.
pub proof fn law_removal_clears_route<S>(
    pre: RouterState<S>,
    post: RouterState<S>,
    cid: u32,
    now: u64,
)
    requires
        pre.removed(cid, now, post),
        pre.connections.contains_key(cid),
        pre.at_most_one_route(cid),
    ensures
        forall|a: PeerAddr| #[trigger]
            post.routes.contains_key(a) <==> pre.routes.contains_key(a) && pre.routes[a] != cid,
        forall|a: PeerAddr| #[trigger]
            post.routes.contains_key(a) ==> post.routes[a] == pre.routes[a],
{
}

/// A registered connection gets the frames that name it, from any address, and
/// the frames from its address that name no active connection.
pub proof fn law_registered_is_reachable<S>(
    pre: RouterState<S>,
    post: RouterState<S>,
    cid: u32,
    addr: PeerAddr,
    meta: ConnectionMeta<S>,
    now: u64,
    from: PeerAddr,
    frame_cid: u32,
)
    requires
        pre.registered(cid, addr, meta, now, post),
    ensures
        post.connections.contains_key(cid) && post.connections[cid] == meta,
        cid != 0 ==> post.target(cid, from) == Some(cid),
        !post.connections.contains_key(frame_cid) || frame_cid == 0 ==> post.target(frame_cid, addr)
            == Some(cid),
{
}

/// A new connection takes the place of the connection that its address
/// belonged to: the older one is no longer active, and it drains.
pub proof fn law_registration_replaces<S>(
    pre: RouterState<S>,
    post: RouterState<S>,
    cid: u32,
    addr: PeerAddr,
    meta: ConnectionMeta<S>,
    now: u64,
)
    requires
        pre.registered(cid, addr, meta, now, post),
        pre.routes.contains_key(addr),
        pre.routes[addr] != cid,
    ensures
        !post.connections.contains_key(pre.routes[addr]),
        pre.connections.contains_key(pre.routes[addr]) ==> post.draining.contains_key(
            pre.routes[addr],
        ) && post.draining[pre.routes[addr]] == now,
{
}

/// Removing a connection, registering one under a free identifier and clearing
/// the draining pool keep active and draining identifiers apart.
pub proof fn law_active_never_draining<S>(
    pre: RouterState<S>,
    cid: u32,
    addr: PeerAddr,
    meta: ConnectionMeta<S>,
    now: u64,
    removed: RouterState<S>,
    registered: RouterState<S>,
)
    requires
        pre.active_not_draining(),
        pre.removed(cid, now, removed),
        pre.is_free(cid) ==> pre.registered(cid, addr, meta, now, registered),
    ensures
        removed.active_not_draining(),
        pre.is_free(cid) ==> registered.active_not_draining(),
        (RouterState {
            draining: crate::socket::draining::still_draining(
                pre.draining,
                pre.drain_timeout,
                now,
            ),
            ..pre
        }).active_not_draining(),
{
    if pre.is_free(cid) {
        let mid = choose|mid: RouterState<S>|
            {
                &&& if pre.routes.contains_key(addr) && pre.routes[addr] != cid {
                    pre.removed(pre.routes[addr], now, mid)
                } else {
                    mid == pre
                }
                &&& registered == (#[trigger] mid.with_route(cid, addr, meta))
            };
        assert(mid.active_not_draining());
        assert(!mid.draining.contains_key(cid));
    }
}

/// A removed identifier may be given to a new connection once its time is up,
/// and not before.
pub proof fn law_drains_for_the_timeout<S>(
    pre: RouterState<S>,
    post: RouterState<S>,
    cid: u32,
    now: u64,
    later: u64,
)
    requires
        pre.connections.contains_key(cid),
        pre.removed(cid, now, post),
    ensures
        !post.is_free(cid),
        (RouterState {
            draining: crate::socket::draining::still_draining(
                post.draining,
                post.drain_timeout,
                later,
            ),
            ..post
        }).is_free(cid) <==> crate::socket::draining::elapsed(now, later) >= post.drain_timeout,
{
}

/// After its address changed, a connection gets the handshake frames that come
/// from the new address; where it had one address, it no longer gets those from there.
pub proof fn law_migration<S>(
    pre: RouterState<S>,
    post: RouterState<S>,
    cid: u32,
    new_addr: PeerAddr,
    mid: Map<PeerAddr, u32>,
    old_addr: PeerAddr,
)
    requires
        pre.connections.contains_key(cid),
        unrouted(pre.routes, cid, mid),
        post == (RouterState { routes: mid.insert(new_addr, cid), ..pre }),
    ensures
        post.target(0, new_addr) == Some(cid),
        pre.at_most_one_route(cid) && old_addr != new_addr ==> post.target(0, old_addr) != Some(
            cid,
        ),
{
}

} // verus!
