//! Routing with a cache for frames that arrive before their connection.
//!
//! Data frames that overtake the frame that opens their connection are kept
//! and handed out when the connection is registered. They are filed under the
//! connection identifier that they name. Frames that name none, which a peer
//! sends along with its first frame, are filed under a digest of the peer's
//! address instead.

use std::collections::hash_map::DefaultHasher;
use std::collections::HashMap;
use std::hash::Hasher;
use vstd::prelude::*;
use vstd::std_specs::hash::*;

use crate::collections::map_keys;
use crate::packet::{Frame, PeerAddr};
use crate::socket::draining::DrainingPool;
use crate::socket::routing::{
    ConnectionMeta, Dispatch, FrameRouter as ConnectionRouter, RouterState, RoutingResult,
};

verus! {

broadcast use vstd::std_specs::hash::group_hash_axioms;

/// A frame that came before its connection.
#[derive(Debug, PartialEq, Eq)]
pub struct PendingFrame {
    pub frame: Frame,
    pub remote_addr: PeerAddr,
    pub arrival_time: u64,
}

/// The bytes that stand for an address in its digest.
pub open spec fn addr_bytes(addr: PeerAddr) -> Seq<u8> {
    vstd::bytes::spec_u128_to_le_bytes(addr.ip) + vstd::bytes::spec_u16_to_le_bytes(addr.port)
        + vstd::bytes::spec_u32_to_le_bytes(addr.flowinfo) + vstd::bytes::spec_u32_to_le_bytes(
        addr.scope_id,
    ) + seq![
        if addr.v6 {
            1u8
        } else {
            0u8
        },
    ]
}

/// The key under which a frame for `cid` from `addr` is filed.
pub open spec fn cache_key(cid: u32, addr: PeerAddr) -> u64 {
    if cid != 0 {
        cid as u64
    } else {
        DefaultHasher::spec_finish(seq![addr_bytes(addr)]) | (1u64 << 63)
    }
}

/// Keys of identifiers and keys of addresses never meet.
pub proof fn law_cache_keys_apart(cid: u32, addr: PeerAddr, other: PeerAddr)
    requires
        cid != 0,
    ensures
        cache_key(cid, addr) != cache_key(0, other),
{
    let digest = DefaultHasher::spec_finish(seq![addr_bytes(other)]);
    assert(digest | (1u64 << 63) >= 0x8000_0000_0000_0000) by (bit_vector);
}

/// The frames that stay filed when those of `addr` are sent to its connection:
/// the frames of other peers, in their order, however many of its own the
/// endpoint takes.
pub open spec fn kept_frames(frames: Seq<PendingFrame>, addr: PeerAddr) -> Seq<PendingFrame> {
    frames.filter(|p: PendingFrame| p.remote_addr != addr)
}

/// The frames of `addr`.
pub open spec fn frames_from(frames: Seq<PendingFrame>, addr: PeerAddr) -> Seq<PendingFrame> {
    frames.filter(|p: PendingFrame| p.remote_addr == addr)
}

/// The frames that are younger than `max_age` at `now`.
pub open spec fn fresh_frames(frames: Seq<PendingFrame>, max_age: u64, now: u64) -> Seq<
    PendingFrame,
> {
    frames.filter(
        |p: PendingFrame| crate::socket::draining::elapsed(p.arrival_time, now) < max_age,
    )
}

/// Frames by key, in the order of their arrival, with `p` filed under `key` too.
pub open spec fn filed(
    pending: Map<u64, Seq<PendingFrame>>,
    key: u64,
    frames: Seq<PendingFrame>,
) -> Map<u64, Seq<PendingFrame>> {
    if frames.len() == 0 {
        pending
    } else if pending.contains_key(key) {
        pending.insert(key, pending[key] + frames)
    } else {
        pending.insert(key, frames)
    }
}

/// What is filed under `key`, as a list of at most one batch.
pub open spec fn batch_under(pending: Map<u64, Seq<PendingFrame>>, key: u64) -> Seq<
    (u64, Seq<PendingFrame>),
> {
    if pending.contains_key(key) {
        seq![(key, pending[key])]
    } else {
        Seq::empty()
    }
}

/// Everything that may be waiting for the connection `cid` of `addr`: first the
/// frames that name the connection, then those that name none.
pub open spec fn waiting_for(
    pending: Map<u64, Seq<PendingFrame>>,
    cid: u32,
    addr: PeerAddr,
) -> Seq<(u64, Seq<PendingFrame>)> {
    if cid != 0 {
        batch_under(pending, cid as u64) + batch_under(pending, cache_key(0, addr))
    } else {
        batch_under(pending, cache_key(0, addr))
    }
}

/// The frames that are left when [`waiting_for`] is taken out.
pub open spec fn without_waiting(
    pending: Map<u64, Seq<PendingFrame>>,
    cid: u32,
    addr: PeerAddr,
) -> Map<u64, Seq<PendingFrame>> {
    if cid != 0 {
        pending.remove(cid as u64).remove(cache_key(0, addr))
    } else {
        pending.remove(cache_key(0, addr))
    }
}

/// The frames that are left when those of `max_age` and older are dropped.
pub open spec fn without_expired(
    pending: Map<u64, Seq<PendingFrame>>,
    max_age: u64,
    now: u64,
) -> Map<u64, Seq<PendingFrame>> {
    Map::new(
        |key: u64|
            pending.contains_key(key) && fresh_frames(pending[key], max_age, now).len() > 0,
        |key: u64| fresh_frames(pending[key], max_age, now),
    )
}

/// Frames taken out of the cache on behalf of a connection.
#[derive(Debug)]
pub struct ForwardBatch {
    pub key: u64,
    pub frames: Vec<PendingFrame>,
}

impl View for ForwardBatch {
    type V = (u64, Seq<PendingFrame>);

    open spec fn view(&self) -> (u64, Seq<PendingFrame>) {
        (self.key, self.frames@)
    }
}

impl ForwardBatch {
    /// The position of the first frame at or behind `from` that came from `remote_addr`.
    pub fn next_match(&self, from: usize, remote_addr: PeerAddr) -> (found: Option<usize>)
        ensures
            match found {
                Some(i) => {
                    &&& from <= i < self.frames@.len()
                    &&& self.frames@[i as int].remote_addr == remote_addr
                    &&& forall|j: int| from <= j < i ==> self.frames@[j].remote_addr != remote_addr
                },
                None => forall|j: int|
                    from <= j < self.frames@.len() ==> self.frames@[j].remote_addr != remote_addr,
            },
    {
        let mut i: usize = from;
        while i < self.frames.len()
            invariant
                from <= i,
                forall|j: int|
                    from <= j < i && j < self.frames@.len() ==> self.frames@[j].remote_addr
                        != remote_addr,
            decreases self.frames@.len() - i,
        {
            if self.frames[i].remote_addr == remote_addr {
                return Some(i);
            }
            i = i + 1;
        }
        None
    }
}

/// The state of the router: routes, and the frames that wait for a connection.
#[verifier::ext_equal]
pub struct CachingRouterState<S> {
    pub router: RouterState<S>,
    pub pending: Map<u64, Seq<PendingFrame>>,
}

/// What becomes of `frame` and of the state: a connection takes the frame, or
/// the address leads nowhere and is forgotten. A data frame that no connection
/// takes is kept, unless it names a connection that is draining.
pub open spec fn dispatched<S>(
    pre: CachingRouterState<S>,
    frame: Frame,
    remote_addr: PeerAddr,
    now: u64,
    post: CachingRouterState<S>,
    step: Dispatch,
) -> bool {
    let cid = frame.spec_destination_cid();
    match pre.router.target(cid, remote_addr) {
        Some(target) => {
            &&& step == (Dispatch::Deliver { cid: target, frame, remote_addr })
            &&& post == pre
        },
        None => {
            &&& post.router == (RouterState {
                routes: pre.router.routes.remove(remote_addr),
                ..pre.router
            })
            &&& if pre.router.draining.contains_key(cid) {
                &&& step == Dispatch::Done(RoutingResult::ConnectionDraining)
                &&& post.pending == pre.pending
            } else if frame is Push {
                &&& step == Dispatch::Done(RoutingResult::FrameCached)
                &&& post.pending == filed(
                    pre.pending,
                    cache_key(cid, remote_addr),
                    seq![PendingFrame { frame, remote_addr, arrival_time: now }],
                )
            } else {
                &&& step == Dispatch::Done(RoutingResult::ConnectionNotFound)
                &&& post.pending == pre.pending
            }
        },
    }
}

/// A frame router that keeps early frames until their connection is registered.
#[derive(Debug)]
pub struct FrameRouter<S> {
    router: ConnectionRouter<S>,
    pending_frames: HashMap<u64, Vec<PendingFrame>>,
}

impl<S> View for FrameRouter<S> {
    type V = CachingRouterState<S>;

    closed spec fn view(&self) -> CachingRouterState<S> {
        CachingRouterState {
            router: self.router@,
            pending: self.pending_frames@.map_values(|frames: Vec<PendingFrame>| frames@),
        }
    }
}

impl<S> FrameRouter<S> {
    /// No list in the cache is empty.
    pub closed spec fn wf(&self) -> bool {
        &&& self.router.wf()
        &&& forall|key: u64| #[trigger]
            self.pending_frames@.contains_key(key) ==> self.pending_frames@[key]@.len() > 0
    }

    /// A router without connections and without early frames.
    pub fn new(draining_pool: DrainingPool) -> (router: Self)
        ensures
            router.wf(),
            router@ == (CachingRouterState {
                router: RouterState {
                    connections: Map::<u32, ConnectionMeta<S>>::empty(),
                    routes: Map::<PeerAddr, u32>::empty(),
                    draining: draining_pool@,
                    drain_timeout: draining_pool.spec_timeout(),
                },
                pending: Map::<u64, Seq<PendingFrame>>::empty(),
            }),
    {
        let router = FrameRouter {
            router: ConnectionRouter::new(draining_pool),
            pending_frames: HashMap::new(),
        };
        assert(router@.pending =~= Map::<u64, Seq<PendingFrame>>::empty());
        router
    }

    /// The key under which an early frame for `cid` from `remote_addr` is filed.
    pub fn get_cache_key(&self, cid: u32, remote_addr: PeerAddr) -> (key: u64)
        ensures
            key == cache_key(cid, remote_addr),
    {
        if cid != 0 {
            cid as u64
        } else {
            let mut bytes: Vec<u8> = vstd::bytes::u128_to_le_bytes(remote_addr.ip);
            let mut port: Vec<u8> = vstd::bytes::u16_to_le_bytes(remote_addr.port);
            let mut flowinfo: Vec<u8> = vstd::bytes::u32_to_le_bytes(remote_addr.flowinfo);
            let mut scope_id: Vec<u8> = vstd::bytes::u32_to_le_bytes(remote_addr.scope_id);
            bytes.append(&mut port);
            bytes.append(&mut flowinfo);
            bytes.append(&mut scope_id);
            bytes.push(
                if remote_addr.v6 {
                    1
                } else {
                    0
                },
            );
            let mut hasher = DefaultHasher::new();
            hasher.write(bytes.as_slice());
            assert(bytes@ == addr_bytes(remote_addr));
            assert(hasher@ == seq![addr_bytes(remote_addr)]);
            hasher.finish() | (1u64 << 63)
        }
    }

    /// The frames that are filed under `key`.
    pub fn pending(&self, key: u64) -> (frames: Option<&Vec<PendingFrame>>)
        ensures
            match frames {
                Some(list) => self@.pending.contains_key(key) && self@.pending[key] == list@,
                None => !self@.pending.contains_key(key),
            },
    {
        self.pending_frames.get(&key)
    }

    /// Files `frames` under `key`, behind what is there already.
    fn file(&mut self, key: u64, mut frames: Vec<PendingFrame>)
        requires
            old(self).wf(),
        ensures
            final(self).wf(),
            final(self)@ == (CachingRouterState {
                pending: filed(old(self)@.pending, key, frames@),
                ..old(self)@
            }),
    {
        if frames.len() == 0 {
            return;
        }
        let ghost given = frames@;
        match self.pending_frames.remove(&key) {
            Some(mut list) => {
                list.append(&mut frames);
                self.pending_frames.insert(key, list);
            },
            None => {
                self.pending_frames.insert(key, frames);
            },
        }
        assert(self@.pending =~= filed(old(self)@.pending, key, given));
    }

    /// Finds the connection for `frame`. A data frame that no connection takes
    /// is kept, unless it names a connection that is draining.
    pub fn dispatch_frame(&mut self, frame: Frame, remote_addr: PeerAddr, now: u64) -> (step:
        Dispatch)
        requires
            old(self).wf(),
        ensures
            final(self).wf(),
            dispatched(old(self)@, frame, remote_addr, now, final(self)@, step),
    {
        let cid = frame.destination_cid();
        match self.router.route(cid, remote_addr) {
            Some(target) => Dispatch::Deliver { cid: target, frame, remote_addr },
            None => {
                if self.router.is_draining(cid) {
                    Dispatch::Done(RoutingResult::ConnectionDraining)
                } else if frame.is_push() {
                    self.cache_early_frame(cid, frame, remote_addr, now);
                    Dispatch::Done(RoutingResult::FrameCached)
                } else {
                    Dispatch::Done(RoutingResult::ConnectionNotFound)
                }
            },
        }
    }

    /// Keeps a frame that came before its connection.
    pub fn cache_early_frame(&mut self, cid: u32, frame: Frame, remote_addr: PeerAddr, now: u64)
        requires
            old(self).wf(),
        ensures
            final(self).wf(),
            final(self)@ == (CachingRouterState {
                pending: filed(
                    old(self)@.pending,
                    cache_key(cid, remote_addr),
                    seq![PendingFrame { frame, remote_addr, arrival_time: now }],
                ),
                ..old(self)@
            }),
    {
        let key = self.get_cache_key(cid, remote_addr);
        let mut frames: Vec<PendingFrame> = Vec::new();
        frames.push(PendingFrame { frame, remote_addr, arrival_time: now });
        assert(frames@ == seq![PendingFrame { frame, remote_addr, arrival_time: now }]);
        self.file(key, frames);
    }

    /// Takes note of whether the endpoint of `cid` took the frame. An endpoint
    /// that did not is gone, and so is its connection.
    pub fn complete_dispatch(&mut self, cid: u32, delivered: bool, now: u64) -> (result:
        RoutingResult)
        requires
            old(self).wf(),
        ensures
            final(self).wf(),
            final(self)@.pending == old(self)@.pending,
            delivered ==> result is Dispatched && final(self)@ == old(self)@,
            !delivered ==> result is ConnectionNotFound && old(self)@.router.removed(
                cid,
                now,
                final(self)@.router,
            ),
    {
        self.router.complete_dispatch(cid, delivered, now)
    }

    /// Adds a connection, in place of an older one of the same address, and
    /// takes out the frames that may be waiting for it. Each batch is to be
    /// settled with [`FrameRouter::settle_forward`].
    pub fn register_connection(
        &mut self,
        cid: u32,
        remote_addr: PeerAddr,
        meta: ConnectionMeta<S>,
        now: u64,
    ) -> (batches: Vec<ForwardBatch>)
        requires
            old(self).wf(),
        ensures
            final(self).wf(),
            old(self)@.router.registered(cid, remote_addr, meta, now, final(self)@.router),
            final(self)@.pending == without_waiting(old(self)@.pending, cid, remote_addr),
            batches@.map_values(|b: ForwardBatch| b@) == waiting_for(
                old(self)@.pending,
                cid,
                remote_addr,
            ),
    {
        self.router.register_connection(cid, remote_addr, meta, now);
        self.forward_cached_frames(cid, remote_addr)
    }

    /// Takes out what is filed under `key` and adds it to `batches`.
    fn take_batch(&mut self, key: u64, batches: &mut Vec<ForwardBatch>)
        requires
            old(self).wf(),
        ensures
            final(self).wf(),
            final(self)@ == (CachingRouterState {
                pending: old(self)@.pending.remove(key),
                ..old(self)@
            }),
            final(batches)@.map_values(|b: ForwardBatch| b@) == old(batches)@.map_values(
                |b: ForwardBatch| b@,
            ) + batch_under(old(self)@.pending, key),
    {
        if let Some(frames) = self.pending_frames.remove(&key) {
            batches.push(ForwardBatch { key, frames });
        }
        assert(self@.pending =~= old(self)@.pending.remove(key));
    }

    /// Takes out the frames that may be waiting for the connection `cid` of
    /// `remote_addr`, where that connection is active.
    pub fn forward_cached_frames(&mut self, cid: u32, remote_addr: PeerAddr) -> (batches: Vec<
        ForwardBatch,
    >)
        requires
            old(self).wf(),
        ensures
            final(self).wf(),
            final(self)@.router == old(self)@.router,
            if old(self)@.router.connections.contains_key(cid) {
                &&& final(self)@.pending == without_waiting(old(self)@.pending, cid, remote_addr)
                &&& batches@.map_values(|b: ForwardBatch| b@) == waiting_for(
                    old(self)@.pending,
                    cid,
                    remote_addr,
                )
            } else {
                &&& final(self)@ == old(self)@
                &&& batches@.len() == 0
            },
    {
        let mut batches: Vec<ForwardBatch> = Vec::new();
        if self.router.connection_exists(cid) {
            let addr_cache_key = self.get_cache_key(0, remote_addr);
            if cid != 0 {
                proof {
                    law_cache_keys_apart(cid, remote_addr, remote_addr);
                }
                self.take_batch(cid as u64, &mut batches);
            }
            self.take_batch(addr_cache_key, &mut batches);
            assert(batches@.map_values(|b: ForwardBatch| b@) =~= waiting_for(
                old(self)@.pending,
                cid,
                remote_addr,
            ));
        }
        batches
    }

    /// Files again what is to stay of a batch whose frames of `remote_addr` were
    /// sent to its connection. A frame that the endpoint did not take is not
    /// filed again: its channel is closed.
    pub fn settle_forward(&mut self, batch: ForwardBatch, remote_addr: PeerAddr)
        requires
            old(self).wf(),
        ensures
            final(self).wf(),
            final(self)@ == (CachingRouterState {
                pending: filed(
                    old(self)@.pending,
                    batch.key,
                    kept_frames(batch.frames@, remote_addr),
                ),
                ..old(self)@
            }),
    {
        let kept = keep_foreign(batch.frames, remote_addr);
        self.file(batch.key, kept);
    }

    /// Drops the early frames of `max_age` and older at the instant `now`.
    pub fn cleanup_expired_frames(&mut self, max_age: u64, now: u64)
        requires
            old(self).wf(),
        ensures
            final(self).wf(),
            final(self)@ == (CachingRouterState {
                pending: without_expired(old(self)@.pending, max_age, now),
                ..old(self)@
            }),
    {
        let keys = map_keys(&self.pending_frames);
        let ghost before = self@.pending;
        let ghost after = without_expired(before, max_age, now);
        let mut i: usize = 0;
        while i < keys.len()
            invariant
                i <= keys@.len(),
                keys@.no_duplicates(),
                keys@.to_set() == before.dom(),
                self.wf(),
                self@.router == old(self)@.router,
                after == without_expired(before, max_age, now),
                forall|key: u64| #[trigger]
                    self@.pending.contains_key(key) == (if keys@.take(i as int).to_set().contains(
                        key,
                    ) {
                        after.contains_key(key)
                    } else {
                        before.contains_key(key)
                    }),
                forall|key: u64| #[trigger]
                    self@.pending.contains_key(key) ==> self@.pending[key] == (if keys@.take(
                        i as int,
                    ).to_set().contains(key) {
                        after[key]
                    } else {
                        before[key]
                    }),
            decreases keys@.len() - i,
        {
            let key: u64 = keys[i];
            let ghost mid = self@.pending;
            proof {
                crate::collections::lemma_take_to_set(keys@, i as int);
                assert(keys@.to_set().contains(key));
                assert(!keys@.take(i as int).contains(key));
                assert(mid.contains_key(key));
            }
            if let Some(frames) = self.pending_frames.remove(&key) {
                let fresh = keep_fresh(frames, max_age, now);
                assert(frames@ == before[key]);
                if fresh.len() > 0 {
                    self.pending_frames.insert(key, fresh);
                    assert(self@.pending =~= mid.insert(key, after[key]));
                } else {
                    assert(self@.pending =~= mid.remove(key));
                }
            }
            i = i + 1;
        }
        assert(keys@.take(keys@.len() as int) == keys@);
        assert(self@.pending =~= after);
    }

    /// Lets `new_addr` lead to `cid` in place of an address that did so far.
    pub fn update_connection_address(&mut self, cid: u32, new_addr: PeerAddr)
        requires
            old(self).wf(),
        ensures
            final(self).wf(),
            final(self)@.pending == old(self)@.pending,
            exists|mid: Map<PeerAddr, u32>|
                crate::socket::routing::unrouted(old(self)@.router.routes, cid, mid)
                    && final(self)@.router == (RouterState {
                    routes: #[trigger] mid.insert(new_addr, cid),
                    ..old(self)@.router
                }),
    {
        self.router.update_connection_address(cid, new_addr);
    }

    /// Removes the connection `cid` with its address, and lets its identifier drain.
    pub fn remove_connection_by_cid(&mut self, cid: u32, now: u64)
        requires
            old(self).wf(),
        ensures
            final(self).wf(),
            final(self)@.pending == old(self)@.pending,
            old(self)@.router.removed(cid, now, final(self)@.router),
    {
        self.router.remove_connection_by_cid(cid, now);
    }

    /// Whether `cid` is an active connection.
    pub fn connection_exists(&self, cid: u32) -> (found: bool)
        ensures
            found == self@.router.connections.contains_key(cid),
    {
        self.router.connection_exists(cid)
    }

    /// Whether `cid` is draining.
    pub fn is_draining(&self, cid: u32) -> (found: bool)
        ensures
            found == self@.router.draining.contains_key(cid),
    {
        self.router.is_draining(cid)
    }

    /// Frees the identifiers that have drained long enough at `now`.
    pub fn cleanup_draining_pool(&mut self, now: u64)
        requires
            old(self).wf(),
        ensures
            final(self).wf(),
            final(self)@ == (CachingRouterState {
                router: RouterState {
                    draining: crate::socket::draining::still_draining(
                        old(self)@.router.draining,
                        old(self)@.router.drain_timeout,
                        now,
                    ),
                    ..old(self)@.router
                },
                ..old(self)@
            }),
    {
        self.router.cleanup_draining_pool(now);
    }

    /// Whether some identifier is neither active nor draining.
    pub fn has_free_connection_id(&self) -> (free: bool)
        ensures
            free == self@.router.has_free_cid(),
    {
        self.router.has_free_connection_id()
    }

    /// A random identifier for a new connection that is neither active nor draining.
    pub fn generate_unique_connection_id(&self) -> (cid: u32)
        requires
            self@.router.has_free_cid(),
        ensures
            self@.router.is_free(cid),
    {
        self.router.generate_unique_connection_id()
    }

    /// The endpoint of an active connection.
    pub fn connection(&self, cid: u32) -> (meta: Option<&ConnectionMeta<S>>)
        ensures
            meta == (if self@.router.connections.contains_key(cid) {
                Some(&self@.router.connections[cid])
            } else {
                None
            }),
    {
        self.router.connection(cid)
    }
}

/// The frames that are younger than `max_age` at `now`.
fn keep_fresh(frames: Vec<PendingFrame>, max_age: u64, now: u64) -> (fresh: Vec<PendingFrame>)
    ensures
        fresh@ == fresh_frames(frames@, max_age, now),
{
    let ghost all = frames@;
    let mut fresh: Vec<PendingFrame> = Vec::new();
    for pending in iter: frames
        invariant
            iter.seq() == all,
            fresh@ == fresh_frames(all.take(iter.index()), max_age, now),
    {
        proof {
            reveal(Seq::filter);
            assert(all.take(iter.index() + 1).drop_last() == all.take(iter.index()));
            assert(all.take(iter.index() + 1).last() == pending);
        }
        if now.saturating_sub(pending.arrival_time) < max_age {
            fresh.push(pending);
        }
    }
    assert(all.take(all.len() as int) == all);
    fresh
}

/// The frames of a batch that came from other peers than `remote_addr`.
fn keep_foreign(frames: Vec<PendingFrame>, remote_addr: PeerAddr) -> (kept: Vec<PendingFrame>)
    ensures
        kept@ == kept_frames(frames@, remote_addr),
{
    let ghost all = frames@;
    let mut kept: Vec<PendingFrame> = Vec::new();
    for pending in iter: frames
        invariant
            iter.seq() == all,
            kept@ == kept_frames(all.take(iter.index()), remote_addr),
    {
        proof {
            reveal(Seq::filter);
            assert(all.take(iter.index() + 1).drop_last() == all.take(iter.index()));
            assert(all.take(iter.index() + 1).last() == pending);
        }
        if pending.remote_addr != remote_addr {
            kept.push(pending);
        }
    }
    assert(all.take(all.len() as int) == all);
    kept
}

/// An early frame is among those that are taken out when its connection is
/// registered: by the identifier that it names, or by its peer's address where
/// it names none.
pub proof fn law_early_frame_is_forwarded(
    pending: Map<u64, Seq<PendingFrame>>,
    frame_cid: u32,
    early: PendingFrame,
    cid: u32,
)
    requires
        frame_cid == cid || frame_cid == 0,
    ensures
        ({
            let waiting = waiting_for(
                filed(pending, cache_key(frame_cid, early.remote_addr), seq![early]),
                cid,
                early.remote_addr,
            );
            exists|i: int|
                0 <= i < waiting.len() && #[trigger] waiting[i].1.contains(early) && waiting[i].0
                    == cache_key(frame_cid, early.remote_addr)
        }),
{
    let key = cache_key(frame_cid, early.remote_addr);
    let after = filed(pending, key, seq![early]);
    let waiting = waiting_for(after, cid, early.remote_addr);
    assert(after[key].contains(early)) by {
        assert(after[key].last() == early);
        assert(after[key][after[key].len() - 1] == early);
    }
    let i = if frame_cid != 0 {
        0
    } else {
        waiting.len() - 1
    };
    assert(waiting[i] == (key, after[key]));
    assert(waiting[i].1.contains(early));
}

/// No frame of another peer is lost when a batch is forwarded, and no frame of
/// the connection's own peer is handed out twice: what stays are exactly the
/// frames of other peers, and together with the peer's own they are all.
pub proof fn law_forwarding_keeps_other_peers(frames: Seq<PendingFrame>, addr: PeerAddr)
    ensures
        forall|p: PendingFrame| #[trigger]
            kept_frames(frames, addr).contains(p) <==> frames.contains(p) && p.remote_addr != addr,
        kept_frames(frames, addr).len() + frames_from(frames, addr).len() == frames.len(),
    decreases frames.len(),
{
    reveal(Seq::filter);
    if frames.len() > 0 {
        let front = frames.drop_last();
        let last = frames.last();
        law_forwarding_keeps_other_peers(front, addr);
        assert(front.push(last) =~= frames);
        assert forall|p: PendingFrame| #[trigger]
            kept_frames(frames, addr).contains(p) <==> frames.contains(p) && p.remote_addr
                != addr by {
            vstd::seq_lib::lemma_seq_contains_after_push(front, last, p);
            assert(kept_frames(front, addr).contains(p) <==> front.contains(p) && p.remote_addr
                != addr);
            if last.remote_addr != addr {
                vstd::seq_lib::lemma_seq_contains_after_push(kept_frames(front, addr), last, p);
            }
        }
    }
}

/// After expired frames are dropped, exactly the frames younger than `max_age`
/// are left.
pub proof fn law_only_fresh_frames_stay(
    pending: Map<u64, Seq<PendingFrame>>,
    max_age: u64,
    now: u64,
    key: u64,
    p: PendingFrame,
)
    requires
        pending.contains_key(key),
        pending[key].contains(p),
    ensures
        ({
            let after = without_expired(pending, max_age, now);
            after.contains_key(key) && after[key].contains(p) <==> crate::socket::draining::elapsed(
                p.arrival_time,
                now,
            ) < max_age
        }),
{
    let young = |p: PendingFrame|
        crate::socket::draining::elapsed(p.arrival_time, now) < max_age;
    broadcast use vstd::seq_lib::group_filter_ensures;

    let fresh = fresh_frames(pending[key], max_age, now);
    let i = choose|i: int| 0 <= i < pending[key].len() && pending[key][i] == p;
    if young(p) {
        assert(fresh.contains(pending[key][i]));
    }
    if fresh.contains(p) {
        let j = choose|j: int| 0 <= j < fresh.len() && fresh[j] == p;
        assert(young(fresh[j]));
    }
}

} // verus!
