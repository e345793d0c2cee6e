//! A socket actor over the plain frame router: it owns the connections of a
//! socket and decides on commands and datagrams. The task around it owns the
//! transport and the channels, and carries the decisions out.

use vstd::prelude::*;

use crate::packet::{Frame, PeerAddr};
use crate::socket::command::{SocketAction, SocketActorCommand};
use crate::socket::handshake::{is_acceptable_syn, judge_syn, SynVerdict};
use crate::socket::routing::{ConnectionMeta, Dispatch, FrameRouter, RouterState, RoutingResult};

verus! {

/// The next step for a connection attempt.
#[derive(Debug)]
pub enum NewConnection {
    /// The attempt comes to nothing.
    Ignored,
    /// Start an endpoint for the peer's `peer_cid` under `local_cid`, hand it
    /// the `zero_rtt` frames, register it, and offer the connection to the listener.
    Accepted { local_cid: u32, peer_cid: u32, zero_rtt: Vec<Frame> },
}

/// Whether `step` is the right answer to the frames of a connection attempt.
pub open spec fn answers_attempt<S>(
    state: RouterState<S>,
    frames: Seq<Frame>,
    version: u8,
    step: NewConnection,
) -> bool {
    if crate::socket::handshake::acceptable_syn(frames, version) {
        match step {
            NewConnection::Accepted { local_cid, peer_cid, zero_rtt } => {
                &&& state.is_free(local_cid)
                &&& peer_cid == frames[0]->Syn_header.source_cid
                &&& zero_rtt@ == crate::socket::handshake::push_frames(frames.skip(1))
            },
            NewConnection::Ignored => false,
        }
    } else {
        step is Ignored
    }
}

/// What a command changes in the routing state.
pub open spec fn applies_command<S>(
    pre: RouterState<S>,
    command: SocketActorCommand,
    now: u64,
    post: RouterState<S>,
) -> bool {
    match command {
        SocketActorCommand::UpdateAddr { cid, new_addr } => exists|mid: Map<PeerAddr, u32>|
            crate::socket::routing::unrouted(pre.routes, cid, mid) && post == (RouterState {
                routes: #[trigger] mid.insert(new_addr, cid),
                ..pre
            }),
        SocketActorCommand::RemoveConnection { cid } => pre.removed(cid, now, post),
        _ => post == pre,
    }
}

/// What a command leaves to do.
pub open spec fn answers_command<S>(
    pre: RouterState<S>,
    command: SocketActorCommand,
    action: SocketAction,
) -> bool {
    match command {
        SocketActorCommand::Connect { remote_addr, initial_data } => match action {
            SocketAction::StartClient { local_cid, remote_addr: to, initial_data: data } => {
                &&& pre.is_free(local_cid)
                &&& to == remote_addr
                &&& data == initial_data
            },
            _ => false,
        },
        SocketActorCommand::Rebind { new_local_addr } => action == (SocketAction::Rebind {
            new_local_addr,
        }),
        SocketActorCommand::UpdateAddr { .. } => action is Nothing,
        SocketActorCommand::RemoveConnection { .. } => action is Nothing,
        SocketActorCommand::GetLocalAddr => action is ReportLocalAddr,
    }
}

/// Owns the connections of a socket.
#[derive(Debug)]
pub struct TransportSocketActor<S> {
    frame_router: FrameRouter<S>,
    protocol_version: u8,
}

impl<S> View for TransportSocketActor<S> {
    type V = RouterState<S>;

    closed spec fn view(&self) -> RouterState<S> {
        self.frame_router@
    }
}

impl<S> TransportSocketActor<S> {
    pub closed spec fn wf(&self) -> bool {
        self.frame_router.wf()
    }

    pub closed spec fn spec_protocol_version(&self) -> u8 {
        self.protocol_version
    }

    pub fn new(frame_router: FrameRouter<S>, protocol_version: u8) -> (actor: Self)
        requires
            frame_router.wf(),
        ensures
            actor.wf(),
            actor@ == frame_router@,
            actor.spec_protocol_version() == protocol_version,
    {
        TransportSocketActor { frame_router, protocol_version }
    }

    /// Whether some identifier is left for a new connection.
    pub fn has_free_connection_id(&self) -> (free: bool)
        ensures
            free == self@.has_free_cid(),
    {
        self.frame_router.has_free_connection_id()
    }

    /// Decides on a command. An identifier for a new connection is drawn here;
    /// the connection itself is registered once its endpoint exists.
    pub fn handle_actor_command(&mut self, command: SocketActorCommand, now: u64) -> (action:
        SocketAction)
        requires
            old(self).wf(),
            command is Connect ==> old(self)@.has_free_cid(),
        ensures
            final(self).wf(),
            final(self).spec_protocol_version() == old(self).spec_protocol_version(),
            applies_command(old(self)@, command, now, final(self)@),
            answers_command(old(self)@, command, action),
    {
        match command {
            SocketActorCommand::Connect { remote_addr, initial_data } => {
                let local_cid = self.frame_router.generate_unique_connection_id();
                SocketAction::StartClient { local_cid, remote_addr, initial_data }
            },
            SocketActorCommand::Rebind { new_local_addr } => SocketAction::Rebind {
                new_local_addr,
            },
            SocketActorCommand::UpdateAddr { cid, new_addr } => {
                self.frame_router.update_connection_address(cid, new_addr);
                SocketAction::Nothing
            },
            SocketActorCommand::RemoveConnection { cid } => {
                self.frame_router.remove_connection_by_cid(cid, now);
                SocketAction::Nothing
            },
            SocketActorCommand::GetLocalAddr => SocketAction::ReportLocalAddr,
        }
    }

    /// Finds the connection for a frame.
    pub fn dispatch_frame(&mut self, frame: Frame, remote_addr: PeerAddr) -> (step: Dispatch)
        requires
            old(self).wf(),
        ensures
            final(self).wf(),
            final(self).spec_protocol_version() == old(self).spec_protocol_version(),
            match old(self)@.target(frame.spec_destination_cid(), remote_addr) {
                Some(cid) => step == (Dispatch::Deliver { cid, frame, remote_addr }) && final(self)@
                    == old(self)@,
                None => {
                    &&& final(self)@ == (RouterState {
                        routes: old(self)@.routes.remove(remote_addr),
                        ..old(self)@
                    })
                    &&& step == Dispatch::Done(
                        if old(self)@.draining.contains_key(frame.spec_destination_cid()) {
                            RoutingResult::ConnectionDraining
                        } else {
                            RoutingResult::ConnectionNotFound
                        },
                    )
                },
            },
    {
        self.frame_router.dispatch_frame(frame, remote_addr)
    }

    /// Takes note of whether the endpoint of `cid` took a frame.
    pub fn complete_dispatch(&mut self, cid: u32, delivered: bool, now: u64) -> (result:
        RoutingResult)
        requires
            old(self).wf(),
        ensures
            final(self).wf(),
            final(self).spec_protocol_version() == old(self).spec_protocol_version(),
            delivered ==> result is Dispatched && final(self)@ == old(self)@,
            !delivered ==> result is ConnectionNotFound && old(self)@.removed(cid, now, final(self)@),
    {
        self.frame_router.complete_dispatch(cid, delivered, now)
    }

    /// Whether a datagram that asks for a new connection can be decided on: one that
    /// is acceptable needs a free identifier.
    pub fn can_handle_new_connection(&self, frames: &[Frame]) -> (can: bool)
        ensures
            can == (crate::socket::handshake::acceptable_syn(
                frames@,
                self.spec_protocol_version(),
            ) ==> self@.has_free_cid()),
    {
        !is_acceptable_syn(frames, self.protocol_version) || self.has_free_connection_id()
    }

    /// Decides on a datagram that asks for a new connection. Nothing changes
    /// before the endpoint exists.
    pub fn handle_new_connection(&self, frames: Vec<Frame>) -> (step: NewConnection)
        requires
            crate::socket::handshake::acceptable_syn(frames@, self.spec_protocol_version())
                ==> self@.has_free_cid(),
        ensures
            answers_attempt(self@, frames@, self.spec_protocol_version(), step),
    {
        match judge_syn(frames, self.protocol_version) {
            SynVerdict::Acceptable { peer_cid, zero_rtt } => NewConnection::Accepted {
                local_cid: self.frame_router.generate_unique_connection_id(),
                peer_cid,
                zero_rtt,
            },
            _ => NewConnection::Ignored,
        }
    }

    /// Registers a connection whose endpoint exists.
    pub fn register_connection(&mut self, cid: u32, remote_addr: PeerAddr, sender: S, now: u64)
        requires
            old(self).wf(),
        ensures
            final(self).wf(),
            final(self).spec_protocol_version() == old(self).spec_protocol_version(),
            old(self)@.registered(cid, remote_addr, ConnectionMeta { sender }, now, final(self)@),
    {
        self.frame_router.register_connection(cid, remote_addr, ConnectionMeta { sender }, now)
    }

    /// Takes note of whether the listener took the new connection `local_cid`.
    /// One that it did not take is removed again.
    pub fn connection_offered(&mut self, local_cid: u32, accepted: bool, now: u64)
        requires
            old(self).wf(),
        ensures
            final(self).wf(),
            final(self).spec_protocol_version() == old(self).spec_protocol_version(),
            accepted ==> final(self)@ == old(self)@,
            !accepted ==> old(self)@.removed(local_cid, now, final(self)@),
    {
        if !accepted {
            self.frame_router.remove_connection_by_cid(local_cid, now);
        }
    }

    /// Frees the identifiers that have drained long enough at `now`.
    pub fn handle_cleanup_tick(&mut self, now: u64)
        requires
            old(self).wf(),
        ensures
            final(self).wf(),
            final(self).spec_protocol_version() == old(self).spec_protocol_version(),
            final(self)@ == (RouterState {
                draining: crate::socket::draining::still_draining(
                    old(self)@.draining,
                    old(self)@.drain_timeout,
                    now,
                ),
                ..old(self)@
            }),
    {
        self.frame_router.cleanup_draining_pool(now);
    }

    /// The endpoint of an active connection.
    pub fn connection(&self, cid: u32) -> (meta: Option<&ConnectionMeta<S>>)
        ensures
            meta == (if self@.connections.contains_key(cid) {
                Some(&self@.connections[cid])
            } else {
                None
            }),
    {
        self.frame_router.connection(cid)
    }
}

/// A connection that the listener does not take leaves no trace but a draining
/// identifier: it gets no frames, and all other connections are as before.
pub proof fn law_refused_connection_is_undone<S>(
    pre: RouterState<S>,
    registered: RouterState<S>,
    post: RouterState<S>,
    cid: u32,
    addr: PeerAddr,
    meta: ConnectionMeta<S>,
    now: u64,
    other: u32,
    from: PeerAddr,
)
    requires
        pre.is_free(cid),
        pre.registered(cid, addr, meta, now, registered),
        registered.removed(cid, now, post),
        !pre.routes.contains_key(addr),
        pre.routes.values().all(|c: u32| c != cid),
    ensures
        post.connections == pre.connections,
        post.routes == pre.routes,
        post.draining == pre.draining.insert(cid, now),
        post.target(other, from) == pre.target(other, from),
{
    assert(registered == pre.with_route(cid, addr, meta));
    assert forall|a: PeerAddr| #[trigger]
        registered.routes.contains_key(a) && registered.routes[a] == cid implies a == addr by {
        if a != addr {
            assert(pre.routes.contains_key(a));
            assert(pre.routes.values().contains(cid));
        }
    }
    assert(registered.routes.contains_key(addr));
    assert(post.routes =~= pre.routes);
    assert(post.connections =~= pre.connections);
}

} // verus!
