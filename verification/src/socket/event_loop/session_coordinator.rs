//! The session coordinator: it owns the caching frame router of a socket and
//! decides on commands, datagrams and new connections. The task around it owns
//! the transport and the channels, and carries the decisions out.

use bytes::Bytes;
use vstd::prelude::*;

use crate::error::Error;
use crate::packet::{Frame, PeerAddr};
use crate::socket::actor::NewConnection;
use crate::socket::command::{SocketAction, SocketActorCommand};
use crate::socket::event_loop::routing::{CachingRouterState, ForwardBatch, FrameRouter};
use crate::socket::handshake::{is_acceptable_syn, judge_syn, SynVerdict};
use crate::socket::routing::{ConnectionMeta, Dispatch, RouterState, RoutingResult};

verus! {

/// The time between two rounds of clearing, in nanoseconds.
pub const CLEANUP_INTERVAL: u64 = 2_000_000_000;

/// The age at which early frames are dropped, in nanoseconds.
pub const EARLY_FRAME_MAX_AGE: u64 = 5_000_000_000;

/// Owns the connections of a socket.
#[derive(Debug)]
pub struct SocketSessionCoordinator<S> {
    frame_router: FrameRouter<S>,
    protocol_version: u8,
}

impl<S> View for SocketSessionCoordinator<S> {
    type V = CachingRouterState<S>;

    closed spec fn view(&self) -> CachingRouterState<S> {
        self.frame_router@
    }
}

impl<S> SocketSessionCoordinator<S> {
    pub closed spec fn wf(&self) -> bool {
        self.frame_router.wf()
    }

    pub closed spec fn spec_protocol_version(&self) -> u8 {
        self.protocol_version
    }

    pub fn new(frame_router: FrameRouter<S>, protocol_version: u8) -> (coordinator: Self)
        requires
            frame_router.wf(),
        ensures
            coordinator.wf(),
            coordinator@ == frame_router@,
            coordinator.spec_protocol_version() == protocol_version,
    {
        SocketSessionCoordinator { frame_router, protocol_version }
    }

    /// The routing state.
    pub fn frame_router(&self) -> (router: &FrameRouter<S>)
        ensures
            router@ == self@,
            self.wf() ==> router.wf(),
    {
        &self.frame_router
    }

    /// Whether some identifier is left for a new connection.
    pub fn has_free_connection_id(&self) -> (free: bool)
        ensures
            free == self@.router.has_free_cid(),
    {
        self.frame_router.has_free_connection_id()
    }

    /// A random identifier for a new connection that is neither active nor draining.
    pub fn generate_unique_connection_id(&self) -> (cid: u32)
        requires
            self@.router.has_free_cid(),
        ensures
            self@.router.is_free(cid),
    {
        self.frame_router.generate_unique_connection_id()
    }

    /// Whether a peer that speaks `client_version` may connect.
    pub fn validate_protocol_version(&self, client_version: u8) -> (valid: bool)
        ensures
            valid == (client_version == self.spec_protocol_version()),
    {
        crate::socket::handshake::validate_protocol_version(client_version, self.protocol_version)
    }

    /// Whether a datagram that asks for a new connection can be decided on: one that
    /// is acceptable needs a free identifier.
    pub fn can_handle_new_connection(&self, frames: &[Frame]) -> (can: bool)
        ensures
            can == (crate::socket::handshake::acceptable_syn(
                frames@,
                self.spec_protocol_version(),
            ) ==> self@.router.has_free_cid()),
    {
        !is_acceptable_syn(frames, self.protocol_version) || self.has_free_connection_id()
    }

    /// Decides on a datagram that asks for a new connection. Nothing changes
    /// before the endpoint exists.
    pub fn handle_new_connection(&self, frames: Vec<Frame>) -> (step: NewConnection)
        requires
            crate::socket::handshake::acceptable_syn(frames@, self.spec_protocol_version())
                ==> self@.router.has_free_cid(),
        ensures
            crate::socket::actor::answers_attempt(
                self@.router,
                frames@,
                self.spec_protocol_version(),
                step,
            ),
    {
        match judge_syn(frames, self.protocol_version) {
            SynVerdict::Acceptable { peer_cid, zero_rtt } => NewConnection::Accepted {
                local_cid: self.generate_unique_connection_id(),
                peer_cid,
                zero_rtt,
            },
            _ => NewConnection::Ignored,
        }
    }

    /// The identifier and the first data for an outbound connection. Nothing
    /// changes before the endpoint exists.
    pub fn create_client_connection(
        &self,
        remote_addr: PeerAddr,
        initial_data: Option<Bytes>,
    ) -> (action: SocketAction)
        requires
            self@.router.has_free_cid(),
        ensures
            match action {
                SocketAction::StartClient { local_cid, remote_addr: to, initial_data: data } => {
                    &&& self@.router.is_free(local_cid)
                    &&& to == remote_addr
                    &&& data == initial_data
                },
                _ => false,
            },
    {
        let local_cid = self.generate_unique_connection_id();
        SocketAction::StartClient { local_cid, remote_addr, initial_data }
    }

    /// Registers a connection whose endpoint exists, and hands out the frames
    /// that were waiting for it.
    pub fn register_connection_to_router(
        &mut self,
        local_cid: u32,
        remote_addr: PeerAddr,
        sender: S,
        now: u64,
    ) -> (batches: Vec<ForwardBatch>)
        requires
            old(self).wf(),
        ensures
            final(self).wf(),
            final(self).spec_protocol_version() == old(self).spec_protocol_version(),
            old(self)@.router.registered(
                local_cid,
                remote_addr,
                ConnectionMeta { sender },
                now,
                final(self)@.router,
            ),
            final(self)@.pending == crate::socket::event_loop::routing::without_waiting(
                old(self)@.pending,
                local_cid,
                remote_addr,
            ),
            batches@.map_values(|b: ForwardBatch| b@)
                == crate::socket::event_loop::routing::waiting_for(
                old(self)@.pending,
                local_cid,
                remote_addr,
            ),
    {
        self.frame_router.register_connection(
            local_cid,
            remote_addr,
            ConnectionMeta { sender },
            now,
        )
    }

    /// Files again what is to stay of a batch of early frames.
    pub fn settle_forward(&mut self, batch: ForwardBatch, remote_addr: PeerAddr)
        requires
            old(self).wf(),
        ensures
            final(self).wf(),
            final(self).spec_protocol_version() == old(self).spec_protocol_version(),
            final(self)@ == (CachingRouterState {
                pending: crate::socket::event_loop::routing::filed(
                    old(self)@.pending,
                    batch.key,
                    crate::socket::event_loop::routing::kept_frames(
                        batch.frames@,
                        remote_addr,
                    ),
                ),
                ..old(self)@
            }),
    {
        self.frame_router.settle_forward(batch, remote_addr);
    }

    /// Takes note of whether the listener took the new connection `local_cid`.
    /// One that it did not take is removed again.
    pub fn send_connection_to_user(&mut self, local_cid: u32, accepted: bool, now: u64) -> (result:
        Result<(), Error>)
        requires
            old(self).wf(),
        ensures
            final(self).wf(),
            final(self).spec_protocol_version() == old(self).spec_protocol_version(),
            final(self)@.pending == old(self)@.pending,
            accepted ==> result == Ok::<(), Error>(()) && final(self)@ == old(self)@,
            !accepted ==> result == Err::<(), Error>(Error::ChannelClosed)
                && old(self)@.router.removed(local_cid, now, final(self)@.router),
    {
        if accepted {
            Ok(())
        } else {
            self.frame_router.remove_connection_by_cid(local_cid, now);
            Err(Error::ChannelClosed)
        }
    }

    /// Finds the connection for a frame.
    pub fn dispatch_frame(&mut self, frame: Frame, remote_addr: PeerAddr, now: u64) -> (step:
        Dispatch)
        requires
            old(self).wf(),
        ensures
            final(self).wf(),
            final(self).spec_protocol_version() == old(self).spec_protocol_version(),
            crate::socket::event_loop::routing::dispatched(
                old(self)@,
                frame,
                remote_addr,
                now,
                final(self)@,
                step,
            ),
    {
        self.frame_router.dispatch_frame(frame, remote_addr, now)
    }

    /// Takes note of whether the endpoint of `cid` took a frame.
    pub fn complete_dispatch(&mut self, cid: u32, delivered: bool, now: u64) -> (result:
        RoutingResult)
        requires
            old(self).wf(),
        ensures
            final(self).wf(),
            final(self).spec_protocol_version() == old(self).spec_protocol_version(),
            final(self)@.pending == old(self)@.pending,
            delivered ==> result is Dispatched && final(self)@ == old(self)@,
            !delivered ==> result is ConnectionNotFound && old(self)@.router.removed(
                cid,
                now,
                final(self)@.router,
            ),
    {
        self.frame_router.complete_dispatch(cid, delivered, now)
    }

    /// Decides on a command. An identifier for a new connection is drawn here;
    /// the connection itself is registered once its endpoint exists.
    pub fn handle_actor_command(&mut self, command: SocketActorCommand, now: u64) -> (action:
        SocketAction)
        requires
            old(self).wf(),
            command is Connect ==> old(self)@.router.has_free_cid(),
        ensures
            final(self).wf(),
            final(self).spec_protocol_version() == old(self).spec_protocol_version(),
            final(self)@.pending == old(self)@.pending,
            crate::socket::actor::applies_command(
                old(self)@.router,
                command,
                now,
                final(self)@.router,
            ),
            crate::socket::actor::answers_command(old(self)@.router, command, action),
    {
        match command {
            SocketActorCommand::Connect { remote_addr, initial_data } => {
                self.create_client_connection(remote_addr, initial_data)
            },
            SocketActorCommand::Rebind { new_local_addr } => SocketAction::Rebind {
                new_local_addr,
            },
            SocketActorCommand::UpdateAddr { cid, new_addr } => {
                self.frame_router.update_connection_address(cid, new_addr);
                SocketAction::Nothing
            },
            SocketActorCommand::RemoveConnection { cid } => {
                self.frame_router.remove_connection_by_cid(cid, now);
                SocketAction::Nothing
            },
            SocketActorCommand::GetLocalAddr => SocketAction::ReportLocalAddr,
        }
    }

    /// The periodic clearing: identifiers that have drained long enough, and
    /// early frames that have waited too long.
    pub fn handle_cleanup_tick(&mut self, now: u64)
        requires
            old(self).wf(),
        ensures
            final(self).wf(),
            final(self).spec_protocol_version() == old(self).spec_protocol_version(),
            final(self)@ == (CachingRouterState {
                router: RouterState {
                    draining: crate::socket::draining::still_draining(
                        old(self)@.router.draining,
                        old(self)@.router.drain_timeout,
                        now,
                    ),
                    ..old(self)@.router
                },
                pending: crate::socket::event_loop::routing::without_expired(
                    old(self)@.pending,
                    EARLY_FRAME_MAX_AGE,
                    now,
                ),
            }),
    {
        self.frame_router.cleanup_draining_pool(now);
        self.frame_router.cleanup_expired_frames(EARLY_FRAME_MAX_AGE, now);
    }

    /// The endpoint of an active connection.
    pub fn connection(&self, cid: u32) -> (meta: Option<&ConnectionMeta<S>>)
        ensures
            meta == (if self@.router.connections.contains_key(cid) {
                Some(&self@.router.connections[cid])
            } else {
                None
            }),
    {
        self.frame_router.connection(cid)
    }
}

} // verus!
