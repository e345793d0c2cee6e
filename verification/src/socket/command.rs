//! Commands to a socket, and what a socket does about them.

use bytes::Bytes;
use vstd::prelude::*;

use crate::packet::PeerAddr;

verus! {

/// Commands from the public interface and from endpoints.
#[derive(Debug)]
pub enum SocketActorCommand {
    /// Open a connection, with data for its first packet where there is any.
    Connect { remote_addr: PeerAddr, initial_data: Option<Bytes> },
    /// Bind the socket to another local address.
    Rebind { new_local_addr: PeerAddr },
    /// The peer of `cid` is at another address now.
    UpdateAddr { cid: u32, new_addr: PeerAddr },
    /// The endpoint of `cid` has ended.
    RemoveConnection { cid: u32 },
    /// Tell the local address.
    GetLocalAddr,
}

/// What is left to do for a command once the routing state has been brought up to date.
#[derive(Debug)]
pub enum SocketAction {
    /// Start an endpoint for `local_cid` and register it.
    StartClient { local_cid: u32, remote_addr: PeerAddr, initial_data: Option<Bytes> },
    /// Bind the transport to `new_local_addr`.
    Rebind { new_local_addr: PeerAddr },
    /// Answer with the transport's local address.
    ReportLocalAddr,
    /// Nothing.
    Nothing,
}

} // verus!
