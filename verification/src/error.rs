//! Errors of the socket layer.

use vstd::prelude::*;

verus! {

#[derive(Clone, Copy, Debug, PartialEq, Eq, Structural)]
pub enum Error {
    /// The other end of a channel is gone, or the channel is full.
    ChannelClosed,
    /// Early data that does not fit into the first packet.
    InitialDataTooLarge,
    /// The peer has been silent for too long.
    ConnectionTimeout,
}

} // verus!
