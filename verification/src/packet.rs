//! Frames and peer addresses, as far as routing and connection set-up read them.

use bytes::Bytes;
use vstd::prelude::*;

verus! {

/// The address of a remote peer: everything that tells two socket addresses apart.
#[derive(Clone, Copy, Debug, PartialEq, Eq, Structural, Hash)]
pub struct PeerAddr {
    /// Whether this is an IPv6 address.
    pub v6: bool,
    /// The address bits; for IPv4 all but the lowest 32 are zero.
    pub ip: u128,
    pub port: u16,
    /// IPv6 flow information; zero for IPv4.
    pub flowinfo: u32,
    /// IPv6 scope identifier; zero for IPv4.
    pub scope_id: u32,
}

impl PeerAddr {
    /// The IPv4 address whose 32 bits are `ip`, at `port`.
    pub fn v4(ip: u32, port: u16) -> (addr: Self)
        ensures
            addr == (PeerAddr { v6: false, ip: ip as u128, port, flowinfo: 0, scope_id: 0 }),
    {
        PeerAddr { v6: false, ip: ip as u128, port, flowinfo: 0, scope_id: 0 }
    }
}

/// The header of the frames that open a connection.
#[derive(Clone, Copy, Debug, PartialEq, Eq, Structural)]
pub struct LongHeader {
    pub protocol_version: u8,
    pub destination_cid: u32,
    pub source_cid: u32,
}

/// The header of all other frames.
#[derive(Clone, Copy, Debug, PartialEq, Eq, Structural)]
pub struct ShortHeader {
    pub connection_id: u32,
    pub recv_window_size: u16,
    pub timestamp: u32,
    pub sequence_number: u32,
    pub recv_next_sequence: u32,
}

/// One frame of a datagram.
#[allow(inconsistent_fields)]
#[derive(Debug, PartialEq, Eq)]
pub enum Frame {
    /// Asks for a new connection.
    Syn { header: LongHeader },
    /// Accepts a new connection.
    SynAck { header: LongHeader },
    /// Carries application data.
    Push { header: ShortHeader, payload: Bytes },
    /// Acknowledges application data.
    Ack { header: ShortHeader, payload: Bytes },
}

impl Frame {
    /// The connection that the frame is addressed to; zero where the sender
    /// does not know it yet.
    pub open spec fn spec_destination_cid(&self) -> u32 {
        match self {
            Frame::Syn { header } => header.destination_cid,
            Frame::SynAck { header } => header.destination_cid,
            Frame::Push { header, .. } => header.connection_id,
            Frame::Ack { header, .. } => header.connection_id,
        }
    }

    pub fn destination_cid(&self) -> (cid: u32)
        ensures
            cid == self.spec_destination_cid(),
    {
        match self {
            Frame::Syn { header } => header.destination_cid,
            Frame::SynAck { header } => header.destination_cid,
            Frame::Push { header, .. } => header.connection_id,
            Frame::Ack { header, .. } => header.connection_id,
        }
    }

    pub fn is_push(&self) -> (push: bool)
        ensures
            push == (self is Push),
    {
        match self {
            Frame::Push { .. } => true,
            _ => false,
        }
    }

    pub fn is_syn(&self) -> (syn: bool)
        ensures
            syn == (self is Syn),
    {
        match self {
            Frame::Syn { .. } => true,
            _ => false,
        }
    }

    /// A request for a new connection.
    pub fn new_syn(protocol_version: u8, source_cid: u32, destination_cid: u32) -> (frame: Frame)
        ensures
            frame == (Frame::Syn {
                header: LongHeader { protocol_version, destination_cid, source_cid },
            }),
    {
        Frame::Syn { header: LongHeader { protocol_version, destination_cid, source_cid } }
    }

    /// Application data for the connection `cid`.
    pub fn new_push(
        cid: u32,
        sequence_number: u32,
        recv_next_sequence: u32,
        recv_window_size: u16,
        timestamp: u32,
        payload: Bytes,
    ) -> (frame: Frame)
        ensures
            frame == (Frame::Push {
                header: ShortHeader {
                    connection_id: cid,
                    recv_window_size,
                    timestamp,
                    sequence_number,
                    recv_next_sequence,
                },
                payload,
            }),
    {
        Frame::Push {
            header: ShortHeader {
                connection_id: cid,
                recv_window_size,
                timestamp,
                sequence_number,
                recv_next_sequence,
            },
            payload,
        }
    }

    /// An acknowledgement for the connection `cid`; `ranges` holds the encoded
    /// ranges that arrived out of order.
    pub fn new_ack(
        cid: u32,
        recv_next_sequence: u32,
        recv_window_size: u16,
        ranges: Bytes,
        timestamp: u32,
    ) -> (frame: Frame)
        ensures
            frame == (Frame::Ack {
                header: ShortHeader {
                    connection_id: cid,
                    recv_window_size,
                    timestamp,
                    sequence_number: 0,
                    recv_next_sequence,
                },
                payload: ranges,
            }),
    {
        Frame::Ack {
            header: ShortHeader {
                connection_id: cid,
                recv_window_size,
                timestamp,
                sequence_number: 0,
                recv_next_sequence,
            },
            payload: ranges,
        }
    }
}

} // verus!
