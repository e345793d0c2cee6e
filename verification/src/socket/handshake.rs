//! The decision on a datagram that asks for a new connection.

use vstd::prelude::*;

use crate::packet::{Frame, LongHeader};

verus! {

/// The verdict on the frames of a connection attempt.
#[derive(Debug)]
pub enum SynVerdict {
    /// The frames do not start with a request for a connection.
    NotASyn,
    /// The peer speaks another version of the protocol.
    WrongVersion { client_version: u8 },
    /// The peer may connect; `zero_rtt` is the data that came along.
    Acceptable { peer_cid: u32, zero_rtt: Vec<Frame> },
}

/// What a datagram is for.
#[derive(Clone, Copy, Debug, PartialEq, Eq, Structural)]
pub enum DatagramKind {
    /// There is no frame in it.
    Empty,
    /// It asks for a new connection.
    NewConnection,
    /// Its frames belong to existing connections.
    ExistingConnections,
}

/// The data frames among `frames`, in their order.
pub open spec fn push_frames(frames: Seq<Frame>) -> Seq<Frame> {
    frames.filter(|f: Frame| f is Push)
}

/// Whether `frames` start with a request for a connection in the version `version`.
pub open spec fn acceptable_syn(frames: Seq<Frame>, version: u8) -> bool {
    frames.len() > 0 && frames[0] is Syn && frames[0]->Syn_header.protocol_version == version
}

/// The first frame decides what a datagram is for.
pub fn classify_datagram(frames: &[Frame]) -> (kind: DatagramKind)
    ensures
        kind == (if frames@.len() == 0 {
            DatagramKind::Empty
        } else if frames@[0] is Syn {
            DatagramKind::NewConnection
        } else {
            DatagramKind::ExistingConnections
        }),
{
    if frames.len() == 0 {
        DatagramKind::Empty
    } else if frames[0].is_syn() {
        DatagramKind::NewConnection
    } else {
        DatagramKind::ExistingConnections
    }
}

/// Whether the peer speaks our version of the protocol.
pub fn validate_protocol_version(client_version: u8, server_version: u8) -> (valid: bool)
    ensures
        valid == (client_version == server_version),
{
    client_version == server_version
}

/// The frames that go to a new endpoint ahead of everything else: data frames
/// only, all others are ignored.
pub fn handle_zero_rtt_frames(frames: Vec<Frame>) -> (pushes: Vec<Frame>)
    ensures
        pushes@ == push_frames(frames@),
{
    let ghost all = frames@;
    let mut pushes: Vec<Frame> = Vec::new();
    for frame in iter: frames
        invariant
            iter.seq() == all,
            pushes@ == push_frames(all.take(iter.index())),
    {
        proof {
            reveal(Seq::filter);
            assert(all.take(iter.index() + 1).drop_last() == all.take(iter.index()));
            assert(all.take(iter.index() + 1).last() == frame);
        }
        if frame.is_push() {
            pushes.push(frame);
        }
    }
    assert(all.take(all.len() as int) == all);
    pushes
}

/// Whether a datagram asks for a connection in our version of the protocol.
pub fn is_acceptable_syn(frames: &[Frame], server_version: u8) -> (acceptable: bool)
    ensures
        acceptable == acceptable_syn(frames@, server_version),
{
    if frames.len() == 0 {
        return false;
    }
    match &frames[0] {
        Frame::Syn { header } => validate_protocol_version(header.protocol_version, server_version),
        _ => false,
    }
}

/// Decides on a connection attempt.
pub fn judge_syn(mut frames: Vec<Frame>, server_version: u8) -> (verdict: SynVerdict)
    ensures
        match verdict {
            SynVerdict::NotASyn => frames@.len() == 0 || !(frames@[0] is Syn),
            SynVerdict::WrongVersion { client_version } => {
                &&& frames@.len() > 0
                &&& frames@[0] is Syn
                &&& client_version == frames@[0]->Syn_header.protocol_version
                &&& client_version != server_version
            },
            SynVerdict::Acceptable { peer_cid, zero_rtt } => {
                &&& acceptable_syn(frames@, server_version)
                &&& peer_cid == frames@[0]->Syn_header.source_cid
                &&& zero_rtt@ == push_frames(frames@.skip(1))
            },
        },
{
    let ghost all = frames@;
    if frames.len() == 0 {
        return SynVerdict::NotASyn;
    }
    let first_frame = frames.remove(0);
    assert(frames@ == all.skip(1));
    match first_frame {
        Frame::Syn { header } => {
            if validate_protocol_version(header.protocol_version, server_version) {
                SynVerdict::Acceptable {
                    peer_cid: header.source_cid,
                    zero_rtt: handle_zero_rtt_frames(frames),
                }
            } else {
                SynVerdict::WrongVersion { client_version: header.protocol_version }
            }
        },
        _ => SynVerdict::NotASyn,
    }
}

} // verus!
