//! Handshakes, the session coordinator, the socket actor, and frames on the wire.

use bytes::Bytes;
use reliable_udp::error::Error;
use reliable_udp::packet::{Frame, PeerAddr};
use reliable_udp::socket::actor::{NewConnection, TransportSocketActor};
use reliable_udp::socket::command::{SocketAction, SocketActorCommand};
use reliable_udp::socket::draining::DrainingPool;
use reliable_udp::socket::event_loop::routing::FrameRouter as CachingRouter;
use reliable_udp::socket::event_loop::session_coordinator::SocketSessionCoordinator;
use reliable_udp::socket::handshake::{
    classify_datagram, handle_zero_rtt_frames, is_acceptable_syn, judge_syn, DatagramKind, SynVerdict,
};
use reliable_udp::socket::initial_data::{InitialData, PacketLimits};
use reliable_udp::socket::routing::{Dispatch, FrameRouter, RoutingResult};
use reliable_udp::socket::transport::{
    adapt_command, coalesce_frames, datagram_for, deserialize_frames, serialize_frames, FrameBatch,
    SendQueue, SenderTaskCommand, TransportCommand,
};

const SECOND: u64 = 1_000_000_000;

fn addr(port: u16) -> PeerAddr {
    PeerAddr::v4(0x7f00_0001, port)
}

fn push(cid: u32, sequence: u32) -> Frame {
    Frame::new_push(cid, sequence, 0, 1024, 1, Bytes::copy_from_slice(&[sequence as u8]))
}

fn ack(cid: u32) -> Frame {
    Frame::new_ack(cid, 0, 1024, Bytes::new(), 1)
}

#[test]
fn datagrams_by_their_first_frame() {
    assert_eq!(classify_datagram(&[]), DatagramKind::Empty);
    assert_eq!(classify_datagram(&[Frame::new_syn(1, 2, 0), push(0, 0)]), DatagramKind::NewConnection);
    assert_eq!(
        classify_datagram(&[push(3, 0), Frame::new_syn(1, 2, 0)]),
        DatagramKind::ExistingConnections
    );
}

#[test]
fn zero_rtt_keeps_the_data_frames() {
    let pushes = handle_zero_rtt_frames(vec![push(0, 0), ack(0), push(0, 1)]);
    assert_eq!(pushes, vec![push(0, 0), push(0, 1)]);
    assert!(handle_zero_rtt_frames(vec![ack(0)]).is_empty());
}

#[test]
fn syn_is_judged_by_its_version() {
    assert!(matches!(judge_syn(vec![push(1, 0)], 1), SynVerdict::NotASyn));
    assert!(matches!(
        judge_syn(vec![Frame::new_syn(2, 7, 0)], 1),
        SynVerdict::WrongVersion { client_version: 2 }
    ));
    match judge_syn(vec![Frame::new_syn(1, 7, 0), ack(0), push(0, 4)], 1) {
        SynVerdict::Acceptable { peer_cid, zero_rtt } => {
            assert_eq!(peer_cid, 7);
            assert_eq!(zero_rtt, vec![push(0, 4)]);
        }
        _ => panic!("the request is in order"),
    }
}

#[test]
fn coordinator_accepts_registers_and_undoes() {
    let router = CachingRouter::new(DrainingPool::new(10 * SECOND));
    let mut coordinator = SocketSessionCoordinator::new(router, 1);
    assert!(coordinator.validate_protocol_version(1));
    assert!(!coordinator.validate_protocol_version(2));
    assert!(matches!(
        coordinator.handle_new_connection(vec![Frame::new_syn(9, 7, 0)]),
        NewConnection::Ignored
    ));
    let local_cid = match coordinator.handle_new_connection(vec![Frame::new_syn(1, 7, 0), push(0, 1)]) {
        NewConnection::Accepted { local_cid, peer_cid, zero_rtt } => {
            assert_eq!(peer_cid, 7);
            assert_eq!(zero_rtt, vec![push(0, 1)]);
            local_cid
        }
        NewConnection::Ignored => panic!("the request is in order"),
    };
    // A frame that comes before the registration waits for it.
    let early = coordinator.dispatch_frame(push(local_cid, 2), addr(5), 0);
    if local_cid != 0 {
        assert!(matches!(early, Dispatch::Done(RoutingResult::FrameCached)));
    }
    let batches = coordinator.register_connection_to_router(local_cid, addr(5), "endpoint", 0);
    for batch in batches {
        coordinator.settle_forward(batch, addr(5));
    }
    assert_eq!(coordinator.connection(local_cid).unwrap().sender, "endpoint");
    assert!(matches!(
        coordinator.dispatch_frame(push(local_cid, 3), addr(5), 0),
        Dispatch::Deliver { .. }
    ));
    assert_eq!(coordinator.send_connection_to_user(local_cid, true, 0), Ok(()));
    assert!(coordinator.connection(local_cid).is_some());
    assert_eq!(
        coordinator.send_connection_to_user(local_cid, false, 0),
        Err(Error::ChannelClosed)
    );
    assert!(coordinator.connection(local_cid).is_none());
    assert!(coordinator.frame_router().is_draining(local_cid));
    coordinator.handle_cleanup_tick(20 * SECOND);
    assert!(!coordinator.frame_router().is_draining(local_cid));
}

#[test]
fn coordinator_commands() {
    let router = CachingRouter::new(DrainingPool::new(10 * SECOND));
    let mut coordinator = SocketSessionCoordinator::new(router, 1);
    let connect = SocketActorCommand::Connect {
        remote_addr: addr(6),
        initial_data: Some(Bytes::copy_from_slice(b"hello")),
    };
    assert!(coordinator.has_free_connection_id());
    match coordinator.handle_actor_command(connect, 0) {
        SocketAction::StartClient { local_cid, remote_addr, initial_data } => {
            assert_eq!(remote_addr, addr(6));
            assert_eq!(initial_data.unwrap(), Bytes::copy_from_slice(b"hello"));
            assert!(coordinator.connection(local_cid).is_none());
        }
        _ => panic!("a client is to be started"),
    }
    assert!(matches!(
        coordinator.handle_actor_command(SocketActorCommand::GetLocalAddr, 0),
        SocketAction::ReportLocalAddr
    ));
    assert!(matches!(
        coordinator.handle_actor_command(SocketActorCommand::Rebind { new_local_addr: addr(7) }, 0),
        SocketAction::Rebind { new_local_addr } if new_local_addr == addr(7)
    ));
    coordinator.register_connection_to_router(21, addr(8), (), 0);
    assert!(matches!(
        coordinator.handle_actor_command(SocketActorCommand::RemoveConnection { cid: 21 }, 0),
        SocketAction::Nothing
    ));
    assert!(coordinator.connection(21).is_none());
}

#[test]
fn actor_refuses_and_undoes() {
    let mut actor = TransportSocketActor::new(FrameRouter::new(DrainingPool::new(SECOND)), 3);
    assert!(matches!(
        actor.handle_new_connection(vec![Frame::new_syn(4, 1, 0)]),
        NewConnection::Ignored
    ));
    actor.register_connection(5, addr(1), 'x', 0);
    actor.connection_offered(5, true, 0);
    assert_eq!(actor.connection(5).unwrap().sender, 'x');
    actor.connection_offered(5, false, 0);
    assert!(actor.connection(5).is_none());
    assert!(matches!(
        actor.dispatch_frame(push(5, 0), addr(1)),
        Dispatch::Done(RoutingResult::ConnectionDraining)
    ));
    actor.handle_cleanup_tick(SECOND);
    assert!(matches!(
        actor.dispatch_frame(push(5, 0), addr(1)),
        Dispatch::Done(RoutingResult::ConnectionNotFound)
    ));
}

fn limits() -> PacketLimits {
    PacketLimits {
        max_payload_size: 100,
        max_packet_size: 260,
        long_header_size: 20,
        short_header_size: 10,
    }
}

#[test]
fn initial_data_has_to_fit_into_one_packet() {
    assert!(InitialData::new(b"", &limits()).is_ok());
    let data = vec![7u8; 220];
    // 21 for the opening frame, 11 for each of three data frames, and the data.
    assert_eq!(InitialData::new(&data[..206], &limits()).unwrap().into_bytes(), &data[..206]);
    assert_eq!(InitialData::new(&data[..207], &limits()).unwrap_err(), Error::InitialDataTooLarge);
}

fn encode(frame: &Frame) -> Vec<u8> {
    match frame {
        Frame::Push { header, .. } => vec![1, header.sequence_number as u8],
        Frame::Syn { header } => vec![2, header.protocol_version, header.source_cid as u8],
        _ => Vec::new(),
    }
}

fn decode(buffer: &[u8], at: usize) -> Option<(Frame, usize)> {
    match buffer[at] {
        1 if at + 2 <= buffer.len() => Some((push(0, buffer[at + 1] as u32), at + 2)),
        2 if at + 3 <= buffer.len() => {
            Some((Frame::new_syn(buffer[at + 1], buffer[at + 2] as u32, 0), at + 3))
        }
        _ => None,
    }
}

#[test]
fn frames_survive_the_wire() {
    let frames = vec![Frame::new_syn(1, 9, 0), push(0, 4), push(0, 5)];
    let buffer = serialize_frames(&frames, encode);
    assert_eq!(buffer, vec![2, 1, 9, 1, 4, 1, 5]);
    assert_eq!(deserialize_frames(&buffer, decode), frames);
    // Reading stops at the first thing that is no frame.
    assert_eq!(deserialize_frames(&[1, 4, 0, 1, 5], decode), vec![push(0, 4)]);
    assert!(deserialize_frames(&[], decode).is_empty());
}

#[test]
fn batches_are_gathered_up_to_a_limit() {
    let batch = |port: u16| FrameBatch { remote_addr: addr(port), frames: vec![push(0, 0)] };
    let mut queue = SendQueue::new(batch(0));
    let mut gathered = 1;
    while queue.has_room() {
        let taken = queue.offer::<()>(Some(TransportCommand::Send(batch(gathered))));
        gathered += 1;
        assert_eq!(taken.more, gathered < 64);
        assert!(taken.other.is_none());
    }
    assert_eq!(gathered, 64);
    let batches = queue.into_batches();
    assert_eq!(batches.len(), 64);
    assert_eq!(batches[63].remote_addr, addr(63));
    let mut queue = SendQueue::new(batch(0));
    let taken = queue.offer::<()>(None);
    assert!(!taken.more);
    assert!(taken.other.is_none());
    assert_eq!(queue.into_batches().len(), 1);
}

#[test]
fn a_swap_takes_effect_between_the_batches_around_it() {
    let batch = |port: u16| FrameBatch { remote_addr: addr(port), frames: vec![push(0, 0)] };
    let mut waiting = vec![
        TransportCommand::Send(batch(1)),
        TransportCommand::SwapTransport(2),
        TransportCommand::Send(batch(3)),
    ]
    .into_iter();
    let mut transport = 1;
    let mut sent = Vec::new();
    while let Some(command) = waiting.next() {
        match command {
            TransportCommand::Send(first) => {
                let mut queue = SendQueue::new(first);
                let mut other = None;
                while queue.has_room() {
                    let taken = queue.offer(waiting.next());
                    other = taken.other;
                    if !taken.more {
                        break;
                    }
                }
                for batch in queue.into_batches() {
                    sent.push((transport, batch.remote_addr));
                }
                if let Some(TransportCommand::SwapTransport(next)) = other {
                    transport = next;
                }
            }
            TransportCommand::SwapTransport(next) => transport = next,
        }
    }
    assert_eq!(sent, vec![(1, addr(1)), (2, addr(3))]);
    assert_eq!(transport, 2);
}

#[test]
fn datagrams_and_commands_for_plain_sockets() {
    let batch = FrameBatch { remote_addr: addr(1), frames: vec![push(0, 3)] };
    assert_eq!(datagram_for(&batch, encode), Some(vec![1, 3]));
    let empty = FrameBatch { remote_addr: addr(1), frames: Vec::new() };
    assert_eq!(datagram_for(&empty, encode), None);
    assert_eq!(coalesce_frames(&batch, encode), Some(vec![1, 3]));
    assert_eq!(coalesce_frames(&empty, encode), None);
    // A frame without bytes makes an empty datagram, which is not sent.
    let silent = FrameBatch { remote_addr: addr(1), frames: vec![ack(1)] };
    assert_eq!(datagram_for(&silent, encode), Some(vec![]));
    assert_eq!(coalesce_frames(&silent, encode), None);
    assert_eq!(adapt_command::<()>(SenderTaskCommand::Send(batch)).unwrap().frames, vec![push(0, 3)]);
    assert!(adapt_command(SenderTaskCommand::SwapSocket(())).is_none());
}

#[test]
fn attempts_that_can_be_decided_on() {
    let acceptable = [Frame::new_syn(1, 2, 0)];
    let foreign = [Frame::new_syn(9, 2, 0)];
    assert!(is_acceptable_syn(&acceptable, 1));
    assert!(!is_acceptable_syn(&foreign, 1));
    assert!(!is_acceptable_syn(&[push(3, 0)], 1));
    assert!(!is_acceptable_syn(&[], 1));
    let actor: TransportSocketActor<()> = TransportSocketActor::new(FrameRouter::new(DrainingPool::new(SECOND)), 1);
    assert!(actor.can_handle_new_connection(&acceptable));
    assert!(actor.can_handle_new_connection(&foreign));
}
