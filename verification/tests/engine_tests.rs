//! The engine end to end: handshakes, streams, the unreliable-datagram
//! queue, the codec, and the book-keeping rules.

use quictrans::connection::{Output, State};
use quictrans::events::{ConnectionEvent, ConnectionEvents, OutgoingDatagramOutcome};
use quictrans::fixture::{
    connect, connect_force_idle, datagram, default_client, default_server, now, send_something,
    split_datagram,
};
use quictrans::frame::{read_frame, write_frame, Frame};
use quictrans::packet::Builder;
use quictrans::quic_datagrams::{DatagramTracking, QuicDatagrams};
use quictrans::stats::Stats;
use quictrans::streams::{RecvStream, StreamId, StreamType};
use quictrans::ecn::{EcnInfo, EcnValidationError, EcnValidationState, TEST_COUNT};
use quictrans::tos::Ecn;
use quictrans::varint::{read_varint, write_varint};
use quictrans::Error;
use quictrans::MIN_INITIAL_PACKET_SIZE;

#[test]
fn handshake_completes() {
    let (client, server) = connect();
    assert_eq!(*client.state(), State::Confirmed);
    assert_eq!(*server.state(), State::Confirmed);
}

#[test]
fn initial_datagram_is_padded() {
    // Any datagram carrying an Initial packet is at least 1200 bytes.
    let mut client = default_client();
    let first = client.process(None, now()).dgram().unwrap();
    assert!(first.len() >= MIN_INITIAL_PACKET_SIZE);
}

#[test]
fn server_respects_amplification_limit() {
    // Before the client's address is validated, the server sends at most
    // three times what it received.
    let mut client = default_client();
    let mut server = default_server();
    let c1 = client.process(None, now()).dgram().unwrap();
    let received = c1.len();
    let mut sent = 0;
    let mut out = server.process(Some(c1), now());
    while let Output::Datagram(d) = out {
        sent += d.len();
        out = server.process_output(now());
    }
    assert!(sent <= 3 * received);
}

#[test]
fn stream_data_crosses() {
    let (mut client, mut server) = connect();
    let id = client.stream_create(StreamType::UniDi).unwrap();
    client.stream_send(id, b"hello world").unwrap();
    client.stream_close_send(id).unwrap();
    let d = client.process_output(now()).dgram().unwrap();
    server.process_input(d, now());
    let events = server.events();
    assert!(events
        .iter()
        .any(|e| matches!(e, ConnectionEvent::RecvStreamReadable { .. })));
    let mut buf = Vec::new();
    let (n, fin) = server.stream_recv(id, &mut buf).unwrap();
    assert_eq!(n, 11);
    assert!(fin);
    assert_eq!(&buf, b"hello world");
}

#[test]
fn stream_reassembles_from_fragments() {
    // A stream delivered in arbitrary fragmentation reassembles to the
    // original bytes.
    let original = b"the quick brown fox jumps over the lazy dog";
    // Deliver out of order, with overlap and duplication.
    let fragments: &[(u64, &[u8])] = &[
        (10, &original[10..25]),
        (0, &original[0..12]),
        (20, &original[20..43]),
        (5, &original[5..10]),
    ];
    let mut rs = RecvStream::new(StreamId::new(2));
    for (off, data) in fragments {
        rs.insert(*off, data.to_vec(), false).unwrap();
    }
    rs.insert(43, Vec::new(), true).unwrap();
    let mut buf = Vec::new();
    let fin = rs.read(&mut buf, 1000);
    assert!(fin);
    assert_eq!(&buf[..], &original[..]);
}

#[test]
fn datagram_queue_overflow_drops_oldest() {
    // With a queue of four, a fifth datagram pushes out the oldest, and
    // the drop is reported with its tracking identifier.
    let mut qdg = QuicDatagrams::new(65535, 4, 10);
    qdg.set_remote_datagram_size(65535);
    let mut events = ConnectionEvents::new();
    let mut stats = Stats::default();
    for tag in 1..=5u64 {
        qdg.add_datagram(
            vec![tag as u8; 8],
            DatagramTracking::Id(tag),
            &mut events,
            &mut stats,
        )
        .unwrap();
    }
    assert_eq!(stats.datagram_tx.dropped_queue_full, 1);
    let evs = events.drain();
    assert!(evs.iter().any(|e| matches!(
        e,
        ConnectionEvent::OutgoingDatagramOutcome {
            tracking: DatagramTracking::Id(1),
            outcome: OutgoingDatagramOutcome::DroppedQueueFull,
        }
    )));
}

#[test]
fn datagram_too_large_for_peer_is_refused() {
    let mut qdg = QuicDatagrams::new(65535, 4, 10);
    qdg.set_remote_datagram_size(16);
    let mut events = ConnectionEvents::new();
    let mut stats = Stats::default();
    let r = qdg.add_datagram(
        vec![0u8; 17],
        DatagramTracking::Untracked,
        &mut events,
        &mut stats,
    );
    assert_eq!(r.unwrap_err(), Error::TooMuchData);
}

#[test]
fn datagram_that_cannot_fit_any_packet_is_dropped() {
    let mut qdg = QuicDatagrams::new(65535, 4, 10);
    qdg.set_remote_datagram_size(65535);
    let mut events = ConnectionEvents::new();
    let mut stats = Stats::default();
    qdg.add_datagram(
        vec![9u8; 2000],
        DatagramTracking::Id(7),
        &mut events,
        &mut stats,
    )
    .unwrap();
    let mut builder = Builder::new(Vec::new(), 1100);
    let mut tokens = Vec::new();
    qdg.write_frames(&mut builder, &mut tokens, &mut events, &mut stats);
    assert_eq!(stats.datagram_tx.dropped_too_big, 1);
    assert!(tokens.is_empty());
    let evs = events.drain();
    assert!(evs.iter().any(|e| matches!(
        e,
        ConnectionEvent::OutgoingDatagramOutcome {
            tracking: DatagramTracking::Id(7),
            outcome: OutgoingDatagramOutcome::DroppedTooBig,
        }
    )));
}

#[test]
fn datagram_rides_in_packet() {
    let mut qdg = QuicDatagrams::new(65535, 4, 10);
    qdg.set_remote_datagram_size(65535);
    let mut events = ConnectionEvents::new();
    let mut stats = Stats::default();
    qdg.add_datagram(
        vec![5u8; 100],
        DatagramTracking::Id(3),
        &mut events,
        &mut stats,
    )
    .unwrap();
    let mut builder = Builder::new(Vec::new(), 1100);
    let mut tokens = Vec::new();
    qdg.write_frames(&mut builder, &mut tokens, &mut events, &mut stats);
    assert_eq!(stats.frame_tx.datagram, 1);
    assert_eq!(tokens.len(), 1);
    let bytes = builder.build();
    // The bytes parse back as a length-carrying datagram frame.
    let (frame, _) = read_frame(&bytes, 0).unwrap();
    match frame {
        Frame::Datagram { data, with_len } => {
            assert!(with_len);
            assert_eq!(data, vec![5u8; 100]);
        }
        _ => panic!("wrong frame"),
    }
}

#[test]
fn varint_round_trip() {
    for v in [
        0u64,
        1,
        63,
        64,
        16383,
        16384,
        1_073_741_823,
        1_073_741_824,
        0x3fff_ffff_ffff_ffff,
    ] {
        let mut out = Vec::new();
        write_varint(&mut out, v);
        let (back, used) = read_varint(&out, 0).unwrap();
        assert_eq!(back, v);
        assert_eq!(used, out.len());
    }
}

#[test]
fn frame_round_trips() {
    // Decoding what the encoder wrote gives the frame back, for every
    // frame type the engine sends.
    let frames = vec![
        Frame::Ping,
        Frame::Ack { largest: 700, delay: 0, first_range: 3, ect0: 1, ect1: 0, ce: 2 },
        Frame::Crypto { offset: 17, data: vec![1, 2, 3] },
        Frame::Stream { stream_id: 6, offset: 40, data: vec![9, 9], fin: true },
        Frame::MaxData { limit: 12345 },
        Frame::MaxStreamData { stream_id: 2, limit: 77 },
        Frame::NewConnectionId { seqno: 4, retire_prior: 1, cid: vec![8, 0, 0, 1, 2, 0, 0, 0] },
        Frame::RetireConnectionId { seqno: 2 },
        Frame::PathChallenge { data: 0xdead_beef },
        Frame::PathResponse { data: 0xdead_beef },
        Frame::ConnectionClose { app: true, error_code: 7, frame_type: 0, reason_len: 0 },
        Frame::HandshakeDone,
        Frame::Datagram { data: vec![4, 5, 6], with_len: true },
    ];
    for f in frames {
        let mut b = Builder::new(Vec::new(), 2000);
        write_frame(&mut b, &f);
        let bytes = b.build();
        let (back, used) = read_frame(&bytes, 0).unwrap();
        assert_eq!(used, bytes.len());
        assert_eq!(format!("{back:?}"), format!("{f:?}"));
    }
}

#[test]
fn split_coalesced_datagram() {
    // The first flight from a server coalesces an Initial and a Handshake
    // packet; splitting it gives two valid pieces.
    let mut client = default_client();
    let mut server = default_server();
    let c1 = client.process(None, now()).dgram().unwrap();
    let s1 = server.process(Some(c1), now()).dgram().unwrap();
    let (first, rest) = split_datagram(&s1);
    assert!(first.len() > 0);
    assert!(rest.is_some());
    assert_eq!(first.len() + rest.unwrap().len(), s1.len());
}

#[test]
fn close_is_answered_and_drains() {
    let (mut client, mut server) = connect_pair();
    client.close(now(), 0, "closing");
    assert!(matches!(client.state(), State::Closing { .. }));
    let close = client.process_output(now()).dgram().unwrap();
    let reply = server.process(Some(close), now()).dgram();
    assert!(matches!(server.state(), State::Draining { .. }));
    client.process_input(reply.unwrap(), now());
    assert!(matches!(client.state(), State::Draining { .. }));
}

fn connect_pair() -> (
    quictrans::connection::Connection,
    quictrans::connection::Connection,
) {
    let mut client = default_client();
    let mut server = default_server();
    connect_force_idle(&mut client, &mut server);
    (client, server)
}

#[test]
fn error_codes_match_the_wire() {
    assert_eq!(Error::NoError.code(), 0x0);
    assert_eq!(Error::FlowControlError.code(), 0x3);
    assert_eq!(Error::ProtocolViolation.code(), 0xa);
    assert_eq!(Error::AeadLimitReached.code(), 0xf);
    assert_eq!(Error::NoAvailablePath.code(), 0x10);
    // Local-only conditions are promoted to the internal error code.
    assert_eq!(Error::InvalidMigration.code(), 0x1);
}

#[test]
fn fixture_datagram_defaults() {
    let d = datagram(vec![1, 2, 3]);
    assert_eq!(d.len(), 3);
    assert!(d.tos().is_ecn_marked());
    assert_eq!(d.source(), d.destination());
}

#[test]
fn send_something_sends_on_primary() {
    let (mut client, _server) = connect_pair();
    let d = send_something(&mut client, now()).unwrap();
    assert!(!d.source().is_ipv4());
    assert!(d.len() < MIN_INITIAL_PACKET_SIZE);
}

#[test]
fn packet_numbers_are_never_reused() {
    // A space that has used up its numbers refuses to send rather than
    // wrap around.
    let (mut client, _server) = connect_pair();
    client.sp_app.next_pn = quictrans::connection::MAX_PACKET_NUMBER;
    let d = send_something(&mut client, now());
    assert!(d.is_none());
}

#[test]
fn ack_removes_sent_packets_from_registry() {
    // After an acknowledgement arrives, the covered packets leave the
    // sent-packet registry at once.
    let (mut client, mut server) = connect_pair();
    let d = send_something(&mut client, now()).unwrap();
    assert!(client.sp_app.sent.len() > 0);
    server.process_input(d, now());
    let ack = server.process_output(now()).dgram().unwrap();
    let data_pn = client.sp_app.sent.last().unwrap().pn();
    let before = client.sp_app.sent.len();
    client.process_input(ack, now());
    assert!(client.sp_app.sent.len() < before);
    // The acknowledged packet itself is gone from the registry.
    assert!(client.sp_app.sent.iter().all(|p| p.pn() != data_pn));
}

#[test]
fn datagram_crosses_connection() {
    let params = quictrans::params::ConnectionParameters::default().datagram_size(65535);
    let mut client = quictrans::fixture::new_client(params.clone());
    let mut server = quictrans::fixture::new_server(params);
    connect_force_idle(&mut client, &mut server);
    // The harness passes the peer's acceptable size directly; a full
    // transport-parameter exchange would carry it during the handshake.
    client.qdg.set_remote_datagram_size(65535);
    client
        .send_datagram(vec![42u8; 50], DatagramTracking::Id(9))
        .unwrap();
    let d = client.process_output(now()).dgram().unwrap();
    server.process_input(d, now());
    let evs = server.events();
    assert!(evs
        .iter()
        .any(|e| matches!(e, ConnectionEvent::Datagram { data } if data == &vec![42u8; 50])));
}

#[test]
fn ecn_validation_blackhole_and_capable() {
    // A path that eats every marked packet fails as a black hole after the
    // test marks are spent, and later packets go unmarked.
    let mut info = EcnInfo::new();
    for _ in 0..TEST_COUNT {
        assert_eq!(info.on_packet_sent(), Ecn::Ect0);
    }
    assert_eq!(info.on_packet_sent(), Ecn::NotEct);
    info.on_packets_lost(TEST_COUNT as u64);
    assert_eq!(
        info.state,
        EcnValidationState::Failed(EcnValidationError::BlackHole)
    );
    assert_eq!(info.on_packet_sent(), Ecn::NotEct);

    // A path whose marks come back acknowledged proves itself capable.
    let mut ok = EcnInfo::new();
    ok.on_packet_sent();
    ok.on_ack_received(1, 1, 0, 0);
    assert_eq!(ok.state, EcnValidationState::Capable);

    // A peer reporting marks this endpoint never sent fails validation.
    let mut odd = EcnInfo::new();
    odd.on_packet_sent();
    odd.on_ack_received(1, 0, 5, 0);
    assert_eq!(
        odd.state,
        EcnValidationState::Failed(EcnValidationError::ReceivedUnsentEct1)
    );
}
