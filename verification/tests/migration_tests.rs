//! Path migration: probing, validation, immediate and failed migrations,
//! and the rules on when migration is allowed at all.

use quictrans::connection::{CloseReason, Output, State, MAX_PATH_PROBES};
use quictrans::datagram::Datagram;
use quictrans::fixture::{
    connect_force_idle, default_addr, default_addr_v4, default_client, default_server, now,
    send_something, send_something_paced,
};
use quictrans::frame::{write_frame, Frame};
use quictrans::packet::{encode_packet, Builder, PacketType};
use quictrans::time::Duration;
use quictrans::tos::{Ecn, Tos};
use quictrans::Error;
use quictrans::MIN_INITIAL_PACKET_SIZE;

fn assert_v4_path(d: &Datagram, padded: bool) {
    assert!(d.source().is_ipv4());
    assert!(d.destination().is_ipv4());
    if padded {
        assert!(d.len() >= MIN_INITIAL_PACKET_SIZE);
    } else {
        assert!(d.len() < MIN_INITIAL_PACKET_SIZE);
    }
}

fn assert_v6_path(d: &Datagram, padded: bool) {
    assert!(!d.source().is_ipv4());
    assert!(!d.destination().is_ipv4());
    if padded {
        assert!(d.len() >= MIN_INITIAL_PACKET_SIZE);
    } else {
        assert!(d.len() < MIN_INITIAL_PACKET_SIZE);
    }
}

fn assert_path_challenge_min_len(d: &Datagram) {
    assert!(d.len() >= MIN_INITIAL_PACKET_SIZE);
}

#[test]
fn migrate_immediate() {
    let mut client = default_client();
    let mut server = default_server();
    connect_force_idle(&mut client, &mut server);
    let now = now();

    client
        .migrate(Some(default_addr_v4()), Some(default_addr_v4()), true, now)
        .unwrap();

    let client1 = send_something(&mut client, now).unwrap();
    assert_v4_path(&client1, true); // Contains PATH_CHALLENGE.
    assert_path_challenge_min_len(&client1);

    let client2 = send_something(&mut client, now).unwrap();
    assert_v4_path(&client2, false); // Doesn't.

    let server_delayed = send_something(&mut server, now).unwrap();

    // The server accepts the first packet and migrates (but probes).
    let server1 = server.process(Some(client1), now).dgram().unwrap();
    assert_v4_path(&server1, true);
    let server2 = server.process_output(now).dgram().unwrap();
    assert_v6_path(&server2, true);

    // The second packet has no real effect, it just elicits an ACK.
    let all_before = server.stats().frame_tx.all();
    let ack_before = server.stats().frame_tx.ack;
    let server3 = server.process(Some(client2), now).dgram();
    assert!(server3.is_some());
    assert_eq!(server.stats().frame_tx.all(), all_before + 1);
    assert_eq!(server.stats().frame_tx.ack, ack_before + 1);

    // Receiving a packet sent by the server before migration doesn't change path.
    client.process_input(server_delayed, now);
    let (client3, _t) = send_something_paced(&mut client, now);
    assert_v4_path(&client3.unwrap(), false);
}

#[test]
fn migrate_immediate_fail() {
    let mut client = default_client();
    let mut server = default_server();
    connect_force_idle(&mut client, &mut server);
    let mut now = now();

    client
        .migrate(Some(default_addr_v4()), Some(default_addr_v4()), true, now)
        .unwrap();

    let probe = client.process_output(now).dgram().unwrap();
    assert_v4_path(&probe, true); // Contains PATH_CHALLENGE.
    assert_path_challenge_min_len(&probe);

    // -1 because first PATH_CHALLENGE already sent above
    for _ in 0..MAX_PATH_PROBES * 2 - 1 {
        let cb = client.process_output(now).callback();
        assert_ne!(cb, Duration::zero());
        now = now.plus(cb);

        let before = client.stats().frame_tx;
        let probe = client.process_output(now).dgram().unwrap();
        assert_v4_path(&probe, true); // Contains PATH_CHALLENGE.
        assert_path_challenge_min_len(&probe);
        let after = client.stats().frame_tx;
        assert_eq!(after.path_challenge, before.path_challenge + 1);
        assert_eq!(after.padding, before.padding + 1);
        assert_eq!(after.all(), before.all() + 2);
    }

    let pto = client.process_output(now).callback();
    assert_ne!(pto, Duration::zero());
    now = now.plus(pto);

    // The client should fall back to the original path and retire the connection ID.
    let fallback = client.process_output(now).dgram();
    assert_v6_path(&fallback.unwrap(), false);
    assert_eq!(client.stats().frame_tx.retire_connection_id, 1);
}

/// Migrating to the same path shouldn't do anything special,
/// except that the path is probed.
#[test]
fn migrate_same() {
    let mut client = default_client();
    let mut server = default_server();
    connect_force_idle(&mut client, &mut server);
    let now = now();

    client
        .migrate(Some(default_addr()), Some(default_addr()), true, now)
        .unwrap();

    let probe = client.process_output(now).dgram().unwrap();
    assert_v6_path(&probe, true); // Contains PATH_CHALLENGE.
    assert_eq!(client.stats().frame_tx.path_challenge, 1);
    assert_path_challenge_min_len(&probe);

    let resp = server.process(Some(probe), now).dgram().unwrap();
    assert_v6_path(&resp, true);
    assert_eq!(server.stats().frame_tx.path_response, 1);
    assert_eq!(server.stats().frame_tx.path_challenge, 0);

    // Everything continues happily.
    client.process_input(resp, now);
    let contd = send_something(&mut client, now).unwrap();
    assert_v6_path(&contd, false);
}

/// Migrating to the same path, if it fails, causes the connection to fail.
#[test]
fn migrate_same_fail() {
    let mut client = default_client();
    let mut server = default_server();
    connect_force_idle(&mut client, &mut server);
    let mut now = now();

    client
        .migrate(Some(default_addr()), Some(default_addr()), true, now)
        .unwrap();

    let probe = client.process_output(now).dgram().unwrap();
    assert_v6_path(&probe, true); // Contains PATH_CHALLENGE.
    assert_path_challenge_min_len(&probe);

    // -1 because first PATH_CHALLENGE already sent above
    for _ in 0..MAX_PATH_PROBES * 2 - 1 {
        let cb = client.process_output(now).callback();
        assert_ne!(cb, Duration::zero());
        now = now.plus(cb);

        let before = client.stats().frame_tx;
        let probe = client.process_output(now).dgram().unwrap();
        assert_v6_path(&probe, true); // Contains PATH_CHALLENGE.
        assert_path_challenge_min_len(&probe);
        let after = client.stats().frame_tx;
        assert_eq!(after.path_challenge, before.path_challenge + 1);
        assert_eq!(after.padding, before.padding + 1);
        assert_eq!(after.all(), before.all() + 2);
    }

    let pto = client.process_output(now).callback();
    assert_ne!(pto, Duration::zero());
    now = now.plus(pto);

    // The client should mark this path as failed and close immediately.
    let res = client.process_output(now);
    assert!(matches!(res, Output::Nothing));
    assert!(matches!(
        client.state(),
        State::Closed(CloseReason::Transport(Error::NoAvailablePath))
    ));
}

/// Test that migration isn't permitted if the connection isn't in the right state.
#[test]
fn migration_invalid_state() {
    let mut client = default_client();
    assert!(client
        .migrate(Some(default_addr()), Some(default_addr()), false, now())
        .is_err());

    let mut server = default_server();
    assert!(server
        .migrate(Some(default_addr()), Some(default_addr()), false, now())
        .is_err());
    connect_force_idle(&mut client, &mut server);

    assert!(server
        .migrate(Some(default_addr()), Some(default_addr()), false, now())
        .is_err());

    client.close(now(), 0, "closing");
    assert!(client
        .migrate(Some(default_addr()), Some(default_addr()), false, now())
        .is_err());
    let close = client.process_output(now()).dgram();

    let dgram = server.process(close, now()).dgram();
    assert!(server
        .migrate(Some(default_addr()), Some(default_addr()), false, now())
        .is_err());

    client.process_input(dgram.unwrap(), now());
    assert!(client
        .migrate(Some(default_addr()), Some(default_addr()), false, now())
        .is_err());
}

#[test]
fn migration_delay_to_ecn_blackhole() {
    let mut now = now();
    let mut client = default_client();
    let mut server = default_server();

    // Do a handshake.
    connect_force_idle(&mut client, &mut server);

    // Migrate the client.
    client
        .migrate(Some(default_addr_v4()), Some(default_addr_v4()), false, now)
        .unwrap();

    // The client should send MAX_PATH_PROBES path challenges with ECN enabled, and then another
    // MAX_PATH_PROBES without ECN.
    let mut probes = 0;
    while probes < MAX_PATH_PROBES * 2 {
        match client.process_output(now) {
            Output::Callback(t) => {
                now = now.plus(t);
            }
            Output::Datagram(d) => {
                // The new path is IPv4.
                if d.source().is_ipv4() {
                    // This should be a PATH_CHALLENGE.
                    probes += 1;
                    assert_eq!(client.stats().frame_tx.path_challenge, probes as u64);
                    assert_path_challenge_min_len(&d);
                    if probes <= MAX_PATH_PROBES {
                        // The first probes should be sent with ECN.
                        assert!(d.tos().is_ecn_marked());
                    } else {
                        // The next probes should be sent without ECN.
                        assert!(!d.tos().is_ecn_marked());
                    }
                }
            }
            Output::Nothing => panic!("unexpected output"),
        }
    }
}

/// Migration is refused when the addresses are incomplete or mismatched.
#[test]
fn migration_rejects_bad_addresses() {
    let mut client = default_client();
    let mut server = default_server();
    connect_force_idle(&mut client, &mut server);

    // Providing neither address is pointless and therefore an error.
    assert_eq!(
        client.migrate(None, None, true, now()).unwrap_err(),
        Error::InvalidMigration
    );
    // Mixed address families are bad.
    assert_eq!(
        client
            .migrate(Some(default_addr()), Some(default_addr_v4()), true, now())
            .unwrap_err(),
        Error::InvalidMigration
    );
    assert_eq!(
        client
            .migrate(Some(default_addr_v4()), Some(default_addr()), true, now())
            .unwrap_err(),
        Error::InvalidMigration
    );
}

#[test]
fn migrate_rtt() {
    // The round-trip estimate carries over to the migrated path, a little
    // enlarged for caution, but not doubled.
    let rtt = Duration::from_millis(20);
    let half = Duration::from_millis(10);
    let mut client = default_client();
    let mut server = default_server();
    let mut nw = now();
    let mut dgram = None;
    let mut client_turn = true;
    for _ in 0..32 {
        if matches!(client.state(), State::Confirmed)
            && matches!(server.state(), State::Confirmed)
        {
            break;
        }
        let out = if client_turn {
            for e in client.events() {
                if matches!(
                    e,
                    quictrans::events::ConnectionEvent::AuthenticationNeeded
                ) {
                    client.authenticated(nw);
                }
            }
            client.process(dgram.take(), nw)
        } else {
            server.process(dgram.take(), nw)
        };
        if let Some(d) = out.dgram() {
            // Each leg of the path takes half the round trip.
            nw = nw.plus(half);
            dgram = Some(d);
        }
        client_turn = !client_turn;
    }
    assert_eq!(*client.state(), State::Confirmed);

    client
        .migrate(Some(default_addr_v4()), Some(default_addr_v4()), true, nw)
        .unwrap();
    // The RTT might be increased for the new path, so allow a little flexibility.
    let estimate = client.paths.rtt();
    assert!(estimate.as_micros() > rtt.as_micros());
    assert!(estimate.as_micros() < 2 * rtt.as_micros());
}

/// During a graceful migration, a peer that retires every connection ID
/// leaves the probed path nothing to continue with, which ends the
/// connection.
#[test]
fn retire_all_during_migration_fails() {
    let mut client = default_client();
    let mut server = default_server();
    connect_force_idle(&mut client, &mut server);
    let now = now();

    client
        .migrate(Some(default_addr_v4()), Some(default_addr_v4()), false, now)
        .unwrap();
    let probe = client.process_output(now).dgram().unwrap();
    assert_v4_path(&probe, true);

    // Craft the frame the peer would send: one fresh connection ID whose
    // retire-prior-to covers every ID the client holds.
    let mut b = Builder::new(Vec::new(), 100);
    write_frame(
        &mut b,
        &Frame::NewConnectionId {
            seqno: 100,
            retire_prior: 100,
            cid: vec![8, 9, 9, 9, 9, 0, 0, 0],
        },
    );
    let payload = b.build();
    let pn = 50u64;
    let dcid = vec![8, 0, 0, 0, 1, 0, 0, 0];
    let scid = Vec::new();
    let bytes = encode_packet(PacketType::Short, &dcid, &scid, pn, &payload);
    let retire_all = Datagram::new(default_addr(), default_addr(), Tos::new(Ecn::NotEct), bytes);

    client.process_input(retire_all, now);
    assert!(matches!(
        client.state(),
        State::Closing {
            error: CloseReason::Transport(Error::InvalidMigration),
            ..
        }
    ));
}
