//! A deterministic test harness for the engine: fixed addresses, a fixed
//! clock base, endpoint builders, and drivers that run a handshake to
//! completion in memory.

use vstd::prelude::*;

use crate::cid::{CidGenerator, CountingConnectionIdGenerator};
use crate::connection::{Connection, Output, State};
use crate::datagram::Datagram;
use crate::inet::{IpAddr, SocketAddr};
use crate::params::ConnectionParameters;
use crate::streams::StreamType;
use crate::time::{Duration, Instant};
use crate::tos::{Ecn, Tos};
use crate::Role;

verus! {

/// The tests' base time: one second past the epoch, so that spans of time
/// can also be subtracted from it.
pub const BASE_TIME_MICROS: u64 = 1_000_000;

/// The time every test starts at.
pub fn now() -> (r: Instant)
    ensures
        r.micros == BASE_TIME_MICROS,
{
    Instant::from_micros(BASE_TIME_MICROS)
}

/// The default address both endpoints use: one fixed link-local IPv6 host.
pub fn default_addr() -> (r: SocketAddr)
    ensures
        r == spec_default_addr(),
{
    SocketAddr::new(IpAddr::v6(0xfe80, 0, 0, 0, 0, 0, 0, 1), 443)
}

/// The default address as a value.
pub open spec fn spec_default_addr() -> SocketAddr {
    SocketAddr {
        ip: IpAddr::V6(
            ((0xfe80u16 as u128) << 112 | (0u16 as u128) << 96 | (0u16 as u128) << 80 | (
            0u16 as u128) << 64 | (0u16 as u128) << 48 | (0u16 as u128) << 32 | (
            0u16 as u128) << 16 | (1u16 as u128)),
        ),
        port: 443,
    }
}

/// The IPv4 twin of the default address.
pub fn default_addr_v4() -> (r: SocketAddr)
    ensures
        r.ip.spec_is_ipv4(),
        r.port == 443,
{
    SocketAddr::new(IpAddr::v4(192, 0, 2, 1), 443)
}

/// A datagram between the default addresses, marked Ect0 as received
/// traffic usually is in these tests.
pub fn datagram(data: Vec<u8>) -> (r: Datagram)
    ensures
        r.payload@ == data@,
        r.tos.ecn == Ecn::Ect0,
        r.src == spec_default_addr(),
        r.dst == spec_default_addr(),
{
    Datagram::new(default_addr(), default_addr(), Tos::new(Ecn::Ect0), data)
}

/// A client with the given configuration at the default addresses.
pub fn new_client(params: ConnectionParameters) -> (r: Connection)
    ensures
        r.wf(),
        r.role == Role::Client,
{
    Connection::new_client(
        CidGenerator::Counting(CountingConnectionIdGenerator::new()),
        default_addr(),
        default_addr(),
        params,
        now(),
    )
}

/// A client with default configuration.
pub fn default_client() -> (r: Connection)
    ensures
        r.wf(),
        r.role == Role::Client,
{
    new_client(ConnectionParameters::default())
}

/// A server with the given configuration.
pub fn new_server(params: ConnectionParameters) -> (r: Connection)
    ensures
        r.wf(),
        r.role == Role::Server,
{
    Connection::new_server(
        CidGenerator::Counting(CountingConnectionIdGenerator::new()),
        params,
        now(),
    )
}

/// A server with default configuration.
pub fn default_server() -> (r: Connection)
    ensures
        r.wf(),
        r.role == Role::Server,
{
    new_server(ConnectionParameters::default())
}

/// A server configured as for the HTTP layer: identical but unpaced, so
/// tests can drain it without waiting.
pub fn default_server_h3() -> (r: Connection)
    ensures
        r.wf(),
        r.role == Role::Server,
{
    new_server(ConnectionParameters::default().pacing(false))
}

/// Grants the peer's credentials when the connection asked for judgement:
/// the pending events are drained, and when one of them was the request to
/// authenticate, the credentials are granted and true comes back.
pub fn maybe_authenticate(conn: &mut Connection) -> (r: bool)
    requires
        old(conn).wf(),
    ensures
        final(conn).wf(),
        r == (exists|i: int|
            0 <= i < old(conn).events.events@.len() && (#[trigger] old(
                conn,
            ).events.events@[i]) is AuthenticationNeeded),
        r && old(conn).hs == crate::connection::HandshakeProgress::AuthenticationPending && old(
            conn,
        ).role == crate::Role::Client ==> final(conn).state == State::Connected,
{
    let events = conn.events();
    let mut seen = false;
    let mut i: usize = 0;
    while i < events.len()
        invariant
            conn.wf(),
            i <= events@.len(),
            events@ == old(conn).events.events@,
            conn.hs == old(conn).hs,
            conn.role == old(conn).role,
            conn.state == old(conn).state,
            seen == (exists|j: int|
                0 <= j < i && (#[trigger] events@[j]) is AuthenticationNeeded),
        decreases events@.len() - i,
    {
        if let crate::events::ConnectionEvent::AuthenticationNeeded = events[i] {
            seen = true;
        }
        i = i + 1;
    }
    if seen {
        conn.authenticated(now());
    }
    seen
}

/// Whether the handshake driver is finished with this endpoint.
fn is_done(c: &Connection) -> (r: bool) {
    match c.state() {
        State::Confirmed => true,
        State::Closing { .. } => true,
        State::Closed(_) => true,
        _ => false,
    }
}

/// Carries the two endpoints' handshake to completion by ferrying their
/// datagrams back and forth.  The exchange is bounded; a handshake that
/// does not finish within the bound is left as it stands.
pub fn handshake(client: &mut Connection, server: &mut Connection)
    requires
        old(client).wf(),
        old(server).wf(),
    ensures
        final(client).wf(),
        final(server).wf(),
{
    let mut a_is_client = true;
    let mut dgram: Option<Datagram> = Option::None;
    let mut fuel: usize = 64;
    while fuel > 0
        invariant
            client.wf(),
            server.wf(),
        decreases fuel,
    {
        fuel = fuel - 1;
        let done = if a_is_client {
            is_done(client)
        } else {
            is_done(server)
        };
        if done {
            break ;
        }
        let d = if a_is_client {
            let _ = maybe_authenticate(client);
            client.process(dgram, now())
        } else {
            let _ = maybe_authenticate(server);
            server.process(dgram, now())
        };
        dgram = d.dgram();
        a_is_client = !a_is_client;
    }
}

/// Builds a connected pair: a default client and server that completed
/// their handshake.
pub fn connect() -> (r: (Connection, Connection))
    ensures
        r.0.wf(),
        r.1.wf(),
{
    let mut client = default_client();
    let mut server = default_server();
    handshake(&mut client, &mut server);
    (client, server)
}

/// Runs both endpoints until neither has anything left to send, ferrying
/// everything produced meanwhile.
pub fn force_idle(client: &mut Connection, server: &mut Connection)
    requires
        old(client).wf(),
        old(server).wf(),
    ensures
        final(client).wf(),
        final(server).wf(),
{
    let mut fuel: usize = 64;
    while fuel > 0
        invariant
            client.wf(),
            server.wf(),
        decreases fuel,
    {
        fuel = fuel - 1;
        let cd = client.process_output(now());
        let c_out = cd.dgram();
        let had_c = c_out.is_some();
        if let Option::Some(d) = c_out {
            server.process_input(d, now());
        }
        let sd = server.process_output(now());
        let s_out = sd.dgram();
        let had_s = s_out.is_some();
        if let Option::Some(d) = s_out {
            client.process_input(d, now());
        }
        if !had_c && !had_s {
            break ;
        }
    }
}

/// Connects a pair and drains it to silence.
pub fn connect_force_idle(client: &mut Connection, server: &mut Connection)
    requires
        old(client).wf(),
        old(server).wf(),
    ensures
        final(client).wf(),
        final(server).wf(),
{
    handshake(client, server);
    force_idle(client, server);
}

/// Queues a little stream data and returns the next datagram it rides in,
/// when one can be sent at once.
pub fn send_something(conn: &mut Connection, at: Instant) -> (r: Option<Datagram>)
    requires
        old(conn).wf(),
    ensures
        final(conn).wf(),
{
    let id = match conn.stream_create(StreamType::UniDi) {
        Ok(i) => i,
        Err(_) => {
            return Option::None;
        },
    };
    let payload: [u8; 4] = [100, 97, 116, 97];
    let _ = conn.stream_send(id, payload.as_slice());
    let _ = conn.stream_close_send(id);
    conn.process_output(at).dgram()
}

/// Like `send_something`, but rides out one pacing delay first when the
/// pacer asks for it.  Returns the datagram and the delay waited.
pub fn send_something_paced(conn: &mut Connection, at: Instant) -> (r: (
    Option<Datagram>,
    Duration,
))
    requires
        old(conn).wf(),
    ensures
        final(conn).wf(),
{
    let id = match conn.stream_create(StreamType::UniDi) {
        Ok(i) => i,
        Err(_) => {
            return (Option::None, Duration::zero());
        },
    };
    let payload: [u8; 4] = [100, 97, 116, 97];
    let _ = conn.stream_send(id, payload.as_slice());
    let _ = conn.stream_close_send(id);
    match conn.process_output(at) {
        Output::Datagram(d) => (Option::Some(d), Duration::zero()),
        Output::Callback(delay) => {
            let later = at.plus(delay);
            (conn.process_output(later).dgram(), delay)
        },
        Output::Nothing => (Option::None, Duration::zero()),
    }
}

/// Splits the first packet off a coalesced datagram: a long header carries
/// its own length, a short header runs to the end.  No byte is lost or
/// changed, and both parts keep the datagram's addresses and mark.
pub fn split_datagram(d: &Datagram) -> (r: (Datagram, Option<Datagram>))
    requires
        d.payload@.len() <= 65_527,
    ensures
        // Reassembling the parts gives the original bytes back.
        r.0.payload@ + (match r.1 {
            Option::Some(rest) => rest.payload@,
            Option::None => Seq::<u8>::empty(),
        }) == d.payload@,
        r.0.src == d.src && r.0.dst == d.dst && r.0.tos == d.tos,
        (match r.1 {
            Option::Some(rest) => rest.src == d.src && rest.dst == d.dst && rest.tos == d.tos,
            Option::None => true,
        }),
        // A short header runs to the end: nothing is split off.
        d.payload@.len() > 0 && d.payload@[0] & 0x80 == 0 ==> r.0.payload@ == d.payload@ && r.1
            is None,
{
    let buf = d.payload();
    if buf.len() == 0 {
        return (
            Datagram::new(d.source(), d.destination(), d.tos(), Vec::new()),
            Option::None,
        );
    }
    let first_len = first_packet_len(buf.as_slice());
    let cut = if first_len == 0 || first_len > buf.len() {
        buf.len()
    } else {
        first_len
    };
    let a = crate::frame::copy_range(buf.as_slice(), 0, cut);
    let rest = if cut < buf.len() {
        Option::Some(
            Datagram::new(
                d.source(),
                d.destination(),
                d.tos(),
                crate::frame::copy_range(buf.as_slice(), cut, buf.len()),
            ),
        )
    } else {
        Option::None
    };
    (Datagram::new(d.source(), d.destination(), d.tos(), a), rest)
}

/// The length of the first packet in `buf`, or zero when it cannot be read.
fn first_packet_len(buf: &[u8]) -> (r: usize)
    requires
        buf@.len() <= 65_527,
    ensures
        r <= buf@.len(),
        buf@.len() > 0 && buf@[0] & 0x80 == 0 ==> r == buf@.len(),
{
    if buf.len() == 0 {
        return 0;
    }
    if buf[0] & 0x80 == 0 {
        return buf.len();
    }
    if buf.len() < 6 {
        return 0;
    }
    let mut q: usize = 5;
    let dlen = buf[q] as usize;
    if dlen > 20 || buf.len() - q - 1 < dlen {
        return 0;
    }
    q = q + 1 + dlen;
    if q >= buf.len() {
        return 0;
    }
    let slen = buf[q] as usize;
    if slen > 20 || buf.len() - q - 1 < slen {
        return 0;
    }
    q = q + 1 + slen;
    let (plen, q2) = match crate::varint::read_varint(buf, q) {
        Option::Some(v) => v,
        Option::None => {
            return 0;
        },
    };
    if plen > 65_527 || plen as usize > buf.len() - q2 {
        return 0;
    }
    q2 + plen as usize
}

/// Makes a valid-looking encrypted-hello configuration invalid by changing
/// its identifier, leaving everything else alone.
pub fn damage_ech_config(config: &[u8]) -> (r: Vec<u8>)
    requires
        config@.len() >= 7,
        config@[2] == 0xfe,
        config@[3] == 0x0d,
    ensures
        r@.len() == config@.len(),
        r@[6] == config@[6] ^ 0x94,
        forall|i: int| 0 <= i < r@.len() && i != 6 ==> r@[i] == config@[i],
{
    let mut cfg = crate::frame::copy_range(config, 0, config.len());
    let flipped = cfg[6] ^ 0x94;
    cfg.set(6, flipped);
    cfg
}

} // verus!
