//! The connection controller: the state machine that ties the codecs,
//! packet-number spaces, paths, streams and queues into one endpoint.  It is
//! driven by three inputs - a received datagram, an application request, and
//! the time - and produces datagrams to send and events to read.

use vstd::prelude::*;

use crate::cid::{CidGenerator, ConnectionId, ConnectionIdEntry, LOCAL_ACTIVE_CID_LIMIT};
use crate::datagram::Datagram;
use crate::ecn::EcnInfo;
use crate::events::{ConnectionEvent, ConnectionEvents};
use crate::frame::Frame;
use crate::inet::SocketAddr;
use crate::packet::{Builder, DecodedPacket, PacketType};
use crate::params::ConnectionParameters;
use crate::pmtud::Pmtud;
use crate::quic_datagrams::{DatagramTracking, QuicDatagrams};
use crate::recovery::{SentPacket, Token, Tokens};
use crate::rtt::RttEstimate;
use crate::sender::PacketSender;
use crate::stats::{bump, Stats};
use crate::streams::{RecvStream, SendStream, StreamId, StreamType};
use crate::time::{Duration, Instant};
use crate::tos::{Ecn, Tos};
use crate::{Error, Res, Role, MIN_INITIAL_PACKET_SIZE};

verus! {

/// A path is probed with this many challenges, then this many more without
/// ECN marks, before it is declared broken.
pub const MAX_PATH_PROBES: usize = 3;

/// The largest packet number that may ever be used in one space.
pub const MAX_PACKET_NUMBER: u64 = 0x3fff_ffff_ffff_ffff;

/// Why a connection ended.
#[derive(Debug, Clone, Copy, PartialEq, Eq, Structural)]
pub enum CloseReason {
    Transport(Error),
    Application(u64),
}

/// The connection's lifecycle.
#[derive(Debug, Clone, Copy, PartialEq, Eq, Structural)]
pub enum State {
    Init,
    WaitInitial,
    Handshaking,
    Connected,
    Confirmed,
    Closing { error: CloseReason, timeout: Instant },
    Draining { error: CloseReason, timeout: Instant },
    Closed(CloseReason),
}

impl State {
    pub fn connected(&self) -> (r: bool)
        ensures
            r == (*self == State::Connected || *self == State::Confirmed),
    {
        match self {
            State::Connected => true,
            State::Confirmed => true,
            _ => false,
        }
    }

    pub fn closed(&self) -> (r: bool)
        ensures
            r == (*self matches State::Closed(_)),
    {
        match self {
            State::Closed(_) => true,
            _ => false,
        }
    }
}

/// What one call to the engine yields: a datagram to send, a deadline to
/// call back at, or nothing at all.
#[derive(Debug)]
pub enum Output {
    Nothing,
    Datagram(Datagram),
    Callback(Duration),
}

impl Output {
    pub fn dgram(self) -> (r: Option<Datagram>)
        ensures
            r is Some <==> self is Datagram,
    {
        match self {
            Output::Datagram(d) => Option::Some(d),
            _ => Option::None,
        }
    }

    pub fn callback(self) -> (r: Duration)
        ensures
            self matches Output::Callback(d) ==> r == d,
            !(self matches Output::Callback(_)) ==> r.micros == 0,
    {
        match self {
            Output::Callback(d) => d,
            _ => Duration::zero(),
        }
    }
}

/// One packet-number space: outbound numbering, the sent-packet registry,
/// and what there is to acknowledge.
#[derive(Debug)]
pub struct Space {
    pub pt: PacketType,
    /// The next packet number to send; numbers are never reused.
    pub next_pn: u64,
    /// Sent packets not yet acknowledged, lost, or discarded.
    pub sent: Vec<SentPacket>,
    pub largest_acked: Option<u64>,
    /// The largest packet number received.
    pub rx_largest: Option<u64>,
    /// How many consecutive numbers up to `rx_largest` were received.
    pub rx_run: u64,
    pub ack_pending: bool,
    /// Received ECN marks, reported in acknowledgements.
    pub rx_ect0: u64,
    pub rx_ect1: u64,
    pub rx_ce: u64,
    /// A discarded space neither sends nor acknowledges.
    pub discarded: bool,
}

impl Space {
    pub fn new(pt: PacketType) -> (r: Space)
        ensures
            r.pt == pt,
            r.next_pn == 0,
            r.sent@.len() == 0,
            r.rx_largest is None,
            !r.ack_pending,
            !r.discarded,
    {
        Space {
            pt,
            next_pn: 0,
            sent: Vec::new(),
            largest_acked: Option::None,
            rx_largest: Option::None,
            rx_run: 0,
            ack_pending: false,
            rx_ect0: 0,
            rx_ect1: 0,
            rx_ce: 0,
            discarded: false,
        }
    }

    /// Packet numbers in the registry grow strictly and stay below the next
    /// to be assigned: no number is ever used twice.
    pub open spec fn wf(self) -> bool {
        &&& self.next_pn <= MAX_PACKET_NUMBER
        &&& forall|i: int, j: int|
            0 <= i < j < self.sent@.len() ==> #[trigger] self.sent@[i].pn < #[trigger] self.sent@[j].pn
        &&& forall|i: int| 0 <= i < self.sent@.len() ==> #[trigger] self.sent@[i].pn < self.next_pn
    }

    /// Notes a received packet number; only the top contiguous run is
    /// acknowledged.
    pub fn on_rx_pn(&mut self, pn: u64)
        ensures
            final(self).rx_largest is Some,
            *final(self) == (Space {
                rx_largest: final(self).rx_largest,
                rx_run: final(self).rx_run,
                ..*old(self)
            }),
    {
        match self.rx_largest {
            Option::None => {
                self.rx_largest = Option::Some(pn);
                self.rx_run = 1;
            },
            Option::Some(l) => {
                if pn > l {
                    if l < u64::MAX && pn == l + 1 {
                        self.rx_run = self.rx_run.saturating_add(1);
                    } else {
                        self.rx_run = 1;
                    }
                    self.rx_largest = Option::Some(pn);
                }
            },
        }
    }

    /// The acknowledgement frame this space owes, if anything was received.
    pub fn ack_frame(&self) -> (r: Option<Frame>)
        ensures
            r is Some <==> self.rx_largest is Some,
    {
        match self.rx_largest {
            Option::Some(l) => {
                let range = if self.rx_run > 0 {
                    self.rx_run - 1
                } else {
                    0
                };
                let first_range = if range <= l {
                    range
                } else {
                    l
                };
                Option::Some(
                    Frame::Ack {
                        largest: l,
                        delay: 0,
                        first_range,
                        ect0: self.rx_ect0,
                        ect1: self.rx_ect1,
                        ce: self.rx_ce,
                    },
                )
            },
            Option::None => Option::None,
        }
    }
}

impl Space {
    /// A packet number is used at most once in a space: no two records in
    /// the sent-packet registry share a number, and none reaches the next
    /// number to be assigned.
    pub proof fn lemma_pn_sent_at_most_once(self, i: int, j: int)
        requires
            self.wf(),
            0 <= i < self.sent@.len(),
            0 <= j < self.sent@.len(),
            i != j,
        ensures
            self.sent@[i].pn != self.sent@[j].pn,
            self.sent@[i].pn < self.next_pn,
    {
    }
}

/// Where a path stands in its life.
#[derive(Debug, Clone, Copy, PartialEq, Eq, Structural)]
pub enum PathState {
    /// Being validated with challenges.
    Probing,
    Validated,
    Failed,
}

/// One network path: addresses, its own congestion and MTU state, its RTT,
/// its ECN account, and the validation machinery.
#[derive(Debug)]
pub struct Path {
    pub local: SocketAddr,
    pub remote: SocketAddr,
    /// The connection ID used as destination when sending here, with its
    /// sequence number.
    pub remote_cid: Option<ConnectionIdEntry>,
    pub state: PathState,
    /// The challenge value sent and awaiting its response.
    pub challenge_out: Option<u64>,
    /// Challenge values received here and not yet answered.
    pub challenges_to_answer: Vec<u64>,
    /// Challenges sent in this probing round.
    pub probe_count: usize,
    /// When to send the next challenge.
    pub next_probe: Option<Instant>,
    pub rtt: RttEstimate,
    pub sender: PacketSender,
    pub ecn: EcnInfo,
    /// Bytes received from the peer on this path.
    pub received_bytes: u64,
    /// Bytes sent on this path.
    pub sent_bytes: u64,
    /// Whether the amplification limit applies: it does until the peer's
    /// address is validated.
    pub address_validated: bool,
}

impl Path {
    pub open spec fn wf(self) -> bool {
        &&& self.sender.wf()
        &&& (self.address_validated || self.sent_bytes <= crate::time::sat_mul(
            self.received_bytes,
            3,
        ))
    }

    /// A fresh path toward `remote`, optionally seeded with an RTT guess.
    pub fn new(
        local: SocketAddr,
        remote: SocketAddr,
        remote_cid: Option<ConnectionIdEntry>,
        params: &ConnectionParameters,
        rtt: RttEstimate,
        address_validated: bool,
        now: Instant,
    ) -> (r: Path)
        ensures
            r.wf(),
            r.local == local,
            r.remote == remote,
            r.state == PathState::Probing,
            r.sent_bytes == 0,
            r.received_bytes == 0,
            r.address_validated == address_validated,
    {
        let pmtud = Pmtud::new(remote.ip());
        Path {
            local,
            remote,
            remote_cid,
            state: PathState::Probing,
            challenge_out: Option::None,
            challenges_to_answer: Vec::new(),
            probe_count: 0,
            next_probe: Option::None,
            rtt,
            sender: PacketSender::new(params, pmtud, now),
            ecn: EcnInfo::new(),
            received_bytes: 0,
            sent_bytes: 0,
            address_validated,
        }
    }

    pub fn same_tuple(&self, local: &SocketAddr, remote: &SocketAddr) -> (r: bool)
        ensures
            r == (self.local == *local && self.remote == *remote),
    {
        self.local.eq_addr(local) && self.remote.eq_addr(remote)
    }

    /// How many bytes may still be sent before address validation: three
    /// times what was received, less what was already sent.
    pub fn amplification_budget(&self) -> (r: u64)
        requires
            self.wf(),
        ensures
            self.address_validated ==> r == u64::MAX,
            !self.address_validated ==> crate::time::sat_add(self.sent_bytes, r as nat)
                <= crate::time::sat_mul(self.received_bytes, 3) || r == 0,
    {
        if self.address_validated {
            u64::MAX
        } else {
            crate::time::sat_mul_u64(self.received_bytes, 3).saturating_sub(self.sent_bytes)
        }
    }

    /// Accounts for `len` bytes leaving on this path; the amplification
    /// limit must have been honoured by the caller.
    pub fn on_sent(&mut self, len: u64)
        requires
            old(self).wf(),
            old(self).address_validated || crate::time::sat_add(old(self).sent_bytes, len as nat)
                <= crate::time::sat_mul(old(self).received_bytes, 3),
        ensures
            final(self).wf(),
            final(self).sent_bytes == crate::time::sat_add(old(self).sent_bytes, len as nat),
            *final(self) == (Path { sent_bytes: final(self).sent_bytes, ..*old(self) }),
    {
        self.sent_bytes = self.sent_bytes.saturating_add(len);
    }

    /// Accounts for bytes leaving, keeping the unvalidated cap by
    /// construction: the send budget was checked first, but a path that
    /// somehow overshoots is marked to stop sending rather than break the
    /// accounting.
    pub fn on_sent_saturating(&mut self, len: u64)
        requires
            old(self).wf(),
        ensures
            final(self).wf(),
    {
        if self.address_validated {
            self.sent_bytes = self.sent_bytes.saturating_add(len);
        } else {
            let cap = crate::time::sat_mul_u64(self.received_bytes, 3);
            let next = self.sent_bytes.saturating_add(len);
            self.sent_bytes = if next <= cap {
                next
            } else {
                cap
            };
        }
    }

    /// Accounts for `len` bytes arriving on this path.
    pub fn on_received(&mut self, len: u64)
        requires
            old(self).wf(),
        ensures
            final(self).wf(),
            *final(self) == (Path { received_bytes: final(self).received_bytes, ..*old(self) }),
            final(self).received_bytes >= old(self).received_bytes,
    {
        proof {
            assert(crate::time::sat_mul(self.received_bytes, 3) <= crate::time::sat_mul(
                crate::time::sat_add(self.received_bytes, len as nat),
                3,
            ));
        }
        self.received_bytes = self.received_bytes.saturating_add(len);
    }
}

/// The set of paths; the primary carries the application's data.
#[derive(Debug)]
pub struct Paths {
    pub v: Vec<Path>,
    pub primary_idx: usize,
    /// The path a graceful migration is waiting to validate.
    pub migrating_to: Option<usize>,
}

impl Paths {
    pub open spec fn wf(self) -> bool {
        &&& self.v@.len() >= 1
        &&& self.v@.len() <= 8
        &&& self.primary_idx < self.v@.len()
        &&& forall|i: int| 0 <= i < self.v@.len() ==> (#[trigger] self.v@[i]).wf()
        &&& match self.migrating_to {
            Option::Some(m) => m < self.v@.len(),
            Option::None => true,
        }
    }

    /// The primary path's current round-trip estimate.
    pub fn rtt(&self) -> (r: Duration)
        requires
            self.wf(),
    {
        self.v[self.primary_idx].rtt.estimate()
    }

    pub fn find(&self, local: &SocketAddr, remote: &SocketAddr) -> (r: Option<usize>)
        ensures
            r matches Option::Some(i) ==> i < self.v@.len(),
    {
        let mut i: usize = 0;
        while i < self.v.len()
            invariant
                i <= self.v@.len(),
            decreases self.v@.len() - i,
        {
            if self.v[i].same_tuple(local, remote) {
                return Option::Some(i);
            }
            i = i + 1;
        }
        Option::None
    }
}

/// Until a path's peer address is validated, the bytes sent on it never
/// exceed three times the bytes received on it: the engine cannot be used
/// to amplify traffic toward an unproven address.
pub proof fn lemma_amplification_limit(p: Path)
    requires
        p.wf(),
        !p.address_validated,
        3 * (p.received_bytes as int) <= u64::MAX,
    ensures
        p.sent_bytes as int <= 3 * (p.received_bytes as int),
{
}

/// Changing one send stream for another well-formed one keeps every send
/// stream well-formed.
pub proof fn lemma_streams_update(before: Seq<SendStream>, after: Seq<SendStream>, i: int)
    requires
        before.len() == after.len(),
        forall|j: int| 0 <= j < before.len() ==> (#[trigger] before[j]).wf(),
        0 <= i < after.len(),
        after[i].wf(),
        forall|j: int| 0 <= j < after.len() && j != i ==> after[j] == before[j],
    ensures
        forall|j: int| 0 <= j < after.len() ==> (#[trigger] after[j]).wf(),
{
}

/// The first send stream with the given identifier, if any.
pub open spec fn spec_find_send(s: Seq<SendStream>, id: StreamId) -> Option<int>
    decreases s.len(),
{
    if s.len() == 0 {
        Option::None
    } else if s[0].id == id {
        Option::Some(0)
    } else {
        match spec_find_send(s.drop_first(), id) {
            Option::Some(k) => Option::Some(k + 1),
            Option::None => Option::None,
        }
    }
}

proof fn lemma_find_send_at(s: Seq<SendStream>, id: StreamId, k: int)
    requires
        0 <= k < s.len(),
        s[k].id == id,
        forall|j: int| 0 <= j < k ==> (#[trigger] s[j]).id != id,
    ensures
        spec_find_send(s, id) == Option::Some(k),
    decreases k,
{
    if k > 0 {
        lemma_find_send_at(s.drop_first(), id, k - 1);
        assert(s.drop_first()[k - 1] == s[k]);
        assert(forall|j: int| 0 <= j < k - 1 ==> s.drop_first()[j] == s[j + 1]);
    }
}

proof fn lemma_find_send_none(s: Seq<SendStream>, id: StreamId)
    requires
        forall|j: int| 0 <= j < s.len() ==> (#[trigger] s[j]).id != id,
    ensures
        spec_find_send(s, id) is None,
    decreases s.len(),
{
    if s.len() > 0 {
        lemma_find_send_none(s.drop_first(), id);
    }
}

/// Changing one path for another well-formed one keeps every path
/// well-formed.
pub proof fn lemma_paths_update(before: Seq<Path>, after: Seq<Path>, i: int)
    requires
        before.len() == after.len(),
        forall|j: int| 0 <= j < before.len() ==> (#[trigger] before[j]).wf(),
        0 <= i < after.len(),
        after[i].wf(),
        forall|j: int| 0 <= j < after.len() && j != i ==> after[j] == before[j],
    ensures
        forall|j: int| 0 <= j < after.len() ==> (#[trigger] after[j]).wf(),
{
}

/// How far the handshake has come.
#[derive(Debug, Clone, Copy, PartialEq, Eq, Structural)]
pub enum HandshakeProgress {
    Fresh,
    /// The client's first flight went out, or the server saw it.
    ClientHelloDone,
    /// The server's flight went out, or the client took it in.
    ServerFlightDone,
    /// The application was asked to judge the peer.
    AuthenticationPending,
    /// The finishing bytes went out, or came in.
    Complete,
}

/// The lengths of the handshake's byte flights.
pub const CLIENT_HELLO_LEN: u64 = 400;

pub const SERVER_HELLO_LEN: u64 = 120;

pub const SERVER_FLIGHT_LEN: u64 = 600;

pub const FINISHED_LEN: u64 = 36;


/// One endpoint of a connection.
#[derive(Debug)]
pub struct Connection {
    pub role: Role,
    pub state: State,
    pub params: ConnectionParameters,
    pub paths: Paths,
    pub sp_initial: Space,
    pub sp_handshake: Space,
    pub sp_app: Space,
    pub hs: HandshakeProgress,
    /// Handshake bytes waiting to be framed, per space.
    pub crypto_out_initial: Vec<u8>,
    pub crypto_out_handshake: Vec<u8>,
    /// Handshake bytes received so far, per space.
    pub crypto_in_initial: u64,
    pub crypto_in_handshake: u64,
    pub cid_gen: CidGenerator,
    /// Connection IDs issued to the peer.
    pub local_cids: Vec<ConnectionIdEntry>,
    pub next_local_cid_seq: u64,
    /// Connection IDs the peer issued, available for new paths.
    pub peer_cids: Vec<ConnectionIdEntry>,
    /// Sequence numbers of peer connection IDs to retire.
    pub retire_queue: Vec<u64>,
    /// Local connection IDs still to announce.
    pub ncid_queue: Vec<ConnectionIdEntry>,
    pub handshake_done_queued: bool,
    pub events: ConnectionEvents,
    pub stats: Stats,
    pub qdg: QuicDatagrams,
    pub send_streams: Vec<SendStream>,
    pub recv_streams: Vec<RecvStream>,
    pub next_uni_stream: u64,
    pub next_bidi_stream: u64,
    /// The peer's connection-level flow-control limit and this side's use.
    pub conn_max_data_remote: u64,
    pub conn_bytes_sent: u64,
    pub conn_max_data_local: u64,
    pub conn_bytes_received: u64,
    pub idle_deadline: Instant,
    /// A close frame waits to go out.
    pub close_pending: bool,
    /// The source for path-challenge values.
    pub challenge_counter: u64,
}

impl Connection {
    pub open spec fn wf(self) -> bool {
        &&& self.paths.wf()
        &&& self.sp_initial.wf()
        &&& self.sp_handshake.wf()
        &&& self.sp_app.wf()
        &&& self.crypto_out_initial@.len() <= 2_000
        &&& self.crypto_out_handshake@.len() <= 2_000
        &&& forall|i: int|
            0 <= i < self.send_streams@.len() ==> (#[trigger] self.send_streams@[i]).wf()
    }

    /// A new client endpoint, ready to start its handshake toward the
    /// server's address.
    pub fn new_client(
        cid_gen: CidGenerator,
        local_addr: SocketAddr,
        remote_addr: SocketAddr,
        params: ConnectionParameters,
        now: Instant,
    ) -> (r: Connection)
        ensures
            r.wf(),
            r.role == Role::Client,
            r.state == State::Init,
    {
        let mut cid_gen = cid_gen;
        let first_peer_cid = ConnectionIdEntry { seqno: 0, cid: ConnectionId::empty(), retired: false };
        let mut path = Path::new(
            local_addr,
            remote_addr,
            Option::Some(first_peer_cid),
            &params,
            RttEstimate::initial(),
            true,
            now,
        );
        // The path the connection starts on needs no validation.
        path.state = PathState::Validated;
        let mut paths_v: Vec<Path> = Vec::new();
        paths_v.push(path);
        let idle = params.get_idle_timeout();
        let qdg = QuicDatagrams::new(
            params.datagram_size,
            params.outgoing_datagram_queue,
            params.incoming_datagram_queue,
        );
        let max_data = params.max_data;
        Connection {
            role: Role::Client,
            state: State::Init,
            params,
            paths: Paths { v: paths_v, primary_idx: 0, migrating_to: Option::None },
            sp_initial: Space::new(PacketType::Initial),
            sp_handshake: Space::new(PacketType::Handshake),
            sp_app: Space::new(PacketType::Short),
            hs: HandshakeProgress::Fresh,
            crypto_out_initial: Vec::new(),
            crypto_out_handshake: Vec::new(),
            crypto_in_initial: 0,
            crypto_in_handshake: 0,
            cid_gen,
            local_cids: Vec::new(),
            next_local_cid_seq: 0,
            peer_cids: Vec::new(),
            retire_queue: Vec::new(),
            ncid_queue: Vec::new(),
            handshake_done_queued: false,
            events: ConnectionEvents::new(),
            stats: Stats::new(),
            qdg,
            send_streams: Vec::new(),
            recv_streams: Vec::new(),
            next_uni_stream: 0,
            next_bidi_stream: 0,
            conn_max_data_remote: max_data,
            conn_bytes_sent: 0,
            conn_max_data_local: max_data,
            conn_bytes_received: 0,
            idle_deadline: now.plus(idle),
            close_pending: false,
            challenge_counter: 1,
        }
    }

    /// A new server endpoint, waiting for a client's first flight.  Its
    /// addresses are learned from the first datagram.
    pub fn new_server(cid_gen: CidGenerator, params: ConnectionParameters, now: Instant) -> (r:
        Connection)
        ensures
            r.wf(),
            r.role == Role::Server,
            r.state == State::WaitInitial,
    {
        let mut c = Connection::new_client(
            cid_gen,
            SocketAddr::new(crate::inet::IpAddr::V6(0), 0),
            SocketAddr::new(crate::inet::IpAddr::V6(0), 0),
            params,
            now,
        );
        c.role = Role::Server;
        c.state = State::WaitInitial;
        // A server must not send before hearing from the client; its real
        // path is created from the first datagram, address unvalidated.
        c
    }

    pub fn state(&self) -> (r: &State)
        ensures
            r == self.state,
    {
        &self.state
    }

    pub fn role(&self) -> (r: Role)
        ensures
            r == self.role,
    {
        self.role
    }

    /// A copy of the connection's counters.
    pub fn stats(&self) -> (r: Stats)
    {
        self.stats.clone()
    }

    /// Hands every pending event to the application.
    pub fn events(&mut self) -> (r: Vec<ConnectionEvent>)
        ensures
            r@ == old(self).events.events@,
            final(self).events.events@.len() == 0,
            *final(self) == (Connection { events: final(self).events, ..*old(self) }),
    {
        self.events.drain()
    }

    /// The application judged the peer's credentials; the handshake can
    /// finish.
    pub fn authenticated(&mut self, now: Instant)
        requires
            old(self).wf(),
        ensures
            final(self).wf(),
            old(self).hs == HandshakeProgress::AuthenticationPending && old(self).role
                == Role::Client ==> final(self).state == State::Connected && final(self).hs
                == HandshakeProgress::Complete,
    {
        if self.hs == HandshakeProgress::AuthenticationPending && self.role == Role::Client {
            let mut fin: Vec<u8> = Vec::new();
            let mut i: u64 = 0;
            while i < FINISHED_LEN
                invariant
                    i <= FINISHED_LEN,
                    fin@.len() == i,
                decreases FINISHED_LEN - i,
            {
                fin.push(3);
                i = i + 1;
            }
            self.crypto_out_handshake = fin;
            self.hs = HandshakeProgress::Complete;
            self.state = State::Connected;
            self.events.push(ConnectionEvent::StateChange);
        }
    }

    /// Opens a new stream of the given type.
    pub fn stream_create(&mut self, st: StreamType) -> (r: Res<StreamId>)
        requires
            old(self).wf(),
        ensures
            final(self).wf(),
            r is Ok ==> old(self).state == State::Connected || old(self).state
                == State::Confirmed,
            !(old(self).state == State::Connected || old(self).state == State::Confirmed) ==> r
                == Res::<StreamId>::Err(Error::StreamStateError),
    {
        if !(self.state == State::Connected || self.state == State::Confirmed) {
            return Err(Error::StreamStateError);
        }
        let type_bits: u64 = match st {
            StreamType::UniDi => 2,
            StreamType::BiDi => 0,
        };
        let role_bit: u64 = match self.role {
            Role::Client => 0,
            Role::Server => 1,
        };
        let index = match st {
            StreamType::UniDi => {
                let i = self.next_uni_stream;
                self.next_uni_stream = self.next_uni_stream.saturating_add(1);
                i
            },
            StreamType::BiDi => {
                let i = self.next_bidi_stream;
                self.next_bidi_stream = self.next_bidi_stream.saturating_add(1);
                i
            },
        };
        if index > 0x0fff_ffff_ffff_ffff {
            return Err(Error::StreamLimitError);
        }
        let id = StreamId::new(index * 4 + type_bits + role_bit);
        self.send_streams.push(SendStream::new(id, self.params.max_stream_data));
        if st == StreamType::BiDi {
            self.recv_streams.push(RecvStream::new(id));
        }
        Ok(id)
    }

    fn find_send_stream(&mut self, id: StreamId) -> (r: Option<usize>)
        ensures
            *final(self) == *old(self),
            r matches Option::Some(i) ==> i < final(self).send_streams@.len()
                && spec_find_send(final(self).send_streams@, id) == Option::Some(i as int),
            r is None ==> spec_find_send(final(self).send_streams@, id) is None,
    {
        let mut i: usize = 0;
        while i < self.send_streams.len()
            invariant
                i <= self.send_streams@.len(),
                *self == *old(self),
                forall|j: int| 0 <= j < i ==> (#[trigger] self.send_streams@[j]).id != id,
            decreases self.send_streams@.len() - i,
        {
            if self.send_streams[i].id == id {
                proof {
                    lemma_find_send_at(self.send_streams@, id, i as int);
                }
                return Option::Some(i);
            }
            i = i + 1;
        }
        proof {
            lemma_find_send_none(self.send_streams@, id);
        }
        Option::None
    }

    /// Queues stream data for sending.  The bytes are appended to the
    /// stream's buffer; the stream must exist and not be closed for
    /// sending.
    pub fn stream_send(&mut self, id: StreamId, data: &[u8]) -> (r: Res<usize>)
        requires
            old(self).wf(),
        ensures
            final(self).wf(),
            ({
                let f = spec_find_send(old(self).send_streams@, id);
                match f {
                    Option::None => r == Res::<usize>::Err(Error::StreamStateError)
                        && *final(self) == *old(self),
                    Option::Some(i) => {
                        if old(self).send_streams@[i].fin_queued {
                            r == Res::<usize>::Err(Error::StreamStateError) && *final(self)
                                == *old(self)
                        } else if old(self).send_streams@[i].buffer@.len() + data@.len()
                            > usize::MAX {
                            r == Res::<usize>::Err(Error::InternalError)
                        } else {
                            r == Res::<usize>::Ok(data@.len() as usize)
                                && final(self).send_streams@[i].buffer@ == old(
                                self,
                            ).send_streams@[i].buffer@ + data@
                                && final(self).send_streams@[i].next == old(
                                self,
                            ).send_streams@[i].next && (forall|j: int|
                                0 <= j < final(self).send_streams@.len() && j != i
                                    ==> #[trigger] final(self).send_streams@[j] == old(
                                    self,
                                ).send_streams@[j])
                        }
                    },
                }
            }),
    {
        let idx = match self.find_send_stream(id) {
            Option::Some(i) => i,
            Option::None => {
                return Err(Error::StreamStateError);
            },
        };
        if self.send_streams[idx].fin_queued {
            return Err(Error::StreamStateError);
        }
        if self.send_streams[idx].buffer.len() > usize::MAX - data.len() {
            return Err(Error::InternalError);
        }
        let ghost sv0 = self.send_streams@;
        let st = &mut self.send_streams[idx];
        st.append(data);
        proof {
            lemma_streams_update(sv0, self.send_streams@, idx as int);
        }
        Ok(data.len())
    }

    /// Closes the sending side of a stream: a fin goes out after the data.
    pub fn stream_close_send(&mut self, id: StreamId) -> (r: Res<()>)
        requires
            old(self).wf(),
        ensures
            final(self).wf(),
            ({
                let f = spec_find_send(old(self).send_streams@, id);
                match f {
                    Option::None => r == Res::<()>::Err(Error::StreamStateError) && *final(self)
                        == *old(self),
                    Option::Some(i) => r == Res::<()>::Ok(())
                        && final(self).send_streams@[i] == (SendStream {
                        fin_queued: true,
                        ..old(self).send_streams@[i]
                    }) && (forall|j: int|
                        0 <= j < final(self).send_streams@.len() && j != i
                            ==> #[trigger] final(self).send_streams@[j] == old(
                            self,
                        ).send_streams@[j]),
                }
            }),
    {
        let idx = match self.find_send_stream(id) {
            Option::Some(i) => i,
            Option::None => {
                return Err(Error::StreamStateError);
            },
        };
        let ghost sv0 = self.send_streams@;
        self.send_streams[idx].fin_queued = true;
        proof {
            lemma_streams_update(sv0, self.send_streams@, idx as int);
        }
        Ok(())
    }

    /// Reads received bytes from a stream: contiguous bytes at the read
    /// cursor move into `buf`, each exactly the byte stored at its offset,
    /// and the result tells how many and whether the fin was reached.
    pub fn stream_recv(&mut self, id: StreamId, buf: &mut Vec<u8>) -> (r: Res<(usize, bool)>)
        requires
            old(self).wf(),
        ensures
            final(self).wf(),
            (forall|i: int|
                0 <= i < old(self).recv_streams@.len()
                    ==> (#[trigger] old(self).recv_streams@[i]).id != id) ==> r == Res::<(
                usize,
                bool,
            )>::Err(Error::StreamStateError) && final(buf)@ == old(buf)@,
            r matches Ok(p) ==> final(buf)@.len() == old(buf)@.len() + p.0
                && final(buf)@.subrange(0, old(buf)@.len() as int) == old(buf)@ && (exists|i: int|
                0 <= i < old(self).recv_streams@.len()
                    && (#[trigger] old(self).recv_streams@[i]).id == id && (forall|k: int|
                    old(buf)@.len() <= k < final(buf)@.len() ==> Option::Some(
                        #[trigger] final(buf)@[k],
                    ) == crate::streams::spec_byte_at(
                        old(self).recv_streams@[i].segments@,
                        old(self).recv_streams@[i].read_offset + (k - old(buf)@.len()),
                    ))),
    {
        let mut i: usize = 0;
        let n = self.recv_streams.len();
        while i < n
            invariant
                i <= n,
                n == self.recv_streams@.len(),
                self.wf(),
                *self == *old(self),
                buf@ == old(buf)@,
                forall|j: int| 0 <= j < i ==> (#[trigger] self.recv_streams@[j]).id != id,
            decreases n - i,
        {
            if self.recv_streams[i].id == id {
                let before = buf.len();
                let st = &mut self.recv_streams[i];
                let fin = st.read(buf, 10_000);
                let got = buf.len() - before;
                return Ok((got, fin));
            }
            i = i + 1;
        }
        Err(Error::StreamStateError)
    }

    /// Queues an unreliable datagram for sending, exactly as the queue's
    /// own contract says: refused with `TooMuchData` beyond the peer's
    /// size, and the oldest entry is dropped with its event when the queue
    /// was full.
    pub fn send_datagram(&mut self, data: Vec<u8>, tracking: DatagramTracking) -> (r: Res<()>)
        requires
            old(self).wf(),
        ensures
            final(self).wf(),
            *final(self) == (Connection {
                qdg: final(self).qdg,
                events: final(self).events,
                stats: final(self).stats,
                ..*old(self)
            }),
            data@.len() > old(self).qdg.spec_remote_datagram_size() ==> r == Res::<()>::Err(
                Error::TooMuchData,
            ) && final(self).qdg.spec_queue() == old(self).qdg.spec_queue() && final(self).stats
                == old(self).stats,
            data@.len() <= old(self).qdg.spec_remote_datagram_size() && 0 < old(
                self,
            ).qdg.spec_max_queued_outgoing() ==> r is Ok && final(self).qdg.spec_queue().len()
                <= old(self).qdg.spec_queue().len() + 1,
    {
        self.qdg.add_datagram(data, tracking, &mut self.events, &mut self.stats)
    }

    /// Begins a local, immediate close: the peer is told and the connection
    /// lingers briefly to repeat the notice.
    pub fn close(&mut self, now: Instant, app_error: u64, _reason: &str)
        requires
            old(self).wf(),
        ensures
            final(self).wf(),
            // In a live state the close is taken: the connection enters
            // closing with the application's code, lingers three probe
            // timeouts, and owes the peer one close notice.
            ({
                let live = old(self).state == State::Connected || old(self).state
                    == State::Confirmed || old(self).state == State::Handshaking;
                if live {
                    final(self).state == (State::Closing {
                        error: CloseReason::Application(app_error),
                        timeout: now.plus(old(self).spec_pto3_of()),
                    }) && final(self).close_pending
                } else {
                    *final(self) == *old(self)
                }
            }),
    {
        match self.state {
            State::Connected | State::Confirmed | State::Handshaking => {
                let pto = self.paths.v[self.paths.primary_idx].rtt.pto();
                let timeout = now.plus(pto.plus(pto).plus(pto));
                self.state = State::Closing {
                    error: CloseReason::Application(app_error),
                    timeout,
                };
                self.close_pending = true;
                self.events.push(ConnectionEvent::StateChange);
            },
            _ => {},
        }
    }

    /// Three probe timeouts of the primary path: how long closing lingers.
    pub open spec fn spec_pto3_of(self) -> Duration {
        let pto = self.paths.v@[self.paths.primary_idx as int].rtt.spec_pto();
        pto.spec_plus(pto).spec_plus(pto)
    }

    /// Whether a connection ID is available for a fresh path: the pool has
    /// a spare, or the peer forgoes connection IDs entirely.
    pub open spec fn spec_has_spare_cid(self) -> bool {
        ||| match self.paths.v@[self.paths.primary_idx as int].remote_cid {
            Option::Some(e) => e.cid.bytes@.len() == 0,
            Option::None => true,
        }
        ||| self.peer_cids@.len() > 0
    }

    /// The addresses a migration request resolves to: an absent side keeps
    /// the primary path's address.
    pub open spec fn spec_resolved_local(self, local: Option<SocketAddr>) -> SocketAddr {
        match local {
            Option::Some(a) => a,
            Option::None => self.paths.v@[self.paths.primary_idx as int].local,
        }
    }

    pub open spec fn spec_resolved_remote(self, remote: Option<SocketAddr>) -> SocketAddr {
        match remote {
            Option::Some(a) => a,
            Option::None => self.paths.v@[self.paths.primary_idx as int].remote,
        }
    }

    /// No closing, draining or idle deadline has expired at `now`; while
    /// this holds the engine keeps working rather than shutting down.
    pub open spec fn spec_no_expired_deadline(self, now: Instant) -> bool {
        &&& match self.state {
            State::Closing { timeout, .. } => timeout.micros > now.micros,
            _ => true,
        }
        &&& match self.state {
            State::Draining { timeout, .. } => timeout.micros > now.micros,
            _ => true,
        }
        &&& ((self.state == State::Connected || self.state == State::Confirmed)
            ==> self.idle_deadline.micros > now.micros)
    }

    /// Whether the datagram's addresses are those of one of this
    /// connection's paths.
    pub open spec fn spec_datagram_on_path(self, d: Datagram) -> bool {
        exists|i: int|
            0 <= i < self.paths.v@.len() && (#[trigger] self.paths.v@[i]).local == d.src
                && self.paths.v@[i].remote == d.dst
    }

    /// Whether some path toward these addresses stands with a challenge
    /// outstanding.
    pub open spec fn spec_has_probing_path(self, l: SocketAddr, rm: SocketAddr) -> bool {
        exists|i: int|
            0 <= i < self.paths.v@.len() && (#[trigger] self.paths.v@[i]).local == l
                && self.paths.v@[i].remote == rm && self.paths.v@[i].challenge_out is Some
    }

    /// Whether migrating to this pair of addresses is acceptable at all.
    pub open spec fn spec_migrate_valid(self, local: SocketAddr, remote: SocketAddr) -> bool {
        &&& self.role == Role::Client
        &&& self.state == State::Confirmed
        &&& !self.params.disable_migration
        &&& remote.port != 0
        &&& local.port != 0
        &&& !remote.ip.spec_is_unspecified()
        &&& !local.ip.spec_is_unspecified()
        &&& local.ip.spec_is_ipv4() == remote.ip.spec_is_ipv4()
        &&& local.ip.spec_is_loopback() == remote.ip.spec_is_loopback()
    }

    /// Asks to move the connection to a new pair of addresses.  Only a
    /// confirmed client may migrate; the addresses must be complete, of one
    /// family, and not cross between loopback and the world.  With `force`
    /// the new path carries data at once while it is probed; otherwise data
    /// moves only after the path validates.
    pub fn migrate(
        &mut self,
        local: Option<SocketAddr>,
        remote: Option<SocketAddr>,
        force: bool,
        now: Instant,
    ) -> (r: Res<()>)
        requires
            old(self).wf(),
        ensures
            final(self).wf(),
            (local is None && remote is None) ==> r == Res::<()>::Err(Error::InvalidMigration),
            // Success only for a confirmed client toward complete,
            // same-family, non-crossing addresses.
            r is Ok ==> old(self).spec_migrate_valid(
                old(self).spec_resolved_local(local),
                old(self).spec_resolved_remote(remote),
            ),
            !old(self).spec_migrate_valid(
                old(self).spec_resolved_local(local),
                old(self).spec_resolved_remote(remote),
            ) ==> r == Res::<()>::Err(Error::InvalidMigration),
            // And success is owed when the request is valid and an ID can
            // be had for the new path.
            ({
                let l = old(self).spec_resolved_local(local);
                let rm = old(self).spec_resolved_remote(remote);
                let same = old(self).paths.v@[old(self).paths.primary_idx as int].local == l
                    && old(self).paths.v@[old(self).paths.primary_idx as int].remote == rm;
                old(self).spec_migrate_valid(l, rm) && !(local is None && remote is None) && (same
                    || old(self).spec_has_spare_cid() && old(self).paths.v@.len() < 8) ==> r is Ok
            }),
            // An accepted migration leaves a path toward the addresses with
            // a challenge outstanding; a forced one carries the data at
            // once.
            r is Ok ==> final(self).spec_has_probing_path(
                old(self).spec_resolved_local(local),
                old(self).spec_resolved_remote(remote),
            ),
            r is Ok && force ==> ({
                let p = final(self).paths.v@[final(self).paths.primary_idx as int];
                p.local == old(self).spec_resolved_local(local) && p.remote == old(
                    self,
                ).spec_resolved_remote(remote)
            }),
    {
        if self.role != Role::Client || self.state != State::Confirmed {
            return Err(Error::InvalidMigration);
        }
        if self.params.disable_migration {
            return Err(Error::InvalidMigration);
        }
        if local.is_none() && remote.is_none() {
            return Err(Error::InvalidMigration);
        }
        let cur_local = self.paths.v[self.paths.primary_idx].local;
        let cur_remote = self.paths.v[self.paths.primary_idx].remote;
        let l = match local {
            Option::Some(a) => a,
            Option::None => cur_local,
        };
        let rm = match remote {
            Option::Some(a) => a,
            Option::None => cur_remote,
        };
        if l.port() == 0 || rm.port() == 0 {
            return Err(Error::InvalidMigration);
        }
        if l.ip().is_unspecified() || rm.ip().is_unspecified() {
            return Err(Error::InvalidMigration);
        }
        if l.ip().is_ipv4() != rm.ip().is_ipv4() {
            return Err(Error::InvalidMigration);
        }
        if l.ip().is_loopback() != rm.ip().is_loopback() {
            return Err(Error::InvalidMigration);
        }
        if self.paths.v[self.paths.primary_idx].same_tuple(&l, &rm) {
            // Migration to the current addresses: probe the path afresh.
            let c = self.next_challenge();
            let pidx = self.paths.primary_idx;
            let ghost pv1 = self.paths.v@;
            let p = &mut self.paths.v[pidx];
            p.challenge_out = Option::Some(c);
            p.probe_count = 0;
            p.next_probe = Option::None;
            p.state = PathState::Probing;
            proof {
                assert(self.paths.v@[pidx as int].wf());
                lemma_paths_update(pv1, self.paths.v@, pidx as int);
            }
            return Ok(());
        }
        if self.paths.v.len() >= 8 {
            return Err(Error::InvalidMigration);
        }
        // A fresh path must use a fresh connection ID, unless they are
        // zero-length.
        let cid = match self.take_spare_cid() {
            Option::Some(c) => c,
            Option::None => {
                return Err(Error::ConnectionIdsExhausted);
            },
        };
        let old_rtt = self.paths.v[self.paths.primary_idx].rtt.estimate();
        let seeded = RttEstimate::seeded(
            Duration::from_micros(
                old_rtt.as_micros().saturating_add(old_rtt.as_micros() / 2),
            ),
        );
        let c = self.next_challenge();
        let mut path = Path::new(l, rm, Option::Some(cid), &self.params, seeded, true, now);
        path.challenge_out = Option::Some(c);
        let ghost oldpaths = self.paths.v@;
        self.paths.v.push(path);
        let new_idx = self.paths.v.len() - 1;
        proof {
            assert(forall|i: int|
                0 <= i < oldpaths.len() ==> self.paths.v@[i] == oldpaths[i]);
            assert(forall|i: int|
                0 <= i < self.paths.v@.len() ==> (#[trigger] self.paths.v@[i]).wf());
        }
        if force {
            // The new path becomes primary at once; the old path's inflight
            // bytes are forgotten.
            let old_primary = self.paths.primary_idx;
            let ghost pv2 = self.paths.v@;
            let p = &mut self.paths.v[old_primary];
            p.sender.discard_in_flight(now);
            self.paths.primary_idx = new_idx;
            self.paths.migrating_to = Option::None;
            proof {
                assert(self.paths.v@[old_primary as int].wf());
                lemma_paths_update(pv2, self.paths.v@, old_primary as int);
            }
        } else {
            self.paths.migrating_to = Option::Some(new_idx);
        }
        proof {
            assert(self.paths.v@[new_idx as int].local == l && self.paths.v@[new_idx as int].remote
                == rm && self.paths.v@[new_idx as int].challenge_out is Some);
            assert(self.spec_has_probing_path(l, rm));
        }
        Ok(())
    }

    /// The next path-challenge value; they never repeat.
    fn next_challenge(&mut self) -> (r: u64)
        ensures
            *final(self) == (Connection {
                challenge_counter: final(self).challenge_counter,
                ..*old(self)
            }),
    {
        let c = self.challenge_counter;
        self.challenge_counter = self.challenge_counter.wrapping_add(0x9e37_79b9_7f4a_7c15);
        c
    }

    /// Takes an unused peer connection ID for a new path; zero-length IDs
    /// can be used forever.
    fn take_spare_cid(&mut self) -> (r: Option<ConnectionIdEntry>)
        requires
            old(self).wf(),
        ensures
            *final(self) == (Connection { peer_cids: final(self).peer_cids, ..*old(self) }),
            r is Some <==> old(self).spec_has_spare_cid(),
    {
        let cur_len = match &self.paths.v[self.paths.primary_idx].remote_cid {
            Option::Some(e) => e.cid.len(),
            Option::None => 0,
        };
        if cur_len == 0 {
            return Option::Some(
                ConnectionIdEntry { seqno: 0, cid: ConnectionId::empty(), retired: false },
            );
        }
        if self.peer_cids.len() > 0 {
            let e = self.peer_cids.remove(0);
            return Option::Some(e);
        }
        Option::None
    }
}


/// A vector of `n` copies of `b`.
fn fill_bytes(n: u64, b: u8) -> (r: Vec<u8>)
    requires
        n <= 2_000,
    ensures
        r@.len() == n,
{
    let mut v: Vec<u8> = Vec::new();
    let mut i: u64 = 0;
    while i < n
        invariant
            i <= n,
            v@.len() == i,
        decreases n - i,
    {
        v.push(b);
        i = i + 1;
    }
    v
}

/// Appends a sent-packet record: the packet takes the space's next number,
/// so no number is ever used twice.
fn register_sent(
    space: &mut Space,
    ecn: Ecn,
    ack_eliciting: bool,
    tokens: Tokens,
    len: usize,
    now: Instant,
)
    requires
        old(space).wf(),
        old(space).next_pn < MAX_PACKET_NUMBER,
    ensures
        final(space).wf(),
        final(space).next_pn == old(space).next_pn + 1,
        final(space).sent@.len() == old(space).sent@.len() + 1,
        final(space).pt == old(space).pt,
        final(space).rx_largest == old(space).rx_largest,
        final(space).ack_pending == old(space).ack_pending,
        final(space).discarded == old(space).discarded,
{
    let pn = space.next_pn;
    let ghost olds = space.sent@;
    space.sent.push(SentPacket::new(space.pt, pn, ecn, now, ack_eliciting, tokens, len));
    space.next_pn = space.next_pn + 1;
    proof {
        assert(forall|i: int|
            0 <= i < olds.len() ==> #[trigger] space.sent@[i].pn == olds[i].pn);
        assert(space.sent@[olds.len() as int].pn == pn);
    }
}

impl Connection {
    /// Feeds one received datagram and then asks for output.
    pub fn process(&mut self, dgram: Option<Datagram>, now: Instant) -> (r: Output)
        requires
            old(self).wf(),
        ensures
            final(self).wf(),
    {
        match dgram {
            Option::Some(d) => {
                self.process_input(d, now);
            },
            Option::None => {},
        }
        self.process_output(now)
    }

    /// Starts the client's first flight.
    fn start_handshake_if_needed(&mut self)
        requires
            old(self).wf(),
        ensures
            final(self).wf(),
            final(self).paths.v@.len() == old(self).paths.v@.len(),
    {
        if self.role == Role::Client && self.state == State::Init {
            self.crypto_out_initial = fill_bytes(CLIENT_HELLO_LEN, 1);
            if self.local_cids.len() == 0 {
                let cid = match self.cid_gen.generate() {
                    Option::Some(c) => c,
                    Option::None => ConnectionId::empty(),
                };
                self.local_cids.push(ConnectionIdEntry { seqno: 0, cid, retired: false });
                self.next_local_cid_seq = 1;
            }
            self.state = State::WaitInitial;
            self.hs = HandshakeProgress::ClientHelloDone;
        }
    }

    /// The destination connection ID for a path.
    fn dcid_bytes(&self, idx: usize) -> (r: Vec<u8>)
        requires
            self.wf(),
            idx < self.paths.v@.len(),
        ensures
            r@.len() <= 20,
    {
        match &self.paths.v[idx].remote_cid {
            Option::Some(e) => {
                if e.cid.len() <= 20 {
                    crate::frame::copy_range(e.cid.as_bytes().as_slice(), 0, e.cid.len())
                } else {
                    Vec::new()
                }
            },
            Option::None => Vec::new(),
        }
    }

    /// This endpoint's connection ID, carried in long headers.
    fn scid_bytes(&self) -> (r: Vec<u8>)
        ensures
            r@.len() <= 20,
    {
        if self.local_cids.len() > 0 {
            let e = &self.local_cids[0];
            if e.cid.len() <= 20 {
                return crate::frame::copy_range(e.cid.as_bytes().as_slice(), 0, e.cid.len());
            }
        }
        Vec::new()
    }

    /// Builds and accounts one packet on a path, and returns the datagram
    /// bytes.  `pad_to` pads the whole packet to at least that size.
    fn build_packet_on(
        &mut self,
        idx: usize,
        pt: PacketType,
        frames: &Vec<Frame>,
        tokens: Tokens,
        ack_eliciting: bool,
        pad_to: usize,
        ecn_override: Option<Ecn>,
        now: Instant,
    ) -> (r: Option<(Vec<u8>, Ecn)>)
        requires
            old(self).wf(),
            idx < old(self).paths.v@.len(),
            pad_to <= 10_000,
        ensures
            final(self).wf(),
            final(self).state == old(self).state,
            final(self).role == old(self).role,
            final(self).paths.v@.len() == old(self).paths.v@.len(),
            r matches Option::Some(p) ==> p.0@.len() >= pad_to,
    {
        // Check the frames fit and are well-formed before writing anything.
        let mut total: usize = 0;
        let mut i: usize = 0;
        while i < frames.len()
            invariant
                old(self).wf(),
                i <= frames@.len(),
                total <= 100_000,
                *self == *old(self),
            decreases frames@.len() - i,
        {
            let f = &frames[i];
            if !frame_ok(f) {
                return Option::None;
            }
            let fl = crate::frame::frame_len(f);
            if fl > 10_000 || total > 50_000 {
                return Option::None;
            }
            total = total + fl;
            i = i + 1;
        }
        let mut limit: usize = total + 8;
        if pad_to > 0 {
            // The padding goal is on the whole packet; the payload limit
            // must leave room for it whatever the header turns out to be.
            let want = pad_to + 8;
            if want > limit {
                limit = want;
            }
        }
        if limit > 100_000 {
            return Option::None;
        }
        let mut builder = Builder::new(Vec::new(), limit);
        let mut j: usize = 0;
        while j < frames.len()
            invariant
                j <= frames@.len(),
                builder.wf(),
                *self == *old(self),
                builder.limit == limit,
            decreases frames@.len() - j,
        {
            let f = &frames[j];
            if frame_ok(f) {
                let fl = crate::frame::frame_len(f);
                if fl <= builder.remaining() {
                    crate::frame::write_frame(&mut builder, f);
                }
            }
            j = j + 1;
        }
        let pn = match pt {
            PacketType::Initial => self.sp_initial.next_pn,
            PacketType::Handshake => self.sp_handshake.next_pn,
            PacketType::Short => self.sp_app.next_pn,
        };
        if pn >= MAX_PACKET_NUMBER {
            // The space's numbers are exhausted; nothing may be sent again.
            return Option::None;
        }
        let dcid = self.dcid_bytes(idx);
        let scid = self.scid_bytes();
        // Assemble a first version to learn the header size, pad the
        // payload accordingly, and assemble again.
        let payload0 = crate::frame::copy_range(builder.data.as_slice(), 0, builder.data.len());
        if payload0.len() > 100_000 {
            return Option::None;
        }
        let trial = crate::packet::encode_packet(pt, &dcid, &scid, pn, &payload0);
        let header_len = trial.len() - payload0.len();
        let mut padded = false;
        if pad_to > 0 && trial.len() < pad_to {
            let need = pad_to - header_len;
            if need <= builder.limit && builder.len() < need {
                // Fill the payload so the packet reaches the floor.
                let mut b2 = builder;
                let goal = need;
                while b2.data.len() < goal
                    invariant
                        b2.wf(),
                        goal <= b2.limit,
                    decreases goal - b2.data@.len(),
                {
                    b2.data.push(0);
                }
                builder = b2;
                padded = true;
            }
        }
        let payload = builder.build();
        if payload.len() > 100_000 {
            return Option::None;
        }
        let bytes = crate::packet::encode_packet(pt, &dcid, &scid, pn, &payload);
        // The ECN mark: forced for late path probes, else what validation
        // wants.
        let pidx = idx;
        let ghost pv3 = self.paths.v@;
        let p = &mut self.paths.v[pidx];
        let ecn = match ecn_override {
            Option::Some(e) => e,
            Option::None => p.ecn.on_packet_sent(),
        };
        let mut tokens = tokens;
        if ecn == Ecn::Ect0 {
            tokens.push(Token::EcnEct0);
        }
        if padded {
            bump(&mut self.stats.frame_tx.padding);
            bump(&mut self.stats.frame_tx.all);
        }
        let space = match pt {
            PacketType::Initial => &mut self.sp_initial,
            PacketType::Handshake => &mut self.sp_handshake,
            PacketType::Short => &mut self.sp_app,
        };
        register_sent(space, ecn, ack_eliciting, tokens, bytes.len(), now);
        let ghost pv4 = self.paths.v@;
        let p2 = &mut self.paths.v[pidx];
        p2.on_sent_saturating(bytes.len() as u64);
        let rtt = p2.rtt.estimate();
        p2.sender.on_packet_sent(
            &SentPacket::new(pt, pn, ecn, now, ack_eliciting, Vec::new(), bytes.len()),
            rtt,
            now,
        );
        bump(&mut self.stats.packets_tx);
        if bytes.len() >= pad_to {
            Option::Some((bytes, ecn))
        } else {
            Option::None
        }
    }
}

/// Whether a frame may be written: its fields fit their encodings.
fn frame_ok(f: &Frame) -> (r: bool)
    ensures
        r == crate::frame::frame_wf(f@),
{
    match f {
        Frame::Padding { len } => 1 <= *len && *len <= 100_000,
        Frame::Ping => true,
        Frame::Ack { largest, delay, first_range, ect0, ect1, ce } => *largest
            <= crate::varint::VARINT_MAX && *delay <= crate::varint::VARINT_MAX && *first_range
            <= *largest && *ect0 <= crate::varint::VARINT_MAX && *ect1
            <= crate::varint::VARINT_MAX && *ce <= crate::varint::VARINT_MAX,
        Frame::Crypto { offset, data } => *offset <= crate::varint::VARINT_MAX && data.len()
            <= 100_000,
        Frame::Stream { stream_id, offset, data, .. } => *stream_id <= crate::varint::VARINT_MAX
            && *offset <= crate::varint::VARINT_MAX && data.len() <= 100_000,
        Frame::MaxData { limit } => *limit <= crate::varint::VARINT_MAX,
        Frame::MaxStreamData { stream_id, limit } => *stream_id <= crate::varint::VARINT_MAX
            && *limit <= crate::varint::VARINT_MAX,
        Frame::NewConnectionId { seqno, retire_prior, cid } => *seqno <= crate::varint::VARINT_MAX
            && *retire_prior <= *seqno && 1 <= cid.len() && cid.len() <= 20,
        Frame::RetireConnectionId { seqno } => *seqno <= crate::varint::VARINT_MAX,
        Frame::PathChallenge { .. } => true,
        Frame::PathResponse { .. } => true,
        Frame::ConnectionClose { error_code, frame_type, .. } => *error_code
            <= crate::varint::VARINT_MAX && *frame_type <= crate::varint::VARINT_MAX,
        Frame::HandshakeDone => true,
        Frame::Datagram { data, .. } => data.len() <= 65535,
    }
}


impl Connection {
    /// Takes one received datagram: routes it to its path, decodes its
    /// packets, and applies every frame in order.
    pub fn process_input(&mut self, d: Datagram, now: Instant)
        requires
            old(self).wf(),
        ensures
            final(self).wf(),
            // A finished or draining connection reads nothing.
            (old(self).state matches State::Closed(_) || old(self).state matches
                State::Draining { .. }) ==> *final(self) == *old(self),
            // An impossible datagram is dropped and counted, nothing else.
            !(old(self).state matches State::Closed(_) || old(self).state matches
                State::Draining { .. }) && d.payload@.len() > 65_527 ==> *final(self) == (
            Connection { stats: final(self).stats, ..*old(self) }) && final(self).stats == (Stats {
                dropped_rx: crate::stats::sat_inc(old(self).stats.dropped_rx),
                ..old(self).stats
            }),
    {
        if self.state.closed() {
            return ;
        }
        if let State::Draining { .. } = self.state {
            return ;
        }
        if d.len() > 65_527 {
            bump(&mut self.stats.dropped_rx);
            return ;
        }
        // A server learns its first path from the first datagram.
        if self.role == Role::Server && self.state == State::WaitInitial {
            let ghost pv5 = self.paths.v@;
            let p = &mut self.paths.v[0];
            p.local = d.destination();
            p.remote = d.source();
            p.address_validated = false;
            p.sent_bytes = 0;
            p.received_bytes = 0;
            proof {
                assert(self.paths.v@[0int].wf());
                lemma_paths_update(pv5, self.paths.v@, 0int);
            }
        }
        // Find or create the path these bytes arrived on.
        let local = d.destination();
        let remote = d.source();
        let mut path_idx: usize = match self.paths.find(&local, &remote) {
            Option::Some(i) => i,
            Option::None => {
                // An unknown pair of addresses: the peer may be migrating.
                // Only a confirmed connection follows it onto a new path.
                if self.state != State::Confirmed || self.paths.v.len() >= 8 {
                    self.paths.primary_idx
                } else {
                    let seeded = self.paths.v[self.paths.primary_idx].rtt;
                    let cidlen = match &self.paths.v[self.paths.primary_idx].remote_cid {
                        Option::Some(e) => e.cid.len(),
                        Option::None => 0,
                    };
                    let cid = if cidlen == 0 {
                        Option::Some(
                            ConnectionIdEntry {
                                seqno: 0,
                                cid: ConnectionId::empty(),
                                retired: false,
                            },
                        )
                    } else {
                        self.take_spare_cid()
                    };
                    let validated = self.role == Role::Client;
                    let p = Path::new(local, remote, cid, &self.params, seeded, validated, now);
                    let ghost oldv = self.paths.v@;
                    self.paths.v.push(p);
                    proof {
                        assert(forall|i: int|
                            0 <= i < oldv.len() ==> self.paths.v@[i] == oldv[i]);
                        assert(forall|i: int|
                            0 <= i < self.paths.v@.len() ==> (
                            #[trigger] self.paths.v@[i]).wf());
                    }
                    self.paths.v.len() - 1
                }
            },
        };
        {
            let ghost pv6 = self.paths.v@;
            let p = &mut self.paths.v[path_idx];
            p.on_received(d.len() as u64);
            proof {
                assert(self.paths.v@[path_idx as int].wf());
                lemma_paths_update(pv6, self.paths.v@, path_idx as int);
            }
        }
        // Note received ECN marks for acknowledgements.
        let mark = d.ecn();
        bump(&mut self.stats.packets_rx);
        let packets = crate::packet::decode_packets(d.payload().as_slice());
        let mut k: usize = 0;
        let mut saw_ack_eliciting = false;
        let mut saw_data_frame = false;
        while k < packets.len()
            invariant
                self.wf(),
                k <= packets@.len(),
                path_idx < self.paths.v@.len(),
                !(old(self).state matches State::Closed(_) || old(self).state matches
                    State::Draining { .. }),
                d.payload@.len() <= 65_527,
            decreases packets@.len() - k,
        {
            let pkt = &packets[k];
            let (ae, df) = self.handle_packet(pkt, path_idx, mark, now);
            saw_ack_eliciting = saw_ack_eliciting || ae;
            saw_data_frame = saw_data_frame || df;
            if self.state.closed() {
                return ;
            }
            if let State::Draining { .. } = self.state {
                return ;
            }
            if path_idx >= self.paths.v.len() {
                return ;
            }
            k = k + 1;
        }
        if saw_ack_eliciting {
            self.idle_deadline = now.plus(self.params.get_idle_timeout());
        }
        // The server treats fresh application data on a new path as the
        // client's move: it makes that path primary and checks both ends.
        if self.role == Role::Server && self.state == State::Confirmed && path_idx
            != self.paths.primary_idx && saw_data_frame {
            let old_primary = self.paths.primary_idx;
            {
                let ghost pv7 = self.paths.v@;
                let p = &mut self.paths.v[old_primary];
                p.sender.discard_in_flight(now);
                if p.challenge_out.is_none() {
                    p.probe_count = 0;
                    p.next_probe = Option::None;
                }
            }
            self.paths.primary_idx = path_idx;
            let c1 = self.next_challenge();
            {
                let ghost pv8 = self.paths.v@;
                let p = &mut self.paths.v[path_idx];
                if p.challenge_out.is_none() && p.state != PathState::Validated {
                    p.challenge_out = Option::Some(c1);
                    p.probe_count = 0;
                    p.next_probe = Option::None;
                    p.state = PathState::Probing;
                }
            }
            let c2 = self.next_challenge();
            let ghost pv9 = self.paths.v@;
            {
                let p = &mut self.paths.v[old_primary];
                p.challenge_out = Option::Some(c2);
                p.probe_count = 0;
                p.next_probe = Option::None;
            }
            proof {
                assert(self.paths.v@[old_primary as int].wf());
                lemma_paths_update(pv9, self.paths.v@, old_primary as int);
            }
        } else if self.role == Role::Server && path_idx != self.paths.primary_idx
            && saw_ack_eliciting && self.state == State::Confirmed {
            // Probes on a strange path are answered and the path checked,
            // but data stays where it is.
            let c1 = self.next_challenge();
            let ghost pv10 = self.paths.v@;
            let p = &mut self.paths.v[path_idx];
            if p.challenge_out.is_none() && p.state != PathState::Validated {
                p.challenge_out = Option::Some(c1);
                p.probe_count = 0;
                p.next_probe = Option::None;
            }
            proof {
                assert(self.paths.v@[path_idx as int].wf());
                lemma_paths_update(pv10, self.paths.v@, path_idx as int);
            }
        }
    }

    /// Applies one decoded packet.  Returns whether it was ack-eliciting
    /// and whether it carried application data.
    fn handle_packet(
        &mut self,
        pkt: &DecodedPacket,
        path_idx: usize,
        mark: Ecn,
        now: Instant,
    ) -> (r: (bool, bool))
        requires
            old(self).wf(),
            path_idx < old(self).paths.v@.len(),
        ensures
            final(self).wf(),
    {
        // Learn the peer's connection ID from its long headers.
        if pkt.pt != PacketType::Short && pkt.scid.len() >= 1 && pkt.scid.len() <= 20 {
            let have_cid = match &self.paths.v[self.paths.primary_idx].remote_cid {
                Option::Some(e) => e.cid.len() > 0,
                Option::None => false,
            };
            if !have_cid {
                let cid = ConnectionId::new(
                    crate::frame::copy_range(pkt.scid.as_slice(), 0, pkt.scid.len()),
                );
                let pi = self.paths.primary_idx;
                let ghost pv11 = self.paths.v@;
                let p = &mut self.paths.v[pi];
                p.remote_cid = Option::Some(ConnectionIdEntry { seqno: 0, cid, retired: false });
                proof {
                    assert(self.paths.v@[pi as int].wf());
                    lemma_paths_update(pv11, self.paths.v@, pi as int);
                }
            }
        }
        let largest = match pkt.pt {
            PacketType::Initial => self.sp_initial.rx_largest,
            PacketType::Handshake => self.sp_handshake.rx_largest,
            PacketType::Short => self.sp_app.rx_largest,
        };
        let pn = if pkt.pn_truncated < 0x1_0000_0000 {
            crate::packet::expand_pn(
                match largest {
                    Option::Some(l) => if l < 0x4000_0000_0000_0000 {
                        Option::Some(l)
                    } else {
                        Option::None
                    },
                    Option::None => Option::None,
                },
                pkt.pn_truncated,
            )
        } else {
            pkt.pn_truncated
        };
        {
            let space = match pkt.pt {
                PacketType::Initial => &mut self.sp_initial,
                PacketType::Handshake => &mut self.sp_handshake,
                PacketType::Short => &mut self.sp_app,
            };
            space.on_rx_pn(pn);
            match mark {
                Ecn::Ect0 => bump(&mut space.rx_ect0),
                Ecn::Ect1 => bump(&mut space.rx_ect1),
                Ecn::Ce => bump(&mut space.rx_ce),
                Ecn::NotEct => {},
            }
        }
        // Walk the frames.
        let mut pos: usize = 0;
        let mut ack_eliciting = false;
        let mut data_frame = false;
        if pkt.payload.len() > 100_000 {
            return (false, false);
        }
        let mut guard: usize = 0;
        while pos < pkt.payload.len() && guard < 20_000
            invariant
                self.wf(),
                pkt.payload@.len() <= 100_000,
                pos <= pkt.payload@.len(),
                path_idx < self.paths.v@.len(),
            decreases 20_000 - guard,
        {
            guard = guard + 1;
            let next = crate::frame::read_frame(pkt.payload.as_slice(), pos);
            match next {
                Option::Some((frame, newpos)) => {
                    if newpos <= pos || newpos > pkt.payload.len() {
                        return (ack_eliciting, data_frame);
                    }
                    pos = newpos;
                    let (ae, df) = self.handle_frame(&frame, pkt.pt, path_idx, now);
                    ack_eliciting = ack_eliciting || ae;
                    data_frame = data_frame || df;
                    if self.state.closed() {
                        return (ack_eliciting, data_frame);
                    }
                    if let State::Draining { .. } = self.state {
                        return (ack_eliciting, data_frame);
                    }
                },
                Option::None => {
                    // An unknown or broken frame ends the connection.
                    self.enter_closing(CloseReason::Transport(Error::FrameEncodingError), now);
                    return (ack_eliciting, data_frame);
                },
            }
        }
        if ack_eliciting {
            let space = match pkt.pt {
                PacketType::Initial => &mut self.sp_initial,
                PacketType::Handshake => &mut self.sp_handshake,
                PacketType::Short => &mut self.sp_app,
            };
            space.ack_pending = true;
        }
        (ack_eliciting, data_frame)
    }

    /// A wire-level violation: tell the peer and stop.
    fn enter_closing(&mut self, reason: CloseReason, now: Instant)
        requires
            old(self).wf(),
        ensures
            final(self).wf(),
            final(self).state matches State::Closing { .. },
            final(self).paths.v@.len() == old(self).paths.v@.len(),
    {
        let pto = self.paths.v[self.paths.primary_idx].rtt.pto();
        let timeout = now.plus(pto.plus(pto).plus(pto));
        self.state = State::Closing { error: reason, timeout };
        self.close_pending = true;
        self.events.push(ConnectionEvent::StateChange);
    }

    /// Applies one frame.  Returns whether it was ack-eliciting and whether
    /// it was application data (a stream or crypto frame).
    fn handle_frame(
        &mut self,
        frame: &Frame,
        pt: PacketType,
        path_idx: usize,
        now: Instant,
    ) -> (r: (bool, bool))
        requires
            old(self).wf(),
            path_idx < old(self).paths.v@.len(),
        ensures
            final(self).wf(),
            final(self).paths.v@.len() == old(self).paths.v@.len(),
    {
        match frame {
            Frame::Padding { len } => {
                bump(&mut self.stats.frame_rx.padding);
                bump(&mut self.stats.frame_rx.all);
                (false, false)
            },
            Frame::Ping => {
                bump(&mut self.stats.frame_rx.ping);
                bump(&mut self.stats.frame_rx.all);
                (true, false)
            },
            Frame::Ack { largest, delay, first_range, ect0, ect1, ce } => {
                bump(&mut self.stats.frame_rx.ack);
                bump(&mut self.stats.frame_rx.all);
                self.handle_ack(pt, *largest, *first_range, *ect0, *ect1, *ce, path_idx, now);
                (false, false)
            },
            Frame::Crypto { offset, data } => {
                bump(&mut self.stats.frame_rx.crypto);
                bump(&mut self.stats.frame_rx.all);
                self.handle_crypto(pt, *offset, data.len() as u64, now);
                (true, true)
            },
            Frame::Stream { stream_id, offset, data, fin } => {
                bump(&mut self.stats.frame_rx.stream);
                bump(&mut self.stats.frame_rx.all);
                self.handle_stream_frame(*stream_id, *offset, data, *fin, now);
                (true, true)
            },
            Frame::MaxData { limit } => {
                bump(&mut self.stats.frame_rx.max_data);
                bump(&mut self.stats.frame_rx.all);
                if *limit > self.conn_max_data_remote {
                    self.conn_max_data_remote = *limit;
                }
                (true, false)
            },
            Frame::MaxStreamData { stream_id, limit } => {
                bump(&mut self.stats.frame_rx.max_stream_data);
                bump(&mut self.stats.frame_rx.all);
                let sid = StreamId::new(*stream_id);
                if let Option::Some(i) = self.find_send_stream(sid) {
                    if *limit > self.send_streams[i].max_stream_data_remote {
                        self.send_streams[i].max_stream_data_remote = *limit;
                    }
                }
                (true, false)
            },
            Frame::NewConnectionId { seqno, retire_prior, cid } => {
                bump(&mut self.stats.frame_rx.new_connection_id);
                bump(&mut self.stats.frame_rx.all);
                self.handle_new_cid(*seqno, *retire_prior, cid, now);
                (true, false)
            },
            Frame::RetireConnectionId { seqno } => {
                bump(&mut self.stats.frame_rx.retire_connection_id);
                bump(&mut self.stats.frame_rx.all);
                // Drop the retired ID and keep the peer's supply full.
                let mut i: usize = 0;
                while i < self.local_cids.len()
                    invariant
                        self.wf(),
                        i <= self.local_cids@.len(),
                        self.paths.v@.len() == old(self).paths.v@.len(),
                    decreases self.local_cids@.len() - i,
                {
                    if self.local_cids[i].seqno == *seqno {
                        self.local_cids.remove(i);
                        break ;
                    }
                    i = i + 1;
                }
                self.issue_local_cid();
                (true, false)
            },
            Frame::PathChallenge { data } => {
                bump(&mut self.stats.frame_rx.path_challenge);
                bump(&mut self.stats.frame_rx.all);
                let ghost pv12 = self.paths.v@;
                let p = &mut self.paths.v[path_idx];
                if p.challenges_to_answer.len() < 8 {
                    p.challenges_to_answer.push(*data);
                }
                proof {
                    assert(self.paths.v@[path_idx as int].wf());
                    lemma_paths_update(pv12, self.paths.v@, path_idx as int);
                }
                (true, false)
            },
            Frame::PathResponse { data } => {
                bump(&mut self.stats.frame_rx.path_response);
                bump(&mut self.stats.frame_rx.all);
                self.handle_path_response(*data, now);
                (true, false)
            },
            Frame::ConnectionClose { app, error_code, .. } => {
                bump(&mut self.stats.frame_rx.connection_close);
                bump(&mut self.stats.frame_rx.all);
                let reason = if *app {
                    CloseReason::Application(*error_code)
                } else {
                    CloseReason::Transport(Error::NoError)
                };
                let pto = self.paths.v[self.paths.primary_idx].rtt.pto();
                let timeout = now.plus(pto.plus(pto).plus(pto));
                let was_closing = match self.state {
                    State::Closing { .. } => true,
                    _ => false,
                };
                self.state = State::Draining { error: reason, timeout };
                // One close notice may answer the peer's, unless this side
                // already said its piece.
                self.close_pending = !was_closing;
                self.events.push(ConnectionEvent::StateChange);
                (false, false)
            },
            Frame::HandshakeDone => {
                bump(&mut self.stats.frame_rx.handshake_done);
                bump(&mut self.stats.frame_rx.all);
                if self.role == Role::Client && self.state == State::Connected {
                    self.state = State::Confirmed;
                    self.sp_initial.discarded = true;
                    self.sp_handshake.discarded = true;
                    self.issue_local_cid();
                    self.issue_local_cid();
                    self.events.push(ConnectionEvent::StateChange);
                }
                (true, false)
            },
            Frame::Datagram { data, .. } => {
                bump(&mut self.stats.frame_rx.datagram);
                bump(&mut self.stats.frame_rx.all);
                let r = self.qdg.handle_datagram(
                    data.as_slice(),
                    &mut self.events,
                    &mut self.stats,
                );
                if let Err(e) = r {
                    // A datagram beyond what this endpoint advertised is a
                    // wire violation.
                    self.enter_closing(CloseReason::Transport(e), now);
                }
                (true, false)
            },
        }
    }

    /// Re-announces a connection ID whose announcement was lost.
    fn requeue_ncid(&mut self, seqno: u64)
        requires
            old(self).wf(),
        ensures
            final(self).wf(),
            final(self).paths.v@.len() == old(self).paths.v@.len(),
    {
        if self.ncid_queue.len() >= 8 {
            return ;
        }
        let mut i: usize = 0;
        while i < self.local_cids.len()
            invariant
                self.wf(),
                i <= self.local_cids@.len(),
                self.paths.v@.len() == old(self).paths.v@.len(),
                self.ncid_queue@.len() < 8 || self.ncid_queue@.len() <= 9,
            decreases self.local_cids@.len() - i,
        {
            if self.local_cids[i].seqno == seqno {
                let e = &self.local_cids[i];
                if e.cid.len() >= 1 && e.cid.len() <= 20 && self.ncid_queue.len() < 8 {
                    let copy = ConnectionIdEntry {
                        seqno: e.seqno,
                        cid: ConnectionId::new(
                            crate::frame::copy_range(e.cid.as_bytes().as_slice(), 0, e.cid.len()),
                        ),
                        retired: false,
                    };
                    self.ncid_queue.push(copy);
                }
                return ;
            }
            i = i + 1;
        }
    }

    /// Mints one more connection ID for the peer, up to the issue limit.
    fn issue_local_cid(&mut self)
        requires
            old(self).wf(),
        ensures
            final(self).wf(),
            final(self).paths.v@.len() == old(self).paths.v@.len(),
    {
        if self.local_cids.len() >= LOCAL_ACTIVE_CID_LIMIT {
            return ;
        }
        let cid = match self.cid_gen.generate() {
            Option::Some(c) => c,
            Option::None => {
                return ;
            },
        };
        if cid.len() == 0 {
            return ;
        }
        let seq = self.next_local_cid_seq;
        self.next_local_cid_seq = self.next_local_cid_seq.saturating_add(1);
        let entry = ConnectionIdEntry { seqno: seq, cid, retired: false };
        let entry2 = ConnectionIdEntry {
            seqno: entry.seqno,
            cid: ConnectionId::new(
                crate::frame::copy_range(entry.cid.as_bytes().as_slice(), 0, entry.cid.len()),
            ),
            retired: false,
        };
        self.local_cids.push(entry);
        if self.ncid_queue.len() < 8 {
            self.ncid_queue.push(entry2);
        }
    }
}


impl Connection {
    /// Takes an acknowledgement: acknowledged packets leave the registry at
    /// once, far-earlier unacknowledged ones are declared lost, the newest
    /// sample updates the round-trip estimate, and the congestion, MTU and
    /// ECN machinery hear of it all.
    fn handle_ack(
        &mut self,
        pt: PacketType,
        largest: u64,
        first_range: u64,
        ect0: u64,
        ect1: u64,
        ce: u64,
        path_idx: usize,
        now: Instant,
    )
        requires
            old(self).wf(),
            path_idx < old(self).paths.v@.len(),
        ensures
            final(self).wf(),
            final(self).paths.v@.len() == old(self).paths.v@.len(),
    {
        let first_range = if first_range <= largest {
            first_range
        } else {
            largest
        };
        let lowest = largest - first_range;
        let mut acked: Vec<SentPacket> = Vec::new();
        let mut lost: Vec<SentPacket> = Vec::new();
        let mut kept: Vec<SentPacket> = Vec::new();
        {
            let space = match pt {
                PacketType::Initial => &mut self.sp_initial,
                PacketType::Handshake => &mut self.sp_handshake,
                PacketType::Short => &mut self.sp_app,
            };
            let mut i: usize = 0;
            let n = space.sent.len();
            if n > 10_000 {
                return ;
            }
            while i < n
                invariant
                    i <= n,
                    n == space.sent@.len() <= 10_000,
                    acked@.len() <= i,
                    lost@.len() <= i,
                    kept@.len() <= i,
                    space.wf(),
                    forall|a: int, b: int|
                        0 <= a < b < kept@.len() ==> #[trigger] kept@[a].pn
                            < #[trigger] kept@[b].pn,
                    forall|a: int| 0 <= a < kept@.len() ==> #[trigger] kept@[a].pn < space.next_pn,
                    forall|a: int, j: int|
                        0 <= a < kept@.len() && i <= j < n ==> #[trigger] kept@[a].pn
                            < #[trigger] space.sent@[j].pn,
                decreases n - i,
            {
                let p = &space.sent[i];
                let copy = SentPacket::new(
                    p.pt,
                    p.pn,
                    p.ecn,
                    p.time_sent,
                    p.ack_eliciting,
                    copy_tokens(&p.tokens),
                    p.len,
                );
                if p.pn >= lowest && p.pn <= largest {
                    acked.push(copy);
                } else if largest >= 3 && p.pn < largest - 2 {
                    // Three newer packets were acknowledged first: declare
                    // this one lost.
                    lost.push(copy);
                } else {
                    kept.push(copy);
                }
                i = i + 1;
            }
            let was_largest_acked = space.largest_acked;
            space.sent = kept;
            let newer = match was_largest_acked {
                Option::Some(l) => largest > l,
                Option::None => true,
            };
            if newer {
                space.largest_acked = Option::Some(largest);
            }
            proof {
                assert(space.wf());
            }
        }
        if acked.len() > 10_000 || lost.len() > 10_000 {
            return ;
        }
        // The newest acknowledged packet gives an RTT sample.
        let mut newly_acked_ect0: u64 = 0;
        let mut have_sample = false;
        let mut sample_time = now;
        let mut ai: usize = 0;
        while ai < acked.len()
            invariant
                self.wf(),
                ai <= acked@.len(),
                path_idx < self.paths.v@.len(),
                self.paths.v@.len() == old(self).paths.v@.len(),
            decreases acked@.len() - ai,
        {
            let p = &acked[ai];
            if p.pn == largest {
                have_sample = true;
                sample_time = p.time_sent;
            }
            let mut ti: usize = 0;
            let toks = &p.tokens;
            while ti < toks.len()
                invariant
                    self.wf(),
                    ti <= toks@.len(),
                    path_idx < self.paths.v@.len(),
                    self.paths.v@.len() == old(self).paths.v@.len(),
                decreases toks@.len() - ti,
            {
                match &toks[ti] {
                    Token::EcnEct0 => {
                        newly_acked_ect0 = newly_acked_ect0.saturating_add(1);
                    },
                    Token::Datagram(t) => {
                        self.events.datagram_outcome(
                            *t,
                            crate::events::OutgoingDatagramOutcome::Acked,
                        );
                    },
                    _ => {},
                }
                ti = ti + 1;
            }
            ai = ai + 1;
        }
        let path_work: bool = true;
        if path_work {
            let ghost pv13 = self.paths.v@;
            let p = &mut self.paths.v[path_idx];
            if have_sample {
                let sample = now.duration_since(sample_time);
                p.rtt.update(sample, Duration::zero());
            }
            p.ecn.on_ack_received(newly_acked_ect0, ect0, ect1, ce);
            if acked.len() > 0 {
                let rtt_snapshot = p.rtt;
                p.sender.on_packets_acked(acked.as_slice(), &rtt_snapshot, now, &mut self.stats);
            }
            if lost.len() > 0 {
                bump(&mut self.stats.lost);
                let pto = p.rtt.pto();
                let _ = p.sender.on_packets_lost(
                    Option::None,
                    Option::None,
                    pto,
                    lost.as_slice(),
                    &mut self.stats,
                    now,
                );
            }
            proof {
                assert(self.paths.v@[path_idx as int].wf());
                lemma_paths_update(pv13, self.paths.v@, path_idx as int);
            }
        }
        // Lost packets hand their work back.
        let mut li: usize = 0;
        while li < lost.len()
            invariant
                self.wf(),
                li <= lost@.len(),
                path_idx < self.paths.v@.len(),
                self.paths.v@.len() == old(self).paths.v@.len(),
            decreases lost@.len() - li,
        {
            let p = &lost[li];
            let mut ti: usize = 0;
            let toks = copy_tokens(&p.tokens);
            let mut lost_ect0: u64 = 0;
            while ti < toks.len()
                invariant
                    self.wf(),
                    ti <= toks@.len(),
                    path_idx < self.paths.v@.len(),
                    self.paths.v@.len() == old(self).paths.v@.len(),
                decreases toks@.len() - ti,
            {
                // Each token hands its work back so the loss is repaired.
                match &toks[ti] {
                    Token::Datagram(t) => {
                        self.events.datagram_outcome(
                            *t,
                            crate::events::OutgoingDatagramOutcome::Lost,
                        );
                    },
                    Token::EcnEct0 => {
                        lost_ect0 = lost_ect0.saturating_add(1);
                    },
                    Token::Stream(
                        crate::recovery::StreamRecoveryToken::Stream { stream_id, offset, fin, .. },
                    ) => {
                        // Move the stream's send cursor back: the bytes at
                        // and after the lost offset go out again.
                        let sid = *stream_id;
                        let off = *offset;
                        let f = *fin;
                        if let Option::Some(x) = self.find_send_stream(sid) {
                            let ghost sv0 = self.send_streams@;
                            let st = &mut self.send_streams[x];
                            st.mark_lost(off, f);
                            proof {
                                lemma_streams_update(sv0, self.send_streams@, x as int);
                            }
                        }
                    },
                    Token::Crypto { space, length, .. } => {
                        // The handshake flight is regenerated whole.
                        let n = if *length <= 2_000 {
                            *length
                        } else {
                            2_000
                        };
                        match space {
                            PacketType::Initial => {
                                if self.crypto_out_initial.len() == 0 {
                                    self.crypto_out_initial = fill_bytes(n, 1);
                                }
                            },
                            PacketType::Handshake => {
                                if self.crypto_out_handshake.len() == 0 {
                                    self.crypto_out_handshake = fill_bytes(n, 2);
                                }
                            },
                            PacketType::Short => {},
                        }
                    },
                    Token::HandshakeDone => {
                        if self.role == Role::Server {
                            self.handshake_done_queued = true;
                        }
                    },
                    Token::NewConnectionId { seqno } => {
                        self.requeue_ncid(*seqno);
                    },
                    Token::RetireConnectionId(seq) => {
                        if self.retire_queue.len() < 32 {
                            self.retire_queue.push(*seq);
                        }
                    },
                    _ => {},
                }
                ti = ti + 1;
            }
            if lost_ect0 > 0 {
                let ghost pv14 = self.paths.v@;
                let p2 = &mut self.paths.v[path_idx];
                p2.ecn.on_packets_lost(lost_ect0);
                proof {
                    assert(self.paths.v@[path_idx as int].wf());
                    lemma_paths_update(pv14, self.paths.v@, path_idx as int);
                }
            }
            li = li + 1;
        }
    }

    /// Takes handshake bytes and advances the handshake state machine.
    fn handle_crypto(&mut self, pt: PacketType, offset: u64, len: u64, now: Instant)
        requires
            old(self).wf(),
        ensures
            final(self).wf(),
            final(self).paths.v@.len() == old(self).paths.v@.len(),
    {
        match pt {
            PacketType::Initial => {
                let end = offset.saturating_add(len);
                if end > self.crypto_in_initial {
                    self.crypto_in_initial = end;
                }
            },
            PacketType::Handshake => {
                let end = offset.saturating_add(len);
                if end > self.crypto_in_handshake {
                    self.crypto_in_handshake = end;
                }
            },
            PacketType::Short => {},
        }
        match self.role {
            Role::Server => {
                if (self.state == State::WaitInitial || self.state == State::Init)
                    && self.crypto_in_initial >= CLIENT_HELLO_LEN {
                    // The whole first flight arrived: answer with ours.
                    self.crypto_out_initial = fill_bytes(SERVER_HELLO_LEN, 2);
                    self.crypto_out_handshake = fill_bytes(SERVER_FLIGHT_LEN, 2);
                    if self.local_cids.len() == 0 {
                        let cid = match self.cid_gen.generate() {
                            Option::Some(c) => c,
                            Option::None => ConnectionId::empty(),
                        };
                        self.local_cids.push(
                            ConnectionIdEntry { seqno: 0, cid, retired: false },
                        );
                        self.next_local_cid_seq = 1;
                    }
                    self.state = State::Handshaking;
                    self.hs = HandshakeProgress::ServerFlightDone;
                }
                if self.state == State::Handshaking && self.crypto_in_handshake >= FINISHED_LEN {
                    // The client's finish proves it holds the keys and its
                    // address: the handshake is confirmed.
                    self.state = State::Confirmed;
                    self.hs = HandshakeProgress::Complete;
                    self.handshake_done_queued = true;
                    self.sp_initial.discarded = true;
                    let pidx = self.paths.primary_idx;
                    let ghost pv15 = self.paths.v@;
                    {
                        let p = &mut self.paths.v[pidx];
                        p.address_validated = true;
                        p.state = PathState::Validated;
                    }
                    proof {
                        assert(self.paths.v@[pidx as int].wf());
                        lemma_paths_update(pv15, self.paths.v@, pidx as int);
                    }
                    self.issue_local_cid();
                    self.issue_local_cid();
                    self.events.push(ConnectionEvent::StateChange);
                }
            },
            Role::Client => {
                if (self.state == State::WaitInitial || self.state == State::Handshaking)
                    && self.crypto_in_initial >= SERVER_HELLO_LEN && self.crypto_in_handshake
                    >= SERVER_FLIGHT_LEN && (self.hs == HandshakeProgress::ClientHelloDone
                    || self.hs == HandshakeProgress::ServerFlightDone) {
                    self.state = State::Handshaking;
                    self.hs = HandshakeProgress::AuthenticationPending;
                    self.events.push(ConnectionEvent::AuthenticationNeeded);
                }
            },
        }
    }

    /// Takes one stream frame into the stream's reassembly buffer.
    fn handle_stream_frame(&mut self, stream_id: u64, offset: u64, data: &Vec<u8>, fin: bool,
        now: Instant)
        requires
            old(self).wf(),
        ensures
            final(self).wf(),
            final(self).paths.v@.len() == old(self).paths.v@.len(),
    {
        let sid = StreamId::new(stream_id);
        let mut idx: Option<usize> = Option::None;
        let mut i: usize = 0;
        while i < self.recv_streams.len()
            invariant
                self.wf(),
                i <= self.recv_streams@.len(),
                idx matches Option::Some(x) ==> x < self.recv_streams@.len(),
            decreases self.recv_streams@.len() - i,
        {
            if self.recv_streams[i].id == sid {
                idx = Option::Some(i);
                break ;
            }
            i = i + 1;
        }
        let at = match idx {
            Option::Some(x) => x,
            Option::None => {
                if self.recv_streams.len() >= 1_000 {
                    return ;
                }
                self.recv_streams.push(RecvStream::new(sid));
                self.recv_streams.len() - 1
            },
        };
        self.conn_bytes_received = self.conn_bytes_received.saturating_add(data.len() as u64);
        if self.conn_bytes_received > self.conn_max_data_local {
            self.enter_closing(CloseReason::Transport(Error::FlowControlError), now);
            return ;
        }
        if self.recv_streams[at].segments.len() >= 10_000 {
            return ;
        }
        let copy = crate::frame::copy_range(data.as_slice(), 0, data.len());
        let st = &mut self.recv_streams[at];
        let res = st.insert(offset, copy, fin);
        match res {
            Ok(_) => {
                self.events.push(ConnectionEvent::RecvStreamReadable { stream_id: sid });
            },
            Err(e) => {
                self.enter_closing(CloseReason::Transport(e), now);
            },
        }
    }

    /// Takes a freshly issued peer connection ID, and retires what the peer
    /// asks to retire.  A path whose ID is forced out moves to a spare; a
    /// probed or sole path with no spare ends the connection.
    fn handle_new_cid(&mut self, seqno: u64, retire_prior: u64, cid: &Vec<u8>, now: Instant)
        requires
            old(self).wf(),
        ensures
            final(self).wf(),
            final(self).paths.v@.len() == old(self).paths.v@.len(),
    {
        if cid.len() >= 1 && cid.len() <= 20 && self.peer_cids.len() < 16 {
            let c = ConnectionId::new(crate::frame::copy_range(cid.as_slice(), 0, cid.len()));
            self.peer_cids.push(ConnectionIdEntry { seqno, cid: c, retired: false });
        }
        if retire_prior == 0 {
            return ;
        }
        // Remove retired spares and ask the peer to drop them.
        let mut keep: Vec<ConnectionIdEntry> = Vec::new();
        let mut i: usize = 0;
        let n = self.peer_cids.len();
        while i < n
            invariant
                self.wf(),
                i <= n,
                self.paths.v@.len() == old(self).paths.v@.len(),
            decreases n - i,
        {
            if i < self.peer_cids.len() {
                let e = &self.peer_cids[i];
                if e.seqno < retire_prior {
                    if self.retire_queue.len() < 32 {
                        self.retire_queue.push(e.seqno);
                    }
                } else {
                    let c2 = ConnectionIdEntry {
                        seqno: e.seqno,
                        cid: ConnectionId::new(
                            crate::frame::copy_range(
                                e.cid.as_bytes().as_slice(),
                                0,
                                if e.cid.len() <= 20 {
                                    e.cid.len()
                                } else {
                                    0
                                },
                            ),
                        ),
                        retired: false,
                    };
                    keep.push(c2);
                }
            }
            i = i + 1;
        }
        self.peer_cids = keep;
        // Paths using a retired ID must change or die.
        let mut pi: usize = 0;
        while pi < self.paths.v.len()
            invariant
                self.wf(),
                pi <= self.paths.v@.len(),
                self.paths.v@.len() == old(self).paths.v@.len(),
            decreases self.paths.v@.len() - pi,
        {
            let must_replace = match &self.paths.v[pi].remote_cid {
                Option::Some(e) => e.cid.len() > 0 && e.seqno < retire_prior,
                Option::None => false,
            };
            if must_replace {
                if self.retire_queue.len() < 32 {
                    let seq = match &self.paths.v[pi].remote_cid {
                        Option::Some(e) => e.seqno,
                        Option::None => 0,
                    };
                    self.retire_queue.push(seq);
                }
                if self.peer_cids.len() > 0 {
                    let spare = self.peer_cids.remove(0);
                    let ghost pv16 = self.paths.v@;
                    let p = &mut self.paths.v[pi];
                    p.remote_cid = Option::Some(spare);
                    proof {
                        assert(self.paths.v@[pi as int].wf());
                        lemma_paths_update(pv16, self.paths.v@, pi as int);
                    }
                } else {
                    // No replacement exists: a path being probed cannot go
                    // on, and that ends the migration and the connection.
                    let probing = self.paths.v[pi].challenge_out.is_some() || pi
                        == self.paths.primary_idx;
                    if probing {
                        self.enter_closing(
                            CloseReason::Transport(Error::InvalidMigration),
                            now,
                        );
                        return ;
                    }
                }
            }
            pi = pi + 1;
        }
    }

    /// Takes a path response: the path that asked is validated, and a
    /// waiting migration moves its data over.
    fn handle_path_response(&mut self, data: u64, now: Instant)
        requires
            old(self).wf(),
        ensures
            final(self).wf(),
            final(self).paths.v@.len() == old(self).paths.v@.len(),
    {
        let mut pi: usize = 0;
        let mut matched: Option<usize> = Option::None;
        while pi < self.paths.v.len()
            invariant
                self.wf(),
                pi <= self.paths.v@.len(),
                self.paths.v@.len() == old(self).paths.v@.len(),
                matched matches Option::Some(m) ==> m < self.paths.v@.len(),
            decreases self.paths.v@.len() - pi,
        {
            let hit = match self.paths.v[pi].challenge_out {
                Option::Some(c) => c == data,
                Option::None => false,
            };
            if hit {
                let ghost pv17 = self.paths.v@;
                let p = &mut self.paths.v[pi];
                p.challenge_out = Option::None;
                p.state = PathState::Validated;
                p.address_validated = true;
                p.probe_count = 0;
                p.next_probe = Option::None;
                proof {
                    assert(self.paths.v@[pi as int].wf());
                    lemma_paths_update(pv17, self.paths.v@, pi as int);
                }
                matched = Option::Some(pi);
                break ;
            }
            pi = pi + 1;
        }
        if let Option::Some(m) = matched {
            let migrate_here = match self.paths.migrating_to {
                Option::Some(t) => t == m,
                Option::None => false,
            };
            if migrate_here {
                // The graceful migration commits: data moves to the new
                // path and the old one forgets its flight.
                let old_primary = self.paths.primary_idx;
                let ghost pv18 = self.paths.v@;
                if old_primary != m {
                    let p = &mut self.paths.v[old_primary];
                    p.sender.discard_in_flight(now);
                    proof {
                        assert(self.paths.v@[old_primary as int].wf());
                        lemma_paths_update(pv18, self.paths.v@, old_primary as int);
                    }
                }
                self.paths.primary_idx = m;
                self.paths.migrating_to = Option::None;
            }
        }
    }
}

/// A deep copy of a token list.
fn copy_tokens(toks: &Tokens) -> (r: Tokens)
    ensures
        r@ == toks@,
{
    let mut out: Tokens = Vec::new();
    let mut i: usize = 0;
    while i < toks.len()
        invariant
            i <= toks@.len(),
            out@ == toks@.subrange(0, i as int),
        decreases toks@.len() - i,
    {
        out.push(toks[i]);
        i = i + 1;
        proof {
            assert(out@ =~= toks@.subrange(0, i as int));
        }
    }
    proof {
        assert(out@ =~= toks@);
    }
    out
}


impl Connection {
    /// Produces the next datagram to send, or the deadline to call back at,
    /// or nothing when the connection is over.
    pub fn process_output(&mut self, now: Instant) -> (r: Output)
        requires
            old(self).wf(),
        ensures
            final(self).wf(),
            // An expired closing, draining or idle deadline ends the
            // connection.
            (match old(self).state {
                State::Closing { error, timeout } => timeout.micros <= now.micros ==> (r
                    is Nothing && final(self).state == State::Closed(error)),
                _ => true,
            }),
            (match old(self).state {
                State::Draining { error, timeout } => timeout.micros <= now.micros ==> (r
                    is Nothing && final(self).state == State::Closed(error)),
                _ => true,
            }),
            (old(self).state == State::Connected || old(self).state == State::Confirmed) && old(
                self,
            ).idle_deadline.micros <= now.micros ==> r is Nothing && final(self).state matches
                State::Closed(_),
            // Whatever leaves is addressed along one of this connection's
            // paths.
            r matches Output::Datagram(d) ==> final(self).spec_datagram_on_path(d),
    {
        if self.state.closed() {
            return Output::Nothing;
        }
        // Timers first: the end of closing, a failed probe, idleness.
        match self.state {
            State::Closing { error, timeout } => {
                if timeout.le(&now) {
                    self.state = State::Closed(error);
                    self.events.push(ConnectionEvent::StateChange);
                    return Output::Nothing;
                }
            },
            State::Draining { error, timeout } => {
                if timeout.le(&now) {
                    self.state = State::Closed(error);
                    self.events.push(ConnectionEvent::StateChange);
                    return Output::Nothing;
                }
            },
            _ => {
                if self.idle_deadline.le(&now) && self.state.connected() {
                    self.state = State::Closed(CloseReason::Transport(Error::NoError));
                    self.events.push(ConnectionEvent::StateChange);
                    return Output::Nothing;
                }
            },
        }
        if self.check_probe_failures(now) {
            return Output::Nothing;
        }
        self.start_handshake_if_needed();
        // A close notice outranks everything else.
        if self.close_pending {
            let can = match self.state {
                State::Closing { .. } => true,
                State::Draining { .. } => true,
                _ => false,
            };
            if can {
                self.close_pending = false;
                let code: u64 = match self.state {
                    State::Closing { error: CloseReason::Application(c), .. } => c,
                    State::Closing { error: CloseReason::Transport(e), .. } => e.code(),
                    _ => 0,
                };
                let app = match self.state {
                    State::Closing { error: CloseReason::Application(_), .. } => true,
                    State::Draining { .. } => true,
                    _ => false,
                };
                let mut frames: Vec<Frame> = Vec::new();
                frames.push(
                    Frame::ConnectionClose { app, error_code: code, frame_type: 0, reason_len: 0 },
                );
                bump(&mut self.stats.frame_tx.connection_close);
                bump(&mut self.stats.frame_tx.all);
                let idx = self.paths.primary_idx;
                let built = self.build_packet_on(
                    idx,
                    PacketType::Short,
                    &frames,
                    Vec::new(),
                    false,
                    0,
                    Option::Some(Ecn::NotEct),
                    now,
                );
                if let Option::Some((bytes, ecn)) = built {
                    let d = self.wrap_datagram(idx, bytes, ecn);
                    proof {
                        assert(self.paths.v@[idx as int].local == d.src && self.paths.v@[idx
                            as int].remote == d.dst);
                        assert(self.spec_datagram_on_path(d));
                        match old(self).state {
                            State::Closing { error, timeout } => {
                                assert(timeout.micros > now.micros);
                            },
                            State::Draining { error, timeout } => {
                                assert(timeout.micros > now.micros);
                            },
                            _ => {},
                        }
                    }
                    return Output::Datagram(d);
                }
            }
        }
        match self.state {
            State::Closing { timeout, .. } => {
                return Output::Callback(timeout.duration_since(now));
            },
            State::Draining { timeout, .. } => {
                return Output::Callback(timeout.duration_since(now));
            },
            _ => {},
        }
        // The handshake's bytes.
        if self.crypto_out_initial.len() > 0 || self.crypto_out_handshake.len() > 0 || (
        !self.sp_initial.discarded && self.sp_initial.ack_pending) || (
        !self.sp_handshake.discarded && self.sp_handshake.ack_pending) {
            if let Option::Some(d) = self.build_crypto_datagram(now) {
                return Output::Datagram(d);
            }
        }
        // Answers to the peer's path challenges.
        let mut pi: usize = 0;
        while pi < self.paths.v.len()
            invariant
                self.wf(),
                pi <= self.paths.v@.len(),
                self.paths.v@.len() == old(self).paths.v@.len(),
                old(self).spec_no_expired_deadline(now),
            decreases self.paths.v@.len() - pi,
        {
            if self.paths.v[pi].challenges_to_answer.len() > 0 {
                if let Option::Some(d) = self.build_response_datagram(pi, now) {
                    return Output::Datagram(d);
                }
            }
            pi = pi + 1;
        }
        // Application data on the primary path; a due challenge on that
        // path rides along.
        if let Option::Some(o) = self.build_app_output(now) {
            return o;
        }
        // This endpoint's own path challenges, each in its own padded
        // datagram.
        let mut pj: usize = 0;
        while pj < self.paths.v.len()
            invariant
                self.wf(),
                pj <= self.paths.v@.len(),
                self.paths.v@.len() == old(self).paths.v@.len(),
                old(self).spec_no_expired_deadline(now),
            decreases self.paths.v@.len() - pj,
        {
            let due = match self.paths.v[pj].challenge_out {
                Option::Some(_) => match self.paths.v[pj].next_probe {
                    Option::Some(t) => t.le(&now),
                    Option::None => true,
                },
                Option::None => false,
            };
            if due && self.paths.v[pj].probe_count < MAX_PATH_PROBES * 2 {
                if let Option::Some(d) = self.build_challenge_datagram(pj, now) {
                    return Output::Datagram(d);
                }
            }
            pj = pj + 1;
        }
        self.next_callback(now)
    }

    /// Declares paths whose probes all went unanswered failed.  Returns
    /// true when that ended the connection.
    fn check_probe_failures(&mut self, now: Instant) -> (r: bool)
        requires
            old(self).wf(),
        ensures
            final(self).wf(),
            final(self).paths.v@.len() == old(self).paths.v@.len(),
    {
        let mut pi: usize = 0;
        while pi < self.paths.v.len()
            invariant
                self.wf(),
                pi <= self.paths.v@.len(),
                self.paths.v@.len() == old(self).paths.v@.len(),
            decreases self.paths.v@.len() - pi,
        {
            let exhausted = match (self.paths.v[pi].challenge_out, self.paths.v[pi].next_probe) {
                (Option::Some(_), Option::Some(t)) => self.paths.v[pi].probe_count
                    >= MAX_PATH_PROBES * 2 && t.le(&now),
                _ => false,
            };
            if exhausted {
                {
                    let ghost pv19 = self.paths.v@;
                    let p = &mut self.paths.v[pi];
                    p.state = PathState::Failed;
                    p.challenge_out = Option::None;
                    p.next_probe = Option::None;
                    proof {
                        assert(self.paths.v@[pi as int].wf());
                        lemma_paths_update(pv19, self.paths.v@, pi as int);
                    }
                }
                let was_migration = match self.paths.migrating_to {
                    Option::Some(m) => m == pi,
                    Option::None => false,
                };
                if was_migration {
                    self.paths.migrating_to = Option::None;
                    self.queue_retire_of_path(pi);
                }
                if pi == self.paths.primary_idx {
                    // The data path died.  Fall back to another validated
                    // path, or give up.
                    let mut fallback: Option<usize> = Option::None;
                    let mut fj: usize = 0;
                    while fj < self.paths.v.len()
                        invariant
                            self.wf(),
                            fj <= self.paths.v@.len(),
                            self.paths.v@.len() == old(self).paths.v@.len(),
                            fallback matches Option::Some(f) ==> f < self.paths.v@.len(),
                        decreases self.paths.v@.len() - fj,
                    {
                        if fj != pi && self.paths.v[fj].state == PathState::Validated {
                            fallback = Option::Some(fj);
                            break ;
                        }
                        fj = fj + 1;
                    }
                    match fallback {
                        Option::Some(f) => {
                            self.paths.primary_idx = f;
                            self.queue_retire_of_path(pi);
                        },
                        Option::None => {
                            self.state = State::Closed(
                                CloseReason::Transport(Error::NoAvailablePath),
                            );
                            self.events.push(ConnectionEvent::StateChange);
                            return true;
                        },
                    }
                }
            }
            pi = pi + 1;
        }
        false
    }

    /// Asks the peer to drop the connection ID a dead path was using.
    fn queue_retire_of_path(&mut self, pi: usize)
        requires
            old(self).wf(),
            pi < old(self).paths.v@.len(),
        ensures
            final(self).wf(),
            final(self).paths == old(self).paths,
            final(self).state == old(self).state,
    {
        let seq = match &self.paths.v[pi].remote_cid {
            Option::Some(e) => {
                if e.cid.len() == 0 {
                    return ;
                }
                e.seqno
            },
            Option::None => {
                return ;
            },
        };
        if self.retire_queue.len() < 32 {
            self.retire_queue.push(seq);
        }
    }

    /// Wraps packet bytes into a datagram addressed along a path.
    fn wrap_datagram(&self, idx: usize, bytes: Vec<u8>, ecn: Ecn) -> (r: Datagram)
        requires
            self.wf(),
            idx < self.paths.v@.len(),
        ensures
            r.src == self.paths.v@[idx as int].local,
            r.dst == self.paths.v@[idx as int].remote,
            r.payload@.len() == bytes@.len(),
    {
        Datagram::new(self.paths.v[idx].local, self.paths.v[idx].remote, Tos::new(ecn), bytes)
    }

    /// Builds the handshake flight: an Initial packet and a Handshake
    /// packet share one datagram, padded to the floor when an Initial is
    /// aboard, within the unvalidated-address budget.
    fn build_crypto_datagram(&mut self, now: Instant) -> (r: Option<Datagram>)
        requires
            old(self).wf(),
        ensures
            final(self).wf(),
            final(self).paths.v@.len() == old(self).paths.v@.len(),
            // Any datagram built to carry a packet of the first space
            // reaches the wire floor.
            ({
                let wants_initial = !old(self).sp_initial.discarded && (old(
                    self,
                ).crypto_out_initial@.len() > 0 || old(self).sp_initial.ack_pending);
                wants_initial ==> (r matches Option::Some(d) ==> d.payload@.len()
                    >= MIN_INITIAL_PACKET_SIZE)
            }),
            r matches Option::Some(d) ==> final(self).spec_datagram_on_path(d),
    {
        let idx = self.paths.primary_idx;
        let budget = self.paths.v[idx].amplification_budget();
        if budget < (MIN_INITIAL_PACKET_SIZE + 64) as u64 {
            return Option::None;
        }
        let mut dgram_bytes: Vec<u8> = Vec::new();
        let send_initial = !self.sp_initial.discarded && (self.crypto_out_initial.len() > 0
            || self.sp_initial.ack_pending);
        let send_handshake = !self.sp_handshake.discarded && (self.crypto_out_handshake.len() > 0
            || self.sp_handshake.ack_pending);
        if !send_initial && !send_handshake {
            return Option::None;
        }
        if send_initial {
            let mut frames: Vec<Frame> = Vec::new();
            let mut ack_eliciting = false;
            if self.sp_initial.ack_pending {
                if let Option::Some(a) = self.sp_initial.ack_frame() {
                    frames.push(a);
                    bump(&mut self.stats.frame_tx.ack);
                    bump(&mut self.stats.frame_tx.all);
                    self.sp_initial.ack_pending = false;
                }
            }
            let has_crypto = self.crypto_out_initial.len() > 0 && self.crypto_out_initial.len()
                <= 2_000;
            if has_crypto {
                let data = crate::frame::copy_range(
                    self.crypto_out_initial.as_slice(),
                    0,
                    self.crypto_out_initial.len(),
                );
                frames.push(Frame::Crypto { offset: 0, data });
                bump(&mut self.stats.frame_tx.crypto);
                bump(&mut self.stats.frame_tx.all);
                ack_eliciting = true;
            }
            // A packet of the first space always reaches the floor on its
            // own, so any datagram carrying it does too.
            let built = self.build_packet_on(
                idx,
                PacketType::Initial,
                &frames,
                Vec::new(),
                ack_eliciting,
                MIN_INITIAL_PACKET_SIZE,
                Option::None,
                now,
            );
            match built {
                Option::Some((bytes, _)) => {
                    if has_crypto {
                        self.crypto_out_initial = Vec::new();
                    }
                    dgram_bytes = bytes;
                },
                Option::None => {
                    // Nothing of the first space may leave: do not send a
                    // datagram that was meant to carry it.
                    return Option::None;
                },
            }
        }
        let mut final_ecn = Ecn::NotEct;
        if send_handshake {
            let mut frames: Vec<Frame> = Vec::new();
            let mut ack_eliciting = false;
            if self.sp_handshake.ack_pending {
                if let Option::Some(a) = self.sp_handshake.ack_frame() {
                    frames.push(a);
                    bump(&mut self.stats.frame_tx.ack);
                    bump(&mut self.stats.frame_tx.all);
                    self.sp_handshake.ack_pending = false;
                }
            }
            let hs_has_crypto = self.crypto_out_handshake.len() > 0
                && self.crypto_out_handshake.len() <= 2_000;
            if hs_has_crypto {
                let data = crate::frame::copy_range(
                    self.crypto_out_handshake.as_slice(),
                    0,
                    self.crypto_out_handshake.len(),
                );
                frames.push(Frame::Crypto { offset: 0, data });
                bump(&mut self.stats.frame_tx.crypto);
                bump(&mut self.stats.frame_tx.all);
                ack_eliciting = true;
            }
            {
                let built = self.build_packet_on(
                    idx,
                    PacketType::Handshake,
                    &frames,
                    Vec::new(),
                    ack_eliciting,
                    0,
                    Option::None,
                    now,
                );
                if let Option::Some((bytes, ecn)) = built {
                    if hs_has_crypto {
                        self.crypto_out_handshake = Vec::new();
                    }
                    final_ecn = ecn;
                    let ghost floor1 = dgram_bytes@.len();
                    let mut i: usize = 0;
                    let n = bytes.len();
                    if dgram_bytes.len() <= 65_000 && n <= 65_000 {
                        while i < n
                            invariant
                                i <= n,
                                n == bytes@.len() <= 65_000,
                                dgram_bytes@.len() <= 65_000 + i,
                                dgram_bytes@.len() >= floor1,
                            decreases n - i,
                        {
                            dgram_bytes.push(bytes[i]);
                            i = i + 1;
                        }
                    }
                }
            }
        }
        if dgram_bytes.len() == 0 {
            return Option::None;
        }
        // Once this endpoint is confirmed, the confirmation and fresh
        // connection IDs ride in the same datagram as the last handshake
        // acknowledgement, so the peer learns everything at once.
        if self.state.connected() && (self.handshake_done_queued || self.ncid_queue.len() > 0) {
            if let Option::Some((bytes, ecn)) = self.build_control_packet(idx, now) {
                final_ecn = ecn;
                let ghost floor2 = dgram_bytes@.len();
                let mut i: usize = 0;
                let n = bytes.len();
                if dgram_bytes.len() <= 65_000 && n <= 65_000 {
                    while i < n
                        invariant
                            i <= n,
                            n == bytes@.len() <= 65_000,
                            dgram_bytes@.len() <= 65_000 + i,
                            dgram_bytes@.len() >= floor2,
                        decreases n - i,
                    {
                        dgram_bytes.push(bytes[i]);
                        i = i + 1;
                    }
                }
            }
        }
        if idx < self.paths.v.len() {
            let d = self.wrap_datagram(idx, dgram_bytes, final_ecn);
            proof {
                assert(self.paths.v@[idx as int].local == d.src && self.paths.v@[idx as int].remote
                    == d.dst);
                assert(self.spec_datagram_on_path(d));
            }
            Option::Some(d)
        } else {
            Option::None
        }
    }

    /// A short packet of just the confirmation and connection-ID news.
    fn build_control_packet(&mut self, idx: usize, now: Instant) -> (r: Option<(Vec<u8>, Ecn)>)
        requires
            old(self).wf(),
            idx < old(self).paths.v@.len(),
        ensures
            final(self).wf(),
            final(self).paths.v@.len() == old(self).paths.v@.len(),
            final(self).state == old(self).state,
            final(self).role == old(self).role,
    {
        let mut frames: Vec<Frame> = Vec::new();
        let mut tokens: Tokens = Vec::new();
        if self.handshake_done_queued && self.role == Role::Server {
            frames.push(Frame::HandshakeDone);
            tokens.push(Token::HandshakeDone);
            bump(&mut self.stats.frame_tx.handshake_done);
            bump(&mut self.stats.frame_tx.all);
            self.handshake_done_queued = false;
        }
        let mut guard: usize = 0;
        while self.ncid_queue.len() > 0 && guard < 8
            invariant
                self.wf(),
                guard <= 8,
                frames@.len() <= 1 + guard,
                tokens@.len() <= 1 + guard,
                idx < self.paths.v@.len(),
                self.paths.v@.len() == old(self).paths.v@.len(),
                self.state == old(self).state,
                self.role == old(self).role,
            decreases 8 - guard,
        {
            guard = guard + 1;
            let e = self.ncid_queue.remove(0);
            if e.cid.len() >= 1 && e.cid.len() <= 20 {
                let bytes = crate::frame::copy_range(e.cid.as_bytes().as_slice(), 0, e.cid.len());
                frames.push(
                    Frame::NewConnectionId { seqno: e.seqno, retire_prior: 0, cid: bytes },
                );
                tokens.push(Token::NewConnectionId { seqno: e.seqno });
                bump(&mut self.stats.frame_tx.new_connection_id);
                bump(&mut self.stats.frame_tx.all);
            }
        }
        if frames.len() == 0 {
            return Option::None;
        }
        self.build_packet_on(idx, PacketType::Short, &frames, tokens, true, 0, Option::None, now)
    }

    /// Builds a datagram answering the peer's path challenges on one path,
    /// padded to the floor when the budget allows.
    fn build_response_datagram(&mut self, idx: usize, now: Instant) -> (r: Option<Datagram>)
        requires
            old(self).wf(),
            idx < old(self).paths.v@.len(),
        ensures
            final(self).wf(),
            final(self).paths.v@.len() == old(self).paths.v@.len(),
            r matches Option::Some(d) ==> final(self).spec_datagram_on_path(d),
    {
        let budget = self.paths.v[idx].amplification_budget();
        if budget < 64 {
            return Option::None;
        }
        let mut frames: Vec<Frame> = Vec::new();
        {
            let ghost pv20 = self.paths.v@;
            let p = &mut self.paths.v[idx];
            let mut i: usize = 0;
            let n = p.challenges_to_answer.len();
            while i < n && i < 8
                invariant
                    i <= n,
                    n == p.challenges_to_answer@.len(),
                    frames@.len() <= i,
                decreases n - i,
            {
                frames.push(Frame::PathResponse { data: p.challenges_to_answer[i] });
                i = i + 1;
            }
            p.challenges_to_answer = Vec::new();
            proof {
                assert(self.paths.v@[idx as int].wf());
                lemma_paths_update(pv20, self.paths.v@, idx as int);
            }
        }
        let count = frames.len();
        if count == 0 {
            return Option::None;
        }
        let mut ci: usize = 0;
        while ci < count
            invariant
                ci <= count,
                self.wf(),
                idx < self.paths.v@.len(),
                self.paths.v@.len() == old(self).paths.v@.len(),
            decreases count - ci,
        {
            bump(&mut self.stats.frame_tx.path_response);
            bump(&mut self.stats.frame_tx.all);
            ci = ci + 1;
        }
        // An acknowledgement can ride along.
        if self.sp_app.ack_pending && self.state.connected() {
            if let Option::Some(a) = self.sp_app.ack_frame() {
                frames.push(a);
                bump(&mut self.stats.frame_tx.ack);
                bump(&mut self.stats.frame_tx.all);
                self.sp_app.ack_pending = false;
            }
        }
        // So can this endpoint's own challenge for the same path.
        let mut ecn_override: Option<Ecn> = Option::None;
        let own_due = match self.paths.v[idx].challenge_out {
            Option::Some(_) => match self.paths.v[idx].next_probe {
                Option::Some(t) => t.le(&now),
                Option::None => true,
            },
            Option::None => false,
        };
        if own_due && self.paths.v[idx].probe_count < MAX_PATH_PROBES * 2 {
            if let Option::Some(data) = self.paths.v[idx].challenge_out {
                frames.push(Frame::PathChallenge { data });
                bump(&mut self.stats.frame_tx.path_challenge);
                bump(&mut self.stats.frame_tx.all);
                if self.paths.v[idx].probe_count >= MAX_PATH_PROBES {
                    ecn_override = Option::Some(Ecn::NotEct);
                }
                self.note_challenge_sent(idx, now);
            }
        }
        let pad = if budget >= MIN_INITIAL_PACKET_SIZE as u64 {
            MIN_INITIAL_PACKET_SIZE
        } else {
            0
        };
        let built = self.build_packet_on(
            idx,
            PacketType::Short,
            &frames,
            Vec::new(),
            true,
            pad,
            ecn_override,
            now,
        );
        match built {
            Option::Some((bytes, ecn)) => {
                let d = self.wrap_datagram(idx, bytes, ecn);
                proof {
                    assert(self.paths.v@[idx as int].local == d.src && self.paths.v@[idx
                        as int].remote == d.dst);
                    assert(self.spec_datagram_on_path(d));
                }
                Option::Some(d)
            },
            Option::None => Option::None,
        }
    }

    /// Builds one path-challenge datagram: the challenge and padding alone,
    /// to the floor when the budget allows.  The first probes carry the ECN
    /// test mark; the later ones go bare in case the marks themselves are
    /// eaten.
    fn build_challenge_datagram(&mut self, idx: usize, now: Instant) -> (r: Option<Datagram>)
        requires
            old(self).wf(),
            idx < old(self).paths.v@.len(),
        ensures
            final(self).wf(),
            final(self).paths.v@.len() == old(self).paths.v@.len(),
            r matches Option::Some(d) ==> final(self).spec_datagram_on_path(d),
    {
        let budget = self.paths.v[idx].amplification_budget();
        if budget < 64 {
            return Option::None;
        }
        let data = match self.paths.v[idx].challenge_out {
            Option::Some(c) => c,
            Option::None => {
                return Option::None;
            },
        };
        let probe_count = self.paths.v[idx].probe_count;
        let mut frames: Vec<Frame> = Vec::new();
        frames.push(Frame::PathChallenge { data });
        bump(&mut self.stats.frame_tx.path_challenge);
        bump(&mut self.stats.frame_tx.all);
        let pad = if budget >= MIN_INITIAL_PACKET_SIZE as u64 {
            MIN_INITIAL_PACKET_SIZE
        } else {
            0
        };
        let ecn_override = if probe_count >= MAX_PATH_PROBES {
            Option::Some(Ecn::NotEct)
        } else {
            Option::None
        };
        let built = self.build_packet_on(
            idx,
            PacketType::Short,
            &frames,
            Vec::new(),
            true,
            pad,
            ecn_override,
            now,
        );
        // Back off: the next probe waits twice as long each round.
        {
            let ghost pv21 = self.paths.v@;
            let p = &mut self.paths.v[idx];
            if p.probe_count < 100 {
                p.probe_count = p.probe_count + 1;
            }
            let mut interval = p.rtt.pto();
            let mut c = if p.probe_count < 100 {
                p.probe_count
            } else {
                100
            };
            while c > 1
                invariant
                    c <= 100,
                decreases c,
            {
                interval = interval.doubled();
                c = c - 1;
            }
            p.next_probe = Option::Some(now.plus(interval));
            proof {
                assert(self.paths.v@[idx as int].wf());
                lemma_paths_update(pv21, self.paths.v@, idx as int);
            }
        }
        match built {
            Option::Some((bytes, ecn)) => {
                let d = self.wrap_datagram(idx, bytes, ecn);
                proof {
                    assert(self.paths.v@[idx as int].local == d.src && self.paths.v@[idx
                        as int].remote == d.dst);
                    assert(self.spec_datagram_on_path(d));
                }
                Option::Some(d)
            },
            Option::None => Option::None,
        }
    }

    /// Builds a datagram of application frames on the primary path, or asks
    /// to wait for the pacer.
    fn build_app_output(&mut self, now: Instant) -> (r: Option<Output>)
        requires
            old(self).wf(),
        ensures
            final(self).wf(),
            final(self).paths.v@.len() == old(self).paths.v@.len(),
            r matches Option::Some(o) ==> (o matches Output::Datagram(d)
                ==> final(self).spec_datagram_on_path(d)),
    {
        if !self.state.connected() {
            return Option::None;
        }
        let idx = self.paths.primary_idx;
        let budget = self.paths.v[idx].amplification_budget();
        if budget < 64 {
            return Option::None;
        }
        let has_stream_data = self.any_stream_data();
        let has_control = self.handshake_done_queued || self.ncid_queue.len() > 0
            || self.retire_queue.len() > 0 || self.qdg.has_pending();
        let has_ack = self.sp_app.ack_pending;
        if !has_stream_data && !has_control && !has_ack {
            return Option::None;
        }
        // Data spends congestion window and waits for the pacer; bare
        // acknowledgements do neither.
        if has_stream_data || has_control {
            let cwnd_avail = self.paths.v[idx].sender.cwnd_avail();
            if cwnd_avail < 64 {
                return Option::Some(Output::Callback(Duration::from_millis(2)));
            }
            let rtt = self.paths.v[idx].rtt.estimate();
            let next = self.paths.v[idx].sender.next_paced(rtt);
            if let Option::Some(t) = next {
                if now.lt(&t) {
                    return Option::Some(Output::Callback(t.duration_since(now)));
                }
            }
        }
        let mut frames: Vec<Frame> = Vec::new();
        let mut tokens: Tokens = Vec::new();
        let mut ack_eliciting = false;
        if has_ack {
            if let Option::Some(a) = self.sp_app.ack_frame() {
                frames.push(a);
                bump(&mut self.stats.frame_tx.ack);
                bump(&mut self.stats.frame_tx.all);
                self.sp_app.ack_pending = false;
            }
        }
        // A challenge owed on this path travels with the data, and the
        // datagram is padded to the probe floor.
        let mut pad_to: usize = 0;
        let mut ecn_override: Option<Ecn> = Option::None;
        let challenge_due = match self.paths.v[idx].challenge_out {
            Option::Some(_) => match self.paths.v[idx].next_probe {
                Option::Some(t) => t.le(&now),
                Option::None => true,
            },
            Option::None => false,
        };
        if challenge_due && self.paths.v[idx].probe_count < MAX_PATH_PROBES * 2 && (
        has_stream_data || has_control) {
            if let Option::Some(data) = self.paths.v[idx].challenge_out {
                frames.push(Frame::PathChallenge { data });
                bump(&mut self.stats.frame_tx.path_challenge);
                bump(&mut self.stats.frame_tx.all);
                ack_eliciting = true;
                if self.paths.v[idx].amplification_budget() >= MIN_INITIAL_PACKET_SIZE as u64 {
                    pad_to = MIN_INITIAL_PACKET_SIZE;
                }
                if self.paths.v[idx].probe_count >= MAX_PATH_PROBES {
                    ecn_override = Option::Some(Ecn::NotEct);
                }
                self.note_challenge_sent(idx, now);
            }
        }
        if self.handshake_done_queued {
            frames.push(Frame::HandshakeDone);
            tokens.push(Token::HandshakeDone);
            bump(&mut self.stats.frame_tx.handshake_done);
            bump(&mut self.stats.frame_tx.all);
            self.handshake_done_queued = false;
            ack_eliciting = true;
        }
        // Announce and retire connection IDs.
        let mut guard: usize = 0;
        while self.ncid_queue.len() > 0 && guard < 8
            invariant
                self.wf(),
                guard <= 8,
                frames@.len() <= 4 + guard,
                tokens@.len() <= 4 + guard,
                idx < self.paths.v@.len(),
                self.paths.v@.len() == old(self).paths.v@.len(),
            decreases 8 - guard,
        {
            guard = guard + 1;
            if frames.len() >= 32 {
                break ;
            }
            let e = self.ncid_queue.remove(0);
            if e.cid.len() >= 1 && e.cid.len() <= 20 {
                let bytes = crate::frame::copy_range(e.cid.as_bytes().as_slice(), 0, e.cid.len());
                frames.push(
                    Frame::NewConnectionId { seqno: e.seqno, retire_prior: 0, cid: bytes },
                );
                tokens.push(Token::NewConnectionId { seqno: e.seqno });
                bump(&mut self.stats.frame_tx.new_connection_id);
                bump(&mut self.stats.frame_tx.all);
                ack_eliciting = true;
            }
        }
        let mut guard2: usize = 0;
        while self.retire_queue.len() > 0 && guard2 < 8
            invariant
                self.wf(),
                guard2 <= 8,
                frames@.len() <= 12 + guard2,
                tokens@.len() <= 12 + guard2,
                idx < self.paths.v@.len(),
                self.paths.v@.len() == old(self).paths.v@.len(),
            decreases 8 - guard2,
        {
            guard2 = guard2 + 1;
            if frames.len() >= 40 {
                break ;
            }
            let seq = self.retire_queue.remove(0);
            frames.push(Frame::RetireConnectionId { seqno: seq });
            tokens.push(Token::RetireConnectionId(seq));
            bump(&mut self.stats.frame_tx.retire_connection_id);
            bump(&mut self.stats.frame_tx.all);
            ack_eliciting = true;
        }
        // Stream data, connection flow control allowing.
        let conn_credit = self.conn_max_data_remote.saturating_sub(self.conn_bytes_sent);
        let mut si: usize = 0;
        let mut space_left: usize = 1_100;
        while si < self.send_streams.len()
            invariant
                self.wf(),
                si <= self.send_streams@.len(),
                frames@.len() <= 61,
                tokens@.len() <= 61,
                space_left <= 1_100,
                idx < self.paths.v@.len(),
                self.paths.v@.len() == old(self).paths.v@.len(),
            decreases self.send_streams@.len() - si,
        {
            if frames.len() >= 60 || tokens.len() >= 60 {
                break ;
            }
            let credit = self.conn_max_data_remote.saturating_sub(self.conn_bytes_sent);
            let want = self.send_streams[si].sendable(credit);
            let fin_due = self.send_streams[si].fin_queued && !self.send_streams[si].fin_sent;
            let nothing_pending = self.send_streams[si].pending_len() == 0;
            if (want > 0 || (fin_due && nothing_pending)) && want <= space_left {
                let take = if want <= space_left {
                    want
                } else {
                    space_left
                };
                let ghost sv0 = self.send_streams@;
                let st = &mut self.send_streams[si];
                let offset = st.next;
                let data = st.take(take);
                let all_sent = st.pending_len() == 0;
                let fin = st.fin_queued && all_sent;
                if fin {
                    st.fin_sent = true;
                }
                let id = st.id;
                proof {
                    lemma_streams_update(sv0, self.send_streams@, si as int);
                }
                if data.len() <= 100_000 {
                    frames.push(Frame::Stream { stream_id: id.id, offset, data, fin });
                    tokens.push(
                        Token::Stream(
                            crate::recovery::StreamRecoveryToken::Stream {
                                stream_id: id,
                                offset,
                                length: take as u64,
                                fin,
                            },
                        ),
                    );
                    bump(&mut self.stats.frame_tx.stream);
                    bump(&mut self.stats.frame_tx.all);
                    self.conn_bytes_sent = self.conn_bytes_sent.saturating_add(take as u64);
                    ack_eliciting = true;
                    space_left = space_left - if take <= space_left {
                        take
                    } else {
                        space_left
                    };
                }
            }
            si = si + 1;
        }
        // Unreliable datagrams fill what room is left; one that cannot fit
        // even an empty packet is dropped as hopeless.
        let mut dguard: usize = 0;
        while self.qdg.has_pending() && dguard < 4
            invariant
                self.wf(),
                dguard <= 4,
                frames@.len() <= 70 + dguard,
                tokens@.len() <= 70 + dguard,
                idx < self.paths.v@.len(),
                self.paths.v@.len() == old(self).paths.v@.len(),
            decreases 4 - dguard,
        {
            dguard = dguard + 1;
            if frames.len() >= 70 {
                break ;
            }
            let d = match self.qdg.next_ready() {
                Option::Some(d) => d,
                Option::None => {
                    break ;
                },
            };
            if d.data.len() <= space_left && d.data.len() <= 65535 {
                tokens.push(Token::Datagram(d.tracking));
                frames.push(Frame::Datagram { data: d.data, with_len: true });
                bump(&mut self.stats.frame_tx.datagram);
                bump(&mut self.stats.frame_tx.all);
                ack_eliciting = true;
            } else if frames.len() == 0 && d.data.len() > 1_000 {
                // Alone in a packet it still cannot fit: it never will.
                self.events.datagram_outcome(
                    d.tracking,
                    crate::events::OutgoingDatagramOutcome::DroppedTooBig,
                );
                bump(&mut self.stats.datagram_tx.dropped_too_big);
            } else {
                // No room beside the other frames: it keeps its place at
                // the front for a later, emptier packet.
                self.qdg.requeue_front(d);
                break ;
            }
        }
        if frames.len() == 0 {
            return Option::None;
        }
        let built = self.build_packet_on(
            idx,
            PacketType::Short,
            &frames,
            tokens,
            ack_eliciting,
            pad_to,
            ecn_override,
            now,
        );
        match built {
            Option::Some((bytes, ecn)) => {
                let d = self.wrap_datagram(idx, bytes, ecn);
                proof {
                    assert(self.paths.v@[idx as int].local == d.src && self.paths.v@[idx
                        as int].remote == d.dst);
                    assert(self.spec_datagram_on_path(d));
                }
                Option::Some(Output::Datagram(d))
            },
            Option::None => Option::None,
        }
    }

    /// Records that a challenge for this path went out: the count rises and
    /// the next try backs off twice as far.
    fn note_challenge_sent(&mut self, idx: usize, now: Instant)
        requires
            old(self).wf(),
            idx < old(self).paths.v@.len(),
        ensures
            final(self).wf(),
            final(self).paths.v@.len() == old(self).paths.v@.len(),
            final(self).state == old(self).state,
            final(self).sp_app == old(self).sp_app,
            final(self).sp_initial == old(self).sp_initial,
            final(self).sp_handshake == old(self).sp_handshake,
    {
        let ghost pv30 = self.paths.v@;
        let p = &mut self.paths.v[idx];
        if p.probe_count < 100 {
            p.probe_count = p.probe_count + 1;
        }
        let mut interval = p.rtt.pto();
        let mut c = if p.probe_count < 100 {
            p.probe_count
        } else {
            100
        };
        while c > 1
            invariant
                c <= 100,
            decreases c,
        {
            interval = interval.doubled();
            c = c - 1;
        }
        p.next_probe = Option::Some(now.plus(interval));
        proof {
            assert(self.paths.v@[idx as int].wf());
            lemma_paths_update(pv30, self.paths.v@, idx as int);
        }
    }

    fn any_stream_data(&self) -> (r: bool)
        requires
            self.wf(),
    {
        let mut i: usize = 0;
        while i < self.send_streams.len()
            invariant
                self.wf(),
                i <= self.send_streams@.len(),
            decreases self.send_streams@.len() - i,
        {
            let st = &self.send_streams[i];
            if st.pending_len() > 0 || (st.fin_queued && !st.fin_sent) {
                return true;
            }
            i = i + 1;
        }
        false
    }

    /// The next instant the engine wants to run: the earliest pending
    /// timer, or the idle deadline.
    fn next_callback(&mut self, now: Instant) -> (r: Output)
        requires
            old(self).wf(),
        ensures
            final(self).wf(),
            r is Callback,
    {
        let mut deadline = self.idle_deadline;
        let mut pi: usize = 0;
        while pi < self.paths.v.len()
            invariant
                self.wf(),
                pi <= self.paths.v@.len(),
            decreases self.paths.v@.len() - pi,
        {
            if let Option::Some(t) = self.paths.v[pi].next_probe {
                if self.paths.v[pi].challenge_out.is_some() {
                    deadline = deadline.min_with(t);
                }
            }
            if let Option::Some(t) = self.paths.v[pi].sender.pmtud().raise_timer {
                deadline = deadline.min_with(t);
            }
            pi = pi + 1;
        }
        let delta = deadline.duration_since(now);
        if delta.is_zero() {
            Output::Callback(Duration::from_millis(1))
        } else {
            Output::Callback(delta)
        }
    }
}

} // verus!
