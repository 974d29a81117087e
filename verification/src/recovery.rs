//! What the engine remembers about packets in flight: the record of a sent
//! packet and the tokens that say what to redo when it is lost, or to confirm
//! when it is acknowledged.

use vstd::prelude::*;

use crate::packet::PacketType;
use crate::quic_datagrams::DatagramTracking;
use crate::streams::{StreamId, StreamType};
use crate::time::Instant;
use crate::tos::Ecn;

verus! {

/// Recovery tokens of the stream-related frames.
#[derive(Debug, Clone, Copy, PartialEq, Eq, Structural)]
pub enum StreamRecoveryToken {
    Stream { stream_id: StreamId, offset: u64, length: u64, fin: bool },
    ResetStream { stream_id: StreamId },
    StopSending { stream_id: StreamId },
    MaxData(u64),
    DataBlocked(u64),
    MaxStreamData { stream_id: StreamId, max_data: u64 },
    StreamDataBlocked { stream_id: StreamId, limit: u64 },
    MaxStreams { stream_type: StreamType, max_streams: u64 },
    StreamsBlocked { stream_type: StreamType, limit: u64 },
}

/// One per frame in a sent packet that needs an action on loss or on
/// acknowledgement.
#[derive(Debug, Clone, Copy, PartialEq, Eq, Structural)]
pub enum Token {
    Stream(StreamRecoveryToken),
    /// An ACK frame went out; on acknowledgement old ranges can be dropped.
    Ack { space: PacketType, largest: u64 },
    /// Handshake bytes; on loss they are retransmitted.
    Crypto { space: PacketType, offset: u64, length: u64 },
    HandshakeDone,
    /// A ping sent only to keep the connection alive.
    KeepAlive,
    NewToken(usize),
    /// A connection ID issued to the peer, by its sequence number.
    NewConnectionId { seqno: u64 },
    /// A request that the peer drop the connection ID with this sequence number.
    RetireConnectionId(u64),
    AckFrequency { seqno: u64 },
    Datagram(DatagramTracking),
    /// The packet carried the Ect0 mark for ECN validation.
    EcnEct0,
}

/// The tokens of one packet.
pub type Tokens = Vec<Token>;

/// The record of one sent packet, kept until it is acknowledged, declared
/// lost, or its packet-number space is discarded.
#[derive(Debug, Clone)]
pub struct SentPacket {
    pub pt: PacketType,
    pub pn: u64,
    pub ecn: Ecn,
    pub time_sent: Instant,
    pub ack_eliciting: bool,
    pub tokens: Tokens,
    pub len: usize,
}

impl SentPacket {
    pub fn new(
        pt: PacketType,
        pn: u64,
        ecn: Ecn,
        time_sent: Instant,
        ack_eliciting: bool,
        tokens: Tokens,
        len: usize,
    ) -> (r: SentPacket)
        ensures
            r.pt == pt,
            r.pn == pn,
            r.ecn == ecn,
            r.time_sent == time_sent,
            r.ack_eliciting == ack_eliciting,
            r.tokens@ == tokens@,
            r.len == len,
    {
        SentPacket { pt, pn, ecn, time_sent, ack_eliciting, tokens, len }
    }

    pub fn pt(&self) -> (r: PacketType)
        ensures
            r == self.pt,
    {
        self.pt
    }

    pub fn pn(&self) -> (r: u64)
        ensures
            r == self.pn,
    {
        self.pn
    }

    pub fn ecn(&self) -> (r: Ecn)
        ensures
            r == self.ecn,
    {
        self.ecn
    }

    pub fn time_sent(&self) -> (r: Instant)
        ensures
            r == self.time_sent,
    {
        self.time_sent
    }

    pub fn ack_eliciting(&self) -> (r: bool)
        ensures
            r == self.ack_eliciting,
    {
        self.ack_eliciting
    }

    pub fn len(&self) -> (r: usize)
        ensures
            r == self.len,
    {
        self.len
    }

    pub fn tokens(&self) -> (r: &Tokens)
        ensures
            r@ == self.tokens@,
    {
        &self.tokens
    }

    /// Whether this packet counts against the congestion window: padding and
    /// acknowledgements do not.
    pub fn cc_in_flight(&self) -> (r: bool)
        ensures
            r == self.ack_eliciting,
    {
        self.ack_eliciting
    }
}

} // verus!
