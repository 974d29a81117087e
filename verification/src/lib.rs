//! A QUIC-style transport engine: packet and frame codecs, packet-number
//! spaces, loss-sensitive path MTU discovery, congestion control and pacing,
//! path validation and migration with per-path ECN validation, flow-controlled
//! streams, an unreliable datagram queue, and an HTTP-style priority handler.
//!
//! The engine is pure computation: the caller feeds it received datagrams,
//! application requests and the current time, and it returns datagrams to send
//! or a deadline after which it wants to run again.

use vstd::prelude::*;

pub mod cc;
pub mod cid;
pub mod connection;
pub mod datagram;
pub mod ecn;
pub mod events;
pub mod fixture;
pub mod frame;
pub mod inet;
pub mod pace;
pub mod packet;
pub mod params;
pub mod pmtud;
pub mod priority;
pub mod quic_datagrams;
pub mod recovery;
pub mod rtt;
pub mod sender;
pub mod stats;
pub mod streams;
pub mod time;
pub mod tos;
pub mod varint;

verus! {

/// The smallest datagram that may carry an Initial packet or a fresh
/// path-validation probe, per the wire protocol.
pub const MIN_INITIAL_PACKET_SIZE: usize = 1200;

/// Every failure the engine can report.  The first block carries a wire error
/// code; the rest are local conditions that never appear on the wire.
#[derive(Debug, Clone, Copy, PartialEq, Eq, Structural)]
pub enum Error {
    NoError,
    InternalError,
    ConnectionRefused,
    FlowControlError,
    StreamLimitError,
    StreamStateError,
    FinalSizeError,
    FrameEncodingError,
    TransportParameterError,
    ConnectionIdLimitError,
    ProtocolViolation,
    InvalidToken,
    ApplicationError,
    CryptoBufferExceeded,
    KeyUpdateError,
    AeadLimitReached,
    NoAvailablePath,
    /// A migration request the engine refuses; local only.
    InvalidMigration,
    /// An application payload larger than the peer accepts; local only.
    TooMuchData,
    /// No connection ID is left to start something new; local only.
    ConnectionIdsExhausted,
    /// A malformed argument from the application; local only.
    InvalidInput,
    /// A malformed HTTP-level field value; local only.
    HttpFrame,
}

impl Error {
    /// The transport error code a `CONNECTION_CLOSE` carries for this error.
    /// Local-only errors are promoted to the internal-error code.
    pub fn code(&self) -> (r: u64)
        ensures
            r == self.spec_code(),
    {
        match self {
            Error::NoError => 0x0,
            Error::InternalError => 0x1,
            Error::ConnectionRefused => 0x2,
            Error::FlowControlError => 0x3,
            Error::StreamLimitError => 0x4,
            Error::StreamStateError => 0x5,
            Error::FinalSizeError => 0x6,
            Error::FrameEncodingError => 0x7,
            Error::TransportParameterError => 0x8,
            Error::ConnectionIdLimitError => 0x9,
            Error::ProtocolViolation => 0xa,
            Error::InvalidToken => 0xb,
            Error::ApplicationError => 0xc,
            Error::CryptoBufferExceeded => 0xd,
            Error::KeyUpdateError => 0xe,
            Error::AeadLimitReached => 0xf,
            Error::NoAvailablePath => 0x10,
            _ => 0x1,
        }
    }

    pub open spec fn spec_code(self) -> u64 {
        match self {
            Error::NoError => 0x0,
            Error::InternalError => 0x1,
            Error::ConnectionRefused => 0x2,
            Error::FlowControlError => 0x3,
            Error::StreamLimitError => 0x4,
            Error::StreamStateError => 0x5,
            Error::FinalSizeError => 0x6,
            Error::FrameEncodingError => 0x7,
            Error::TransportParameterError => 0x8,
            Error::ConnectionIdLimitError => 0x9,
            Error::ProtocolViolation => 0xa,
            Error::InvalidToken => 0xb,
            Error::ApplicationError => 0xc,
            Error::CryptoBufferExceeded => 0xd,
            Error::KeyUpdateError => 0xe,
            Error::AeadLimitReached => 0xf,
            Error::NoAvailablePath => 0x10,
            _ => 0x1,
        }
    }
}

/// The usual result type of the engine.
pub type Res<T> = Result<T, Error>;

/// Which side of the connection this endpoint plays.
#[derive(Debug, Clone, Copy, PartialEq, Eq, Structural)]
pub enum Role {
    Client,
    Server,
}

} // verus!
