//! The knobs a connection is built with.

use vstd::prelude::*;

use crate::cc::CongestionControlAlgorithm;
use crate::time::Duration;

verus! {

/// The default idle timeout, in seconds.
pub const DEFAULT_IDLE_TIMEOUT_SECS: u64 = 30;

/// Configuration of one connection.
#[derive(Debug, Clone)]
pub struct ConnectionParameters {
    pub cc_algorithm: CongestionControlAlgorithm,
    pub pacing: bool,
    pub idle_timeout: Duration,
    pub max_data: u64,
    pub max_stream_data: u64,
    pub max_streams_bidi: u64,
    pub max_streams_uni: u64,
    pub disable_migration: bool,
    /// The largest unreliable datagram accepted; zero disables the
    /// extension.
    pub datagram_size: u64,
    pub outgoing_datagram_queue: usize,
    pub incoming_datagram_queue: usize,
}

impl Default for ConnectionParameters {
    fn default() -> (r: ConnectionParameters)
        ensures
            r.cc_algorithm == CongestionControlAlgorithm::Cubic,
            r.pacing,
            r.idle_timeout == Duration::spec_from_secs(DEFAULT_IDLE_TIMEOUT_SECS),
            !r.disable_migration,
            r.max_data == 0x4000_0000,
            r.max_stream_data == 0x1000_0000,
            r.max_streams_bidi == 16,
            r.max_streams_uni == 16,
            r.datagram_size == 0,
            r.outgoing_datagram_queue == 10,
            r.incoming_datagram_queue == 10,
    {
        ConnectionParameters {
            cc_algorithm: CongestionControlAlgorithm::Cubic,
            pacing: true,
            idle_timeout: Duration::from_secs(DEFAULT_IDLE_TIMEOUT_SECS),
            max_data: 0x4000_0000,
            max_stream_data: 0x1000_0000,
            max_streams_bidi: 16,
            max_streams_uni: 16,
            disable_migration: false,
            datagram_size: 0,
            outgoing_datagram_queue: 10,
            incoming_datagram_queue: 10,
        }
    }
}

impl ConnectionParameters {
    pub fn get_cc_algorithm(&self) -> (r: CongestionControlAlgorithm)
        ensures
            r == self.cc_algorithm,
    {
        self.cc_algorithm
    }

    pub fn cc_algorithm(self, v: CongestionControlAlgorithm) -> (r: ConnectionParameters)
        ensures
            r == (ConnectionParameters { cc_algorithm: v, ..self }),
    {
        ConnectionParameters { cc_algorithm: v, ..self }
    }

    pub fn pacing_enabled(&self) -> (r: bool)
        ensures
            r == self.pacing,
    {
        self.pacing
    }

    pub fn pacing(self, v: bool) -> (r: ConnectionParameters)
        ensures
            r == (ConnectionParameters { pacing: v, ..self }),
    {
        ConnectionParameters { pacing: v, ..self }
    }

    pub fn get_idle_timeout(&self) -> (r: Duration)
        ensures
            r == self.idle_timeout,
    {
        self.idle_timeout
    }

    pub fn idle_timeout(self, v: Duration) -> (r: ConnectionParameters)
        ensures
            r == (ConnectionParameters { idle_timeout: v, ..self }),
    {
        ConnectionParameters { idle_timeout: v, ..self }
    }

    pub fn disable_migration(self, v: bool) -> (r: ConnectionParameters)
        ensures
            r == (ConnectionParameters { disable_migration: v, ..self }),
    {
        ConnectionParameters { disable_migration: v, ..self }
    }

    pub fn datagram_size(self, v: u64) -> (r: ConnectionParameters)
        ensures
            r == (ConnectionParameters { datagram_size: v, ..self }),
    {
        ConnectionParameters { datagram_size: v, ..self }
    }

    pub fn outgoing_datagram_queue(self, v: usize) -> (r: ConnectionParameters)
        ensures
            r == (ConnectionParameters { outgoing_datagram_queue: v, ..self }),
    {
        ConnectionParameters { outgoing_datagram_queue: v, ..self }
    }
}

} // verus!
