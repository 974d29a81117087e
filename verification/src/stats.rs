//! Counters the engine keeps about its own behaviour.  Counters saturate at
//! the top of `u64` instead of wrapping, so a reader can never see one fall.

use vstd::prelude::*;

verus! {

/// `c + 1`, saturating at `u64::MAX`.
pub open spec fn sat_inc(c: u64) -> u64 {
    if c == u64::MAX {
        u64::MAX
    } else {
        (c + 1) as u64
    }
}

/// `a + b`, saturating at `u64::MAX`.
pub open spec fn sat_plus(a: u64, b: u64) -> u64 {
    if a + b > u64::MAX {
        u64::MAX
    } else {
        (a + b) as u64
    }
}

/// `c + 1` on `u32`, saturating.
pub open spec fn sat_inc32(c: u32) -> u32 {
    if c == u32::MAX {
        u32::MAX
    } else {
        (c + 1) as u32
    }
}

/// Increments a counter, saturating instead of overflowing.
pub fn bump(c: &mut u64)
    ensures
        *final(c) == sat_inc(*old(c)),
{
    *c = c.saturating_add(1);
}

/// Adds to a counter, saturating instead of overflowing.
pub fn bump_by(c: &mut u64, n: u64)
    ensures
        *final(c) == sat_plus(*old(c), n),
{
    *c = c.saturating_add(n);
}

/// How often each frame type was sent or received.
#[derive(Debug, Clone, Default)]
pub struct FrameStats {
    /// Total over every frame type.
    pub all: u64,
    pub ack: u64,
    pub ping: u64,
    pub padding: u64,
    pub crypto: u64,
    pub stream: u64,
    pub reset_stream: u64,
    pub stop_sending: u64,
    pub max_data: u64,
    pub max_stream_data: u64,
    pub max_streams: u64,
    pub data_blocked: u64,
    pub stream_data_blocked: u64,
    pub streams_blocked: u64,
    pub new_connection_id: u64,
    pub retire_connection_id: u64,
    pub path_challenge: u64,
    pub path_response: u64,
    pub handshake_done: u64,
    pub new_token: u64,
    pub connection_close: u64,
    pub datagram: u64,
    pub ack_frequency: u64,
}

impl FrameStats {
    /// The total number of frames counted.
    pub fn all(&self) -> (r: u64)
        ensures
            r == self.all,
    {
        self.all
    }
}

/// Outcomes of the unreliable-datagram send queue.
#[derive(Debug, Clone, Default)]
pub struct DatagramStats {
    /// Datagrams dropped because they cannot fit in any packet.
    pub dropped_too_big: u64,
    /// Datagrams dropped because the outgoing queue was full.
    pub dropped_queue_full: u64,
}

/// How often each ECN path-validation outcome was reached.
#[derive(Debug, Clone, Default)]
pub struct EcnValidationCount {
    pub capable: u64,
    pub black_hole: u64,
    pub bleaching: u64,
    pub received_unsent_ect1: u64,
}

impl FrameStats {
    /// All counters at zero.
    pub fn new() -> (r: FrameStats)
        ensures
            r.all == 0 && r.ack == 0 && r.ping == 0 && r.padding == 0 && r.crypto == 0 && r.stream
                == 0 && r.new_connection_id == 0 && r.retire_connection_id == 0
                && r.path_challenge == 0 && r.path_response == 0 && r.handshake_done == 0
                && r.connection_close == 0 && r.datagram == 0,
    {
        FrameStats {
            all: 0,
            ack: 0,
            ping: 0,
            padding: 0,
            crypto: 0,
            stream: 0,
            reset_stream: 0,
            stop_sending: 0,
            max_data: 0,
            max_stream_data: 0,
            max_streams: 0,
            data_blocked: 0,
            stream_data_blocked: 0,
            streams_blocked: 0,
            new_connection_id: 0,
            retire_connection_id: 0,
            path_challenge: 0,
            path_response: 0,
            handshake_done: 0,
            new_token: 0,
            connection_close: 0,
            datagram: 0,
            ack_frequency: 0,
        }
    }
}

/// All counters of one connection.
#[derive(Debug, Clone, Default)]
pub struct Stats {
    pub packets_rx: u64,
    pub dropped_rx: u64,
    pub dups_rx: u64,
    pub packets_tx: u64,
    pub lost: u64,
    /// Path MTU probes sent.
    pub pmtud_tx: u64,
    /// Path MTU probes acknowledged.
    pub pmtud_ack: u64,
    /// Path MTU probes declared lost.
    pub pmtud_lost: u64,
    /// Times the MTU search restarted from the bottom of the table.
    pub pmtud_change: u64,
    pub frame_rx: FrameStats,
    pub frame_tx: FrameStats,
    pub datagram_tx: DatagramStats,
    pub ecn_path_validation: EcnValidationCount,
}


impl Stats {
    /// All counters at zero.
    pub fn new() -> (r: Stats)
        ensures
            r.frame_tx.all == 0,
            r.frame_rx.all == 0,
            r.pmtud_tx == 0 && r.pmtud_ack == 0 && r.pmtud_lost == 0 && r.pmtud_change == 0,
            r.datagram_tx.dropped_too_big == 0 && r.datagram_tx.dropped_queue_full == 0,
    {
        Stats {
            packets_rx: 0,
            dropped_rx: 0,
            dups_rx: 0,
            packets_tx: 0,
            lost: 0,
            pmtud_tx: 0,
            pmtud_ack: 0,
            pmtud_lost: 0,
            pmtud_change: 0,
            frame_rx: FrameStats::new(),
            frame_tx: FrameStats::new(),
            datagram_tx: DatagramStats { dropped_too_big: 0, dropped_queue_full: 0 },
            ecn_path_validation: EcnValidationCount {
                capable: 0,
                black_hole: 0,
                bleaching: 0,
                received_unsent_ect1: 0,
            },
        }
    }
}

} // verus!
