//! Congestion control: slow start, congestion avoidance and recovery shared
//! between two window-adjustment rules, the halving rule and the cubic rule.
//! The controller also owns the path's MTU discovery, whose probes it must
//! ignore when judging losses.

use vstd::prelude::*;

use crate::pmtud::Pmtud;
use crate::recovery::SentPacket;
use crate::rtt::RttEstimate;
use crate::time::{Duration, Instant};
use crate::{Error, Res};

verus! {

/// The congestion window starts at ten packets, but never above this.
pub const CWND_INITIAL_CAP: u64 = 14720;

/// The window never falls below two packets.
pub const CWND_MIN_PKTS: u64 = 2;

/// The interface every congestion controller offers the sender.
pub trait CongestionControl {
    fn cwnd(&self) -> u64;

    fn bytes_in_flight(&self) -> u64;

    fn cwnd_avail(&self) -> u64;

    fn cwnd_min(&self) -> u64
        requires
            self.cc_wf(),
    ;

    fn on_packets_acked(&mut self, acked_pkts: &[SentPacket], rtt_est: &RttEstimate, now: Instant)
        requires
            old(self).cc_wf(),
        ensures
            final(self).cc_wf(),
    ;

    fn on_packets_lost(
        &mut self,
        first_rtt_sample_time: Option<Instant>,
        prev_largest_acked_sent: Option<Instant>,
        pto: Duration,
        lost_packets: &[SentPacket],
        now: Instant,
    ) -> (reduced: bool)
        requires
            old(self).cc_wf(),
        ensures
            final(self).cc_wf(),
    ;

    fn on_ecn_ce_received(&mut self, largest_acked_pkt: &SentPacket, now: Instant) -> (reduced:
        bool)
        requires
            old(self).cc_wf(),
        ensures
            final(self).cc_wf(),
    ;

    fn recovery_packet(&self) -> bool;

    fn discard(&mut self, pkt: &SentPacket, now: Instant)
        requires
            old(self).cc_wf(),
        ensures
            final(self).cc_wf(),
    ;

    fn on_packet_sent(&mut self, pkt: &SentPacket, now: Instant)
        requires
            old(self).cc_wf(),
        ensures
            final(self).cc_wf(),
    ;

    fn discard_in_flight(&mut self, now: Instant)
        requires
            old(self).cc_wf(),
        ensures
            final(self).cc_wf(),
    ;

    /// The controller's own consistency claim.
    spec fn cc_wf(&self) -> bool;
}

/// The two window-adjustment rules.
#[derive(Debug, Copy, Clone, Default, PartialEq, Eq, Structural)]
pub enum CongestionControlAlgorithm {
    NewReno,
    #[default]
    Cubic,
}

impl core::str::FromStr for CongestionControlAlgorithm {
    type Err = Error;

    /// Reads an algorithm name, ignoring case and surrounding spaces, so
    /// that it can be used on a command line.
    fn from_str(s: &str) -> Res<CongestionControlAlgorithm> {
        let b = s.as_bytes();
        let mut start: usize = 0;
        let mut end: usize = b.len();
        while start < end && (b[start] == 32 || b[start] == 9)
            invariant
                start <= end <= b@.len(),
            decreases end - start,
        {
            start = start + 1;
        }
        while end > start && (b[end - 1] == 32 || b[end - 1] == 9)
            invariant
                start <= end <= b@.len(),
            decreases end,
        {
            end = end - 1;
        }
        if ascii_eq_lower(b, start, end, "newreno".as_bytes()) || ascii_eq_lower(
            b,
            start,
            end,
            "reno".as_bytes(),
        ) {
            Ok(CongestionControlAlgorithm::NewReno)
        } else if ascii_eq_lower(b, start, end, "cubic".as_bytes()) {
            Ok(CongestionControlAlgorithm::Cubic)
        } else {
            Err(Error::InvalidInput)
        }
    }
}

/// Whether `b[start..end]`, lowercased, equals the lowercase `target`.
fn ascii_eq_lower(b: &[u8], start: usize, end: usize, target: &[u8]) -> (r: bool)
    requires
        start <= end <= b@.len(),
{
    if end - start != target.len() {
        return false;
    }
    let mut i: usize = 0;
    while i < target.len()
        invariant
            start + target@.len() <= b@.len(),
            end - start == target@.len(),
            i <= target@.len(),
        decreases target@.len() - i,
    {
        let mut c = b[start + i];
        if 65 <= c && c <= 90 {
            c = c + 32;
        }
        if c != target[i] {
            return false;
        }
        i = i + 1;
    }
    true
}

/// Where the shared scaffold stands.
#[derive(Debug, Copy, Clone, PartialEq, Eq, Structural)]
pub enum CcState {
    SlowStart,
    CongestionAvoidance,
    /// After a congestion signal, until a packet sent later is acknowledged.
    Recovery,
}

/// The integer cube root: the largest `r` with `r^3 <= x`.
pub fn icbrt(x: u64) -> (r: u64)
    ensures
        r * r * r <= x,
        (r + 1) * (r + 1) * (r + 1) > x,
{
    let mut lo: u64 = 0;
    let mut hi: u64 = 1 << 22;
    proof {
        assert((1u64 << 22) == 0x400000) by (bit_vector);
        assert(0x400000int * 0x400000int * 0x400000int > u64::MAX);
    }
    while hi - lo > 1
        invariant
            lo < hi <= 0x400000,
            lo * lo * lo <= x,
            hi * hi * hi > x,
        decreases hi - lo,
    {
        let mid = lo + (hi - lo) / 2;
        proof {
            assert(mid <= 0x400000);
            assert((mid as int) * (mid as int) <= 0x400000int * 0x400000int)
                by (nonlinear_arith)
                requires
                    mid <= 0x400000u64,
            ;
            assert((mid as int) * (mid as int) * (mid as int) <= 0x400000int * 0x400000int
                * 0x400000int) by (nonlinear_arith)
                requires
                    mid <= 0x400000u64,
            ;
            assert(0x400000int * 0x400000int * 0x400000int < u128::MAX);
        }
        let cube: u128 = (mid as u128) * (mid as u128) * (mid as u128);
        if cube <= x as u128 {
            lo = mid;
        } else {
            hi = mid;
        }
    }
    lo
}

/// The classic congestion controller, parameterized by its adjustment rule.
#[derive(Debug)]
pub struct ClassicCongestionControl {
    pub alg: CongestionControlAlgorithm,
    pub state: CcState,
    pub cwnd: u64,
    pub ssthresh: u64,
    pub bytes_in_flight: u64,
    /// Bytes acknowledged since the window last grew, in avoidance.
    pub acked_bytes: u64,
    /// The time the last congestion response was taken; acknowledged or lost
    /// packets sent before it do not trigger another response.
    pub recovery_start: Option<Instant>,
    /// Set between entering recovery and the next send: that send is the
    /// recovery packet.
    pub awaiting_recovery_packet: bool,
    /// The window at the last reduction, the cubic rule's anchor.
    pub w_max: u64,
    /// When the current avoidance epoch began.
    pub epoch_start: Option<Instant>,
    /// The cubic rule's plateau time, in milliseconds from the epoch.
    pub k_ms: u64,
    pub pmtud: Pmtud,
}

/// The bytes of `s` that count against the congestion window: the sizes of
/// its ack-eliciting members.
pub open spec fn spec_in_flight_bytes(s: Seq<SentPacket>) -> int
    decreases s.len(),
{
    if s.len() == 0 {
        0
    } else {
        (if s[0].ack_eliciting {
            s[0].len as int
        } else {
            0
        }) + spec_in_flight_bytes(s.drop_first())
    }
}

/// The in-flight total after every packet of `s` left it, one saturating
/// subtraction at a time.
pub open spec fn spec_bif_after(bif: u64, s: Seq<SentPacket>) -> u64
    decreases s.len(),
{
    if s.len() == 0 {
        bif
    } else {
        let next: u64 = if s[0].ack_eliciting && s[0].len as u64 <= bif {
            (bif - s[0].len) as u64
        } else if s[0].ack_eliciting {
            0u64
        } else {
            bif
        };
        spec_bif_after(next, s.drop_first())
    }
}

/// When the in-flight members of `s` total no more than `bif` — as they do
/// whenever each was counted in and none twice — the total drops by exactly
/// their summed size.
pub proof fn lemma_in_flight_drop(bif: u64, s: Seq<SentPacket>)
    requires
        spec_in_flight_bytes(s) <= bif,
    ensures
        spec_bif_after(bif, s) == bif - spec_in_flight_bytes(s),
    decreases s.len(),
{
    if s.len() > 0 {
        assert(spec_in_flight_bytes(s.drop_first()) >= 0) by {
            lemma_in_flight_nonneg(s.drop_first());
        }
        if s[0].ack_eliciting {
            lemma_in_flight_drop((bif - s[0].len) as u64, s.drop_first());
        } else {
            lemma_in_flight_drop(bif, s.drop_first());
        }
    }
}

pub proof fn lemma_in_flight_nonneg(s: Seq<SentPacket>)
    ensures
        spec_in_flight_bytes(s) >= 0,
    decreases s.len(),
{
    if s.len() > 0 {
        lemma_in_flight_nonneg(s.drop_first());
    }
}

proof fn lemma_bif_after_push(bif: u64, q: Seq<SentPacket>, p: SentPacket)
    ensures
        spec_bif_after(bif, q.push(p)) == ({
            let prev = spec_bif_after(bif, q);
            if p.ack_eliciting && p.len as u64 <= prev {
                (prev - p.len) as u64
            } else if p.ack_eliciting {
                0u64
            } else {
                prev
            }
        }),
    decreases q.len(),
{
    let s = q.push(p);
    if q.len() == 0 {
        assert(s.drop_first() =~= q);
        assert(s[0] == p);
        let next: u64 = if p.ack_eliciting && p.len as u64 <= bif {
            (bif - p.len) as u64
        } else if p.ack_eliciting {
            0u64
        } else {
            bif
        };
        assert(spec_bif_after(bif, s) == spec_bif_after(next, s.drop_first()));
        assert(spec_bif_after(next, q) == next);
        assert(spec_bif_after(bif, q) == bif);
    } else {
        assert(s.drop_first() =~= q.drop_first().push(p));
        assert(s[0] == q[0]);
        let next: u64 = if q[0].ack_eliciting && q[0].len as u64 <= bif {
            (bif - q[0].len) as u64
        } else if q[0].ack_eliciting {
            0u64
        } else {
            bif
        };
        assert(spec_bif_after(bif, s) == spec_bif_after(next, s.drop_first()));
        assert(spec_bif_after(bif, q) == spec_bif_after(next, q.drop_first()));
        lemma_bif_after_push(next, q.drop_first(), p);
    }
}

/// Whether a sent packet counts as a congestion signal for this state: it
/// was in flight, it is not an MTU probe, and it was sent after the last
/// congestion response.
pub open spec fn spec_congestion_signal(c: ClassicCongestionControl, p: SentPacket) -> bool {
    &&& p.ack_eliciting
    &&& !c.pmtud.spec_is_probe(p)
    &&& match c.recovery_start {
        Option::Some(t) => p.time_sent.micros > t.micros,
        Option::None => true,
    }
}

/// Whether any packet of `s` is a congestion signal for `c`.
pub open spec fn spec_any_congestion(c: ClassicCongestionControl, s: Seq<SentPacket>) -> bool {
    exists|i: int| 0 <= i < s.len() && spec_congestion_signal(c, s[i])
}

impl ClassicCongestionControl {
    pub open spec fn wf(self) -> bool {
        self.pmtud.wf()
    }

    /// The packet size the window is measured in.
    pub open spec fn spec_mss(self) -> u64 {
        (self.pmtud.mtu - self.pmtud.header_size) as u64
    }

    pub fn mss(&self) -> (r: u64)
        requires
            self.wf(),
        ensures
            r == self.spec_mss(),
    {
        self.pmtud.plpmtu() as u64
    }

    /// A fresh controller in slow start at the initial window.
    pub fn new(alg: CongestionControlAlgorithm, pmtud: Pmtud) -> (r: ClassicCongestionControl)
        requires
            pmtud.wf(),
        ensures
            r.wf(),
            r.alg == alg,
            r.state == CcState::SlowStart,
            r.pmtud == pmtud,
            r.bytes_in_flight == 0,
            r.cwnd == spec_cwnd_initial((pmtud.mtu - pmtud.header_size) as u64),
    {
        proof {
            pmtud.lemma_table_range();
        }
        let mss = pmtud.plpmtu() as u64;
        let cwnd = cwnd_initial(mss);
        ClassicCongestionControl {
            alg,
            state: CcState::SlowStart,
            cwnd,
            ssthresh: u64::MAX,
            bytes_in_flight: 0,
            acked_bytes: 0,
            recovery_start: Option::None,
            awaiting_recovery_packet: false,
            w_max: cwnd,
            epoch_start: Option::None,
            k_ms: 0,
            pmtud,
        }
    }

    pub fn cwnd(&self) -> (r: u64)
        ensures
            r == self.cwnd,
    {
        self.cwnd
    }

    pub fn bytes_in_flight(&self) -> (r: u64)
        ensures
            r == self.bytes_in_flight,
    {
        self.bytes_in_flight
    }

    /// Window not yet used by packets in flight.
    pub fn cwnd_avail(&self) -> (r: u64)
        ensures
            r == if self.cwnd >= self.bytes_in_flight {
                (self.cwnd - self.bytes_in_flight) as u64
            } else {
                0u64
            },
    {
        self.cwnd.saturating_sub(self.bytes_in_flight)
    }

    pub fn cwnd_min(&self) -> (r: u64)
        requires
            self.wf(),
        ensures
            r == crate::time::sat_mul(self.spec_mss(), CWND_MIN_PKTS as nat),
    {
        crate::time::sat_mul_u64(self.mss(), CWND_MIN_PKTS)
    }

    pub fn cwnd_initial(&self) -> (r: u64)
        requires
            self.wf(),
        ensures
            r == spec_cwnd_initial(self.spec_mss()),
    {
        cwnd_initial(self.mss())
    }

    pub fn pmtud(&self) -> (r: &Pmtud)
        ensures
            r == self.pmtud,
    {
        &self.pmtud
    }

    pub fn pmtud_mut(&mut self) -> (r: &mut Pmtud)
        ensures
            *r == old(self).pmtud,
            *final(self) == (ClassicCongestionControl { pmtud: *final(r), ..*old(self) }),
    {
        &mut self.pmtud
    }

    /// A packet left: it counts against the window while in flight, and a
    /// send while a recovery packet is owed is that recovery packet.
    pub fn on_packet_sent(&mut self, pkt: &SentPacket, now: Instant)
        requires
            old(self).wf(),
        ensures
            final(self).wf(),
            final(self).bytes_in_flight == if pkt.ack_eliciting {
                crate::stats::sat_plus(old(self).bytes_in_flight, pkt.len as u64)
            } else {
                old(self).bytes_in_flight
            },
            final(self).cwnd == old(self).cwnd,
            pkt.ack_eliciting ==> !final(self).awaiting_recovery_packet,
    {
        if pkt.ack_eliciting() {
            self.bytes_in_flight = self.bytes_in_flight.saturating_add(pkt.len() as u64);
            self.awaiting_recovery_packet = false;
        }
    }

    /// Whether the next packet sent is the first after a congestion
    /// response.
    pub fn recovery_packet(&self) -> (r: bool)
        ensures
            r == self.awaiting_recovery_packet,
    {
        self.awaiting_recovery_packet
    }

    /// A packet's record is discarded without acknowledgement, as on key
    /// discard: it no longer counts against the window.
    pub fn discard(&mut self, pkt: &SentPacket, now: Instant)
        requires
            old(self).wf(),
        ensures
            final(self).wf(),
            final(self).bytes_in_flight == if pkt.ack_eliciting {
                old(self).bytes_in_flight as u64
            } else {
                old(self).bytes_in_flight
            } - if pkt.ack_eliciting && pkt.len as u64 <= old(self).bytes_in_flight {
                pkt.len as int
            } else {
                0int
            },
            final(self).cwnd == old(self).cwnd,
    {
        if pkt.ack_eliciting() {
            if pkt.len() as u64 <= self.bytes_in_flight {
                self.bytes_in_flight = self.bytes_in_flight - pkt.len() as u64;
            }
        }
    }

    /// After migration the old path's controller forgets its in-flight
    /// bytes: they will never be acknowledged on this path.
    pub fn discard_in_flight(&mut self, now: Instant)
        requires
            old(self).wf(),
        ensures
            final(self).wf(),
            *final(self) == (ClassicCongestionControl { bytes_in_flight: 0, ..*old(self) }),
    {
        self.bytes_in_flight = 0;
    }

    /// Acknowledged packets leave the in-flight total; those that are not
    /// MTU probes and were sent after the last congestion response grow the
    /// window: byte for byte in slow start, one packet per window in
    /// avoidance (at the cubic rule's pace under that algorithm).
    pub fn on_packets_acked(
        &mut self,
        acked_pkts: &[SentPacket],
        rtt_est: &RttEstimate,
        now: Instant,
    )
        requires
            old(self).wf(),
        ensures
            final(self).wf(),
            final(self).cwnd >= old(self).cwnd,
            final(self).pmtud == old(self).pmtud,
            // Every acknowledged in-flight packet leaves the account by its
            // size; with `lemma_in_flight_drop`, the total falls by exactly
            // the summed size when the packets were each counted in.
            final(self).bytes_in_flight == spec_bif_after(
                old(self).bytes_in_flight,
                acked_pkts@,
            ),
            final(self).bytes_in_flight <= old(self).bytes_in_flight,
    {
        let mut i: usize = 0;
        while i < acked_pkts.len()
            invariant
                self.wf(),
                i <= acked_pkts@.len(),
                self.cwnd >= old(self).cwnd,
                self.pmtud == old(self).pmtud,
                self.bytes_in_flight == spec_bif_after(
                    old(self).bytes_in_flight,
                    acked_pkts@.take(i as int),
                ),
                self.bytes_in_flight <= old(self).bytes_in_flight,
            decreases acked_pkts@.len() - i,
        {
            let pkt = &acked_pkts[i];
            i = i + 1;
            proof {
                assert(acked_pkts@.take(i as int) =~= acked_pkts@.take(i - 1).push(
                    acked_pkts@[i - 1],
                ));
                lemma_bif_after_push(
                    old(self).bytes_in_flight,
                    acked_pkts@.take(i - 1),
                    acked_pkts@[i - 1],
                );
            }
            if pkt.ack_eliciting() {
                self.bytes_in_flight = self.bytes_in_flight.saturating_sub(pkt.len() as u64);
            } else {
                continue ;
            }
            if self.pmtud.is_pmtud_probe(pkt) {
                // Probe sizes say nothing about congestion.
                continue ;
            }
            let after_recovery = match self.recovery_start {
                Option::Some(t) => t.lt(&pkt.time_sent()),
                Option::None => true,
            };
            if !after_recovery {
                continue ;
            }
            if self.state == CcState::Recovery {
                // A packet sent after the response arrived: recovery is over.
                self.state = CcState::CongestionAvoidance;
                self.epoch_start = Option::Some(now);
                self.set_cubic_k();
            }
            if self.state == CcState::SlowStart {
                self.cwnd = self.cwnd.saturating_add(pkt.len() as u64);
                if self.cwnd >= self.ssthresh {
                    self.state = CcState::CongestionAvoidance;
                    self.epoch_start = Option::Some(now);
                    self.set_cubic_k();
                }
            } else {
                self.acked_bytes = self.acked_bytes.saturating_add(pkt.len() as u64);
                if self.acked_bytes >= self.cwnd && self.cwnd > 0 {
                    self.acked_bytes = self.acked_bytes - self.cwnd;
                    let inc = self.avoidance_increase(now);
                    self.cwnd = self.cwnd.saturating_add(inc);
                }
            }
        }
        proof {
            assert(acked_pkts@.take(acked_pkts@.len() as int) =~= acked_pkts@);
        }
    }

    /// The cubic plateau: the window reaches its old peak after
    /// `K = cbrt(w_max * 0.3 / (0.4 * mss))` seconds.
    fn set_cubic_k(&mut self)
        requires
            old(self).wf(),
        ensures
            final(self).wf(),
            *final(self) == (ClassicCongestionControl { k_ms: final(self).k_ms, ..*old(self) }),
    {
        let mss = self.mss();
        if mss == 0 {
            self.k_ms = 0;
            return ;
        }
        // K in ms is the cube root of (3 * w_max * 10^9) / (4 * mss).
        let scaled = crate::pace::mul_div(self.w_max, 750_000_000, mss);
        self.k_ms = icbrt(scaled);
    }

    /// The bytes the window grows by per full window acknowledged, in
    /// congestion avoidance.
    fn avoidance_increase(&mut self, now: Instant) -> (r: u64)
        requires
            old(self).wf(),
        ensures
            final(self).wf(),
            *final(self) == (ClassicCongestionControl {
                epoch_start: final(self).epoch_start,
                ..*old(self)
            }),
            r <= final(self).spec_mss(),
    {
        let mss = self.mss();
        match self.alg {
            CongestionControlAlgorithm::NewReno => mss,
            CongestionControlAlgorithm::Cubic => {
                let epoch = match self.epoch_start {
                    Option::Some(t) => t,
                    Option::None => {
                        self.epoch_start = Option::Some(now);
                        now
                    },
                };
                let t_ms = now.duration_since(epoch).as_micros() / 1_000;
                let target = cubic_window(self.w_max, mss, t_ms, self.k_ms);
                if target > self.cwnd {
                    let gap = target - self.cwnd;
                    if gap < mss {
                        gap
                    } else {
                        mss
                    }
                } else {
                    // At or above the plateau the window creeps.
                    if mss >= 100 {
                        mss / 100
                    } else {
                        1
                    }
                }
            },
        }
    }

    /// One congestion response: remember the peak, multiply the window by
    /// the rule's factor, floor it at the minimum, and enter recovery.
    fn on_congestion_event(&mut self, now: Instant)
        requires
            old(self).wf(),
        ensures
            final(self).wf(),
            final(self).pmtud == old(self).pmtud,
            final(self).state == CcState::Recovery,
            final(self).awaiting_recovery_packet,
            final(self).recovery_start == Option::Some(now),
            final(self).cwnd >= crate::time::sat_mul(final(self).spec_mss(), CWND_MIN_PKTS as nat)
                || final(self).cwnd >= old(self).cwnd,
            final(self).cwnd <= old(self).cwnd || final(self).cwnd == crate::time::sat_mul(
                final(self).spec_mss(),
                CWND_MIN_PKTS as nat,
            ),
    {
        self.w_max = self.cwnd;
        let reduced = match self.alg {
            CongestionControlAlgorithm::NewReno => self.cwnd / 2,
            CongestionControlAlgorithm::Cubic => crate::pace::mul_div(self.cwnd, 7, 10),
        };
        let floor = self.cwnd_min();
        self.cwnd = if reduced >= floor {
            reduced
        } else {
            floor
        };
        proof {
            let ghost w = old(self).cwnd;
            assert((w * 7) / 10 <= w) by (nonlinear_arith);
            assert(crate::pace::spec_mul_div(w, 7, 10) <= w);
        }
        self.ssthresh = self.cwnd;
        self.state = CcState::Recovery;
        self.recovery_start = Option::Some(now);
        self.awaiting_recovery_packet = true;
        self.epoch_start = Option::None;
    }

    /// Lost packets leave the in-flight total; a loss that is not an MTU
    /// probe and postdates the last response is a congestion signal and
    /// reduces the window once.  Returns whether it did.
    pub fn on_packets_lost(
        &mut self,
        first_rtt_sample_time: Option<Instant>,
        prev_largest_acked_sent: Option<Instant>,
        pto: Duration,
        lost_packets: &[SentPacket],
        now: Instant,
    ) -> (r: bool)
        requires
            old(self).wf(),
        ensures
            final(self).wf(),
            final(self).pmtud == old(self).pmtud,
            r == spec_any_congestion(*old(self), lost_packets@),
            r ==> final(self).cwnd >= crate::time::sat_mul(
                old(self).spec_mss(),
                CWND_MIN_PKTS as nat,
            ) || final(self).cwnd >= old(self).cwnd,
            r ==> final(self).cwnd <= old(self).cwnd || final(self).cwnd == crate::time::sat_mul(
                old(self).spec_mss(),
                CWND_MIN_PKTS as nat,
            ),
            r ==> final(self).state == CcState::Recovery && final(self).awaiting_recovery_packet,
            !r ==> final(self).cwnd == old(self).cwnd,
    {
        let ghost c0 = *self;
        let mut congested: bool = false;
        let mut i: usize = 0;
        while i < lost_packets.len()
            invariant
                self.wf(),
                i <= lost_packets@.len(),
                self.pmtud == c0.pmtud,
                self.recovery_start == c0.recovery_start,
                self.cwnd == c0.cwnd,
                self.state == c0.state,
                self.awaiting_recovery_packet == c0.awaiting_recovery_packet,
                congested == exists|j: int|
                    0 <= j < i && spec_congestion_signal(c0, lost_packets@[j]),
            decreases lost_packets@.len() - i,
        {
            let pkt = &lost_packets[i];
            if pkt.ack_eliciting() {
                self.bytes_in_flight = self.bytes_in_flight.saturating_sub(pkt.len() as u64);
            }
            let is_signal = pkt.ack_eliciting() && !self.pmtud.is_pmtud_probe(pkt) && (
            match self.recovery_start {
                Option::Some(t) => t.lt(&pkt.time_sent()),
                Option::None => true,
            });
            proof {
                assert(is_signal == spec_congestion_signal(c0, lost_packets@[i as int]));
            }
            congested = congested || is_signal;
            i = i + 1;
        }
        if congested {
            self.on_congestion_event(now);
        }
        congested
    }

    /// A congestion-experienced mark is the network's loss-free congestion
    /// signal: it reduces the window exactly as a loss would, at most once
    /// per round trip.  Returns whether it did.
    pub fn on_ecn_ce_received(&mut self, largest_acked_pkt: &SentPacket, now: Instant) -> (r: bool)
        requires
            old(self).wf(),
        ensures
            final(self).wf(),
            final(self).pmtud == old(self).pmtud,
            r == spec_congestion_signal(*old(self), *largest_acked_pkt),
            !r ==> *final(self) == *old(self),
            r ==> final(self).state == CcState::Recovery,
    {
        let is_signal = largest_acked_pkt.ack_eliciting() && !self.pmtud.is_pmtud_probe(
            largest_acked_pkt,
        ) && (match self.recovery_start {
            Option::Some(t) => t.lt(&largest_acked_pkt.time_sent()),
            Option::None => true,
        });
        if is_signal {
            self.on_congestion_event(now);
        }
        is_signal
    }
}

/// The initial window: ten packets, capped, but at least the minimum.
pub open spec fn spec_cwnd_initial(mss: u64) -> u64 {
    let ten = crate::time::sat_mul(mss, 10);
    let two = crate::time::sat_mul(mss, CWND_MIN_PKTS as nat);
    let capped = if ten <= CWND_INITIAL_CAP {
        ten
    } else {
        CWND_INITIAL_CAP
    };
    if capped >= two {
        capped
    } else {
        two
    }
}

pub fn cwnd_initial(mss: u64) -> (r: u64)
    ensures
        r == spec_cwnd_initial(mss),
{
    let ten = crate::time::sat_mul_u64(mss, 10);
    let two = crate::time::sat_mul_u64(mss, CWND_MIN_PKTS);
    let capped = if ten <= CWND_INITIAL_CAP {
        ten
    } else {
        CWND_INITIAL_CAP
    };
    if capped >= two {
        capped
    } else {
        two
    }
}

/// The cubic window at `t_ms` past the epoch: `w_max + 0.4 * mss *
/// ((t - K) / 1000)^3`, in integer arithmetic, with the time clamped so the
/// cube stays representable.
pub fn cubic_window(w_max: u64, mss: u64, t_ms: u64, k_ms: u64) -> (r: u64)
    ensures
        t_ms >= k_ms ==> r >= w_max,
        t_ms < k_ms ==> r <= w_max,
{
    if t_ms >= k_ms {
        let dt = if t_ms - k_ms <= 1_000_000 {
            t_ms - k_ms
        } else {
            1_000_000
        };
        proof {
            assert((dt as int) * (dt as int) <= 1_000_000int * 1_000_000int)
                by (nonlinear_arith)
                requires
                    dt <= 1_000_000u64,
            ;
            assert((dt as int) * (dt as int) <= 1_000_000int * 1_000_000int)
                by (nonlinear_arith)
                requires
                    dt <= 1_000_000u64,
            ;
            assert((dt as int) * (dt as int) * (dt as int) <= 1_000_000int * 1_000_000int
                * 1_000_000int) by (nonlinear_arith)
                requires
                    dt <= 1_000_000u64,
            ;
        }
        let cube = dt * dt * dt;
        let grow = crate::pace::mul_div(crate::time::sat_mul_u64(2, mss), cube, 5_000_000_000);
        w_max.saturating_add(grow)
    } else {
        let dt = if k_ms - t_ms <= 1_000_000 {
            k_ms - t_ms
        } else {
            1_000_000
        };
        proof {
            assert((dt as int) * (dt as int) <= 1_000_000int * 1_000_000int)
                by (nonlinear_arith)
                requires
                    dt <= 1_000_000u64,
            ;
            assert((dt as int) * (dt as int) * (dt as int) <= 1_000_000int * 1_000_000int
                * 1_000_000int) by (nonlinear_arith)
                requires
                    dt <= 1_000_000u64,
            ;
        }
        let cube = dt * dt * dt;
        let shrink = crate::pace::mul_div(crate::time::sat_mul_u64(2, mss), cube, 5_000_000_000);
        w_max.saturating_sub(shrink)
    }
}

impl CongestionControl for ClassicCongestionControl {
    open spec fn cc_wf(&self) -> bool {
        self.wf()
    }

    fn cwnd(&self) -> u64 {
        ClassicCongestionControl::cwnd(self)
    }

    fn bytes_in_flight(&self) -> u64 {
        ClassicCongestionControl::bytes_in_flight(self)
    }

    fn cwnd_avail(&self) -> u64 {
        ClassicCongestionControl::cwnd_avail(self)
    }

    fn cwnd_min(&self) -> u64 {
        ClassicCongestionControl::cwnd_min(self)
    }

    fn on_packets_acked(
        &mut self,
        acked_pkts: &[SentPacket],
        rtt_est: &RttEstimate,
        now: Instant,
    ) {
        ClassicCongestionControl::on_packets_acked(self, acked_pkts, rtt_est, now);
    }

    fn on_packets_lost(
        &mut self,
        first_rtt_sample_time: Option<Instant>,
        prev_largest_acked_sent: Option<Instant>,
        pto: Duration,
        lost_packets: &[SentPacket],
        now: Instant,
    ) -> bool {
        ClassicCongestionControl::on_packets_lost(
            self,
            first_rtt_sample_time,
            prev_largest_acked_sent,
            pto,
            lost_packets,
            now,
        )
    }

    fn on_ecn_ce_received(&mut self, largest_acked_pkt: &SentPacket, now: Instant) -> bool {
        ClassicCongestionControl::on_ecn_ce_received(self, largest_acked_pkt, now)
    }

    fn recovery_packet(&self) -> bool {
        ClassicCongestionControl::recovery_packet(self)
    }

    fn discard(&mut self, pkt: &SentPacket, now: Instant) {
        ClassicCongestionControl::discard(self, pkt, now);
    }

    fn on_packet_sent(&mut self, pkt: &SentPacket, now: Instant) {
        ClassicCongestionControl::on_packet_sent(self, pkt, now);
    }

    fn discard_in_flight(&mut self, now: Instant) {
        ClassicCongestionControl::discard_in_flight(self, now);
    }
}

} // verus!
