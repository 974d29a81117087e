//! The packet sender of one path: its congestion controller and its pacer,
//! kept consistent with the path's discovered MTU.

use vstd::prelude::*;

use crate::cc::ClassicCongestionControl;
use crate::pace::{Pacer, PACING_BURST_SIZE};
use crate::params::ConnectionParameters;
use crate::pmtud::Pmtud;
use crate::recovery::SentPacket;
use crate::rtt::RttEstimate;
use crate::stats::Stats;
use crate::time::{Duration, Instant};

verus! {

/// Congestion control and pacing for one path.
#[derive(Debug)]
pub struct PacketSender {
    pub cc: ClassicCongestionControl,
    pub pacer: Pacer,
}

impl PacketSender {
    pub open spec fn wf(self) -> bool {
        self.cc.wf()
    }

    /// A sender at the initial window with a full pacing bucket.
    pub fn new(conn_params: &ConnectionParameters, pmtud: Pmtud, now: Instant) -> (r: PacketSender)
        requires
            pmtud.wf(),
        ensures
            r.wf(),
            r.cc.alg == conn_params.cc_algorithm,
            r.cc.bytes_in_flight == 0,
            // The initial window: ten packets, capped, floored at two.
            r.cc.cwnd == crate::cc::spec_cwnd_initial((pmtud.mtu - pmtud.header_size) as u64),
            // A full pacing bucket of two packets at the discovered size.
            r.pacer.enabled == conn_params.pacing,
            r.pacer.mtu == (pmtud.mtu - pmtud.header_size) as u64,
            r.pacer.burst == crate::time::sat_mul(
                (pmtud.mtu - pmtud.header_size) as u64,
                PACING_BURST_SIZE as nat,
            ),
            r.pacer.tokens == r.pacer.burst,
            r.pacer.last == now,
    {
        proof {
            pmtud.lemma_table_range();
        }
        let mtu = pmtud.plpmtu() as u64;
        PacketSender {
            cc: ClassicCongestionControl::new(conn_params.get_cc_algorithm(), pmtud),
            pacer: Pacer::new(
                conn_params.pacing_enabled(),
                now,
                crate::time::sat_mul_u64(mtu, PACING_BURST_SIZE as u64),
                mtu,
            ),
        }
    }

    pub fn pmtud(&self) -> (r: &Pmtud)
        ensures
            r == self.cc.pmtud,
    {
        self.cc.pmtud()
    }

    pub fn pmtud_mut(&mut self) -> (r: &mut Pmtud)
        ensures
            *r == old(self).cc.pmtud,
            final(self).pacer == old(self).pacer,
            final(self).cc == (crate::cc::ClassicCongestionControl {
                pmtud: *final(r),
                ..old(self).cc
            }),
    {
        self.cc.pmtud_mut()
    }

    pub fn cwnd(&self) -> (r: u64)
        ensures
            r == self.cc.cwnd,
    {
        self.cc.cwnd()
    }

    pub fn cwnd_avail(&self) -> (r: u64)
        ensures
            r == if self.cc.cwnd >= self.cc.bytes_in_flight {
                (self.cc.cwnd - self.cc.bytes_in_flight) as u64
            } else {
                0u64
            },
    {
        self.cc.cwnd_avail()
    }

    pub fn cwnd_min(&self) -> (r: u64)
        requires
            self.wf(),
        ensures
            r == crate::time::sat_mul(self.cc.spec_mss(), crate::cc::CWND_MIN_PKTS as nat),
    {
        self.cc.cwnd_min()
    }

    pub fn bytes_in_flight(&self) -> (r: u64)
        ensures
            r == self.cc.bytes_in_flight,
    {
        self.cc.bytes_in_flight()
    }

    /// Keeps the pacer's packet size in step with the discovered MTU.
    fn maybe_update_pacer_mtu(&mut self)
        requires
            old(self).wf(),
        ensures
            final(self).wf(),
            final(self).cc == old(self).cc,
            final(self).pacer.mtu == old(self).cc.spec_mss(),
    {
        let current_mtu = self.cc.pmtud().plpmtu() as u64;
        if current_mtu != self.pacer.mtu() {
            self.pacer.set_mtu(current_mtu);
        } else {
            proof {
                assert(self.pacer.mtu == old(self).cc.spec_mss());
            }
        }
    }

    /// Acknowledged packets feed the congestion controller and the MTU
    /// search, and the pacer follows any MTU change.
    pub fn on_packets_acked(
        &mut self,
        acked_pkts: &[SentPacket],
        rtt_est: &RttEstimate,
        now: Instant,
        stats: &mut Stats,
    )
        requires
            old(self).wf(),
        ensures
            final(self).wf(),
            final(self).cc.cwnd >= old(self).cc.cwnd,
            // Every acknowledged in-flight packet leaves the account by its
            // size (`lemma_in_flight_drop` turns the fold into the summed
            // drop whenever each packet was counted in once).
            final(self).cc.bytes_in_flight == crate::cc::spec_bif_after(
                old(self).cc.bytes_in_flight,
                acked_pkts@,
            ),
            final(self).cc.bytes_in_flight <= old(self).cc.bytes_in_flight,
            // The pacer tracks the discovered packet size.
            final(self).pacer.mtu == final(self).cc.spec_mss(),
    {
        self.cc.on_packets_acked(acked_pkts, rtt_est, now);
        self.cc.pmtud_mut().on_packets_acked(acked_pkts, stats);
        self.maybe_update_pacer_mtu();
    }

    /// Lost packets feed the congestion controller first (it must judge
    /// probes by their size before the search forgets it), then the MTU
    /// search.  Returns whether the congestion window was reduced.
    pub fn on_packets_lost(
        &mut self,
        first_rtt_sample_time: Option<Instant>,
        prev_largest_acked_sent: Option<Instant>,
        pto: Duration,
        lost_packets: &[SentPacket],
        stats: &mut Stats,
        now: Instant,
    ) -> (r: bool)
        requires
            old(self).wf(),
        ensures
            final(self).wf(),
            r == crate::cc::spec_any_congestion(old(self).cc, lost_packets@),
            // A reduction multiplies the window down but never below two
            // packets.
            r ==> final(self).cc.cwnd <= old(self).cc.cwnd || final(self).cc.cwnd
                == crate::time::sat_mul(
                old(self).cc.spec_mss(),
                crate::cc::CWND_MIN_PKTS as nat,
            ),
            r ==> final(self).cc.state == crate::cc::CcState::Recovery,
            final(self).pacer.mtu == final(self).cc.spec_mss(),
    {
        let ret = self.cc.on_packets_lost(
            first_rtt_sample_time,
            prev_largest_acked_sent,
            pto,
            lost_packets,
            now,
        );
        self.cc.pmtud_mut().on_packets_lost(lost_packets, stats, now);
        self.maybe_update_pacer_mtu();
        ret
    }

    /// A congestion-experienced mark arrived.  Returns whether the window
    /// was reduced.
    pub fn on_ecn_ce_received(&mut self, largest_acked_pkt: &SentPacket, now: Instant) -> (r: bool)
        requires
            old(self).wf(),
        ensures
            final(self).wf(),
            r == crate::cc::spec_congestion_signal(old(self).cc, *largest_acked_pkt),
    {
        self.cc.on_ecn_ce_received(largest_acked_pkt, now)
    }

    /// Drops a packet's record without acknowledgement.
    pub fn discard(&mut self, pkt: &SentPacket, now: Instant)
        requires
            old(self).wf(),
        ensures
            final(self).wf(),
    {
        self.cc.discard(pkt, now);
    }

    /// After migration, the previously active path forgets its bytes in
    /// flight.
    pub fn discard_in_flight(&mut self, now: Instant)
        requires
            old(self).wf(),
        ensures
            final(self).wf(),
            // Only the in-flight account changes; window, pacer and the
            // MTU search keep their state.
            final(self).cc == (crate::cc::ClassicCongestionControl {
                bytes_in_flight: 0,
                ..old(self).cc
            }),
            final(self).pacer == old(self).pacer,
    {
        self.cc.discard_in_flight(now);
    }

    /// A packet left: the pacer spends its bytes and the controller counts
    /// it in flight.
    pub fn on_packet_sent(&mut self, pkt: &SentPacket, rtt: Duration, now: Instant)
        requires
            old(self).wf(),
        ensures
            final(self).wf(),
            final(self).cc.bytes_in_flight == if pkt.ack_eliciting {
                crate::stats::sat_plus(old(self).cc.bytes_in_flight, pkt.len as u64)
            } else {
                old(self).cc.bytes_in_flight
            },
            final(self).cc.cwnd == old(self).cc.cwnd,
            // The pacer is charged for the bytes at the send time.
            final(self).pacer == old(self).pacer.spec_spent(
                pkt.time_sent,
                rtt,
                old(self).cc.cwnd,
                pkt.len as u64,
            ),
    {
        let cwnd = self.cc.cwnd();
        self.pacer.spend(pkt.time_sent(), rtt, cwnd, pkt.len() as u64);
        self.cc.on_packet_sent(pkt, now);
    }

    /// When the next packet may leave: nothing is owed while nothing is in
    /// flight; otherwise the pacer says.
    pub fn next_paced(&self, rtt: Duration) -> (r: Option<Instant>)
        ensures
            r == if self.cc.bytes_in_flight > 0 {
                Option::Some(self.pacer.spec_next(rtt, self.cc.cwnd))
            } else {
                Option::<Instant>::None
            },
    {
        if self.cc.bytes_in_flight() > 0 {
            Option::Some(self.pacer.next(rtt, self.cc.cwnd()))
        } else {
            Option::None
        }
    }

    /// Whether the next send is the first after a congestion response.
    pub fn recovery_packet(&self) -> (r: bool)
        ensures
            r == self.cc.awaiting_recovery_packet,
    {
        self.cc.recovery_packet()
    }
}

} // verus!
