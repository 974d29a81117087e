//! ECN validation for one path: the first packets are marked Ect0 as a
//! test, acknowledgements prove the marks survive, and losses or altered
//! marks fail the test and stop all marking.

use vstd::prelude::*;

use crate::tos::Ecn;

verus! {

/// How many packets carry the test mark on a fresh path.
pub const TEST_COUNT: usize = 10;

/// Why ECN validation failed.
#[derive(Debug, Clone, Copy, PartialEq, Eq, Structural)]
pub enum EcnValidationError {
    /// Every marked packet vanished while unmarked ones arrived.
    BlackHole,
    /// Acknowledged packets came back without their Ect0 marks.
    Bleaching,
    /// The peer reported Ect1 marks this endpoint never sent.
    ReceivedUnsentEct1,
}

/// The outcome of one path's validation.
#[derive(Debug, Clone, Copy, PartialEq, Eq, Structural)]
pub enum ValidationOutcome {
    Capable,
    NotCapable(EcnValidationError),
}

/// Where validation stands on one path.
#[derive(Debug, Clone, Copy, PartialEq, Eq, Structural)]
pub enum EcnValidationState {
    /// Still sending marked packets.
    Testing { probes_sent: usize },
    /// All test packets sent; awaiting proof either way.
    Unknown,
    Failed(EcnValidationError),
    Capable,
}

/// The ECN account of one path.
#[derive(Debug, Clone, Copy)]
pub struct EcnInfo {
    pub state: EcnValidationState,
    /// Ect0-marked packets sent on this path.
    pub ect0_sent: u64,
    /// Ect0-marked packets acknowledged.
    pub ect0_acked: u64,
    /// Ect0-marked packets declared lost.
    pub ect0_lost: u64,
    /// The largest Ect0 count the peer reported in an acknowledgement.
    pub peer_ect0: u64,
    /// The largest Ect1 count the peer reported.
    pub peer_ect1: u64,
    /// The largest congestion-experienced count the peer reported.
    pub peer_ce: u64,
}

impl EcnInfo {
    /// A fresh path starts testing.
    pub fn new() -> (r: EcnInfo)
        ensures
            r.state == (EcnValidationState::Testing { probes_sent: 0 }),
            r.ect0_sent == 0 && r.ect0_acked == 0 && r.ect0_lost == 0,
            r.peer_ect0 == 0 && r.peer_ect1 == 0 && r.peer_ce == 0,
    {
        EcnInfo {
            state: EcnValidationState::Testing { probes_sent: 0 },
            ect0_sent: 0,
            ect0_acked: 0,
            ect0_lost: 0,
            peer_ect0: 0,
            peer_ect1: 0,
            peer_ce: 0,
        }
    }

    pub fn is_marking(&self) -> (r: bool)
        ensures
            r == (self.state matches EcnValidationState::Testing { .. } || self.state
                == EcnValidationState::Capable),
    {
        match self.state {
            EcnValidationState::Testing { .. } => true,
            EcnValidationState::Capable => true,
            _ => false,
        }
    }

    /// The mark for the next outgoing packet, counted.  Packets are marked
    /// while testing, up to the test count, and once the path proved
    /// capable; in between and after failure they go unmarked.
    pub fn on_packet_sent(&mut self) -> (r: Ecn)
        ensures
            r == (if old(self).state matches EcnValidationState::Testing { .. } || old(self).state
                == EcnValidationState::Capable {
                Ecn::Ect0
            } else {
                Ecn::NotEct
            }),
            r == Ecn::Ect0 ==> final(self).ect0_sent == crate::stats::sat_inc(old(self).ect0_sent),
            r != Ecn::Ect0 ==> *final(self) == *old(self),
            old(self).state matches EcnValidationState::Testing { probes_sent }
                ==> final(self).state == if probes_sent + 1 < TEST_COUNT {
                (EcnValidationState::Testing { probes_sent: (probes_sent + 1) as usize })
            } else {
                EcnValidationState::Unknown
            },
    {
        match self.state {
            EcnValidationState::Testing { probes_sent } => {
                let sent = if probes_sent < usize::MAX {
                    probes_sent + 1
                } else {
                    probes_sent
                };
                if sent < TEST_COUNT {
                    self.state = EcnValidationState::Testing { probes_sent: sent };
                } else {
                    self.state = EcnValidationState::Unknown;
                }
                crate::stats::bump(&mut self.ect0_sent);
                Ecn::Ect0
            },
            EcnValidationState::Capable => {
                crate::stats::bump(&mut self.ect0_sent);
                Ecn::Ect0
            },
            _ => Ecn::NotEct,
        }
    }

    /// Takes the ECN counts of an acknowledgement that newly acknowledged
    /// `newly_acked_ect0` of this path's marked packets.  The peer seeing
    /// Ect1 this endpoint never sent fails validation; marked packets
    /// acknowledged without the Ect0 count growing accordingly means the
    /// marks were bleached; otherwise an acknowledged marked packet proves
    /// the path capable.
    pub fn on_ack_received(
        &mut self,
        newly_acked_ect0: u64,
        ect0: u64,
        ect1: u64,
        ce: u64,
    )
        ensures
            final(self).ect0_acked == crate::stats::sat_plus(
                old(self).ect0_acked,
                newly_acked_ect0,
            ),
            ({
                let grown = ect0 > old(self).peer_ect0 || ce > old(self).peer_ce;
                if ect1 > old(self).peer_ect1 {
                    final(self).state == EcnValidationState::Failed(
                        EcnValidationError::ReceivedUnsentEct1,
                    )
                } else if newly_acked_ect0 > 0 && !grown {
                    final(self).state == EcnValidationState::Failed(EcnValidationError::Bleaching)
                } else if newly_acked_ect0 > 0 && grown && !(old(self).state matches
                    EcnValidationState::Failed(_)) {
                    final(self).state == EcnValidationState::Capable
                } else {
                    final(self).state == old(self).state
                }
            }),
    {
        let grown = ect0 > self.peer_ect0 || ce > self.peer_ce;
        self.ect0_acked = self.ect0_acked.saturating_add(newly_acked_ect0);
        if ect1 > self.peer_ect1 {
            self.state = EcnValidationState::Failed(EcnValidationError::ReceivedUnsentEct1);
        } else if newly_acked_ect0 > 0 && !grown {
            self.state = EcnValidationState::Failed(EcnValidationError::Bleaching);
        } else if newly_acked_ect0 > 0 && grown {
            match self.state {
                EcnValidationState::Failed(_) => {},
                _ => {
                    self.state = EcnValidationState::Capable;
                },
            }
        }
        if ect0 > self.peer_ect0 {
            self.peer_ect0 = ect0;
        }
        if ect1 > self.peer_ect1 {
            self.peer_ect1 = ect1;
        }
        if ce > self.peer_ce {
            self.peer_ce = ce;
        }
    }

    /// Takes note of lost marked packets: when every test mark was lost
    /// without one acknowledgement, the path eats marked packets.
    pub fn on_packets_lost(&mut self, lost_ect0: u64)
        ensures
            final(self).ect0_lost == crate::stats::sat_plus(old(self).ect0_lost, lost_ect0),
            ({
                let all_lost = crate::stats::sat_plus(old(self).ect0_lost, lost_ect0)
                    >= TEST_COUNT as u64 && old(self).ect0_acked == 0;
                if all_lost && (old(self).state == EcnValidationState::Unknown || (old(
                    self,
                ).state matches EcnValidationState::Testing { .. })) {
                    final(self).state == EcnValidationState::Failed(EcnValidationError::BlackHole)
                } else {
                    final(self).state == old(self).state
                }
            }),
    {
        self.ect0_lost = self.ect0_lost.saturating_add(lost_ect0);
        let testing = match self.state {
            EcnValidationState::Testing { .. } => true,
            EcnValidationState::Unknown => true,
            _ => false,
        };
        if testing && self.ect0_lost >= TEST_COUNT as u64 && self.ect0_acked == 0 {
            self.state = EcnValidationState::Failed(EcnValidationError::BlackHole);
        }
    }
}

} // verus!
