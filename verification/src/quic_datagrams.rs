//! The unreliable-datagram extension: a bounded queue of outgoing datagrams
//! and the checks on incoming ones.

use vstd::prelude::*;

use crate::events::{ConnectionEvent, ConnectionEvents, OutgoingDatagramOutcome};
use crate::frame::{FRAME_TYPE_DATAGRAM, FRAME_TYPE_DATAGRAM_WITH_LEN};
use crate::packet::{Builder, MINIMUM_FRAME_SIZE};
use crate::recovery::{Token, Tokens};
use crate::stats::{bump, Stats};
use crate::varint::{lemma_varint_len, varint_len};
use crate::{Error, Res};

verus! {

broadcast use lemma_varint_len;

/// The largest datagram payload the extension can carry.
pub const MAX_QUIC_DATAGRAM: u64 = 65535;

/// Whether the application asked to be told what became of a datagram, and
/// under which identifier.
#[derive(Debug, Clone, Copy, PartialEq, Eq, Structural)]
pub enum DatagramTracking {
    Untracked,
    Id(u64),
}

/// One queued outgoing datagram.
#[derive(Debug, Clone)]
pub struct QuicDatagram {
    pub data: Vec<u8>,
    pub tracking: DatagramTracking,
}

impl QuicDatagram {
    pub fn tracking(&self) -> (r: &DatagramTracking)
        ensures
            r == self.tracking,
    {
        &self.tracking
    }

    pub fn len(&self) -> (r: usize)
        ensures
            r == self.data@.len(),
    {
        self.data.len()
    }
}

/// The state of the datagram extension for one connection.
#[derive(Debug)]
pub struct QuicDatagrams {
    /// The largest datagram this endpoint accepts.
    local_datagram_size: u64,
    /// The largest datagram the peer accepts.
    remote_datagram_size: u64,
    /// The most datagrams held for sending; beyond it the oldest is dropped.
    max_queued_outgoing_datagrams: usize,
    /// The most received datagrams held as pending events.
    max_queued_incoming_datagrams: usize,
    /// Datagrams queued for sending, oldest first.
    datagrams: Vec<QuicDatagram>,
}

impl QuicDatagrams {
    pub closed spec fn spec_queue(self) -> Seq<QuicDatagram> {
        self.datagrams@
    }

    pub closed spec fn spec_remote_datagram_size(self) -> u64 {
        self.remote_datagram_size
    }

    pub closed spec fn spec_max_queued_outgoing(self) -> usize {
        self.max_queued_outgoing_datagrams
    }

    pub closed spec fn spec_local_datagram_size(self) -> u64 {
        self.local_datagram_size
    }

    pub closed spec fn spec_max_queued_incoming(self) -> usize {
        self.max_queued_incoming_datagrams
    }

    /// A fresh queue: empty, with the peer's acceptable size still unknown.
    pub fn new(
        local_datagram_size: u64,
        max_queued_outgoing_datagrams: usize,
        max_queued_incoming_datagrams: usize,
    ) -> (r: QuicDatagrams)
        ensures
            r.spec_local_datagram_size() == local_datagram_size,
            r.spec_remote_datagram_size() == 0,
            r.spec_max_queued_outgoing() == max_queued_outgoing_datagrams,
            r.spec_queue().len() == 0,
    {
        QuicDatagrams {
            local_datagram_size,
            remote_datagram_size: 0,
            max_queued_outgoing_datagrams,
            max_queued_incoming_datagrams,
            datagrams: Vec::new(),
        }
    }

    pub fn remote_datagram_size(&self) -> (r: u64)
        ensures
            r == self.spec_remote_datagram_size(),
    {
        self.remote_datagram_size
    }

    /// Takes the peer's advertised acceptable size, capped at what the wire
    /// format can carry.
    pub fn set_remote_datagram_size(&mut self, v: u64)
        ensures
            final(self).spec_remote_datagram_size() == if v < MAX_QUIC_DATAGRAM {
                v
            } else {
                MAX_QUIC_DATAGRAM
            },
            final(self).spec_queue() == old(self).spec_queue(),
            final(self).spec_local_datagram_size() == old(self).spec_local_datagram_size(),
            final(self).spec_max_queued_outgoing() == old(self).spec_max_queued_outgoing(),
    {
        self.remote_datagram_size = if v < MAX_QUIC_DATAGRAM {
            v
        } else {
            MAX_QUIC_DATAGRAM
        };
    }

    /// Writes queued datagrams into the packet under construction, oldest
    /// first.  A datagram that fits is framed (with a length when another
    /// frame could still follow, without one when it closes the packet).  One
    /// that cannot fit an otherwise empty packet is dropped with
    /// `DroppedTooBig`; one that cannot fit a partly filled packet stays
    /// queued for a later, emptier packet.
    pub fn write_frames(
        &mut self,
        builder: &mut Builder,
        tokens: &mut Tokens,
        events: &mut ConnectionEvents,
        stats: &mut Stats,
    )
        requires
            old(builder).wf(),
        ensures
            final(builder).wf(),
            final(builder).limit == old(builder).limit,
            final(self).spec_queue().len() <= old(self).spec_queue().len(),
            final(self).spec_queue() == old(self).spec_queue().skip(
                old(self).spec_queue().len() - final(self).spec_queue().len(),
            ),
            final(self).spec_remote_datagram_size() == old(self).spec_remote_datagram_size(),
            final(self).spec_local_datagram_size() == old(self).spec_local_datagram_size(),
            final(self).spec_max_queued_outgoing() == old(self).spec_max_queued_outgoing(),
            // The head of the queue decides what happens first: a fitting
            // datagram is framed into the packet and leaves a token; one
            // that fits no partly built packet stays queued untouched; one
            // that fits not even an empty packet is dropped with its event.
            ({
                let q0 = old(self).spec_queue();
                let room = old(builder).spec_remaining();
                q0.len() > 0 && q0[0].data@.len() <= crate::varint::VARINT_MAX ==> ({
                    let head = q0[0];
                    if room > head.data@.len() {
                        final(self).spec_queue().len() < q0.len()
                            && final(tokens)@.len() > old(tokens)@.len()
                            && final(tokens)@[old(tokens)@.len() as int] == Token::Datagram(
                            head.tracking,
                        )
                    } else if old(tokens)@.len() == 0 {
                        final(self).spec_queue().len() < q0.len()
                            && final(events).events@.len() > old(events).events@.len()
                            && final(events).events@[old(events).events@.len() as int] == (
                        ConnectionEvent::OutgoingDatagramOutcome {
                            tracking: head.tracking,
                            outcome: OutgoingDatagramOutcome::DroppedTooBig,
                        })
                    } else {
                        final(self).spec_queue() == q0 && *final(builder) == *old(builder)
                            && final(tokens)@ == old(tokens)@ && final(events).events@ == old(
                            events,
                        ).events@ && *final(stats) == *old(stats)
                    }
                })
            }),
    {
        let ghost q0 = old(self).spec_queue();
        let ghost k: int = 0;
        assert(self.datagrams@ == q0);
        assert(self.datagrams@ == q0.skip(0)) by {
            assert(q0.skip(0) =~= q0);
        }
        while self.datagrams.len() > 0
            invariant
                builder.wf(),
                builder.limit == old(builder).limit,
                q0 == old(self).spec_queue(),
                0 <= k <= q0.len(),
                self.datagrams@ == q0.skip(k),
                self.remote_datagram_size == old(self).remote_datagram_size,
                self.local_datagram_size == old(self).local_datagram_size,
                self.max_queued_outgoing_datagrams == old(self).max_queued_outgoing_datagrams,
                self.max_queued_incoming_datagrams == old(self).max_queued_incoming_datagrams,
                k == 0 ==> *builder == *old(builder) && tokens@ == old(tokens)@ && events.events@
                    == old(events).events@ && *stats == *old(stats),
                k >= 1 && q0[0].data@.len() <= crate::varint::VARINT_MAX ==> ({
                    let head = q0[0];
                    let room = old(builder).spec_remaining();
                    if room > head.data@.len() {
                        tokens@.len() > old(tokens)@.len() && tokens@[old(tokens)@.len() as int]
                            == Token::Datagram(head.tracking)
                    } else {
                        old(tokens)@.len() == 0 && events.events@.len() > old(
                            events,
                        ).events@.len() && events.events@[old(events).events@.len() as int] == (
                        ConnectionEvent::OutgoingDatagramOutcome {
                            tracking: head.tracking,
                            outcome: OutgoingDatagramOutcome::DroppedTooBig,
                        })
                    }
                }),
            decreases self.datagrams@.len(),
        {
            let dgram = self.datagrams.remove(0);
            proof {
                assert(q0.skip(k).drop_first() =~= q0.skip(k + 1));
                k = k + 1;
            }
            let len = dgram.data.len();
            if builder.remaining() > len {
                if len as u64 <= crate::varint::VARINT_MAX {
                    let length_len = varint_len(len as u64);
                    if builder.remaining() >= 1 + length_len + len + MINIMUM_FRAME_SIZE {
                        builder.encode_varint(FRAME_TYPE_DATAGRAM_WITH_LEN);
                        builder.encode_vvec(dgram.data.as_slice());
                    } else {
                        builder.encode_varint(FRAME_TYPE_DATAGRAM);
                        builder.encode(dgram.data.as_slice());
                        builder.mark_full();
                    }
                    bump(&mut stats.frame_tx.datagram);
                    bump(&mut stats.frame_tx.all);
                    tokens.push(Token::Datagram(dgram.tracking));
                } else {
                    // Too large for any length prefix; cannot happen for
                    // datagrams that passed the size check, but drop safely.
                    events.datagram_outcome(
                        dgram.tracking,
                        OutgoingDatagramOutcome::DroppedTooBig,
                    );
                    bump(&mut stats.datagram_tx.dropped_too_big);
                }
            } else if tokens.len() == 0 {
                // The packet holds nothing else and the datagram still does
                // not fit: it never will, so it is dropped.
                events.datagram_outcome(dgram.tracking, OutgoingDatagramOutcome::DroppedTooBig);
                bump(&mut stats.datagram_tx.dropped_too_big);
            } else {
                // Try again later on an emptier packet.
                self.datagrams.insert(0, dgram);
                proof {
                    k = k - 1;
                    assert(self.datagrams@ =~= q0.skip(k));
                    assert(self.datagrams@ == q0.skip(k));
                    assert(0 <= k <= q0.len() && self.datagrams@ == q0.skip(k));
                    assert(k == q0.len() - self.datagrams@.len());
                }
                return;
            }
        }
        proof {
            assert(0 <= k <= q0.len() && self.datagrams@ == q0.skip(k));
            assert(k == q0.len() - self.datagrams@.len());
        }
    }

    /// Queues a datagram for sending.  Refused with `TooMuchData` when larger
    /// than the peer accepts; when the queue is full, the oldest entry is
    /// dropped with `DroppedQueueFull` to make room.
    pub fn add_datagram(
        &mut self,
        data: Vec<u8>,
        tracking: DatagramTracking,
        events: &mut ConnectionEvents,
        stats: &mut Stats,
    ) -> (r: Res<()>)
        ensures
            final(self).spec_remote_datagram_size() == old(self).spec_remote_datagram_size(),
            final(self).spec_local_datagram_size() == old(self).spec_local_datagram_size(),
            final(self).spec_max_queued_outgoing() == old(self).spec_max_queued_outgoing(),
            ({
                let q0 = old(self).spec_queue();
                let q1 = final(self).spec_queue();
                let queued = (QuicDatagram { data, tracking });
                if data@.len() > old(self).spec_remote_datagram_size() {
                    r == Res::<()>::Err(Error::TooMuchData) && q1 == q0 && final(events).events@
                        == old(events).events@ && *final(stats) == *old(stats)
                } else if q0.len() == old(self).spec_max_queued_outgoing() && q0.len() == 0 {
                    r == Res::<()>::Err(Error::InternalError) && q1 == q0 && final(events).events@
                        == old(events).events@ && *final(stats) == *old(stats)
                } else if q0.len() == old(self).spec_max_queued_outgoing() {
                    r == Res::<()>::Ok(()) && q1 == q0.skip(1).push(queued)
                        && final(events).events@ == old(events).events@.push(
                        (ConnectionEvent::OutgoingDatagramOutcome {
                            tracking: q0[0].tracking,
                            outcome: OutgoingDatagramOutcome::DroppedQueueFull,
                        }),
                    ) && final(stats).datagram_tx.dropped_queue_full == crate::stats::sat_inc(
                        old(stats).datagram_tx.dropped_queue_full,
                    ) && *final(stats) == (Stats {
                        datagram_tx: final(stats).datagram_tx,
                        ..*old(stats)
                    }) && final(stats).datagram_tx == (crate::stats::DatagramStats {
                        dropped_queue_full: final(stats).datagram_tx.dropped_queue_full,
                        ..old(stats).datagram_tx
                    })
                } else {
                    r == Res::<()>::Ok(()) && q1 == q0.push(queued) && final(events).events@
                        == old(events).events@ && *final(stats) == *old(stats)
                }
            }),
    {
        if data.len() as u64 > self.remote_datagram_size {
            return Err(Error::TooMuchData);
        }
        if self.datagrams.len() == self.max_queued_outgoing_datagrams {
            if self.datagrams.len() == 0 {
                return Err(Error::InternalError);
            }
            let dropped = self.datagrams.remove(0);
            events.datagram_outcome(dropped.tracking, OutgoingDatagramOutcome::DroppedQueueFull);
            bump(&mut stats.datagram_tx.dropped_queue_full);
        }
        self.datagrams.push(QuicDatagram { data, tracking });
        Ok(())
    }

    /// Whether any datagram waits to be sent.
    pub fn has_pending(&self) -> (r: bool)
        ensures
            r == (self.spec_queue().len() > 0),
    {
        self.datagrams.len() > 0
    }

    /// Hands out the oldest queued datagram for the packetizer.
    pub fn next_ready(&mut self) -> (r: Option<QuicDatagram>)
        ensures
            old(self).spec_queue().len() == 0 ==> r is None && final(self).spec_queue() == old(
                self,
            ).spec_queue(),
            old(self).spec_queue().len() > 0 ==> (r matches Option::Some(d) && d == old(
                self,
            ).spec_queue()[0] && final(self).spec_queue() == old(self).spec_queue().skip(1)),
            final(self).spec_remote_datagram_size() == old(self).spec_remote_datagram_size(),
            final(self).spec_local_datagram_size() == old(self).spec_local_datagram_size(),
            final(self).spec_max_queued_outgoing() == old(self).spec_max_queued_outgoing(),
    {
        if self.datagrams.len() == 0 {
            proof {
                assert(self.datagrams@ =~= self.datagrams@.skip(0));
            }
            return Option::None;
        }
        let d = self.datagrams.remove(0);
        proof {
            assert(self.datagrams@ =~= old(self).spec_queue().skip(1));
        }
        Option::Some(d)
    }

    /// Puts a datagram back at the front of the queue, to try again on an
    /// emptier packet.
    pub fn requeue_front(&mut self, d: QuicDatagram)
        ensures
            final(self).spec_queue() == seq![d] + old(self).spec_queue(),
            final(self).spec_remote_datagram_size() == old(self).spec_remote_datagram_size(),
            final(self).spec_local_datagram_size() == old(self).spec_local_datagram_size(),
            final(self).spec_max_queued_outgoing() == old(self).spec_max_queued_outgoing(),
    {
        self.datagrams.insert(0, d);
        proof {
            assert(self.datagrams@ =~= seq![d] + old(self).spec_queue());
        }
    }

    /// Takes a received datagram: refused with `ProtocolViolation` when the
    /// peer sent more than this endpoint advertised; otherwise handed to the
    /// application as an event.
    pub fn handle_datagram(
        &self,
        data: &[u8],
        events: &mut ConnectionEvents,
        stats: &mut Stats,
    ) -> (r: Res<()>)
        ensures
            r == if self.spec_local_datagram_size() < data@.len() {
                Res::<()>::Err(Error::ProtocolViolation)
            } else {
                Res::<()>::Ok(())
            },
            r is Err ==> final(events).events@ == old(events).events@,
            r is Ok ==> final(events).events@.len() >= 1 && (final(events).events@.last() matches
                ConnectionEvent::Datagram { data: d } && d@ == data@),
            // The pending datagram events stay bounded: beyond the limit the
            // oldest is dropped for the newest.
            r is Ok ==> crate::events::spec_dgram_count(final(events).events@)
                <= crate::events::spec_dgram_count(old(events).events@) + 1,
            r is Ok && self.spec_max_queued_incoming() > 0 && crate::events::spec_dgram_count(
                old(events).events@,
            ) >= self.spec_max_queued_incoming() ==> crate::events::spec_dgram_count(
                final(events).events@,
            ) <= crate::events::spec_dgram_count(old(events).events@),
    {
        if self.local_datagram_size < data.len() as u64 {
            return Err(Error::ProtocolViolation);
        }
        events.add_datagram(self.max_queued_incoming_datagrams, data);
        Ok(())
    }
}

} // verus!
