//! Events the engine reports to the application: readable streams, received
//! datagrams, the fate of queued datagrams, state changes, and the request to
//! authenticate the peer.

use vstd::prelude::*;

use crate::quic_datagrams::DatagramTracking;
use crate::streams::StreamId;

verus! {

/// What became of one queued outgoing datagram.
#[derive(Debug, Clone, Copy, PartialEq, Eq, Structural)]
pub enum OutgoingDatagramOutcome {
    /// Pushed out of a full queue by a newer datagram.
    DroppedQueueFull,
    /// Could not fit even an otherwise empty packet.
    DroppedTooBig,
    /// The packet that carried it was declared lost.
    Lost,
    /// The packet that carried it was acknowledged.
    Acked,
}

/// One event for the application.
#[derive(Debug, Clone)]
pub enum ConnectionEvent {
    /// The handshake needs the application to judge the peer's credentials.
    AuthenticationNeeded,
    /// A stream has data or a fin ready to read.
    RecvStreamReadable { stream_id: StreamId },
    /// An unreliable datagram arrived.
    Datagram { data: Vec<u8> },
    /// A queued outgoing datagram was sent, dropped, lost or acknowledged.
    OutgoingDatagramOutcome { tracking: DatagramTracking, outcome: OutgoingDatagramOutcome },
    /// The connection reached a new state.
    StateChange,
}

/// How many of the queued events are received datagrams.
pub open spec fn spec_dgram_count(s: Seq<ConnectionEvent>) -> int
    decreases s.len(),
{
    if s.len() == 0 {
        0
    } else {
        (if s[0] is Datagram {
            1int
        } else {
            0int
        }) + spec_dgram_count(s.drop_first())
    }
}

proof fn lemma_dgram_count_take_step(s: Seq<ConnectionEvent>, i: int)
    requires
        0 < i <= s.len(),
    ensures
        spec_dgram_count(s.take(i)) == spec_dgram_count(s.take(i - 1)) + if s[i - 1] is Datagram {
            1int
        } else {
            0int
        },
    decreases i,
{
    let t = s.take(i);
    if i == 1 {
        assert(t.drop_first() =~= s.take(0));
        assert(t[0] == s[0]);
    } else {
        assert(t.drop_first() =~= s.drop_first().take(i - 1));
        assert(s.take(i - 1).drop_first() =~= s.drop_first().take(i - 2));
        lemma_dgram_count_take_step(s.drop_first(), i - 1);
        assert(s.drop_first()[i - 2] == s[i - 1]);
        assert(s.take(i - 1)[0] == s[0]);
    }
}

proof fn lemma_dgram_count_remove(s: Seq<ConnectionEvent>, i: int)
    requires
        0 <= i < s.len(),
        s[i] is Datagram,
    ensures
        spec_dgram_count(s.remove(i)) == spec_dgram_count(s) - 1,
    decreases i,
{
    if i == 0 {
        assert(s.remove(0) =~= s.drop_first());
    } else {
        assert(s.remove(i).drop_first() =~= s.drop_first().remove(i - 1));
        assert(s.remove(i)[0] == s[0]);
        assert(s.drop_first()[i - 1] == s[i]);
        lemma_dgram_count_remove(s.drop_first(), i - 1);
    }
}

proof fn lemma_dgram_count_push(s: Seq<ConnectionEvent>, e: ConnectionEvent)
    ensures
        spec_dgram_count(s.push(e)) == spec_dgram_count(s) + if e is Datagram {
            1int
        } else {
            0int
        },
    decreases s.len(),
{
    if s.len() == 0 {
        assert(s.push(e).drop_first() =~= s);
        assert(s.push(e)[0] == e);
    } else {
        assert(s.push(e).drop_first() =~= s.drop_first().push(e));
        assert(s.push(e)[0] == s[0]);
        lemma_dgram_count_push(s.drop_first(), e);
    }
}

/// The queue of pending events, drained by the application.
#[derive(Debug, Clone)]
pub struct ConnectionEvents {
    pub events: Vec<ConnectionEvent>,
}

impl ConnectionEvents {
    pub fn new() -> (r: ConnectionEvents)
        ensures
            r.events@.len() == 0,
    {
        ConnectionEvents { events: Vec::new() }
    }

    pub fn push(&mut self, event: ConnectionEvent)
        ensures
            final(self).events@ == old(self).events@.push(event),
    {
        self.events.push(event);
    }

    /// Records the outcome of a queued outgoing datagram.
    pub fn datagram_outcome(
        &mut self,
        tracking: DatagramTracking,
        outcome: OutgoingDatagramOutcome,
    )
        ensures
            final(self).events@ == old(self).events@.push(
                (ConnectionEvent::OutgoingDatagramOutcome { tracking, outcome }),
            ),
    {
        self.events.push(ConnectionEvent::OutgoingDatagramOutcome { tracking, outcome });
    }

    /// Queues a received datagram for the application.  The newest event
    /// always carries the bytes; when `max_queued` datagram events already
    /// wait, the oldest of them is dropped to keep the bound.
    pub fn add_datagram(&mut self, max_queued: usize, data: &[u8])
        ensures
            final(self).events@.len() >= 1,
            final(self).events@.last() matches ConnectionEvent::Datagram { data: d } && d@
                == data@,
            spec_dgram_count(old(self).events@) < max_queued ==> final(self).events@.len() == old(
                self,
            ).events@.len() + 1 && final(self).events@.subrange(0, old(self).events@.len() as int)
                == old(self).events@,
            spec_dgram_count(final(self).events@) <= spec_dgram_count(old(self).events@) + 1,
            max_queued > 0 && spec_dgram_count(old(self).events@) >= max_queued
                ==> spec_dgram_count(final(self).events@) <= spec_dgram_count(
                old(self).events@,
            ),
    {
        let mut count: usize = 0;
        let mut first_dgram: usize = 0;
        let mut found: bool = false;
        let mut i: usize = 0;
        while i < self.events.len()
            invariant
                i <= self.events@.len(),
                count <= i,
                self.events@ == old(self).events@,
                count == spec_dgram_count(self.events@.take(i as int)),
                found ==> first_dgram < i && self.events@[first_dgram as int] is Datagram,
                !found ==> count == 0,
            decreases self.events@.len() - i,
        {
            match self.events[i] {
                ConnectionEvent::Datagram { .. } => {
                    if !found {
                        first_dgram = i;
                        found = true;
                    }
                    count = count + 1;
                },
                _ => {},
            }
            i = i + 1;
            proof {
                lemma_dgram_count_take_step(self.events@, i as int);
            }
        }
        proof {
            assert(self.events@.take(self.events@.len() as int) =~= self.events@);
        }
        if count >= max_queued && found && first_dgram < self.events.len() {
            self.events.remove(first_dgram);
            proof {
                lemma_dgram_count_remove(old(self).events@, first_dgram as int);
            }
        }
        let mut copy: Vec<u8> = Vec::new();
        let mut j: usize = 0;
        while j < data.len()
            invariant
                j <= data@.len(),
                copy@ == data@.subrange(0, j as int),
                self.events@.len() <= old(self).events@.len(),
                spec_dgram_count(self.events@) <= spec_dgram_count(old(self).events@),
                spec_dgram_count(old(self).events@) < max_queued ==> self.events@ == old(
                    self,
                ).events@,
            decreases data@.len() - j,
        {
            copy.push(data[j]);
            j = j + 1;
            proof {
                assert(copy@ =~= data@.subrange(0, j as int));
            }
        }
        proof {
            assert(copy@ =~= data@);
        }
        let ghost before_push = self.events@;
        self.events.push(ConnectionEvent::Datagram { data: copy });
        proof {
            lemma_dgram_count_push(before_push, (ConnectionEvent::Datagram { data: copy }));
            if spec_dgram_count(old(self).events@) < max_queued {
                assert(self.events@.subrange(0, old(self).events@.len() as int) =~= old(
                    self,
                ).events@);
            }
        }
    }

    /// Hands every pending event to the application, leaving the queue empty.
    pub fn drain(&mut self) -> (r: Vec<ConnectionEvent>)
        ensures
            r@ == old(self).events@,
            final(self).events@.len() == 0,
    {
        let mut out: Vec<ConnectionEvent> = Vec::new();
        core::mem::swap(&mut out, &mut self.events);
        out
    }
}

} // verus!
