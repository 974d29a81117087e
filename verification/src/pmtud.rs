//! Packetization-layer path MTU discovery: a binary-search-free walk up a
//! discrete table of candidate MTUs, driven by probe acknowledgements and
//! stopped by repeated losses; a raise timer retries growth later.

use vstd::prelude::*;

use crate::inet::IpAddr;
use crate::packet::Builder;
use crate::recovery::SentPacket;
use crate::stats::{bump, sat_inc, Stats};
use crate::time::{Duration, Instant};

verus! {

/// Losses at one size before that size is declared unreachable.
pub const MAX_PROBES: usize = 3;

/// Seconds until a stopped search is retried at larger sizes.
pub const PMTU_RAISE_TIMER_SECS: u64 = 600;

/// Whether an MTU probe is wanted, outstanding, or neither.
#[derive(Debug, Clone, Copy, PartialEq, Eq, Structural)]
pub enum Probe {
    NotNeeded,
    Needed,
    Sent,
}

/// The candidate MTUs for an IPv4 path.
pub open spec fn spec_table_v4() -> Seq<usize> {
    seq![1280usize, 1380, 1420, 1472, 1500, 2047, 4095, 8191, 16383, 32767, 65535]
}

/// The candidate MTUs for an IPv6 path.
pub open spec fn spec_table_v6() -> Seq<usize> {
    seq![1280usize, 1380, 1470, 1500, 2047, 4095, 8191, 16383, 32767, 65535]
}

/// The table that belongs to a header size.
pub open spec fn spec_table_of(header_size: usize) -> Seq<usize> {
    if header_size == 28 {
        spec_table_v4()
    } else {
        spec_table_v6()
    }
}

/// How many leading table entries are smaller than `limit`: the index of the
/// first entry that is at least `limit`, or the table length if none is.
pub open spec fn spec_cut_index(table: Seq<usize>, limit: int) -> int
    decreases table.len(),
{
    if table.len() == 0 {
        0
    } else if table[0] >= limit {
        0
    } else {
        1 + spec_cut_index(table.drop_first(), limit)
    }
}

pub proof fn lemma_cut_index_bounds(table: Seq<usize>, limit: int)
    ensures
        0 <= spec_cut_index(table, limit) <= table.len(),
    decreases table.len(),
{
    if table.len() > 0 && table[0] < limit {
        lemma_cut_index_bounds(table.drop_first(), limit);
    }
}

/// The table entries strictly grow from one to the next.
pub open spec fn spec_adj_sorted(t: Seq<usize>) -> bool {
    forall|i: int| 0 <= i < t.len() - 1 ==> #[trigger] t[i] < t[i + 1]
}

pub proof fn lemma_sorted_mono(t: Seq<usize>, i: int, j: int)
    requires
        spec_adj_sorted(t),
        0 <= i <= j < t.len(),
    ensures
        t[i] <= t[j],
    decreases j - i,
{
    if i < j {
        lemma_sorted_mono(t, i, j - 1);
        assert(t[j - 1] < t[j]);
    }
}

pub proof fn lemma_tables_sorted()
    ensures
        spec_adj_sorted(spec_table_v4()),
        spec_adj_sorted(spec_table_v6()),
{
    let a = spec_table_v4();
    let b = spec_table_v6();
    assert forall|i: int| 0 <= i < a.len() - 1 implies #[trigger] a[i] < a[i + 1] by {
        assert(a[0] == 1280 && a[1] == 1380 && a[2] == 1420 && a[3] == 1472 && a[4] == 1500
            && a[5] == 2047 && a[6] == 4095 && a[7] == 8191 && a[8] == 16383 && a[9] == 32767
            && a[10] == 65535);
    }
    assert forall|i: int| 0 <= i < b.len() - 1 implies #[trigger] b[i] < b[i + 1] by {
        assert(b[0] == 1280 && b[1] == 1380 && b[2] == 1470 && b[3] == 1500 && b[4] == 2047
            && b[5] == 4095 && b[6] == 8191 && b[7] == 16383 && b[8] == 32767 && b[9] == 65535);
    }
}

/// A state change that keeps the table, the header size, the count of loss
/// counts and the MTU keeps well-formedness.
pub proof fn lemma_wf_transfer(a: Pmtud, b: Pmtud)
    requires
        a.wf(),
        b.search_table@ == a.search_table@,
        b.header_size == a.header_size,
        b.loss_counts@.len() == a.loss_counts@.len(),
        b.probe_index < b.search_table@.len(),
        b.mtu == a.mtu,
    ensures
        b.wf(),
{
    let i = choose|i: int| 0 <= i < a.search_table@.len() && a.search_table@[i] == a.mtu;
    assert(b.search_table@[i] == b.mtu);
}

/// How many packets of `s` have `entry >= len + header_size`: the number of
/// lost packets that prove the path cannot carry `entry` bytes.
pub open spec fn spec_lost_at(s: Seq<SentPacket>, entry: usize, header_size: usize) -> int
    decreases s.len(),
{
    if s.len() == 0 {
        0
    } else {
        (if entry >= s[0].len + header_size {
            1int
        } else {
            0int
        }) + spec_lost_at(s.drop_first(), entry, header_size)
    }
}

/// One loss count after charging `s` against table entry `k`, saturating.
pub open spec fn spec_charged_at(p: Pmtud, s: Seq<SentPacket>, k: int) -> usize {
    if p.loss_counts@[k] + spec_lost_at(s, p.search_table@[k], p.header_size) <= usize::MAX {
        (p.loss_counts@[k] + spec_lost_at(s, p.search_table@[k], p.header_size)) as usize
    } else {
        usize::MAX
    }
}

/// The largest packet length in `s`, or zero when `s` is empty.
pub open spec fn spec_max_len(s: Seq<SentPacket>) -> int
    decreases s.len(),
{
    if s.len() == 0 {
        0
    } else {
        let rest = spec_max_len(s.drop_first());
        if s[0].len >= rest {
            s[0].len as int
        } else {
            rest
        }
    }
}

/// How many packets of `s` this discovery state counts as its own probes.
pub open spec fn spec_probe_count_in(p: Pmtud, s: Seq<SentPacket>) -> int
    decreases s.len(),
{
    if s.len() == 0 {
        0
    } else {
        (if p.spec_is_probe(s[0]) {
            1int
        } else {
            0int
        }) + spec_probe_count_in(p, s.drop_first())
    }
}

/// Probe counting only reads the probe state, the probed size and the
/// headers, so states that agree there count alike.
pub proof fn lemma_probe_count_congr(a: Pmtud, b: Pmtud, s: Seq<SentPacket>)
    requires
        a.probe_state == b.probe_state,
        a.search_table@ == b.search_table@,
        a.probe_index == b.probe_index,
        a.header_size == b.header_size,
    ensures
        spec_probe_count_in(a, s) == spec_probe_count_in(b, s),
    decreases s.len(),
{
    if s.len() > 0 {
        lemma_probe_count_congr(a, b, s.drop_first());
    }
}

/// The path MTU discovery state of one path.
#[derive(Debug)]
pub struct Pmtud {
    /// The candidate MTUs, ascending; fixed by the address family.
    pub search_table: Vec<usize>,
    /// IP and UDP header bytes that do not count against the UDP payload.
    pub header_size: usize,
    /// The current MTU: the largest that is known to work.
    pub mtu: usize,
    /// The table entry currently probed, or last confirmed.
    pub probe_index: usize,
    /// Probes sent at the current size.
    pub probe_count: usize,
    pub probe_state: Probe,
    /// Per table entry, how often a packet needing that size was lost.
    pub loss_counts: Vec<usize>,
    /// When to start searching upward again after a stop.
    pub raise_timer: Option<Instant>,
}

impl Pmtud {
    /// The state is consistent with its address family's table.
    pub open spec fn wf(self) -> bool {
        &&& (self.header_size == 28 || self.header_size == 48)
        &&& self.search_table@ == spec_table_of(self.header_size)
        &&& self.loss_counts@.len() == self.search_table@.len()
        &&& self.probe_index < self.search_table@.len()
        &&& exists|i: int|
            0 <= i < self.search_table@.len() && self.search_table@[i] == self.mtu
    }

    /// The table of a well-formed state is strictly ascending.
    pub proof fn lemma_table_sorted(self)
        requires
            self.wf(),
        ensures
            spec_adj_sorted(self.search_table@),
    {
        lemma_tables_sorted();
    }

    /// Every table entry lies between the smallest and largest MTU.
    pub proof fn lemma_table_range(self)
        requires
            self.wf(),
        ensures
            forall|i: int|
                0 <= i < self.search_table@.len() ==> 1280 <= #[trigger] self.search_table@[i]
                    <= 65535,
            1280 <= self.mtu <= 65535,
    {
        assert(forall|i: int|
            0 <= i < spec_table_v4().len() ==> 1280 <= #[trigger] spec_table_v4()[i] <= 65535);
        assert(forall|i: int|
            0 <= i < spec_table_v6().len() ==> 1280 <= #[trigger] spec_table_v6()[i] <= 65535);
    }

    /// The MTU search table for the given remote address family.
    pub fn search_table(remote_ip: IpAddr) -> (r: Vec<usize>)
        ensures
            r@ == if remote_ip.spec_is_ipv4() {
                spec_table_v4()
            } else {
                spec_table_v6()
            },
    {
        if remote_ip.is_ipv4() {
            let t = vec![1280usize, 1380, 1420, 1472, 1500, 2047, 4095, 8191, 16383, 32767, 65535];
            assert(t@ =~= spec_table_v4());
            t
        } else {
            let t = vec![1280usize, 1380, 1470, 1500, 2047, 4095, 8191, 16383, 32767, 65535];
            assert(t@ =~= spec_table_v6());
            t
        }
    }

    /// Size of the IP and UDP headers, in bytes.
    pub fn header_size(remote_ip: IpAddr) -> (r: usize)
        ensures
            r == if remote_ip.spec_is_ipv4() {
                28int
            } else {
                48int
            },
    {
        if remote_ip.is_ipv4() {
            20 + 8
        } else {
            40 + 8
        }
    }

    /// Starts discovery at the smallest MTU, with no probe needed yet.
    pub fn new(remote_ip: IpAddr) -> (r: Pmtud)
        ensures
            r.wf(),
            r.header_size == if remote_ip.spec_is_ipv4() {
                28int
            } else {
                48int
            },
            r.mtu == 1280,
            r.probe_index == 0,
            r.probe_count == 0,
            r.probe_state == Probe::NotNeeded,
            forall|i: int| 0 <= i < r.loss_counts@.len() ==> #[trigger] r.loss_counts@[i] == 0,
            r.raise_timer is None,
    {
        let search_table = Self::search_table(remote_ip);
        let n = search_table.len();
        let mut loss_counts: Vec<usize> = Vec::new();
        let mut i: usize = 0;
        while i < n
            invariant
                i <= n,
                loss_counts@.len() == i,
                forall|j: int| 0 <= j < i ==> #[trigger] loss_counts@[j] == 0,
            decreases n - i,
        {
            loss_counts.push(0);
            i = i + 1;
        }
        let r = Pmtud {
            header_size: Self::header_size(remote_ip),
            mtu: search_table[0],
            search_table,
            probe_index: 0,
            probe_count: 0,
            probe_state: Probe::NotNeeded,
            loss_counts,
            raise_timer: Option::None,
        };
        assert(r.search_table@[0] == r.mtu);
        r
    }

    /// The default UDP payload limit before discovery, per address family.
    pub fn default_plpmtu(remote_ip: IpAddr) -> (r: usize)
        ensures
            r == if remote_ip.spec_is_ipv4() {
                1252int
            } else {
                1232int
            },
    {
        let table = Self::search_table(remote_ip);
        table[0] - Self::header_size(remote_ip)
    }

    /// The current UDP payload limit: what fits in the confirmed MTU.
    pub fn plpmtu(&self) -> (r: usize)
        requires
            self.wf(),
        ensures
            r == self.mtu - self.header_size,
    {
        proof {
            self.lemma_table_range();
        }
        self.mtu - self.header_size
    }

    pub fn needs_probe(&self) -> (r: bool)
        ensures
            r == (self.probe_state == Probe::Needed),
    {
        self.probe_state == Probe::Needed
    }

    /// The UDP payload size of the probe currently wanted or outstanding.
    pub fn probe_size(&self) -> (r: usize)
        requires
            self.wf(),
        ensures
            r == self.search_table@[self.probe_index as int] - self.header_size,
    {
        proof {
            self.lemma_table_range();
        }
        self.search_table[self.probe_index] - self.header_size
    }

    /// Writes the probe's ping into the packet and records that the probe for
    /// the current size is outstanding.
    pub fn send_probe(&mut self, builder: &mut Builder, stats: &mut Stats)
        requires
            old(self).wf(),
            old(builder).wf(),
            old(builder).spec_remaining() >= 1,
        ensures
            final(self).wf(),
            final(builder).wf(),
            final(builder).data@ == old(builder).data@ + crate::varint::spec_varint(
                crate::frame::FRAME_TYPE_PING,
            ),
            final(builder).limit == old(builder).limit,
            *final(self) == (Pmtud {
                probe_count: if old(self).probe_count == usize::MAX {
                    usize::MAX
                } else {
                    (old(self).probe_count + 1) as usize
                },
                probe_state: Probe::Sent,
                ..*old(self)
            }),
            final(stats).frame_tx.ping == sat_inc(old(stats).frame_tx.ping),
            final(stats).frame_tx.all == sat_inc(old(stats).frame_tx.all),
            final(stats).pmtud_tx == sat_inc(old(stats).pmtud_tx),
            *final(stats) == (Stats {
                pmtud_tx: final(stats).pmtud_tx,
                frame_tx: final(stats).frame_tx,
                ..*old(stats)
            }),
            final(stats).frame_tx == (crate::stats::FrameStats {
                ping: final(stats).frame_tx.ping,
                all: final(stats).frame_tx.all,
                ..old(stats).frame_tx
            }),
    {
        builder.encode_varint(crate::frame::FRAME_TYPE_PING);
        bump(&mut stats.frame_tx.ping);
        bump(&mut stats.frame_tx.all);
        bump(&mut stats.pmtud_tx);
        if self.probe_count < usize::MAX {
            self.probe_count = self.probe_count + 1;
        }
        self.probe_state = Probe::Sent;
        proof {
            lemma_wf_transfer(*old(self), *self);
        }
    }

    /// Whether this sent packet is the probe this discovery state is waiting
    /// for: a probe is outstanding and the packet has exactly the probe size.
    pub open spec fn spec_is_probe(self, p: SentPacket) -> bool {
        self.probe_state == Probe::Sent && p.len == self.search_table@[self.probe_index as int]
            - self.header_size
    }

    pub fn is_pmtud_probe(&self, p: &SentPacket) -> (r: bool)
        requires
            self.wf(),
        ensures
            r == self.spec_is_probe(*p),
    {
        self.probe_state == Probe::Sent && p.len() == self.probe_size()
    }

    /// Counts the outstanding-probe packets among `pkts`.
    fn count_pmtud_probes(&self, pkts: &[SentPacket]) -> (r: usize)
        requires
            self.wf(),
        ensures
            r == spec_probe_count_in(*self, pkts@),
            r <= pkts@.len(),
    {
        let mut count: usize = 0;
        let mut i: usize = 0;
        while i < pkts.len()
            invariant
                self.wf(),
                i <= pkts@.len(),
                count <= i,
                count == spec_probe_count_in(*self, pkts@.take(i as int)),
            decreases pkts@.len() - i,
        {
            let ghost before = pkts@.take(i as int);
            if self.is_pmtud_probe(&pkts[i]) {
                count = count + 1;
            }
            i = i + 1;
            proof {
                lemma_probe_count_take_step(*self, pkts@, i as int);
            }
        }
        assert(pkts@.take(pkts@.len() as int) =~= pkts@);
        count
    }

    /// Resets the loss counts of all table entries below `bound`.
    fn zero_loss_counts_below(&mut self, bound: usize)
        requires
            old(self).wf(),
        ensures
            final(self).wf(),
            *final(self) == (Pmtud { loss_counts: final(self).loss_counts, ..*old(self) }),
            final(self).loss_counts@.len() == old(self).loss_counts@.len(),
            forall|i: int|
                0 <= i < final(self).loss_counts@.len() ==> #[trigger] final(self).loss_counts@[i]
                    == if i < spec_cut_index(old(self).search_table@, bound as int) {
                    0usize
                } else {
                    old(self).loss_counts@[i]
                },
    {
        let n = self.search_table.len();
        let mut i: usize = 0;
        proof {
            lemma_cut_index_bounds(self.search_table@, bound as int);
            self.lemma_table_sorted();
        }
        while i < n
            invariant
                old(self).wf(),
                n == self.search_table@.len(),
                self.loss_counts@.len() == n,
                i <= n,
                self.search_table == old(self).search_table,
                self.header_size == old(self).header_size,
                self.mtu == old(self).mtu,
                self.probe_index == old(self).probe_index,
                self.probe_count == old(self).probe_count,
                self.probe_state == old(self).probe_state,
                self.raise_timer == old(self).raise_timer,
                spec_adj_sorted(self.search_table@),
                forall|j: int|
                    0 <= j < n ==> #[trigger] self.loss_counts@[j] == if j < i && j
                        < spec_cut_index(old(self).search_table@, bound as int) {
                        0usize
                    } else {
                        old(self).loss_counts@[j]
                    },
                i > 0 ==> (i <= spec_cut_index(old(self).search_table@, bound as int)
                    || self.search_table@[i - 1] >= bound),
            decreases n - i,
        {
            proof {
                lemma_cut_index_prefix(self.search_table@, bound as int, i as int);
            }
            if self.search_table[i] < bound {
                self.loss_counts.set(i, 0);
            } else {
                proof {
                    lemma_wf_transfer(*old(self), *self);
                    assert forall|j: int|
                        0 <= j < n implies #[trigger] self.loss_counts@[j] == if j
                        < spec_cut_index(old(self).search_table@, bound as int) {
                        0usize
                    } else {
                        old(self).loss_counts@[j]
                    } by {
                        if i <= j && j < spec_cut_index(old(self).search_table@, bound as int) {
                            lemma_sorted_mono(self.search_table@, i as int, j);
                            lemma_cut_index_prefix(self.search_table@, bound as int, j);
                        }
                    }
                }
                return ;
            }
            i = i + 1;
        }
        proof {
            lemma_wf_transfer(*old(self), *self);
        }
    }

    /// Takes note of acknowledged packets: loss counts at and below the
    /// largest acknowledged size are cleared, and an acknowledged probe
    /// confirms the probed size as the new MTU and starts the next probe.
    pub fn on_packets_acked(&mut self, acked_pkts: &[SentPacket], stats: &mut Stats)
        requires
            old(self).wf(),
        ensures
            final(self).wf(),
            final(self).search_table@ == old(self).search_table@,
            final(self).header_size == old(self).header_size,
            // Loss counts at and below the largest acknowledged size are
            // cleared; counts above it never shrink on their own.
            spec_max_len(acked_pkts@) > 0 && spec_max_len(acked_pkts@) + old(self).header_size
                <= usize::MAX ==> forall|i: int|
                0 <= i < final(self).loss_counts@.len() ==> #[trigger] final(self).loss_counts@[i]
                    == if i < spec_cut_index(
                    old(self).search_table@,
                    spec_max_len(acked_pkts@) + old(self).header_size,
                ) {
                    0usize
                } else {
                    old(self).loss_counts@[i]
                },
            final(stats).pmtud_ack == crate::stats::sat_plus(
                old(stats).pmtud_ack,
                spec_probe_count_in(*old(self), acked_pkts@) as u64,
            ) || (spec_max_len(acked_pkts@) == 0 && *final(stats) == *old(stats)),
            *final(stats) == (Stats { pmtud_ack: final(stats).pmtud_ack, ..*old(stats) }),
            ({
                let max_len = spec_max_len(acked_pkts@);
                let acked = spec_probe_count_in(*old(self), acked_pkts@);
                if max_len == 0 {
                    *final(self) == *old(self)
                } else if acked == 0 {
                    final(self).probe_state == old(self).probe_state && final(self).mtu == old(
                        self,
                    ).mtu && final(self).probe_index == old(self).probe_index
                } else {
                    final(self).mtu == old(self).search_table@[old(self).probe_index as int]
                        && *final(self) == spec_start(
                        (Pmtud {
                            mtu: final(self).mtu,
                            loss_counts: final(self).loss_counts,
                            ..*old(self)
                        }),
                    )
                }
            }),
    {
        let mut max_len: usize = 0;
        let mut i: usize = 0;
        while i < acked_pkts.len()
            invariant
                i <= acked_pkts@.len(),
                max_len == spec_max_len(acked_pkts@.take(i as int)),
                max_len <= usize::MAX,
            decreases acked_pkts@.len() - i,
        {
            if acked_pkts[i].len() > max_len {
                max_len = acked_pkts[i].len();
            }
            i = i + 1;
            proof {
                lemma_max_len_take_step(acked_pkts@, i as int);
            }
        }
        assert(acked_pkts@.take(acked_pkts@.len() as int) =~= acked_pkts@);
        if max_len == 0 {
            return ;
        }
        let bound = if max_len <= usize::MAX - self.header_size {
            max_len + self.header_size
        } else {
            usize::MAX
        };
        self.zero_loss_counts_below(bound);
        proof {
            lemma_probe_count_congr(*self, *old(self), acked_pkts@);
        }
        let acked = self.count_pmtud_probes(acked_pkts);
        if acked == 0 {
            return ;
        }
        bump_usize(&mut stats.pmtud_ack, acked);
        self.mtu = self.search_table[self.probe_index];
        proof {
            assert(self.search_table@[self.probe_index as int] == self.mtu);
            assert(self.wf());
        }
        let ghost mid = *self;
        self.start_pmtud();
        proof {
            assert(mid == (Pmtud { mtu: self.mtu, loss_counts: self.loss_counts, ..*old(self) }));
        }
    }

    /// Stops the search: the last size that worked becomes the MTU, counts
    /// are cleared, and the raise timer is armed.
    fn stop_pmtud(&mut self, idx: usize, now: Instant)
        requires
            old(self).wf(),
            idx < old(self).search_table@.len(),
        ensures
            final(self).wf(),
            final(self).probe_state == Probe::NotNeeded,
            final(self).probe_index == idx,
            final(self).mtu == old(self).search_table@[idx as int],
            final(self).probe_count == 0,
            forall|i: int|
                0 <= i < final(self).loss_counts@.len() ==> #[trigger] final(self).loss_counts@[i]
                    == 0,
            final(self).raise_timer == Option::Some(
                now.plus(Duration::from_secs(PMTU_RAISE_TIMER_SECS)),
            ),
            final(self).search_table@ == old(self).search_table@,
            final(self).header_size == old(self).header_size,
    {
        self.probe_state = Probe::NotNeeded;
        self.probe_index = idx;
        self.mtu = self.search_table[idx];
        self.probe_count = 0;
        let n = self.loss_counts.len();
        let mut i: usize = 0;
        while i < n
            invariant
                i <= n,
                self.loss_counts@.len() == n,
                forall|j: int| 0 <= j < i ==> #[trigger] self.loss_counts@[j] == 0,
                self.search_table@ == old(self).search_table@,
                self.header_size == old(self).header_size,
                self.mtu == old(self).search_table@[idx as int],
                self.probe_index == idx,
                self.probe_count == 0,
                self.probe_state == Probe::NotNeeded,
            decreases n - i,
        {
            self.loss_counts.set(i, 0);
            i = i + 1;
        }
        self.raise_timer = Option::Some(now.plus(Duration::from_secs(PMTU_RAISE_TIMER_SECS)));
    }

    /// Takes note of lost packets.  Each loss counts against every size that
    /// would have been needed to carry the packet; a size lost `MAX_PROBES`
    /// times is unreachable: during probing the search stops below it, and
    /// outside probing the whole search restarts from the smallest size.
    pub fn on_packets_lost(&mut self, lost_packets: &[SentPacket], stats: &mut Stats, now: Instant)
        requires
            old(self).wf(),
        ensures
            *final(stats) == (Stats {
                pmtud_lost: final(stats).pmtud_lost,
                pmtud_change: final(stats).pmtud_change,
                ..*old(stats)
            }),
            final(self).wf(),
            final(self).header_size == old(self).header_size,
            final(self).search_table@ == old(self).search_table@,
            lost_packets@.len() == 0 ==> *final(self) == *old(self),
            lost_packets@.len() > 0 && (forall|k: int|
                0 <= k < old(self).loss_counts@.len() ==> #[trigger] spec_charged_at(
                    *old(self),
                    lost_packets@,
                    k,
                ) < MAX_PROBES) ==> ({
                // Nothing failed conclusively: every count is charged with
                // the losses above its size, and a lost probe asks for
                // another try.
                &&& final(self).loss_counts@.len() == old(self).loss_counts@.len()
                &&& forall|k: int|
                    0 <= k < old(self).loss_counts@.len()
                        ==> #[trigger] final(self).loss_counts@[k] == spec_charged_at(
                        *old(self),
                        lost_packets@,
                        k,
                    )
                &&& final(self).mtu == old(self).mtu
                &&& final(self).probe_index == old(self).probe_index
                &&& final(self).probe_state == (if spec_probe_count_in(
                    *old(self),
                    lost_packets@,
                ) > 0 {
                    Probe::Needed
                } else {
                    old(self).probe_state
                })
            }),
            lost_packets@.len() > 0 ==> (forall|ff: int|
                0 < ff < old(self).loss_counts@.len() && #[trigger] spec_charged_at(
                    *old(self),
                    lost_packets@,
                    ff,
                ) >= MAX_PROBES && (forall|j: int|
                    0 <= j < ff ==> #[trigger] spec_charged_at(*old(self), lost_packets@, j)
                        < MAX_PROBES) ==> (if old(self).probe_state == Probe::NotNeeded {
                    // The confirmed MTU itself is losing packets: the
                    // search restarts from the smallest size up.
                    final(self).mtu == old(self).search_table@[0] && final(self).probe_state
                        == Probe::Needed && final(self).probe_index == 1
                } else {
                    // A probed size failed: the search stops at the last
                    // size that worked and the raise timer is armed.
                    final(self).probe_state == Probe::NotNeeded
                        && final(self).mtu == old(self).search_table@[ff - 1]
                        && final(self).probe_index == ff - 1
                        && final(self).raise_timer == Option::Some(
                        now.plus(Duration::from_secs(PMTU_RAISE_TIMER_SECS)),
                    )
                })),
            lost_packets@.len() > 0 ==> (forall|ff: int|
                0 < ff < old(self).loss_counts@.len() && #[trigger] spec_charged_at(
                    *old(self),
                    lost_packets@,
                    ff,
                ) >= MAX_PROBES && (forall|j: int|
                    0 <= j < ff ==> #[trigger] spec_charged_at(*old(self), lost_packets@, j)
                        < MAX_PROBES) ==> ((forall|i: int|
                    0 <= i < final(self).loss_counts@.len()
                        ==> #[trigger] final(self).loss_counts@[i] == 0) && (old(self).probe_state
                    == Probe::NotNeeded ==> final(stats).pmtud_change == sat_inc(
                    old(stats).pmtud_change,
                )))),
    {
        if lost_packets.len() == 0 {
            return ;
        }
        let lost = self.count_pmtud_probes(lost_packets);
        bump_usize(&mut stats.pmtud_lost, lost);

        // Add, for each table entry, how many lost packets needed that size.
        let n = self.search_table.len();
        let mut i: usize = 0;
        while i < n
            invariant
                self.wf(),
                n == self.search_table@.len(),
                i <= n,
                self.search_table@ == old(self).search_table@,
                self.header_size == old(self).header_size,
                self.mtu == old(self).mtu,
                self.probe_index == old(self).probe_index,
                self.probe_count == old(self).probe_count,
                self.probe_state == old(self).probe_state,
                self.raise_timer == old(self).raise_timer,
                forall|k: int|
                    0 <= k < i ==> #[trigger] self.loss_counts@[k] == spec_charged_at(
                        *old(self),
                        lost_packets@,
                        k,
                    ),
                forall|k: int|
                    i <= k < n ==> #[trigger] self.loss_counts@[k] == old(self).loss_counts@[k],
            decreases n - i,
        {
            let entry = self.search_table[i];
            let add = count_lost_at(lost_packets, entry, self.header_size);
            let cur = self.loss_counts[i];
            self.loss_counts.set(i, cur.saturating_add(add));
            proof {
                assert(self.loss_counts@[i as int] == spec_charged_at(
                    *old(self),
                    lost_packets@,
                    i as int,
                ));
            }
            i = i + 1;
        }

        // Find the first size that has now failed too often.
        let mut first_failed: usize = 0;
        let mut found: bool = false;
        let mut j: usize = 0;
        while j < n
            invariant
                n == self.loss_counts@.len(),
                j <= n,
                forall|k: int|
                    0 <= k < n ==> #[trigger] self.loss_counts@[k] == spec_charged_at(
                        *old(self),
                        lost_packets@,
                        k,
                    ),
                found ==> first_failed < j && spec_charged_at(
                    *old(self),
                    lost_packets@,
                    first_failed as int,
                ) >= MAX_PROBES,
                found ==> forall|k: int|
                    0 <= k < first_failed ==> #[trigger] spec_charged_at(
                        *old(self),
                        lost_packets@,
                        k,
                    ) < MAX_PROBES,
                !found ==> forall|k: int|
                    0 <= k < j ==> #[trigger] spec_charged_at(*old(self), lost_packets@, k)
                        < MAX_PROBES,
            decreases n - j,
        {
            if !found && self.loss_counts[j] >= MAX_PROBES {
                first_failed = j;
                found = true;
            }
            j = j + 1;
        }
        proof {
            if found && first_failed > 0 {
                assert forall|ff: int|
                    0 < ff < n && spec_charged_at(*old(self), lost_packets@, ff) >= MAX_PROBES
                        && (forall|jj: int|
                        0 <= jj < ff ==> #[trigger] spec_charged_at(
                            *old(self),
                            lost_packets@,
                            jj,
                        ) < MAX_PROBES) implies ff == first_failed as int by {
                    assert(spec_charged_at(*old(self), lost_packets@, first_failed as int)
                        >= MAX_PROBES);
                    if ff > first_failed as int {
                        assert(spec_charged_at(*old(self), lost_packets@, first_failed as int)
                            < MAX_PROBES);
                    }
                }
            }
        }

        if !found {
            // No size has failed conclusively; keep probing.
            if lost > 0 {
                self.probe_state = Probe::Needed;
            }
            return ;
        }
        if first_failed > 0 {
            let last_ok = first_failed - 1;
            if self.probe_state == Probe::NotNeeded {
                // Losses of packets within the confirmed MTU, outside of
                // discovery: something shrank; restart from the bottom.
                self.restart_pmtud(stats);
            } else {
                // Losses above the confirmed MTU while probing: settle on
                // the last size that worked.
                self.stop_pmtud(last_ok, now);
            }
        }
    }

    /// Restarts discovery from the smallest size after a suspected shrink.
    fn restart_pmtud(&mut self, stats: &mut Stats)
        requires
            old(self).wf(),
        ensures
            final(self).wf(),
            final(self).search_table@ == old(self).search_table@,
            final(self).header_size == old(self).header_size,
            final(self).mtu == old(self).search_table@[0],
            final(self).probe_state == Probe::Needed,
            final(self).probe_index == 1,
            forall|i: int|
                0 <= i < final(self).loss_counts@.len() ==> #[trigger] final(self).loss_counts@[i]
                    == 0,
            final(self).raise_timer is None,
            final(stats).pmtud_change == sat_inc(old(stats).pmtud_change),
            *final(stats) == (Stats { pmtud_change: final(stats).pmtud_change, ..*old(stats) }),
    {
        self.probe_index = 0;
        self.mtu = self.search_table[0];
        let n = self.loss_counts.len();
        let mut i: usize = 0;
        while i < n
            invariant
                i <= n,
                self.loss_counts@.len() == n,
                self.search_table@ == old(self).search_table@,
                self.header_size == old(self).header_size,
                self.mtu == old(self).search_table@[0],
                self.probe_index == 0,
                n == self.search_table@.len(),
                forall|j: int| 0 <= j < i ==> #[trigger] self.loss_counts@[j] == 0,
            decreases n - i,
        {
            self.loss_counts.set(i, 0);
            i = i + 1;
        }
        self.raise_timer = Option::None;
        bump(&mut stats.pmtud_change);
        self.start_pmtud();
    }

    /// Moves to the next larger size and asks for a probe, or rests at the
    /// top of the table.
    pub fn start_pmtud(&mut self)
        requires
            old(self).wf(),
        ensures
            final(self).wf(),
            *final(self) == spec_start(*old(self)),
    {
        if self.probe_index < self.search_table.len() - 1 {
            self.probe_state = Probe::Needed;
            self.probe_count = 0;
            self.probe_index = self.probe_index + 1;
        } else {
            self.probe_state = Probe::NotNeeded;
        }
        proof {
            lemma_wf_transfer(*old(self), *self);
        }
    }

    /// Fires the raise timer if it is due and nothing is being probed: the
    /// search resumes at the next larger size.
    pub fn maybe_fire_pmtud_raise_timer(&mut self, now: Instant)
        requires
            old(self).wf(),
        ensures
            final(self).wf(),
            ({
                let due = old(self).raise_timer matches Option::Some(t) && old(self).probe_state
                    == Probe::NotNeeded && t.micros <= now.micros;
                if due {
                    *final(self) == spec_start((Pmtud { raise_timer: Option::None, ..*old(self) }))
                } else {
                    *final(self) == *old(self)
                }
            }),
    {
        if let Option::Some(raise_timer) = self.raise_timer {
            if self.probe_state == Probe::NotNeeded && raise_timer.le(&now) {
                self.raise_timer = Option::None;
                self.start_pmtud();
            }
        }
    }
}

/// What starting the next probe does: step up and ask for a probe, unless
/// the table is exhausted.
pub open spec fn spec_start(p: Pmtud) -> Pmtud {
    if p.probe_index < p.search_table@.len() - 1 {
        Pmtud {
            probe_state: Probe::Needed,
            probe_count: 0,
            probe_index: (p.probe_index + 1) as usize,
            ..p
        }
    } else {
        Pmtud { probe_state: Probe::NotNeeded, ..p }
    }
}

/// Counts the packets of `pkts` whose size, plus headers, needs `entry`.
fn count_lost_at(pkts: &[SentPacket], entry: usize, header_size: usize) -> (r: usize)
    ensures
        r == spec_lost_at(pkts@, entry, header_size),
        r <= pkts@.len(),
{
    let mut count: usize = 0;
    let mut i: usize = 0;
    while i < pkts.len()
        invariant
            i <= pkts@.len(),
            count <= i,
            count == spec_lost_at(pkts@.take(i as int), entry, header_size),
        decreases pkts@.len() - i,
    {
        if entry >= header_size && pkts[i].len() <= entry - header_size {
            count = count + 1;
        }
        i = i + 1;
        proof {
            lemma_lost_at_take_step(pkts@, entry, header_size, i as int);
        }
    }
    assert(pkts@.take(pkts@.len() as int) =~= pkts@);
    count
}

/// Adds `n` to a `usize` counter, saturating.
fn bump_usize(c: &mut u64, n: usize)
    ensures
        *final(c) == crate::stats::sat_plus(*old(c), n as u64),
{
    *c = c.saturating_add(n as u64);
}

proof fn lemma_probe_count_take_step(p: Pmtud, s: Seq<SentPacket>, i: int)
    requires
        0 < i <= s.len(),
    ensures
        spec_probe_count_in(p, s.take(i)) == spec_probe_count_in(p, s.take(i - 1)) + if p
            .spec_is_probe(s[i - 1]) {
            1int
        } else {
            0int
        },
    decreases i,
{
    let t = s.take(i);
    if i == 1 {
        assert(t.drop_first() =~= s.take(0));
        assert(s.take(0).len() == 0);
        assert(t[0] == s[0]);
    } else {
        assert(t.drop_first() =~= s.drop_first().take(i - 1));
        assert(s.take(i - 1).drop_first() =~= s.drop_first().take(i - 2));
        lemma_probe_count_take_step(p, s.drop_first(), i - 1);
        assert(s.drop_first()[i - 2] == s[i - 1]);
        assert(s.take(i - 1)[0] == s[0]);
    }
}

proof fn lemma_lost_at_take_step(s: Seq<SentPacket>, entry: usize, header_size: usize, i: int)
    requires
        0 < i <= s.len(),
    ensures
        spec_lost_at(s.take(i), entry, header_size) == spec_lost_at(s.take(i - 1), entry,
            header_size,
        ) + if entry >= s[i - 1].len + header_size {
            1int
        } else {
            0int
        },
    decreases i,
{
    let t = s.take(i);
    if i == 1 {
        assert(t.drop_first() =~= s.take(0));
        assert(t[0] == s[0]);
    } else {
        assert(t.drop_first() =~= s.drop_first().take(i - 1));
        assert(s.take(i - 1).drop_first() =~= s.drop_first().take(i - 2));
        lemma_lost_at_take_step(s.drop_first(), entry, header_size, i - 1);
        assert(s.drop_first()[i - 2] == s[i - 1]);
        assert(s.take(i - 1)[0] == s[0]);
    }
}

proof fn lemma_max_len_take_step(s: Seq<SentPacket>, i: int)
    requires
        0 < i <= s.len(),
    ensures
        spec_max_len(s.take(i)) == if s[i - 1].len >= spec_max_len(s.take(i - 1)) {
            s[i - 1].len as int
        } else {
            spec_max_len(s.take(i - 1))
        },
    decreases i,
{
    let t = s.take(i);
    if i == 1 {
        assert(t.drop_first() =~= s.take(0));
        assert(t[0] == s[0]);
    } else {
        assert(t.drop_first() =~= s.drop_first().take(i - 1));
        assert(s.take(i - 1).drop_first() =~= s.drop_first().take(i - 2));
        lemma_max_len_take_step(s.drop_first(), i - 1);
        assert(s.drop_first()[i - 2] == s[i - 1]);
        assert(s.take(i - 1)[0] == s[0]);
    }
}

proof fn lemma_cut_index_prefix(table: Seq<usize>, limit: int, i: int)
    requires
        spec_adj_sorted(table),
        0 <= i < table.len(),
    ensures
        table[i] < limit ==> i < spec_cut_index(table, limit),
        table[i] >= limit ==> spec_cut_index(table, limit) <= i,
    decreases i,
{
    if table[0] >= limit {
        if table[i] < limit {
            lemma_sorted_mono(table, 0, i);
            assert(table[0] <= table[i]);
            assert(false);
        }
    } else {
        lemma_cut_index_bounds(table.drop_first(), limit);
        if i > 0 {
            let d = table.drop_first();
            assert forall|j: int| 0 <= j < d.len() - 1 implies #[trigger] d[j] < d[j + 1] by {
                assert(d[j] == table[j + 1]);
                assert(d[j + 1] == table[j + 2]);
                assert(table[j + 1] < table[j + 2]);
            }
            lemma_cut_index_prefix(d, limit, i - 1);
            assert(d[i - 1] == table[i]);
        }
    }
}

} // verus!
