//! Connection identifiers: the values each endpoint gives its peer to
//! address it by, the generator that mints them, and the pools that track
//! which are live.

use vstd::prelude::*;

verus! {

/// How many connection IDs an endpoint keeps issued to its peer.
pub const LOCAL_ACTIVE_CID_LIMIT: usize = 3;

/// A connection identifier: up to twenty bytes, possibly none.
#[derive(Debug, Clone)]
pub struct ConnectionId {
    pub bytes: Vec<u8>,
}

impl ConnectionId {
    pub fn new(bytes: Vec<u8>) -> (r: ConnectionId)
        requires
            bytes@.len() <= 20,
        ensures
            r.bytes@ == bytes@,
    {
        ConnectionId { bytes }
    }

    pub fn empty() -> (r: ConnectionId)
        ensures
            r.bytes@.len() == 0,
    {
        ConnectionId { bytes: Vec::new() }
    }

    pub fn len(&self) -> (r: usize)
        ensures
            r == self.bytes@.len(),
    {
        self.bytes.len()
    }

    pub fn is_empty(&self) -> (r: bool)
        ensures
            r == (self.bytes@.len() == 0),
    {
        self.bytes.len() == 0
    }

    pub fn as_bytes(&self) -> (r: &Vec<u8>)
        ensures
            r@ == self.bytes@,
    {
        &self.bytes
    }
}

impl PartialEq for ConnectionId {
    fn eq(&self, other: &ConnectionId) -> (r: bool) {
        eq_bytes(&self.bytes, &other.bytes)
    }
}

impl vstd::std_specs::cmp::PartialEqSpecImpl for ConnectionId {
    open spec fn obeys_eq_spec() -> bool {
        true
    }

    open spec fn eq_spec(&self, other: &ConnectionId) -> bool {
        self.bytes@ == other.bytes@
    }
}

/// Whether two byte vectors hold the same bytes.
pub fn eq_bytes(a: &Vec<u8>, b: &Vec<u8>) -> (r: bool)
    ensures
        r == (a@ == b@),
{
    if a.len() != b.len() {
        proof {
            assert(a@.len() != b@.len());
        }
        return false;
    }
    let mut i: usize = 0;
    while i < a.len()
        invariant
            i <= a@.len(),
            a@.len() == b@.len(),
            forall|j: int| 0 <= j < i ==> a@[j] == b@[j],
        decreases a@.len() - i,
    {
        if a[i] != b[i] {
            return false;
        }
        i = i + 1;
    }
    proof {
        assert(a@ =~= b@);
    }
    true
}

/// Mints connection IDs whose first byte is their whole length, followed by
/// a counter, so they never collide and can be read back from a packet.
#[derive(Debug, Default)]
pub struct CountingConnectionIdGenerator {
    pub counter: u32,
}

impl CountingConnectionIdGenerator {
    pub fn new() -> (r: CountingConnectionIdGenerator)
        ensures
            r.counter == 0,
    {
        CountingConnectionIdGenerator { counter: 0 }
    }

    /// The next connection ID: eight bytes, the first the length itself,
    /// then the four counter bytes, then padding.  Two calls with different
    /// counters give IDs that differ in those bytes.
    pub fn generate_cid(&mut self) -> (r: Option<ConnectionId>)
        ensures
            r matches Option::Some(c) && c.bytes@ == seq![
                8u8,
                (old(self).counter >> 24) as u8,
                ((old(self).counter >> 16) & 0xff) as u8,
                ((old(self).counter >> 8) & 0xff) as u8,
                (old(self).counter & 0xff) as u8,
                0u8,
                0u8,
                0u8,
            ],
            final(self).counter == crate::stats::sat_inc32(old(self).counter),
    {
        let c = self.counter;
        self.counter = self.counter.saturating_add(1);
        let mut bytes: Vec<u8> = Vec::new();
        bytes.push(8);
        bytes.push((c >> 24) as u8);
        bytes.push(((c >> 16) & 0xff) as u8);
        bytes.push(((c >> 8) & 0xff) as u8);
        bytes.push((c & 0xff) as u8);
        bytes.push(0);
        bytes.push(0);
        bytes.push(0);
        proof {
            assert(bytes@ =~= seq![
                8u8,
                (c >> 24) as u8,
                ((c >> 16) & 0xff) as u8,
                ((c >> 8) & 0xff) as u8,
                (c & 0xff) as u8,
                0u8,
                0u8,
                0u8,
            ]);
        }
        Option::Some(ConnectionId { bytes })
    }

    /// Reads a connection ID off the front of `buf`: the first byte gives
    /// the length, which includes that byte.
    pub fn decode_cid(buf: &[u8]) -> (r: Option<ConnectionId>)
        ensures
            r matches Option::Some(c) ==> 1 <= c.bytes@.len() <= 20 && c.bytes@ == buf@.subrange(
                0,
                c.bytes@.len() as int,
            ),
    {
        if buf.len() == 0 {
            return Option::None;
        }
        let len = buf[0] as usize;
        if len == 0 || len > 20 || len > buf.len() {
            return Option::None;
        }
        let bytes = crate::frame::copy_range(buf, 0, len);
        Option::Some(ConnectionId { bytes })
    }
}

/// Mints zero-length connection IDs, for an endpoint that forgoes them.
#[derive(Debug, Default)]
pub struct EmptyConnectionIdGenerator {
    pub used: bool,
}

impl EmptyConnectionIdGenerator {
    pub fn generate_cid(&mut self) -> (r: Option<ConnectionId>)
        ensures
            r matches Option::Some(c) && c.bytes@.len() == 0,
    {
        self.used = true;
        Option::Some(ConnectionId::empty())
    }
}

/// The connection-ID generator a connection was built with.
#[derive(Debug)]
pub enum CidGenerator {
    Counting(CountingConnectionIdGenerator),
    Empty(EmptyConnectionIdGenerator),
}

impl CidGenerator {
    pub fn generate(&mut self) -> (r: Option<ConnectionId>)
        ensures
            r matches Option::Some(c) && c.bytes@.len() <= 20,
    {
        match self {
            CidGenerator::Counting(g) => g.generate_cid(),
            CidGenerator::Empty(g) => g.generate_cid(),
        }
    }
}

/// One connection ID issued or received, with its sequence number.
#[derive(Debug, Clone)]
pub struct ConnectionIdEntry {
    pub seqno: u64,
    pub cid: ConnectionId,
    /// Whether this entry may no longer be used.
    pub retired: bool,
}

} // verus!
