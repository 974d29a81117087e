//! Packet types and the builder that assembles one packet within a byte
//! budget.  The builder only appends: a frame writer encodes its frame, and
//! the packet is closed by padding to the budget or by taking the bytes out.

use vstd::prelude::*;

use crate::varint::{lemma_varint_len, spec_varint, spec_varint_len, write_varint, VARINT_MAX};

verus! {

broadcast use lemma_varint_len;

/// The three packet types the engine sends, one per packet-number space.
#[derive(Debug, Clone, Copy, PartialEq, Eq, Structural)]
pub enum PacketType {
    Initial,
    Handshake,
    Short,
}

/// No frame is written into a gap smaller than this; a length prefix is only
/// used when at least this much room is left after a frame.
pub const MINIMUM_FRAME_SIZE: usize = 2;

/// Assembles the bytes of one packet, never exceeding its byte budget.
#[derive(Debug)]
pub struct Builder {
    /// Bytes assembled so far, header included.
    pub data: Vec<u8>,
    /// The packet's byte budget, header included.
    pub limit: usize,
    /// Set when no further frame may be added even if bytes remain.
    pub full: bool,
}

impl Builder {
    /// The builder is consistent: it never holds more than its budget.
    pub open spec fn wf(self) -> bool {
        self.data@.len() <= self.limit <= 10_000_000
    }

    pub open spec fn spec_remaining(self) -> int {
        if self.full {
            0
        } else {
            self.limit - self.data@.len()
        }
    }

    /// Starts a packet from its already-encoded header.
    pub fn new(header: Vec<u8>, limit: usize) -> (r: Builder)
        requires
            header@.len() <= limit <= 10_000_000,
        ensures
            r.wf(),
            r.data@ == header@,
            r.limit == limit,
            !r.full,
    {
        Builder { data: header, limit, full: false }
    }

    /// How many bytes may still be written.
    pub fn remaining(&self) -> (r: usize)
        requires
            self.wf(),
        ensures
            r == self.spec_remaining(),
    {
        if self.full {
            0
        } else {
            self.limit - self.data.len()
        }
    }

    pub fn len(&self) -> (r: usize)
        ensures
            r == self.data@.len(),
    {
        self.data.len()
    }

    pub fn limit(&self) -> (r: usize)
        ensures
            r == self.limit,
    {
        self.limit
    }

    pub fn is_empty(&self) -> (r: bool)
        ensures
            r == (self.data@.len() == 0),
    {
        self.data.len() == 0
    }

    /// Refuses any further frame, without writing anything.
    pub fn mark_full(&mut self)
        ensures
            final(self).data@ == old(self).data@,
            final(self).limit == old(self).limit,
            final(self).full,
    {
        self.full = true;
    }

    /// Appends the encoding of a variable-length integer.
    pub fn encode_varint(&mut self, v: u64)
        requires
            old(self).wf(),
            v <= VARINT_MAX,
            spec_varint_len(v) <= old(self).spec_remaining(),
        ensures
            final(self).wf(),
            final(self).data@ == old(self).data@ + spec_varint(v),
            final(self).limit == old(self).limit,
            final(self).full == old(self).full,
    {
        write_varint(&mut self.data, v);
    }

    /// Appends raw bytes.
    pub fn encode(&mut self, bytes: &[u8])
        requires
            old(self).wf(),
            bytes@.len() <= old(self).spec_remaining(),
        ensures
            final(self).wf(),
            final(self).data@ == old(self).data@ + bytes@,
            final(self).limit == old(self).limit,
            final(self).full == old(self).full,
    {
        let ghost prefix = self.data@;
        let mut i: usize = 0;
        while i < bytes.len()
            invariant
                i <= bytes@.len(),
                self.data@ == prefix + bytes@.subrange(0, i as int),
                self.limit == old(self).limit,
                self.full == old(self).full,
                prefix.len() + bytes@.len() <= self.limit <= 10_000_000,
            decreases bytes@.len() - i,
        {
            self.data.push(bytes[i]);
            i = i + 1;
            assert(self.data@ =~= prefix + bytes@.subrange(0, i as int));
        }
        assert(self.data@ =~= prefix + bytes@);
    }

    /// Appends a length-prefixed byte block: a variable-length integer with
    /// the length, then the bytes.
    pub fn encode_vvec(&mut self, bytes: &[u8])
        requires
            old(self).wf(),
            bytes@.len() <= VARINT_MAX,
            spec_varint_len(bytes@.len() as u64) + bytes@.len() <= old(self).spec_remaining(),
        ensures
            final(self).wf(),
            final(self).data@ == old(self).data@ + spec_varint(bytes@.len() as u64) + bytes@,
            final(self).limit == old(self).limit,
            final(self).full == old(self).full,
    {
        self.encode_varint(bytes.len() as u64);
        self.encode(bytes);
    }

    /// Fills the rest of the budget with padding bytes (zeros).  Returns true
    /// when at least one padding byte was written.
    pub fn pad(&mut self) -> (r: bool)
        requires
            old(self).wf(),
        ensures
            final(self).wf(),
            final(self).limit == old(self).limit,
            final(self).data@.len() == if old(self).full {
                old(self).data@.len() as int
            } else {
                old(self).limit as int
            },
            r == (old(self).spec_remaining() > 0),
            final(self).data@.subrange(0, old(self).data@.len() as int) == old(self).data@,
    {
        let goal = if self.full {
            self.data.len()
        } else {
            self.limit
        };
        let r = self.data.len() < goal;
        let ghost prefix = self.data@;
        while self.data.len() < goal
            invariant
                prefix.len() <= self.data@.len() <= goal <= self.limit <= 10_000_000,
                self.limit == old(self).limit,
                self.full == old(self).full,
                self.data@.subrange(0, prefix.len() as int) == prefix,
            decreases goal - self.data@.len(),
        {
            let ghost before = self.data@;
            self.data.push(0);
            assert(self.data@.subrange(0, prefix.len() as int) =~= before.subrange(
                0,
                prefix.len() as int,
            ));
        }
        r
    }

    /// Takes the finished packet bytes.
    pub fn build(self) -> (r: Vec<u8>)
        ensures
            r@ == self.data@,
    {
        self.data
    }
}


/// The wire version this engine speaks.
pub const WIRE_VERSION: u32 = 1;

/// One decoded packet of a datagram.
#[derive(Debug)]
pub struct DecodedPacket {
    pub pt: PacketType,
    pub dcid: Vec<u8>,
    pub scid: Vec<u8>,
    /// The packet number as carried, truncated to 32 bits.
    pub pn_truncated: u64,
    pub payload: Vec<u8>,
}

/// Expands a 32-bit truncated packet number against the largest received,
/// choosing the candidate closest to one past it.
pub open spec fn spec_expand_pn(largest: Option<u64>, truncated: u64) -> u64 {
    let expected = match largest {
        Option::Some(l) => l + 1,
        Option::None => 0,
    };
    let win = 0x1_0000_0000int;
    let hwin = 0x8000_0000int;
    let candidate = (expected - expected % win) + truncated;
    if candidate + hwin <= expected && candidate + win < 0x4000_0000_0000_0000 {
        (candidate + win) as u64
    } else if candidate > expected + hwin && candidate >= win {
        (candidate - win) as u64
    } else {
        candidate as u64
    }
}

pub fn expand_pn(largest: Option<u64>, truncated: u64) -> (r: u64)
    requires
        truncated < 0x1_0000_0000,
        match largest {
            Option::Some(l) => l < 0x4000_0000_0000_0000,
            Option::None => true,
        },
    ensures
        r == spec_expand_pn(largest, truncated),
{
    let expected: u64 = match largest {
        Option::Some(l) => l + 1,
        Option::None => 0,
    };
    let win: u64 = 0x1_0000_0000;
    let hwin: u64 = 0x8000_0000;
    let candidate: u64 = (expected - expected % win) + truncated;
    if candidate + hwin <= expected && candidate + win < 0x4000_0000_0000_0000 {
        candidate + win
    } else if candidate > expected.saturating_add(hwin) && candidate >= win {
        candidate - win
    } else {
        proof {
            assert(expected + hwin <= u64::MAX);
        }
        candidate
    }
}

/// Encodes the header of a packet; for long headers the payload length must
/// already be known.
pub fn encode_packet(
    pt: PacketType,
    dcid: &Vec<u8>,
    scid: &Vec<u8>,
    pn: u64,
    payload: &Vec<u8>,
) -> (r: Vec<u8>)
    requires
        dcid@.len() <= 20,
        scid@.len() <= 20,
        payload@.len() <= 100_000,
    ensures
        r@.len() >= payload@.len() + 5,
        r@.len() <= payload@.len() + 59,
{
    let mut out: Vec<u8> = Vec::new();
    match pt {
        PacketType::Initial => {
            out.push(0xc0);
        },
        PacketType::Handshake => {
            out.push(0xe0);
        },
        PacketType::Short => {
            out.push(0x40);
        },
    }
    if pt != PacketType::Short {
        out.push(0);
        out.push(0);
        out.push(0);
        out.push(WIRE_VERSION as u8);
        out.push(dcid.len() as u8);
        let mut i: usize = 0;
        while i < dcid.len()
            invariant
                i <= dcid@.len() <= 20,
                out@.len() <= 6 + i,
                out@.len() >= 6 + i,
            decreases dcid@.len() - i,
        {
            out.push(dcid[i]);
            i = i + 1;
        }
        out.push(scid.len() as u8);
        let mut j: usize = 0;
        while j < scid.len()
            invariant
                j <= scid@.len() <= 20,
                dcid@.len() <= 20,
                out@.len() <= 27 + j,
                out@.len() >= 7 + j,
            decreases scid@.len() - j,
        {
            out.push(scid[j]);
            j = j + 1;
        }
        // Payload length, including the packet number bytes.
        if payload.len() + 4 <= crate::varint::VARINT_MAX as usize {
            crate::varint::write_varint(&mut out, (payload.len() + 4) as u64);
        }
    } else {
        // A short header carries the connection ID bare; its first byte
        // gives its length, or there is none at all.
        let mut i: usize = 0;
        while i < dcid.len()
            invariant
                i <= dcid@.len() <= 20,
                out@.len() <= 1 + i,
                out@.len() >= 1 + i,
            decreases dcid@.len() - i,
        {
            out.push(dcid[i]);
            i = i + 1;
        }
    }
    let t = pn & 0xffff_ffff;
    out.push((t >> 24) as u8);
    out.push(((t >> 16) & 0xff) as u8);
    out.push(((t >> 8) & 0xff) as u8);
    out.push((t & 0xff) as u8);
    let mut k: usize = 0;
    proof {
        assert(out@.len() <= 59);
        assert(out@.len() >= 5);
    }
    while k < payload.len()
        invariant
            k <= payload@.len() <= 100_000,
            out@.len() <= 59 + k,
            out@.len() >= 5 + k,
        decreases payload@.len() - k,
    {
        out.push(payload[k]);
        k = k + 1;
    }
    out
}

/// Splits a datagram into its packets and reads each one's header.  A short
/// header ends the datagram; long headers may be followed by more packets.
/// Returns nothing the engine can use for bytes it does not understand.
pub fn decode_packets(b: &[u8]) -> (r: Vec<DecodedPacket>)
    requires
        b@.len() <= 100_000,
{
    let mut out: Vec<DecodedPacket> = Vec::new();
    let mut pos: usize = 0;
    while pos < b.len()
        invariant
            pos <= b@.len() <= 100_000,
        decreases b@.len() - pos,
    {
        let b0 = b[pos];
        if b0 & 0x80 != 0 {
            // Long header.
            let pt = if b0 & 0x20 == 0 {
                PacketType::Initial
            } else {
                PacketType::Handshake
            };
            if b.len() - pos < 6 {
                return out;
            }
            let mut q = pos + 5;
            let dlen = b[q] as usize;
            if dlen > 20 || b.len() - q - 1 < dlen {
                return out;
            }
            let dcid = crate::frame::copy_range(b, q + 1, q + 1 + dlen);
            q = q + 1 + dlen;
            if q >= b.len() {
                return out;
            }
            let slen = b[q] as usize;
            if slen > 20 || b.len() - q - 1 < slen {
                return out;
            }
            let scid = crate::frame::copy_range(b, q + 1, q + 1 + slen);
            q = q + 1 + slen;
            let (plen, q2) = match crate::varint::read_varint(b, q) {
                Option::Some(v) => v,
                Option::None => {
                    return out;
                },
            };
            if plen < 4 || plen > 100_000 || plen as usize > b.len() - q2 {
                return out;
            }
            let pn_truncated = crate::frame::read_u64_be32(b, q2);
            let payload = crate::frame::copy_range(b, q2 + 4, q2 + plen as usize);
            out.push(DecodedPacket { pt, dcid, scid, pn_truncated, payload });
            pos = q2 + plen as usize;
        } else {
            // Short header: connection ID (self-describing or none), then
            // the packet number and frames to the end.
            let mut q = pos + 1;
            let mut dcid: Vec<u8> = Vec::new();
            if q < b.len() {
                let first = b[q] as usize;
                if 1 <= first && first <= 20 && first <= b.len() - q {
                    dcid = crate::frame::copy_range(b, q, q + first);
                    q = q + first;
                }
            }
            if b.len() - q < 4 {
                return out;
            }
            let pn_truncated = crate::frame::read_u64_be32(b, q);
            let payload = crate::frame::copy_range(b, q + 4, b.len());
            out.push(
                DecodedPacket { pt: PacketType::Short, dcid, scid: Vec::new(), pn_truncated, payload },
            );
            return out;
        }
    }
    out
}

} // verus!
