//! The wire protocol's variable-length integers: a two-bit length prefix
//! followed by 6, 14, 30 or 62 bits of value, most significant byte first.

use vstd::prelude::*;

verus! {

/// The largest value a variable-length integer can carry.
pub const VARINT_MAX: u64 = 0x3fff_ffff_ffff_ffff;

/// How many bytes the canonical (shortest) encoding of `v` takes.
pub open spec fn spec_varint_len(v: u64) -> nat {
    if v < 0x40 {
        1
    } else if v < 0x4000 {
        2
    } else if v < 0x4000_0000 {
        4
    } else {
        8
    }
}

/// The canonical encoding of `v`, for `v <= VARINT_MAX`.
#[verifier::opaque]
pub open spec fn spec_varint(v: u64) -> Seq<u8> {
    if v < 0x40 {
        seq![v as u8]
    } else if v < 0x4000 {
        seq![(0x40 | (v >> 8)) as u8, (v & 0xff) as u8]
    } else if v < 0x4000_0000 {
        seq![
            (0x80 | (v >> 24)) as u8,
            ((v >> 16) & 0xff) as u8,
            ((v >> 8) & 0xff) as u8,
            (v & 0xff) as u8,
        ]
    } else {
        seq![
            (0xc0 | (v >> 56)) as u8,
            ((v >> 48) & 0xff) as u8,
            ((v >> 40) & 0xff) as u8,
            ((v >> 32) & 0xff) as u8,
            ((v >> 24) & 0xff) as u8,
            ((v >> 16) & 0xff) as u8,
            ((v >> 8) & 0xff) as u8,
            (v & 0xff) as u8,
        ]
    }
}

/// What reading a variable-length integer at `pos` of `b` yields: the value
/// and the position just after it, or nothing when the bytes run out.
pub open spec fn spec_read_varint(b: Seq<u8>, pos: nat) -> Option<(u64, nat)> {
    if pos >= b.len() {
        None
    } else {
        let tag = b[pos as int] >> 6;
        let first = (b[pos as int] & 0x3f) as u64;
        if tag == 0 {
            Some((first, pos + 1))
        } else if tag == 1 {
            if pos + 2 <= b.len() {
                Some(((first << 8 | b[pos as int + 1] as u64) as u64, pos + 2))
            } else {
                None
            }
        } else if tag == 2 {
            if pos + 4 <= b.len() {
                Some((
                    (first << 24 | (b[pos as int + 1] as u64) << 16 | (b[pos as int
                        + 2] as u64) << 8 | (b[pos as int + 3] as u64)) as u64,
                    pos + 4,
                ))
            } else {
                None
            }
        } else {
            if pos + 8 <= b.len() {
                Some((
                    (first << 56 | (b[pos as int + 1] as u64) << 48 | (b[pos as int
                        + 2] as u64) << 40 | (b[pos as int + 3] as u64) << 32 | (b[pos as int
                        + 4] as u64) << 24 | (b[pos as int + 5] as u64) << 16 | (b[pos as int
                        + 6] as u64) << 8 | (b[pos as int + 7] as u64)) as u64,
                    pos + 8,
                ))
            } else {
                None
            }
        }
    }
}

/// Reading the canonical encoding gives back the value that was encoded,
/// wherever it stands in a larger buffer.
pub proof fn lemma_varint_round_trip(b: Seq<u8>, pos: nat, v: u64)
    requires
        v <= VARINT_MAX,
        pos + spec_varint_len(v) <= b.len(),
        b.subrange(pos as int, pos + spec_varint_len(v) as int) == spec_varint(v),
    ensures
        spec_read_varint(b, pos) == Some((v, (pos + spec_varint_len(v)) as nat)),
{
    reveal(spec_varint);
    let e = spec_varint(v);
    assert(e.len() == spec_varint_len(v));
    let sub = b.subrange(pos as int, pos + spec_varint_len(v) as int);
    assert forall|i: int| 0 <= i < e.len() implies b[pos + i] == e[i] by {
        assert(sub[i] == b[pos + i]);
    }
    if v < 0x40 {
        assert(b[pos + 0int] == e[0]);
        assert(b[pos as int] == (v as u8));
        assert((v as u8) >> 6 == 0 && ((v as u8) & 0x3f) as u64 == v) by (bit_vector)
            requires
                v < 0x40,
        ;
    } else if v < 0x4000 {
        let b0 = (0x40 | (v >> 8)) as u8;
        let b1 = (v & 0xff) as u8;
        assert(b[pos + 0int] == e[0] && b[pos + 1int] == e[1]);
        assert(b[pos as int] == b0 && b[pos as int + 1] == b1);
        assert(b0 >> 6 == 1 && ((b0 & 0x3f) as u64) << 8 | (b1 as u64) == v) by (bit_vector)
            requires
                0x40 <= v < 0x4000,
                b0 == (0x40 | (v >> 8)) as u8,
                b1 == (v & 0xff) as u8,
        ;
    } else if v < 0x4000_0000 {
        let b0 = (0x80 | (v >> 24)) as u8;
        let b1 = ((v >> 16) & 0xff) as u8;
        let b2 = ((v >> 8) & 0xff) as u8;
        let b3 = (v & 0xff) as u8;
        assert(b[pos + 0int] == e[0] && b[pos + 1int] == e[1] && b[pos + 2int] == e[2] && b[pos + 3int]
            == e[3]);
        assert(b[pos as int] == b0 && b[pos as int + 1] == b1 && b[pos as int + 2] == b2 && b[pos as int + 3] == b3);
        assert(b0 >> 6 == 2 && ((b0 & 0x3f) as u64) << 24 | (b1 as u64) << 16 | (b2 as u64) << 8
            | (b3 as u64) == v) by (bit_vector)
            requires
                0x4000 <= v < 0x4000_0000,
                b0 == (0x80 | (v >> 24)) as u8,
                b1 == ((v >> 16) & 0xff) as u8,
                b2 == ((v >> 8) & 0xff) as u8,
                b3 == (v & 0xff) as u8,
        ;
    } else {
        let b0 = (0xc0 | (v >> 56)) as u8;
        let b1 = ((v >> 48) & 0xff) as u8;
        let b2 = ((v >> 40) & 0xff) as u8;
        let b3 = ((v >> 32) & 0xff) as u8;
        let b4 = ((v >> 24) & 0xff) as u8;
        let b5 = ((v >> 16) & 0xff) as u8;
        let b6 = ((v >> 8) & 0xff) as u8;
        let b7 = (v & 0xff) as u8;
        assert(b[pos + 0int] == e[0] && b[pos + 1int] == e[1] && b[pos + 2int] == e[2] && b[pos + 3int]
            == e[3] && b[pos + 4int] == e[4] && b[pos + 5int] == e[5] && b[pos + 6int] == e[6] && b[pos
            + 7int] == e[7]);
        assert(b[pos as int] == b0 && b[pos as int + 1] == b1 && b[pos as int + 2] == b2 && b[pos as int + 3] == b3
            && b[pos as int + 4] == b4 && b[pos as int + 5] == b5 && b[pos as int + 6] == b6 && b[pos as int + 7] == b7);
        assert(b0 >> 6 == 3 && ((b0 & 0x3f) as u64) << 56 | (b1 as u64) << 48 | (b2 as u64) << 40
            | (b3 as u64) << 32 | (b4 as u64) << 24 | (b5 as u64) << 16 | (b6 as u64) << 8 | (
        b7 as u64) == v) by (bit_vector)
            requires
                0x4000_0000 <= v <= 0x3fff_ffff_ffff_ffff,
                b0 == (0xc0 | (v >> 56)) as u8,
                b1 == ((v >> 48) & 0xff) as u8,
                b2 == ((v >> 40) & 0xff) as u8,
                b3 == ((v >> 32) & 0xff) as u8,
                b4 == ((v >> 24) & 0xff) as u8,
                b5 == ((v >> 16) & 0xff) as u8,
                b6 == ((v >> 8) & 0xff) as u8,
                b7 == (v & 0xff) as u8,
        ;
    }
}

/// The encoding's length is as `spec_varint_len` says.
pub broadcast proof fn lemma_varint_len(v: u64)
    ensures
        #[trigger] spec_varint(v).len() == spec_varint_len(v),
{
    reveal(spec_varint);
}

/// How many bytes the canonical encoding of `v` takes.
pub fn varint_len(v: u64) -> (r: usize)
    ensures
        r == spec_varint_len(v),
{
    if v < 0x40 {
        1
    } else if v < 0x4000 {
        2
    } else if v < 0x4000_0000 {
        4
    } else {
        8
    }
}

/// Appends the canonical encoding of `v` to `out`.
pub fn write_varint(out: &mut Vec<u8>, v: u64)
    requires
        v <= VARINT_MAX,
        old(out)@.len() + 8 <= usize::MAX,
    ensures
        final(out)@ == old(out)@ + spec_varint(v),
{
    proof {
        reveal(spec_varint);
    }
    let ghost prefix = out@;
    if v < 0x40 {
        out.push(v as u8);
        assert(out@ =~= prefix + spec_varint(v));
    } else if v < 0x4000 {
        out.push((0x40 | (v >> 8)) as u8);
        out.push((v & 0xff) as u8);
        assert(out@ =~= prefix + spec_varint(v));
    } else if v < 0x4000_0000 {
        out.push((0x80 | (v >> 24)) as u8);
        out.push(((v >> 16) & 0xff) as u8);
        out.push(((v >> 8) & 0xff) as u8);
        out.push((v & 0xff) as u8);
        assert(out@ =~= prefix + spec_varint(v));
    } else {
        out.push((0xc0 | (v >> 56)) as u8);
        out.push(((v >> 48) & 0xff) as u8);
        out.push(((v >> 40) & 0xff) as u8);
        out.push(((v >> 32) & 0xff) as u8);
        out.push(((v >> 24) & 0xff) as u8);
        out.push(((v >> 16) & 0xff) as u8);
        out.push(((v >> 8) & 0xff) as u8);
        out.push((v & 0xff) as u8);
        assert(out@ =~= prefix + spec_varint(v));
    }
}

/// Reads a variable-length integer at `pos`, returning the value and the
/// position just after it.
pub fn read_varint(b: &[u8], pos: usize) -> (r: Option<(u64, usize)>)
    ensures
        match spec_read_varint(b@, pos as nat) {
            Some(p) => r matches Some(q) && q.0 == p.0 && q.1 == p.1,
            None => r is None,
        },
{
    if pos >= b.len() {
        return None;
    }
    let b0 = b[pos];
    let tag = b0 >> 6;
    let first = (b0 & 0x3f) as u64;
    if tag == 0 {
        Some((first, pos + 1))
    } else if tag == 1 {
        if b.len() - pos >= 2 {
            Some((first << 8 | b[pos + 1] as u64, pos + 2))
        } else {
            None
        }
    } else if tag == 2 {
        if b.len() - pos >= 4 {
            Some((
                first << 24 | (b[pos + 1] as u64) << 16 | (b[pos + 2] as u64) << 8 | (b[pos
                    + 3] as u64),
                pos + 4,
            ))
        } else {
            None
        }
    } else {
        if b.len() - pos >= 8 {
            Some((
                first << 56 | (b[pos + 1] as u64) << 48 | (b[pos + 2] as u64) << 40 | (b[pos
                    + 3] as u64) << 32 | (b[pos + 4] as u64) << 24 | (b[pos + 5] as u64) << 16 | (
                b[pos + 6] as u64) << 8 | (b[pos + 7] as u64),
                pos + 8,
            ))
        } else {
            None
        }
    }
}

} // verus!
