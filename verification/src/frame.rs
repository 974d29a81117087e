//! The frame codec: every frame the engine sends or receives, its encoding
//! into packet bytes, and its decoding.  Encoding and decoding are specified
//! against each other, so a round trip is provable.

use vstd::prelude::*;

use crate::packet::Builder;
use crate::varint::lemma_varint_len;
use crate::varint::{
    read_varint, spec_read_varint, spec_varint, spec_varint_len, varint_len, write_varint,
    VARINT_MAX,
};

verus! {

pub const FRAME_TYPE_PADDING: u64 = 0x00;

pub const FRAME_TYPE_PING: u64 = 0x01;

pub const FRAME_TYPE_ACK_ECN: u64 = 0x03;

pub const FRAME_TYPE_CRYPTO: u64 = 0x06;

pub const FRAME_TYPE_STREAM: u64 = 0x0e;

pub const FRAME_TYPE_STREAM_FIN: u64 = 0x0f;

pub const FRAME_TYPE_MAX_DATA: u64 = 0x10;

pub const FRAME_TYPE_MAX_STREAM_DATA: u64 = 0x11;

pub const FRAME_TYPE_NEW_CONNECTION_ID: u64 = 0x18;

pub const FRAME_TYPE_RETIRE_CONNECTION_ID: u64 = 0x19;

pub const FRAME_TYPE_PATH_CHALLENGE: u64 = 0x1a;

pub const FRAME_TYPE_PATH_RESPONSE: u64 = 0x1b;

pub const FRAME_TYPE_CONNECTION_CLOSE_TRANSPORT: u64 = 0x1c;

pub const FRAME_TYPE_CONNECTION_CLOSE_APP: u64 = 0x1d;

pub const FRAME_TYPE_HANDSHAKE_DONE: u64 = 0x1e;

pub const FRAME_TYPE_DATAGRAM: u64 = 0x30;

pub const FRAME_TYPE_DATAGRAM_WITH_LEN: u64 = 0x31;

/// Every frame the engine understands.  The stream frame always carries an
/// offset and a length on the wire; the acknowledgement frame always carries
/// one contiguous range and the three ECN counts.
#[derive(Debug, Clone)]
pub enum Frame {
    /// A run of padding bytes.
    Padding { len: u32 },
    Ping,
    Ack { largest: u64, delay: u64, first_range: u64, ect0: u64, ect1: u64, ce: u64 },
    Crypto { offset: u64, data: Vec<u8> },
    Stream { stream_id: u64, offset: u64, data: Vec<u8>, fin: bool },
    MaxData { limit: u64 },
    MaxStreamData { stream_id: u64, limit: u64 },
    NewConnectionId { seqno: u64, retire_prior: u64, cid: Vec<u8> },
    RetireConnectionId { seqno: u64 },
    PathChallenge { data: u64 },
    PathResponse { data: u64 },
    ConnectionClose { app: bool, error_code: u64, frame_type: u64, reason_len: u64 },
    HandshakeDone,
    Datagram { data: Vec<u8>, with_len: bool },
}

/// The mathematical image of a frame: the same cases with the payloads as
/// byte sequences.
pub enum FrameView {
    Padding { len: nat },
    Ping,
    Ack { largest: u64, delay: u64, first_range: u64, ect0: u64, ect1: u64, ce: u64 },
    Crypto { offset: u64, data: Seq<u8> },
    Stream { stream_id: u64, offset: u64, data: Seq<u8>, fin: bool },
    MaxData { limit: u64 },
    MaxStreamData { stream_id: u64, limit: u64 },
    NewConnectionId { seqno: u64, retire_prior: u64, cid: Seq<u8> },
    RetireConnectionId { seqno: u64 },
    PathChallenge { data: u64 },
    PathResponse { data: u64 },
    ConnectionClose { app: bool, error_code: u64, frame_type: u64 },
    HandshakeDone,
    Datagram { data: Seq<u8>, with_len: bool },
}

impl View for Frame {
    type V = FrameView;

    open spec fn view(&self) -> FrameView {
        match self {
            Frame::Padding { len } => FrameView::Padding { len: *len as nat },
            Frame::Ping => FrameView::Ping,
            Frame::Ack { largest, delay, first_range, ect0, ect1, ce } => (FrameView::Ack {
                largest: *largest,
                delay: *delay,
                first_range: *first_range,
                ect0: *ect0,
                ect1: *ect1,
                ce: *ce,
            }),
            Frame::Crypto { offset, data } => (FrameView::Crypto {
                offset: *offset,
                data: data@,
            }),
            Frame::Stream { stream_id, offset, data, fin } => (FrameView::Stream {
                stream_id: *stream_id,
                offset: *offset,
                data: data@,
                fin: *fin,
            }),
            Frame::MaxData { limit } => FrameView::MaxData { limit: *limit },
            Frame::MaxStreamData { stream_id, limit } => (FrameView::MaxStreamData {
                stream_id: *stream_id,
                limit: *limit,
            }),
            Frame::NewConnectionId { seqno, retire_prior, cid } => (FrameView::NewConnectionId {
                seqno: *seqno,
                retire_prior: *retire_prior,
                cid: cid@,
            }),
            Frame::RetireConnectionId { seqno } => (FrameView::RetireConnectionId {
                seqno: *seqno,
            }),
            Frame::PathChallenge { data } => FrameView::PathChallenge { data: *data },
            Frame::PathResponse { data } => FrameView::PathResponse { data: *data },
            Frame::ConnectionClose { app, error_code, frame_type, .. } => (
            FrameView::ConnectionClose {
                app: *app,
                error_code: *error_code,
                frame_type: *frame_type,
            }),
            Frame::HandshakeDone => FrameView::HandshakeDone,
            Frame::Datagram { data, with_len } => (FrameView::Datagram {
                data: data@,
                with_len: *with_len,
            }),
        }
    }
}

/// The eight bytes of `v`, most significant first.
pub open spec fn spec_u64_be(v: u64) -> Seq<u8> {
    seq![
        (v >> 56) as u8,
        ((v >> 48) & 0xff) as u8,
        ((v >> 40) & 0xff) as u8,
        ((v >> 32) & 0xff) as u8,
        ((v >> 24) & 0xff) as u8,
        ((v >> 16) & 0xff) as u8,
        ((v >> 8) & 0xff) as u8,
        (v & 0xff) as u8,
    ]
}

/// Reads eight bytes at `pos` as a big-endian integer.
pub open spec fn spec_read_u64_be(b: Seq<u8>, pos: nat) -> u64 {
    ((b[pos as int] as u64) << 56 | (b[pos as int + 1] as u64) << 48 | (b[pos as int
        + 2] as u64) << 40 | (b[pos as int + 3] as u64) << 32 | (b[pos as int + 4] as u64) << 24 | (
    b[pos as int + 5] as u64) << 16 | (b[pos as int + 6] as u64) << 8 | (b[pos as int
        + 7] as u64)) as u64
}

/// Whether a frame's fields fit their wire encodings.
pub open spec fn frame_wf(f: FrameView) -> bool {
    match f {
        FrameView::Padding { len } => 1 <= len <= 100_000,
        FrameView::Ping => true,
        FrameView::Ack { largest, delay, first_range, ect0, ect1, ce } => largest <= VARINT_MAX
            && delay <= VARINT_MAX && first_range <= largest && ect0 <= VARINT_MAX && ect1
            <= VARINT_MAX && ce <= VARINT_MAX,
        FrameView::Crypto { offset, data } => offset <= VARINT_MAX && data.len() <= 100_000,
        FrameView::Stream { stream_id, offset, data, .. } => stream_id <= VARINT_MAX && offset
            <= VARINT_MAX && data.len() <= 100_000,
        FrameView::MaxData { limit } => limit <= VARINT_MAX,
        FrameView::MaxStreamData { stream_id, limit } => stream_id <= VARINT_MAX && limit
            <= VARINT_MAX,
        FrameView::NewConnectionId { seqno, retire_prior, cid } => seqno <= VARINT_MAX
            && retire_prior <= seqno && 1 <= cid.len() <= 20,
        FrameView::RetireConnectionId { seqno } => seqno <= VARINT_MAX,
        FrameView::PathChallenge { .. } => true,
        FrameView::PathResponse { .. } => true,
        FrameView::ConnectionClose { error_code, frame_type, .. } => error_code <= VARINT_MAX
            && frame_type <= VARINT_MAX,
        FrameView::HandshakeDone => true,
        FrameView::Datagram { data, .. } => data.len() <= 65535,
    }
}

/// The wire bytes of a frame.
pub open spec fn spec_frame_bytes(f: FrameView) -> Seq<u8> {
    match f {
        FrameView::Padding { len } => Seq::new(len, |i: int| 0u8),
        FrameView::Ping => spec_varint(FRAME_TYPE_PING),
        FrameView::Ack { largest, delay, first_range, ect0, ect1, ce } => spec_varint(
            FRAME_TYPE_ACK_ECN,
        ) + spec_varint(largest) + spec_varint(delay) + spec_varint(0) + spec_varint(first_range)
            + spec_varint(ect0) + spec_varint(ect1) + spec_varint(ce),
        FrameView::Crypto { offset, data } => spec_varint(FRAME_TYPE_CRYPTO) + spec_varint(offset)
            + spec_varint(data.len() as u64) + data,
        FrameView::Stream { stream_id, offset, data, fin } => spec_varint(
            if fin {
                FRAME_TYPE_STREAM_FIN
            } else {
                FRAME_TYPE_STREAM
            },
        ) + spec_varint(stream_id) + spec_varint(offset) + spec_varint(data.len() as u64) + data,
        FrameView::MaxData { limit } => spec_varint(FRAME_TYPE_MAX_DATA) + spec_varint(limit),
        FrameView::MaxStreamData { stream_id, limit } => spec_varint(FRAME_TYPE_MAX_STREAM_DATA)
            + spec_varint(stream_id) + spec_varint(limit),
        FrameView::NewConnectionId { seqno, retire_prior, cid } => spec_varint(
            FRAME_TYPE_NEW_CONNECTION_ID,
        ) + spec_varint(seqno) + spec_varint(retire_prior) + seq![cid.len() as u8] + cid,
        FrameView::RetireConnectionId { seqno } => spec_varint(FRAME_TYPE_RETIRE_CONNECTION_ID)
            + spec_varint(seqno),
        FrameView::PathChallenge { data } => spec_varint(FRAME_TYPE_PATH_CHALLENGE) + spec_u64_be(
            data,
        ),
        FrameView::PathResponse { data } => spec_varint(FRAME_TYPE_PATH_RESPONSE) + spec_u64_be(
            data,
        ),
        FrameView::ConnectionClose { app, error_code, frame_type } => spec_varint(
            if app {
                FRAME_TYPE_CONNECTION_CLOSE_APP
            } else {
                FRAME_TYPE_CONNECTION_CLOSE_TRANSPORT
            },
        ) + spec_varint(error_code) + (if app {
            Seq::<u8>::empty()
        } else {
            spec_varint(frame_type)
        }) + spec_varint(0),
        FrameView::HandshakeDone => spec_varint(FRAME_TYPE_HANDSHAKE_DONE),
        FrameView::Datagram { data, with_len } => if with_len {
            spec_varint(FRAME_TYPE_DATAGRAM_WITH_LEN) + spec_varint(data.len() as u64) + data
        } else {
            spec_varint(FRAME_TYPE_DATAGRAM) + data
        },
    }
}

broadcast use lemma_varint_len;

/// How many bytes the frame takes on the wire.
pub fn frame_len(f: &Frame) -> (r: usize)
    requires
        frame_wf(f@),
    ensures
        r == spec_frame_bytes(f@).len(),
{
    match f {
        Frame::Padding { len } => *len as usize,
        Frame::Ping => 1,
        Frame::Ack { largest, delay, first_range, ect0, ect1, ce } => 1 + varint_len(*largest)
            + varint_len(*delay) + 1 + varint_len(*first_range) + varint_len(*ect0) + varint_len(
            *ect1,
        ) + varint_len(*ce),
        Frame::Crypto { offset, data } => 1 + varint_len(*offset) + varint_len(data.len() as u64)
            + data.len(),
        Frame::Stream { stream_id, offset, data, .. } => 1 + varint_len(*stream_id) + varint_len(
            *offset,
        ) + varint_len(data.len() as u64) + data.len(),
        Frame::MaxData { limit } => 1 + varint_len(*limit),
        Frame::MaxStreamData { stream_id, limit } => 1 + varint_len(*stream_id) + varint_len(
            *limit,
        ),
        Frame::NewConnectionId { seqno, retire_prior, cid } => 1 + varint_len(*seqno) + varint_len(
            *retire_prior,
        ) + 1 + cid.len(),
        Frame::RetireConnectionId { seqno } => 1 + varint_len(*seqno),
        Frame::PathChallenge { .. } => 9,
        Frame::PathResponse { .. } => 9,
        Frame::ConnectionClose { app, error_code, frame_type, .. } => 1 + varint_len(*error_code)
            + (if *app {
            0
        } else {
            varint_len(*frame_type)
        }) + 1,
        Frame::HandshakeDone => 1,
        Frame::Datagram { data, with_len } => if *with_len {
            1 + varint_len(data.len() as u64) + data.len()
        } else {
            1 + data.len()
        },
    }
}

/// Appends the eight big-endian bytes of `v`.
fn write_u64_be(out: &mut Vec<u8>, v: u64)
    requires
        old(out)@.len() + 8 <= usize::MAX,
    ensures
        final(out)@ == old(out)@ + spec_u64_be(v),
{
    let ghost prefix = out@;
    out.push((v >> 56) as u8);
    out.push(((v >> 48) & 0xff) as u8);
    out.push(((v >> 40) & 0xff) as u8);
    out.push(((v >> 32) & 0xff) as u8);
    out.push(((v >> 24) & 0xff) as u8);
    out.push(((v >> 16) & 0xff) as u8);
    out.push(((v >> 8) & 0xff) as u8);
    out.push((v & 0xff) as u8);
    assert(out@ =~= prefix + spec_u64_be(v));
}

/// Copies `b[from..to]` into a fresh vector.
pub fn copy_range(b: &[u8], from: usize, to: usize) -> (r: Vec<u8>)
    requires
        from <= to <= b@.len(),
    ensures
        r@ == b@.subrange(from as int, to as int),
{
    let mut out: Vec<u8> = Vec::new();
    let mut i: usize = from;
    while i < to
        invariant
            from <= i <= to <= b@.len(),
            out@ == b@.subrange(from as int, i as int),
        decreases to - i,
    {
        out.push(b[i]);
        i = i + 1;
        assert(out@ =~= b@.subrange(from as int, i as int));
    }
    out
}

/// Writes one frame into the packet under construction.
#[verifier::rlimit(100)]
pub fn write_frame(builder: &mut Builder, f: &Frame)
    requires
        old(builder).wf(),
        frame_wf(f@),
        spec_frame_bytes(f@).len() <= old(builder).spec_remaining(),
    ensures
        final(builder).wf(),
        final(builder).data@ == old(builder).data@ + spec_frame_bytes(f@),
        final(builder).limit == old(builder).limit,
        final(builder).full == old(builder).full,
{
    let ghost prefix = builder.data@;
    match f {
        Frame::Padding { len } => {
            assert(!builder.full);
            let mut i: u32 = 0;
            while i < *len
                invariant
                    builder.wf(),
                    i <= *len,
                    builder.limit == old(builder).limit,
                    !builder.full,
                    builder.data@ == prefix + Seq::new(i as nat, |j: int| 0u8),
                    prefix.len() + *len <= builder.limit,
                decreases *len - i,
            {
                builder.encode_varint(FRAME_TYPE_PADDING);
                i = i + 1;
                assert(builder.data@ =~= prefix + Seq::new(i as nat, |j: int| 0u8)) by {
                    reveal(crate::varint::spec_varint);
                }
            }
            assert(old(builder).full == builder.full);
            assert(builder.data@ =~= prefix + spec_frame_bytes(f@));
        },
        Frame::Ping => {
            builder.encode_varint(FRAME_TYPE_PING);
            assert(builder.data@ =~= prefix + spec_frame_bytes(f@));
        },
        Frame::Ack { largest, delay, first_range, ect0, ect1, ce } => {
            builder.encode_varint(FRAME_TYPE_ACK_ECN);
            builder.encode_varint(*largest);
            builder.encode_varint(*delay);
            builder.encode_varint(0);
            builder.encode_varint(*first_range);
            builder.encode_varint(*ect0);
            builder.encode_varint(*ect1);
            builder.encode_varint(*ce);
            assert(builder.data@ =~= prefix + spec_frame_bytes(f@));
        },
        Frame::Crypto { offset, data } => {
            builder.encode_varint(FRAME_TYPE_CRYPTO);
            builder.encode_varint(*offset);
            builder.encode_varint(data.len() as u64);
            builder.encode(data.as_slice());
            assert(builder.data@ =~= prefix + spec_frame_bytes(f@));
        },
        Frame::Stream { stream_id, offset, data, fin } => {
            builder.encode_varint(
                if *fin {
                    FRAME_TYPE_STREAM_FIN
                } else {
                    FRAME_TYPE_STREAM
                },
            );
            builder.encode_varint(*stream_id);
            builder.encode_varint(*offset);
            builder.encode_varint(data.len() as u64);
            builder.encode(data.as_slice());
            assert(builder.data@ =~= prefix + spec_frame_bytes(f@));
        },
        Frame::MaxData { limit } => {
            builder.encode_varint(FRAME_TYPE_MAX_DATA);
            builder.encode_varint(*limit);
            assert(builder.data@ =~= prefix + spec_frame_bytes(f@));
        },
        Frame::MaxStreamData { stream_id, limit } => {
            builder.encode_varint(FRAME_TYPE_MAX_STREAM_DATA);
            builder.encode_varint(*stream_id);
            builder.encode_varint(*limit);
            assert(builder.data@ =~= prefix + spec_frame_bytes(f@));
        },
        Frame::NewConnectionId { seqno, retire_prior, cid } => {
            builder.encode_varint(FRAME_TYPE_NEW_CONNECTION_ID);
            builder.encode_varint(*seqno);
            builder.encode_varint(*retire_prior);
            builder.encode_varint(cid.len() as u64);
            assert(spec_varint(cid@.len() as u64) =~= seq![cid@.len() as u8]) by {
                reveal(spec_varint);
            }
            builder.encode(cid.as_slice());
            assert(builder.data@ =~= prefix + spec_frame_bytes(f@));
        },
        Frame::RetireConnectionId { seqno } => {
            builder.encode_varint(FRAME_TYPE_RETIRE_CONNECTION_ID);
            builder.encode_varint(*seqno);
            assert(builder.data@ =~= prefix + spec_frame_bytes(f@));
        },
        Frame::PathChallenge { data } => {
            builder.encode_varint(FRAME_TYPE_PATH_CHALLENGE);
            let mut bytes: Vec<u8> = Vec::new();
            write_u64_be(&mut bytes, *data);
            builder.encode(bytes.as_slice());
            assert(builder.data@ =~= prefix + spec_frame_bytes(f@));
        },
        Frame::PathResponse { data } => {
            builder.encode_varint(FRAME_TYPE_PATH_RESPONSE);
            let mut bytes: Vec<u8> = Vec::new();
            write_u64_be(&mut bytes, *data);
            builder.encode(bytes.as_slice());
            assert(builder.data@ =~= prefix + spec_frame_bytes(f@));
        },
        Frame::ConnectionClose { app, error_code, frame_type, .. } => {
            builder.encode_varint(
                if *app {
                    FRAME_TYPE_CONNECTION_CLOSE_APP
                } else {
                    FRAME_TYPE_CONNECTION_CLOSE_TRANSPORT
                },
            );
            builder.encode_varint(*error_code);
            if !*app {
                builder.encode_varint(*frame_type);
            }
            builder.encode_varint(0);
            assert(builder.data@ =~= prefix + spec_frame_bytes(f@));
        },
        Frame::HandshakeDone => {
            builder.encode_varint(FRAME_TYPE_HANDSHAKE_DONE);
            assert(builder.data@ =~= prefix + spec_frame_bytes(f@));
        },
        Frame::Datagram { data, with_len } => {
            if *with_len {
                builder.encode_varint(FRAME_TYPE_DATAGRAM_WITH_LEN);
                builder.encode_varint(data.len() as u64);
                builder.encode(data.as_slice());
            } else {
                builder.encode_varint(FRAME_TYPE_DATAGRAM);
                builder.encode(data.as_slice());
            }
            assert(builder.data@ =~= prefix + spec_frame_bytes(f@));
        },
    }
}


/// The run of padding bytes at `pos`.
pub open spec fn spec_padding_run(b: Seq<u8>, pos: nat) -> nat
    decreases b.len() - pos,
{
    if pos >= b.len() || b[pos as int] != 0 {
        0
    } else {
        1 + spec_padding_run(b, pos + 1)
    }
}

/// What decoding one frame at `pos` yields: the frame's image and the
/// position after it, or nothing when the bytes are not a frame this engine
/// understands.
pub open spec fn spec_read_frame(b: Seq<u8>, pos: nat) -> Option<(FrameView, nat)> {
    match spec_read_varint(b, pos) {
        Option::None => Option::None,
        Option::Some((t, p)) => {
            if t == FRAME_TYPE_PADDING {
                let run = spec_padding_run(b, pos);
                if run <= u32::MAX {
                    Option::Some(((FrameView::Padding { len: run }), pos + run))
                } else {
                    Option::None
                }
            } else if t == FRAME_TYPE_PING {
                Option::Some((FrameView::Ping, p))
            } else if t == FRAME_TYPE_ACK_ECN {
                match spec_read_varint(b, p) {
                    Option::None => Option::None,
                    Option::Some((largest, p1)) => match spec_read_varint(b, p1) {
                        Option::None => Option::None,
                        Option::Some((delay, p2)) => match spec_read_varint(b, p2) {
                            Option::None => Option::None,
                            Option::Some((count, p3)) => if count != 0 {
                                Option::None
                            } else {
                                match spec_read_varint(b, p3) {
                                    Option::None => Option::None,
                                    Option::Some((first_range, p4)) => if first_range > largest {
                                        Option::None
                                    } else {
                                        match spec_read_varint(b, p4) {
                                            Option::None => Option::None,
                                            Option::Some((ect0, p5)) => match spec_read_varint(
                                                b,
                                                p5,
                                            ) {
                                                Option::None => Option::None,
                                                Option::Some((ect1, p6)) => match
                                                    spec_read_varint(b, p6) {
                                                    Option::None => Option::None,
                                                    Option::Some((ce, p7)) => Option::Some(
                                                        (
                                                            (FrameView::Ack {
                                                                largest,
                                                                delay,
                                                                first_range,
                                                                ect0,
                                                                ect1,
                                                                ce,
                                                            }),
                                                            p7,
                                                        ),
                                                    ),
                                                },
                                            },
                                        }
                                    },
                                }
                            },
                        },
                    },
                }
            } else if t == FRAME_TYPE_CRYPTO {
                match spec_read_varint(b, p) {
                    Option::None => Option::None,
                    Option::Some((offset, p1)) => match spec_read_varint(b, p1) {
                        Option::None => Option::None,
                        Option::Some((len, p2)) => if len <= 100_000 && p2 + len <= b.len() {
                            Option::Some(
                                (
                                    (FrameView::Crypto {
                                        offset,
                                        data: b.subrange(p2 as int, p2 + len),
                                    }),
                                    (p2 + len) as nat,
                                ),
                            )
                        } else {
                            Option::None
                        },
                    },
                }
            } else if t == FRAME_TYPE_STREAM || t == FRAME_TYPE_STREAM_FIN {
                match spec_read_varint(b, p) {
                    Option::None => Option::None,
                    Option::Some((stream_id, p1)) => match spec_read_varint(b, p1) {
                        Option::None => Option::None,
                        Option::Some((offset, p2)) => match spec_read_varint(b, p2) {
                            Option::None => Option::None,
                            Option::Some((len, p3)) => if len <= 100_000 && p3 + len <= b.len() {
                                Option::Some(
                                    (
                                        (FrameView::Stream {
                                            stream_id,
                                            offset,
                                            data: b.subrange(p3 as int, p3 + len),
                                            fin: t == FRAME_TYPE_STREAM_FIN,
                                        }),
                                        (p3 + len) as nat,
                                    ),
                                )
                            } else {
                                Option::None
                            },
                        },
                    },
                }
            } else if t == FRAME_TYPE_MAX_DATA {
                match spec_read_varint(b, p) {
                    Option::None => Option::None,
                    Option::Some((limit, p1)) => Option::Some(
                        ((FrameView::MaxData { limit }), p1),
                    ),
                }
            } else if t == FRAME_TYPE_MAX_STREAM_DATA {
                match spec_read_varint(b, p) {
                    Option::None => Option::None,
                    Option::Some((stream_id, p1)) => match spec_read_varint(b, p1) {
                        Option::None => Option::None,
                        Option::Some((limit, p2)) => Option::Some(
                            ((FrameView::MaxStreamData { stream_id, limit }), p2),
                        ),
                    },
                }
            } else if t == FRAME_TYPE_NEW_CONNECTION_ID {
                match spec_read_varint(b, p) {
                    Option::None => Option::None,
                    Option::Some((seqno, p1)) => match spec_read_varint(b, p1) {
                        Option::None => Option::None,
                        Option::Some((retire_prior, p2)) => if retire_prior <= seqno && p2
                            < b.len() {
                            let clen = b[p2 as int] as nat;
                            if 1 <= clen <= 20 && p2 + 1 + clen <= b.len() {
                                Option::Some(
                                    (
                                        (FrameView::NewConnectionId {
                                            seqno,
                                            retire_prior,
                                            cid: b.subrange(p2 as int + 1, p2 as int + 1 + clen as int),
                                        }),
                                        (p2 + 1 + clen) as nat,
                                    ),
                                )
                            } else {
                                Option::None
                            }
                        } else {
                            Option::None
                        },
                    },
                }
            } else if t == FRAME_TYPE_RETIRE_CONNECTION_ID {
                match spec_read_varint(b, p) {
                    Option::None => Option::None,
                    Option::Some((seqno, p1)) => Option::Some(
                        ((FrameView::RetireConnectionId { seqno }), p1),
                    ),
                }
            } else if t == FRAME_TYPE_PATH_CHALLENGE || t == FRAME_TYPE_PATH_RESPONSE {
                if p + 8 <= b.len() {
                    let data = spec_read_u64_be(b, p);
                    if t == FRAME_TYPE_PATH_CHALLENGE {
                        Option::Some(((FrameView::PathChallenge { data }), p + 8))
                    } else {
                        Option::Some(((FrameView::PathResponse { data }), p + 8))
                    }
                } else {
                    Option::None
                }
            } else if t == FRAME_TYPE_CONNECTION_CLOSE_TRANSPORT || t
                == FRAME_TYPE_CONNECTION_CLOSE_APP {
                let app = t == FRAME_TYPE_CONNECTION_CLOSE_APP;
                match spec_read_varint(b, p) {
                    Option::None => Option::None,
                    Option::Some((error_code, p1)) => {
                        let after_ft = if app {
                            Option::Some((0u64, p1))
                        } else {
                            spec_read_varint(b, p1)
                        };
                        match after_ft {
                            Option::None => Option::None,
                            Option::Some((frame_type, p2)) => match spec_read_varint(b, p2) {
                                Option::None => Option::None,
                                Option::Some((rlen, p3)) => if p3 + rlen <= b.len() {
                                    Option::Some(
                                        (
                                            (FrameView::ConnectionClose {
                                                app,
                                                error_code,
                                                frame_type,
                                            }),
                                            (p3 + rlen) as nat,
                                        ),
                                    )
                                } else {
                                    Option::None
                                },
                            },
                        }
                    },
                }
            } else if t == FRAME_TYPE_HANDSHAKE_DONE {
                Option::Some((FrameView::HandshakeDone, p))
            } else if t == FRAME_TYPE_DATAGRAM {
                Option::Some(
                    (
                        (FrameView::Datagram {
                            data: b.subrange(p as int, b.len() as int),
                            with_len: false,
                        }),
                        b.len(),
                    ),
                )
            } else if t == FRAME_TYPE_DATAGRAM_WITH_LEN {
                match spec_read_varint(b, p) {
                    Option::None => Option::None,
                    Option::Some((len, p1)) => if len <= 65535 && p1 + len <= b.len() {
                        Option::Some(
                            (
                                (FrameView::Datagram {
                                    data: b.subrange(p1 as int, p1 + len),
                                    with_len: true,
                                }),
                                (p1 + len) as nat,
                            ),
                        )
                    } else {
                        Option::None
                    },
                }
            } else {
                Option::None
            }
        },
    }
}

/// Reads the eight big-endian bytes at `pos`.
fn read_u64_be(b: &[u8], pos: usize) -> (r: u64)
    requires
        pos + 8 <= b@.len(),
    ensures
        r == spec_read_u64_be(b@, pos as nat),
{
    (b[pos] as u64) << 56 | (b[pos + 1] as u64) << 48 | (b[pos + 2] as u64) << 40 | (b[pos
        + 3] as u64) << 32 | (b[pos + 4] as u64) << 24 | (b[pos + 5] as u64) << 16 | (b[pos
        + 6] as u64) << 8 | (b[pos + 7] as u64)
}

/// Reads four big-endian bytes at `pos` as an integer.
pub fn read_u64_be32(b: &[u8], pos: usize) -> (r: u64)
    requires
        pos + 4 <= b@.len(),
    ensures
        r < 0x1_0000_0000,
{
    let r = (b[pos] as u64) << 24 | (b[pos + 1] as u64) << 16 | (b[pos + 2] as u64) << 8 | (b[pos
        + 3] as u64);
    proof {
        let b0 = b@[pos as int];
        let b1 = b@[pos as int + 1];
        let b2 = b@[pos as int + 2];
        let b3 = b@[pos as int + 3];
        assert((b0 as u64) << 24 | (b1 as u64) << 16 | (b2 as u64) << 8 | (b3 as u64)
            < 0x1_0000_0000) by (bit_vector);
    }
    r
}

/// Decodes one frame at `pos`, exactly as `spec_read_frame` says.
#[verifier::rlimit(100)]
pub fn read_frame(b: &[u8], pos: usize) -> (r: Option<(Frame, usize)>)
    requires
        b@.len() <= 100_000,
    ensures
        match spec_read_frame(b@, pos as nat) {
            Option::Some(p) => r matches Option::Some(q) && q.0@ == p.0 && q.1 == p.1,
            Option::None => r is None,
        },
{
    let t_read = read_varint(b, pos);
    let (t, p) = match t_read {
        Option::Some(v) => v,
        Option::None => {
            return Option::None;
        },
    };
    if t == FRAME_TYPE_PADDING {
        let mut end: usize = pos;
        while end < b.len() && b[end] == 0
            invariant
                pos <= end <= b@.len(),
                spec_padding_run(b@, pos as nat) == end - pos + spec_padding_run(b@, end as nat),
            decreases b@.len() - end,
        {
            end = end + 1;
        }
        assert(spec_padding_run(b@, end as nat) == 0);
        let run = end - pos;
        Option::Some((Frame::Padding { len: run as u32 }, end))
    } else if t == FRAME_TYPE_PING {
        Option::Some((Frame::Ping, p))
    } else if t == FRAME_TYPE_ACK_ECN {
        let (largest, p1) = match read_varint(b, p) {
            Option::Some(v) => v,
            Option::None => {
                return Option::None;
            },
        };
        let (delay, p2) = match read_varint(b, p1) {
            Option::Some(v) => v,
            Option::None => {
                return Option::None;
            },
        };
        let (count, p3) = match read_varint(b, p2) {
            Option::Some(v) => v,
            Option::None => {
                return Option::None;
            },
        };
        if count != 0 {
            return Option::None;
        }
        let (first_range, p4) = match read_varint(b, p3) {
            Option::Some(v) => v,
            Option::None => {
                return Option::None;
            },
        };
        if first_range > largest {
            return Option::None;
        }
        let (ect0, p5) = match read_varint(b, p4) {
            Option::Some(v) => v,
            Option::None => {
                return Option::None;
            },
        };
        let (ect1, p6) = match read_varint(b, p5) {
            Option::Some(v) => v,
            Option::None => {
                return Option::None;
            },
        };
        let (ce, p7) = match read_varint(b, p6) {
            Option::Some(v) => v,
            Option::None => {
                return Option::None;
            },
        };
        Option::Some((Frame::Ack { largest, delay, first_range, ect0, ect1, ce }, p7))
    } else if t == FRAME_TYPE_CRYPTO {
        let (offset, p1) = match read_varint(b, p) {
            Option::Some(v) => v,
            Option::None => {
                return Option::None;
            },
        };
        let (len, p2) = match read_varint(b, p1) {
            Option::Some(v) => v,
            Option::None => {
                return Option::None;
            },
        };
        if len <= 100_000 && len as usize <= b.len() - p2 {
            let data = copy_range(b, p2, p2 + len as usize);
            Option::Some((Frame::Crypto { offset, data }, p2 + len as usize))
        } else {
            Option::None
        }
    } else if t == FRAME_TYPE_STREAM || t == FRAME_TYPE_STREAM_FIN {
        let (stream_id, p1) = match read_varint(b, p) {
            Option::Some(v) => v,
            Option::None => {
                return Option::None;
            },
        };
        let (offset, p2) = match read_varint(b, p1) {
            Option::Some(v) => v,
            Option::None => {
                return Option::None;
            },
        };
        let (len, p3) = match read_varint(b, p2) {
            Option::Some(v) => v,
            Option::None => {
                return Option::None;
            },
        };
        if len <= 100_000 && len as usize <= b.len() - p3 {
            let data = copy_range(b, p3, p3 + len as usize);
            Option::Some(
                (
                    Frame::Stream { stream_id, offset, data, fin: t == FRAME_TYPE_STREAM_FIN },
                    p3 + len as usize,
                ),
            )
        } else {
            Option::None
        }
    } else if t == FRAME_TYPE_MAX_DATA {
        match read_varint(b, p) {
            Option::Some((limit, p1)) => Option::Some((Frame::MaxData { limit }, p1)),
            Option::None => Option::None,
        }
    } else if t == FRAME_TYPE_MAX_STREAM_DATA {
        let (stream_id, p1) = match read_varint(b, p) {
            Option::Some(v) => v,
            Option::None => {
                return Option::None;
            },
        };
        match read_varint(b, p1) {
            Option::Some((limit, p2)) => Option::Some(
                (Frame::MaxStreamData { stream_id, limit }, p2),
            ),
            Option::None => Option::None,
        }
    } else if t == FRAME_TYPE_NEW_CONNECTION_ID {
        let (seqno, p1) = match read_varint(b, p) {
            Option::Some(v) => v,
            Option::None => {
                return Option::None;
            },
        };
        let (retire_prior, p2) = match read_varint(b, p1) {
            Option::Some(v) => v,
            Option::None => {
                return Option::None;
            },
        };
        if retire_prior <= seqno && p2 < b.len() {
            let clen = b[p2] as usize;
            if 1 <= clen && clen <= 20 && clen <= b.len() - p2 - 1 {
                let cid = copy_range(b, p2 + 1, p2 + 1 + clen);
                Option::Some((Frame::NewConnectionId { seqno, retire_prior, cid }, p2 + 1 + clen))
            } else {
                Option::None
            }
        } else {
            Option::None
        }
    } else if t == FRAME_TYPE_RETIRE_CONNECTION_ID {
        match read_varint(b, p) {
            Option::Some((seqno, p1)) => Option::Some((Frame::RetireConnectionId { seqno }, p1)),
            Option::None => Option::None,
        }
    } else if t == FRAME_TYPE_PATH_CHALLENGE || t == FRAME_TYPE_PATH_RESPONSE {
        if b.len() - p >= 8 {
            let data = read_u64_be(b, p);
            if t == FRAME_TYPE_PATH_CHALLENGE {
                Option::Some((Frame::PathChallenge { data }, p + 8))
            } else {
                Option::Some((Frame::PathResponse { data }, p + 8))
            }
        } else {
            Option::None
        }
    } else if t == FRAME_TYPE_CONNECTION_CLOSE_TRANSPORT || t == FRAME_TYPE_CONNECTION_CLOSE_APP {
        let app = t == FRAME_TYPE_CONNECTION_CLOSE_APP;
        let (error_code, p1) = match read_varint(b, p) {
            Option::Some(v) => v,
            Option::None => {
                return Option::None;
            },
        };
        let (frame_type, p2) = if app {
            (0u64, p1)
        } else {
            match read_varint(b, p1) {
                Option::Some(v) => v,
                Option::None => {
                    return Option::None;
                },
            }
        };
        let (rlen, p3) = match read_varint(b, p2) {
            Option::Some(v) => v,
            Option::None => {
                return Option::None;
            },
        };
        if rlen as usize <= b.len() - p3 && rlen <= 100_000 {
            Option::Some(
                (
                    Frame::ConnectionClose { app, error_code, frame_type, reason_len: rlen },
                    p3 + rlen as usize,
                ),
            )
        } else {
            Option::None
        }
    } else if t == FRAME_TYPE_HANDSHAKE_DONE {
        Option::Some((Frame::HandshakeDone, p))
    } else if t == FRAME_TYPE_DATAGRAM {
        let data = copy_range(b, p, b.len());
        Option::Some((Frame::Datagram { data, with_len: false }, b.len()))
    } else if t == FRAME_TYPE_DATAGRAM_WITH_LEN {
        let (len, p1) = match read_varint(b, p) {
            Option::Some(v) => v,
            Option::None => {
                return Option::None;
            },
        };
        if len <= 65535 && len as usize <= b.len() - p1 {
            let data = copy_range(b, p1, p1 + len as usize);
            Option::Some((Frame::Datagram { data, with_len: true }, p1 + len as usize))
        } else {
            Option::None
        }
    } else {
        Option::None
    }
}


} // verus!
