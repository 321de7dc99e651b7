//! QUIC frames and their wire forms: encoding always uses the canonical
//! shortest form, decoding accepts any form and fails, without panicking,
//! on truncated input or a reserved type — a FRAME_ENCODING_ERROR.
//! Decoding inverts encoding on every well-formed frame.

use crate::stream_id::Dir;
use crate::varint::{
    MAX_VARINT, VarInt, decode_varint, encode_varint, varint_bytes, varint_decode_spec,
    varint_len_spec,
};
use vstd::prelude::*;

verus! {

/// One further acknowledgement range of an ACK frame: a gap below the
/// previous range, then the range's length.
#[derive(Debug, Clone, Copy, PartialEq, Eq, Structural)]
pub struct AckRange {
    pub gap: u64,
    pub length: u64,
}

/// A QUIC frame, as the engine consumes and produces them. Integer fields
/// carry variable-length integers, so a well-formed frame keeps them below
/// `2^62`.
#[derive(Debug, Clone, PartialEq, Eq)]
pub enum Frame {
    Padding,
    Ping,
    Ack { largest: u64, delay: u64, first_range: u64, ranges: Vec<AckRange> },
    NewConnectionId { sequence: u64, retire_prior_to: u64, cid: Vec<u8>, reset_token: Vec<u8> },
    ResetStream { stream: u64, error_code: u64, final_size: u64 },
    StopSending { stream: u64, error_code: u64 },
    Crypto { offset: u64, data: Vec<u8> },
    NewToken { token: Vec<u8> },
    Stream { stream: u64, offset: u64, fin: bool, data: Vec<u8> },
    MaxData { max: u64 },
    MaxStreamData { stream: u64, max: u64 },
    MaxStreams { dir: Dir, max: u64 },
    DataBlocked { limit: u64 },
    StreamDataBlocked { stream: u64, limit: u64 },
    StreamsBlocked { dir: Dir, limit: u64 },
    RetireConnectionId { sequence: u64 },
    PathChallenge { token: Vec<u8> },
    PathResponse { token: Vec<u8> },
    ConnectionClose { error_code: u64, frame_type: Option<u64>, reason: Vec<u8> },
    HandshakeDone,
    Datagram { data: Vec<u8> },
}

/// The mathematical shape of a frame: byte rows as sequences.
pub enum FrameV {
    Padding,
    Ping,
    Ack { largest: u64, delay: u64, first_range: u64, ranges: Seq<AckRange> },
    NewConnectionId { sequence: u64, retire_prior_to: u64, cid: Seq<u8>, reset_token: Seq<u8> },
    ResetStream { stream: u64, error_code: u64, final_size: u64 },
    StopSending { stream: u64, error_code: u64 },
    Crypto { offset: u64, data: Seq<u8> },
    NewToken { token: Seq<u8> },
    Stream { stream: u64, offset: u64, fin: bool, data: Seq<u8> },
    MaxData { max: u64 },
    MaxStreamData { stream: u64, max: u64 },
    MaxStreams { dir: Dir, max: u64 },
    DataBlocked { limit: u64 },
    StreamDataBlocked { stream: u64, limit: u64 },
    StreamsBlocked { dir: Dir, limit: u64 },
    RetireConnectionId { sequence: u64 },
    PathChallenge { token: Seq<u8> },
    PathResponse { token: Seq<u8> },
    ConnectionClose { error_code: u64, frame_type: Option<u64>, reason: Seq<u8> },
    HandshakeDone,
    Datagram { data: Seq<u8> },
}

impl View for Frame {
    type V = FrameV;

    open spec fn view(&self) -> FrameV {
        match self {
            Frame::Padding => FrameV::Padding,
            Frame::Ping => FrameV::Ping,
            Frame::Ack { largest, delay, first_range, ranges } => FrameV::Ack {
                largest: *largest,
                delay: *delay,
                first_range: *first_range,
                ranges: ranges@,
            },
            Frame::NewConnectionId { sequence, retire_prior_to, cid, reset_token } => FrameV::NewConnectionId {
                sequence: *sequence,
                retire_prior_to: *retire_prior_to,
                cid: cid@,
                reset_token: reset_token@,
            },
            Frame::ResetStream { stream, error_code, final_size } => FrameV::ResetStream {
                stream: *stream,
                error_code: *error_code,
                final_size: *final_size,
            },
            Frame::StopSending { stream, error_code } => FrameV::StopSending {
                stream: *stream,
                error_code: *error_code,
            },
            Frame::Crypto { offset, data } => FrameV::Crypto { offset: *offset, data: data@ },
            Frame::NewToken { token } => FrameV::NewToken { token: token@ },
            Frame::Stream { stream, offset, fin, data } => FrameV::Stream {
                stream: *stream,
                offset: *offset,
                fin: *fin,
                data: data@,
            },
            Frame::MaxData { max } => FrameV::MaxData { max: *max },
            Frame::MaxStreamData { stream, max } => FrameV::MaxStreamData {
                stream: *stream,
                max: *max,
            },
            Frame::MaxStreams { dir, max } => FrameV::MaxStreams { dir: *dir, max: *max },
            Frame::DataBlocked { limit } => FrameV::DataBlocked { limit: *limit },
            Frame::StreamDataBlocked { stream, limit } => FrameV::StreamDataBlocked {
                stream: *stream,
                limit: *limit,
            },
            Frame::StreamsBlocked { dir, limit } => FrameV::StreamsBlocked {
                dir: *dir,
                limit: *limit,
            },
            Frame::RetireConnectionId { sequence } => FrameV::RetireConnectionId {
                sequence: *sequence,
            },
            Frame::PathChallenge { token } => FrameV::PathChallenge { token: token@ },
            Frame::PathResponse { token } => FrameV::PathResponse { token: token@ },
            Frame::ConnectionClose { error_code, frame_type, reason } => FrameV::ConnectionClose {
                error_code: *error_code,
                frame_type: *frame_type,
                reason: reason@,
            },
            Frame::HandshakeDone => FrameV::HandshakeDone,
            Frame::Datagram { data } => FrameV::Datagram { data: data@ },
        }
    }
}

/// Whether every field of the frame fits its wire encoding.
pub open spec fn wf_frame(f: FrameV) -> bool {
    match f {
        FrameV::Padding => true,
        FrameV::Ping => true,
        FrameV::Ack { largest, delay, first_range, ranges } => largest <= MAX_VARINT && delay
            <= MAX_VARINT && first_range <= MAX_VARINT && ranges.len() <= MAX_VARINT && (forall|
            i: int,
        |
            0 <= i < ranges.len() ==> ranges[i].gap <= MAX_VARINT && ranges[i].length
                <= MAX_VARINT),
        FrameV::NewConnectionId { sequence, retire_prior_to, cid, reset_token } => sequence
            <= MAX_VARINT && retire_prior_to <= MAX_VARINT && cid.len() <= 20 && reset_token.len()
            == 16,
        FrameV::ResetStream { stream, error_code, final_size } => stream <= MAX_VARINT
            && error_code <= MAX_VARINT && final_size <= MAX_VARINT,
        FrameV::StopSending { stream, error_code } => stream <= MAX_VARINT && error_code
            <= MAX_VARINT,
        FrameV::Crypto { offset, data } => offset <= MAX_VARINT && data.len() <= MAX_VARINT,
        FrameV::NewToken { token } => token.len() <= MAX_VARINT,
        FrameV::Stream { stream, offset, fin, data } => stream <= MAX_VARINT && offset
            <= MAX_VARINT && data.len() <= MAX_VARINT,
        FrameV::MaxData { max } => max <= MAX_VARINT,
        FrameV::MaxStreamData { stream, max } => stream <= MAX_VARINT && max <= MAX_VARINT,
        FrameV::MaxStreams { dir, max } => max <= MAX_VARINT,
        FrameV::DataBlocked { limit } => limit <= MAX_VARINT,
        FrameV::StreamDataBlocked { stream, limit } => stream <= MAX_VARINT && limit
            <= MAX_VARINT,
        FrameV::StreamsBlocked { dir, limit } => limit <= MAX_VARINT,
        FrameV::RetireConnectionId { sequence } => sequence <= MAX_VARINT,
        FrameV::PathChallenge { token } => token.len() == 8,
        FrameV::PathResponse { token } => token.len() == 8,
        FrameV::ConnectionClose { error_code, frame_type, reason } => error_code <= MAX_VARINT
            && (frame_type matches Some(t) ==> t <= MAX_VARINT) && reason.len() <= MAX_VARINT,
        FrameV::HandshakeDone => true,
        FrameV::Datagram { data } => data.len() <= MAX_VARINT,
    }
}

/// The wire form of an ACK frame's fields.
pub open spec fn ack_bytes(largest: u64, delay: u64, first_range: u64, ranges: Seq<AckRange>) -> Seq<u8> {
    varint_bytes(0x02) + varint_bytes(largest) + varint_bytes(delay) + varint_bytes(
        ranges.len() as u64,
    ) + varint_bytes(first_range) + ranges_bytes(ranges, 0)
}

/// The wire form of a NEW_CONNECTION_ID frame's fields.
pub open spec fn new_cid_bytes(sequence: u64, retire_prior_to: u64, cid: Seq<u8>, reset_token: Seq<u8>) -> Seq<u8> {
    varint_bytes(0x18) + varint_bytes(sequence) + varint_bytes(retire_prior_to) + seq![
        cid.len() as u8,
    ] + cid + reset_token
}

/// The wire form of a STREAM frame's fields.
pub open spec fn stream_bytes(stream: u64, offset: u64, fin: bool, data: Seq<u8>) -> Seq<u8> {
    varint_bytes(
        if fin {
            0x0f
        } else {
            0x0e
        },
    ) + varint_bytes(stream) + varint_bytes(offset) + varint_bytes(data.len() as u64) + data
}

/// The wire form of a CRYPTO frame's fields.
pub open spec fn crypto_bytes(offset: u64, data: Seq<u8>) -> Seq<u8> {
    varint_bytes(0x06) + varint_bytes(offset) + varint_bytes(data.len() as u64) + data
}

/// The wire form of a CONNECTION_CLOSE frame's fields.
pub open spec fn close_bytes(error_code: u64, frame_type: Option<u64>, reason: Seq<u8>) -> Seq<u8> {
    match frame_type {
        Some(t) => varint_bytes(0x1c) + varint_bytes(error_code) + varint_bytes(t) + varint_bytes(
            reason.len() as u64,
        ) + reason,
        None => varint_bytes(0x1d) + varint_bytes(error_code) + varint_bytes(reason.len() as u64)
            + reason,
    }
}

/// The canonical wire form of a frame: its type as a variable-length
/// integer, then its fields. STREAM carries explicit offset and length;
/// DATAGRAM carries an explicit length.
pub open spec fn frame_bytes(f: FrameV) -> Seq<u8> {
    match f {
        FrameV::Padding => varint_bytes(0x00),
        FrameV::Ping => varint_bytes(0x01),
        FrameV::Ack { largest, delay, first_range, ranges } => ack_bytes(
            largest,
            delay,
            first_range,
            ranges,
        ),
        FrameV::NewConnectionId { sequence, retire_prior_to, cid, reset_token } => new_cid_bytes(
            sequence,
            retire_prior_to,
            cid,
            reset_token,
        ),
        FrameV::ResetStream { stream, error_code, final_size } => varint_bytes(0x04)
            + varint_bytes(stream) + varint_bytes(error_code) + varint_bytes(final_size),
        FrameV::StopSending { stream, error_code } => varint_bytes(0x05) + varint_bytes(stream)
            + varint_bytes(error_code),
        FrameV::Crypto { offset, data } => crypto_bytes(offset, data),
        FrameV::NewToken { token } => varint_bytes(0x07) + varint_bytes(token.len() as u64)
            + token,
        FrameV::Stream { stream, offset, fin, data } => stream_bytes(stream, offset, fin, data),
        FrameV::MaxData { max } => varint_bytes(0x10) + varint_bytes(max),
        FrameV::MaxStreamData { stream, max } => varint_bytes(0x11) + varint_bytes(stream)
            + varint_bytes(max),
        FrameV::MaxStreams { dir, max } => varint_bytes(
            if dir == Dir::Bi {
                0x12
            } else {
                0x13
            },
        ) + varint_bytes(max),
        FrameV::DataBlocked { limit } => varint_bytes(0x14) + varint_bytes(limit),
        FrameV::StreamDataBlocked { stream, limit } => varint_bytes(0x15) + varint_bytes(stream)
            + varint_bytes(limit),
        FrameV::StreamsBlocked { dir, limit } => varint_bytes(
            if dir == Dir::Bi {
                0x16
            } else {
                0x17
            },
        ) + varint_bytes(limit),
        FrameV::RetireConnectionId { sequence } => varint_bytes(0x19) + varint_bytes(sequence),
        FrameV::PathChallenge { token } => varint_bytes(0x1a) + token,
        FrameV::PathResponse { token } => varint_bytes(0x1b) + token,
        FrameV::ConnectionClose { error_code, frame_type, reason } => close_bytes(
            error_code,
            frame_type,
            reason,
        ),
        FrameV::HandshakeDone => varint_bytes(0x1e),
        FrameV::Datagram { data } => varint_bytes(0x31) + varint_bytes(data.len() as u64) + data,
    }
}

/// The wire form of the acknowledgement ranges from position `i` on:
/// each a gap and a length, as variable-length integers.
pub open spec fn ranges_bytes(rs: Seq<AckRange>, i: int) -> Seq<u8>
    decreases rs.len() - i,
{
    if i < 0 || i >= rs.len() {
        Seq::empty()
    } else {
        varint_bytes(rs[i].gap) + varint_bytes(rs[i].length) + ranges_bytes(rs, i + 1)
    }
}

/// The wire form of the first `i` acknowledgement ranges.
pub open spec fn ranges_bytes_upto(rs: Seq<AckRange>, i: int) -> Seq<u8>
    decreases i,
{
    if i <= 0 {
        Seq::empty()
    } else {
        ranges_bytes_upto(rs, i - 1) + varint_bytes(rs[i - 1].gap) + varint_bytes(
            rs[i - 1].length,
        )
    }
}

/// Reading `count` acknowledgement ranges off the head of `s`.
pub open spec fn ranges_decode(s: Seq<u8>, count: u64) -> Option<(Seq<AckRange>, int)>
    decreases count,
{
    if count == 0 {
        Some((Seq::empty(), 0))
    } else {
        match vd2(s) {
            None => None,
            Some(((gap, length), n)) => match ranges_decode(s.skip(n), (count - 1) as u64) {
                None => None,
                Some((rest, m)) => Some((seq![AckRange { gap, length }] + rest, n + m)),
            },
        }
    }
}

/// Two variable-length integers read in a row.
pub open spec fn vd2(s: Seq<u8>) -> Option<((u64, u64), int)> {
    match varint_decode_spec(s) {
        None => None,
        Some((a, n)) => match varint_decode_spec(s.skip(n)) {
            None => None,
            Some((b, m)) => Some(((a, b), n + m)),
        },
    }
}

/// Three variable-length integers read in a row.
pub open spec fn vd3(s: Seq<u8>) -> Option<((u64, u64, u64), int)> {
    match vd2(s) {
        None => None,
        Some(((a, b), n)) => match varint_decode_spec(s.skip(n)) {
            None => None,
            Some((c, m)) => Some(((a, b, c), n + m)),
        },
    }
}

/// A length-prefixed byte row: a variable-length count, then that many
/// bytes.
pub open spec fn vd_bytes(s: Seq<u8>) -> Option<(Seq<u8>, int)> {
    match varint_decode_spec(s) {
        None => None,
        Some((len, n)) => if s.skip(n).len() >= len {
            Some((s.skip(n).take(len as int), n + len))
        } else {
            None
        },
    }
}

/// What decoding the head of `s` yields: the frame and the bytes
/// consumed, or nothing on truncation or a reserved type.
pub open spec fn frame_decode(s: Seq<u8>) -> Option<(FrameV, int)> {
    match varint_decode_spec(s) {
        None => None,
        Some((t, n)) => match frame_payload_decode(t, s.skip(n)) {
            None => None,
            Some((f, m)) => Some((f, n + m)),
        },
    }
}

/// Decodes the body of an ACK frame.
pub open spec fn ack_payload_decode(s: Seq<u8>) -> Option<(FrameV, int)> {
    match varint_decode_spec(s) {
        Some((largest, n1)) => match varint_decode_spec(s.skip(n1)) {
            Some((delay, n2)) => match varint_decode_spec(s.skip(n1 + n2)) {
                Some((count, n3)) => match varint_decode_spec(s.skip(n1 + n2 + n3)) {
                    Some((first_range, n4)) => match ranges_decode(
                        s.skip(n1 + n2 + n3 + n4),
                        count,
                    ) {
                        Some((ranges, n5)) => Some(
                            (
                                FrameV::Ack { largest, delay, first_range, ranges },
                                n1 + n2 + n3 + n4 + n5,
                            ),
                        ),
                        None => None,
                    },
                    None => None,
                },
                None => None,
            },
            None => None,
        },
        None => None,
    }
}

/// Decodes the body of a NEW_CONNECTION_ID frame.
pub open spec fn new_cid_payload_decode(s: Seq<u8>) -> Option<(FrameV, int)> {
    match vd2(s) {
        Some(((sequence, retire_prior_to), n)) => {
            let s2 = s.skip(n);
            if s2.len() >= 1 && s2[0] <= 20 && s2.len() >= 1 + s2[0] + 16 {
                let cl = s2[0] as int;
                Some(
                    (
                        FrameV::NewConnectionId {
                            sequence,
                            retire_prior_to,
                            cid: s2.subrange(1, 1 + cl),
                            reset_token: s2.subrange(1 + cl, 1 + cl + 16),
                        },
                        n + 1 + cl + 16,
                    ),
                )
            } else {
                None
            }
        },
        None => None,
    }
}

/// Decodes the body of a CRYPTO frame.
pub open spec fn crypto_payload_decode(s: Seq<u8>) -> Option<(FrameV, int)> {
    match varint_decode_spec(s) {
        Some((offset, n)) => match vd_bytes(s.skip(n)) {
            Some((data, m)) => Some((FrameV::Crypto { offset, data }, n + m)),
            None => None,
        },
        None => None,
    }
}

/// Decodes the body of a NEW_TOKEN frame.
pub open spec fn new_token_payload_decode(s: Seq<u8>) -> Option<(FrameV, int)> {
    match vd_bytes(s) {
        Some((token, n)) => Some((FrameV::NewToken { token }, n)),
        None => None,
    }
}

/// Decodes the body of a transport-level CONNECTION_CLOSE frame.
pub open spec fn close_transport_payload_decode(s: Seq<u8>) -> Option<(FrameV, int)> {
    match vd2(s) {
        Some(((error_code, ft), n)) => match vd_bytes(s.skip(n)) {
            Some((reason, m)) => Some(
                (FrameV::ConnectionClose { error_code, frame_type: Some(ft), reason }, n + m),
            ),
            None => None,
        },
        None => None,
    }
}

/// Decodes the body of an application-level CONNECTION_CLOSE frame.
pub open spec fn close_application_payload_decode(s: Seq<u8>) -> Option<(FrameV, int)> {
    match varint_decode_spec(s) {
        Some((error_code, n)) => match vd_bytes(s.skip(n)) {
            Some((reason, m)) => Some(
                (FrameV::ConnectionClose { error_code, frame_type: None, reason }, n + m),
            ),
            None => None,
        },
        None => None,
    }
}

/// Decodes the body of a RESET_STREAM frame.
pub open spec fn reset_stream_payload_decode(s: Seq<u8>) -> Option<(FrameV, int)> {
    match vd3(s) {
        Some(((stream, error_code, final_size), n)) => Some(
            (FrameV::ResetStream { stream, error_code, final_size }, n),
        ),
        None => None,
    }
}

/// Decodes the body of a frame whose type identifier is `t`.
pub open spec fn frame_payload_decode(t: u64, s: Seq<u8>) -> Option<(FrameV, int)> {
    if t == 0x00 {
        Some((FrameV::Padding, 0))
    } else if t == 0x01 {
        Some((FrameV::Ping, 0))
    } else if t == 0x02 {
        ack_payload_decode(s)
    } else if t == 0x04 {
        reset_stream_payload_decode(s)
    } else if t == 0x05 {
        match vd2(s) {
            Some(((stream, error_code), n)) => Some((FrameV::StopSending { stream, error_code }, n)),
            None => None,
        }
    } else if t == 0x06 {
        crypto_payload_decode(s)
    } else if t == 0x07 {
        new_token_payload_decode(s)
    } else if 0x08 <= t && t <= 0x0f {
        stream_payload_decode(t, s)
    } else if t == 0x10 {
        match varint_decode_spec(s) {
            Some((max, n)) => Some((FrameV::MaxData { max }, n)),
            None => None,
        }
    } else if t == 0x11 {
        match vd2(s) {
            Some(((stream, max), n)) => Some((FrameV::MaxStreamData { stream, max }, n)),
            None => None,
        }
    } else if t == 0x12 || t == 0x13 {
        match varint_decode_spec(s) {
            Some((max, n)) => Some(
                (
                    FrameV::MaxStreams {
                        dir: if t == 0x12 {
                            Dir::Bi
                        } else {
                            Dir::Uni
                        },
                        max,
                    },
                    n,
                ),
            ),
            None => None,
        }
    } else if t == 0x14 {
        match varint_decode_spec(s) {
            Some((limit, n)) => Some((FrameV::DataBlocked { limit }, n)),
            None => None,
        }
    } else if t == 0x15 {
        match vd2(s) {
            Some(((stream, limit), n)) => Some((FrameV::StreamDataBlocked { stream, limit }, n)),
            None => None,
        }
    } else if t == 0x16 || t == 0x17 {
        match varint_decode_spec(s) {
            Some((limit, n)) => Some(
                (
                    FrameV::StreamsBlocked {
                        dir: if t == 0x16 {
                            Dir::Bi
                        } else {
                            Dir::Uni
                        },
                        limit,
                    },
                    n,
                ),
            ),
            None => None,
        }
    } else if t == 0x18 {
        new_cid_payload_decode(s)
    } else if t == 0x19 {
        match varint_decode_spec(s) {
            Some((sequence, n)) => Some((FrameV::RetireConnectionId { sequence }, n)),
            None => None,
        }
    } else if t == 0x1a || t == 0x1b {
        if s.len() >= 8 {
            let token = s.take(8);
            Some(
                (
                    if t == 0x1a {
                        FrameV::PathChallenge { token }
                    } else {
                        FrameV::PathResponse { token }
                    },
                    8,
                ),
            )
        } else {
            None
        }
    } else if t == 0x1c {
        close_transport_payload_decode(s)
    } else if t == 0x1d {
        close_application_payload_decode(s)
    } else if t == 0x1e {
        Some((FrameV::HandshakeDone, 0))
    } else if t == 0x30 || t == 0x31 {
        if t == 0x31 {
            match vd_bytes(s) {
                Some((data, n)) => Some((FrameV::Datagram { data }, n)),
                None => None,
            }
        } else {
            Some((FrameV::Datagram { data: s }, s.len() as int))
        }
    } else {
        None
    }
}

/// Decodes a STREAM frame body: the low three type bits say whether an
/// offset and a length are present and whether the frame ends the stream;
/// a missing offset means zero, a missing length means the rest of the
/// input.
pub open spec fn stream_payload_decode(t: u64, s: Seq<u8>) -> Option<(FrameV, int)> {
    let has_off = (t - 0x08) / 4 == 1;
    let has_len = ((t - 0x08) / 2) % 2 == 1;
    let fin = (t - 0x08) % 2 == 1;
    match varint_decode_spec(s) {
        None => None,
        Some((stream, n0)) => {
            let (offset, n1) = if has_off {
                match varint_decode_spec(s.skip(n0)) {
                    None => (0u64, -1),
                    Some((o, k)) => (o, n0 + k),
                }
            } else {
                (0u64, n0 as int)
            };
            if n1 < 0 {
                None
            } else if has_len {
                match vd_bytes(s.skip(n1)) {
                    Some((data, m)) => Some((FrameV::Stream { stream, offset, fin, data }, n1 + m)),
                    None => None,
                }
            } else {
                Some(
                    (
                        FrameV::Stream { stream, offset, fin, data: s.skip(n1) },
                        s.len() as int,
                    ),
                )
            }
        },
    }
}

/// Concatenation is associative.
proof fn lemma_cat3(a: Seq<u8>, b: Seq<u8>, c: Seq<u8>)
    ensures
        a + b + c == a + (b + c),
{
    assert(a + b + c =~= a + (b + c));
}

/// Dropping leading segments of a three-part concatenation.
proof fn lemma_skip3(a: Seq<u8>, b: Seq<u8>, c: Seq<u8>)
    ensures
        a + b + c == a + (b + c),
        (a + b + c).skip(a.len() as int) == b + c,
        (a + b + c).skip(a.len() + b.len() as int) == c,
{
    assert(a + b + c =~= a + (b + c));
    assert((a + b + c).skip(a.len() as int) =~= b + c);
    assert((a + b + c).skip(a.len() + b.len() as int) =~= c);
}

/// Dropping leading segments of a four-part concatenation.
proof fn lemma_skip4(a: Seq<u8>, b: Seq<u8>, c: Seq<u8>, d: Seq<u8>)
    ensures
        a + b + c + d == a + (b + c + d),
        (a + b + c + d).skip(a.len() as int) == b + c + d,
        (a + b + c + d).skip(a.len() + b.len() as int) == c + d,
        b + c + d == b + (c + d),
{
    assert(a + b + c + d =~= a + (b + c + d));
    assert((a + b + c + d).skip(a.len() as int) =~= b + c + d);
    assert((a + b + c + d).skip(a.len() + b.len() as int) =~= c + d);
    assert(b + c + d =~= b + (c + d));
}

/// Dropping leading segments of a concatenation leaves the rest.
proof fn lemma_skip5(a: Seq<u8>, b: Seq<u8>, c: Seq<u8>, d: Seq<u8>, e: Seq<u8>)
    ensures
        a + b + c + d + e == a + (b + c + d + e),
        (a + b + c + d + e).skip(a.len() as int) == b + c + d + e,
        (a + b + c + d + e).skip(a.len() + b.len() as int) == c + d + e,
        (a + b + c + d + e).skip(a.len() as int + b.len() + c.len()) == d + e,
        (a + b + c + d + e).skip(a.len() as int + b.len() + c.len() + d.len()) == e,
        c + d + e == c + (d + e),
        b + c + d + e == b + (c + d + e),
{
    assert(a + b + c + d + e =~= a + (b + c + d + e));
    assert((a + b + c + d + e).skip(a.len() as int) =~= b + c + d + e);
    assert((a + b + c + d + e).skip(a.len() + b.len() as int) =~= c + d + e);
    assert((a + b + c + d + e).skip(a.len() as int + b.len() + c.len()) =~= d + e);
    assert((a + b + c + d + e).skip(a.len() as int + b.len() + c.len() + d.len()) =~= e);
    assert(c + d + e =~= c + (d + e));
    assert(b + c + d + e =~= b + (c + d + e));
}

/// Dropping the leading segment of a six-part concatenation.
proof fn lemma_head6(t: Seq<u8>, a: Seq<u8>, b: Seq<u8>, c: Seq<u8>, d: Seq<u8>, e: Seq<u8>)
    ensures
        t + a + b + c + d + e == t + (a + b + c + d + e),
        (t + a + b + c + d + e).skip(t.len() as int) == a + b + c + d + e,
{
    assert(t + a + b + c + d + e =~= t + (a + b + c + d + e));
    assert((t + a + b + c + d + e).skip(t.len() as int) =~= a + b + c + d + e);
}

/// The shortest encoding has exactly the length the length function says.
proof fn lemma_varint_bytes_len(v: u64)
    ensures
        varint_bytes(v).len() == varint_len_spec(v),
{
}

/// Reading two variable-length integers off the front of their encodings.
proof fn lemma_vd2_roundtrip(a: u64, b: u64, rest: Seq<u8>)
    requires
        a <= MAX_VARINT,
        b <= MAX_VARINT,
    ensures
        vd2(varint_bytes(a) + varint_bytes(b) + rest) == Some(
            ((a, b), varint_len_spec(a) + varint_len_spec(b)),
        ),
{
    let s = varint_bytes(a) + varint_bytes(b) + rest;
    assert(s =~= varint_bytes(a) + (varint_bytes(b) + rest));
    crate::varint::lemma_varint_roundtrip(a, varint_bytes(b) + rest);
    lemma_varint_bytes_len(a);
    assert(s.skip(varint_len_spec(a)) =~= varint_bytes(b) + rest);
    crate::varint::lemma_varint_roundtrip(b, rest);
}

/// Reading three variable-length integers off the front of their
/// encodings.
proof fn lemma_vd3_roundtrip(a: u64, b: u64, c: u64, rest: Seq<u8>)
    requires
        a <= MAX_VARINT,
        b <= MAX_VARINT,
        c <= MAX_VARINT,
    ensures
        vd3(varint_bytes(a) + varint_bytes(b) + varint_bytes(c) + rest) == Some(
            ((a, b, c), varint_len_spec(a) + varint_len_spec(b) + varint_len_spec(c)),
        ),
{
    let s = varint_bytes(a) + varint_bytes(b) + varint_bytes(c) + rest;
    assert(s =~= varint_bytes(a) + varint_bytes(b) + (varint_bytes(c) + rest));
    lemma_vd2_roundtrip(a, b, varint_bytes(c) + rest);
    lemma_varint_bytes_len(a);
    lemma_varint_bytes_len(b);
    assert(s.skip(varint_len_spec(a) + varint_len_spec(b)) =~= varint_bytes(c) + rest);
    crate::varint::lemma_varint_roundtrip(c, rest);
}

/// Reading a length-prefixed byte row off the front of its encoding.
proof fn lemma_vd_bytes_roundtrip(data: Seq<u8>, rest: Seq<u8>)
    requires
        data.len() <= MAX_VARINT,
    ensures
        vd_bytes(varint_bytes(data.len() as u64) + data + rest) == Some(
            (data, varint_len_spec(data.len() as u64) + data.len()),
        ),
{
    let l = data.len() as u64;
    let s = varint_bytes(l) + data + rest;
    assert(s =~= varint_bytes(l) + (data + rest));
    crate::varint::lemma_varint_roundtrip(l, data + rest);
    lemma_varint_bytes_len(l);
    assert(s.skip(varint_len_spec(l)) =~= data + rest);
    assert((data + rest).take(data.len() as int) =~= data);
}

/// Decoding inverts encoding: the canonical wire form of any well-formed
/// frame, followed by anything at all, decodes to that frame, consuming
/// exactly the encoding's bytes.
pub proof fn lemma_frame_roundtrip(f: FrameV, rest: Seq<u8>)
    requires
        wf_frame(f),
    ensures
        frame_decode(frame_bytes(f) + rest) == Some((f, frame_bytes(f).len() as int)),
{
    match f {
        FrameV::Padding => {
            crate::varint::lemma_varint_roundtrip(0x00, rest);
        },
        FrameV::Ping => {
            crate::varint::lemma_varint_roundtrip(0x01, rest);
        },
        FrameV::Ack { .. } => {
            lemma_rt_ack(f, rest);
        },
        FrameV::NewConnectionId { .. } => {
            lemma_rt_new_connection_id(f, rest);
        },
        FrameV::ResetStream { .. } => {
            lemma_rt_reset_stream(f, rest);
        },
        FrameV::StopSending { .. } => {
            lemma_rt_stop_sending(f, rest);
        },
        FrameV::Crypto { .. } => {
            lemma_rt_crypto(f, rest);
        },
        FrameV::NewToken { .. } => {
            lemma_rt_new_token(f, rest);
        },
        FrameV::Stream { .. } => {
            lemma_rt_stream(f, rest);
        },
        FrameV::MaxData { .. } => {
            lemma_rt_max_data(f, rest);
        },
        FrameV::MaxStreamData { .. } => {
            lemma_rt_max_stream_data(f, rest);
        },
        FrameV::MaxStreams { .. } => {
            lemma_rt_max_streams(f, rest);
        },
        FrameV::DataBlocked { .. } => {
            lemma_rt_data_blocked(f, rest);
        },
        FrameV::StreamDataBlocked { .. } => {
            lemma_rt_stream_data_blocked(f, rest);
        },
        FrameV::StreamsBlocked { .. } => {
            lemma_rt_streams_blocked(f, rest);
        },
        FrameV::RetireConnectionId { .. } => {
            lemma_rt_retire_connection_id(f, rest);
        },
        FrameV::PathChallenge { .. } => {
            lemma_rt_path_challenge(f, rest);
        },
        FrameV::PathResponse { .. } => {
            lemma_rt_path_response(f, rest);
        },
        FrameV::ConnectionClose { .. } => {
            lemma_rt_connection_close(f, rest);
        },
        FrameV::HandshakeDone => {
            crate::varint::lemma_varint_roundtrip(0x1e, rest);
        },
        FrameV::Datagram { .. } => {
            lemma_rt_datagram(f, rest);
        },
    }
}

/// The first `i` range encodings and the rest together make the whole.
proof fn lemma_ranges_split(rs: Seq<AckRange>, i: int)
    requires
        0 <= i <= rs.len(),
    ensures
        ranges_bytes_upto(rs, i) + ranges_bytes(rs, i) == ranges_bytes(rs, 0),
    decreases i,
{
    if i == 0 {
        assert(ranges_bytes_upto(rs, 0) + ranges_bytes(rs, 0) =~= ranges_bytes(rs, 0));
    } else {
        lemma_ranges_split(rs, i - 1);
        assert(ranges_bytes(rs, i - 1) == varint_bytes(rs[i - 1].gap) + varint_bytes(
            rs[i - 1].length,
        ) + ranges_bytes(rs, i));
        assert(ranges_bytes_upto(rs, i) + ranges_bytes(rs, i) =~= ranges_bytes_upto(rs, i - 1)
            + ranges_bytes(rs, i - 1));
    }
}

/// Reading back the encoded ranges from position `i` on yields them.
#[verifier::rlimit(100)]
#[verifier::spinoff_prover]
proof fn lemma_ranges_roundtrip(rs: Seq<AckRange>, i: int, rest: Seq<u8>)
    requires
        0 <= i <= rs.len(),
        rs.len() <= MAX_VARINT,
        forall|j: int| 0 <= j < rs.len() ==> rs[j].gap <= MAX_VARINT && rs[j].length <= MAX_VARINT,
    ensures
        ranges_decode(ranges_bytes(rs, i) + rest, (rs.len() - i) as u64) == Some(
            (rs.skip(i), ranges_bytes(rs, i).len() as int),
        ),
    decreases rs.len() - i,
{
    if i == rs.len() {
        assert(ranges_bytes(rs, i) + rest =~= rest);
        assert(rs.skip(i) =~= Seq::<AckRange>::empty());
    } else {
        let a = varint_bytes(rs[i].gap);
        let b = varint_bytes(rs[i].length);
        let tailb = ranges_bytes(rs, i + 1);
        let s = ranges_bytes(rs, i) + rest;
        assert(s =~= a + b + (tailb + rest));
        lemma_vd2_roundtrip(rs[i].gap, rs[i].length, tailb + rest);
        lemma_varint_bytes_len(rs[i].gap);
        lemma_varint_bytes_len(rs[i].length);
        assert(s.skip(a.len() + b.len() as int) =~= tailb + rest);
        lemma_ranges_roundtrip(rs, i + 1, rest);
        assert(seq![rs[i]] + rs.skip(i + 1) =~= rs.skip(i));
    }
}

/// Reading back an encoded ACK body yields its fields.
#[verifier::rlimit(100)]
#[verifier::spinoff_prover]
proof fn lemma_ack_payload(largest: u64, delay: u64, first_range: u64, ranges: Seq<AckRange>, rest: Seq<u8>)
    requires
        largest <= MAX_VARINT,
        delay <= MAX_VARINT,
        first_range <= MAX_VARINT,
        ranges.len() <= MAX_VARINT,
        forall|j: int|
            0 <= j < ranges.len() ==> ranges[j].gap <= MAX_VARINT && ranges[j].length
                <= MAX_VARINT,
    ensures
        ack_payload_decode(
            varint_bytes(largest) + varint_bytes(delay) + varint_bytes(ranges.len() as u64)
                + varint_bytes(first_range) + (ranges_bytes(ranges, 0) + rest),
        ) == Some(
            (
                FrameV::Ack { largest, delay, first_range, ranges },
                varint_len_spec(largest) + varint_len_spec(delay) + varint_len_spec(
                    ranges.len() as u64,
                ) + varint_len_spec(first_range) + ranges_bytes(ranges, 0).len(),
            ),
        ),
{
    let a = varint_bytes(largest);
    let b = varint_bytes(delay);
    let c = varint_bytes(ranges.len() as u64);
    let d = varint_bytes(first_range);
    let e = ranges_bytes(ranges, 0) + rest;
    lemma_varint_bytes_len(largest);
    lemma_varint_bytes_len(delay);
    lemma_varint_bytes_len(ranges.len() as u64);
    lemma_varint_bytes_len(first_range);
    lemma_skip5(a, b, c, d, e);
    crate::varint::lemma_varint_roundtrip(largest, b + c + d + e);
    lemma_skip4(b, c, d, e);
    crate::varint::lemma_varint_roundtrip(delay, c + d + e);
    lemma_skip3(c, d, e);
    crate::varint::lemma_varint_roundtrip(ranges.len() as u64, d + e);
    crate::varint::lemma_varint_roundtrip(first_range, e);
    lemma_ranges_roundtrip(ranges, 0, rest);
    assert(ranges.skip(0) =~= ranges);
}

#[verifier::rlimit(100)]
#[verifier::spinoff_prover]
proof fn lemma_rt_ack(f: FrameV, rest: Seq<u8>)
    requires
        wf_frame(f),
        f is Ack,
    ensures
        frame_decode(frame_bytes(f) + rest) == Some((f, frame_bytes(f).len() as int)),
{
    match f {
        FrameV::Ack { largest, delay, first_range, ranges } => {
            let tb = varint_bytes(0x02);
            let a = varint_bytes(largest);
            let b = varint_bytes(delay);
            let c = varint_bytes(ranges.len() as u64);
            let d = varint_bytes(first_range);
            lemma_varint_bytes_len(largest);
            lemma_varint_bytes_len(delay);
            lemma_varint_bytes_len(ranges.len() as u64);
            lemma_varint_bytes_len(first_range);
            lemma_head6(tb, a, b, c, d, ranges_bytes(ranges, 0) + rest);
            assert(frame_bytes(f) + rest =~= tb + a + b + c + d + (ranges_bytes(ranges, 0)
                + rest));
            crate::varint::lemma_varint_roundtrip(
                0x02,
                a + b + c + d + (ranges_bytes(ranges, 0) + rest),
            );
            lemma_ack_payload(largest, delay, first_range, ranges, rest);
        },
        _ => {},
    }
}

/// Reading back an encoded NEW_CONNECTION_ID body yields its fields.
#[verifier::rlimit(100)]
#[verifier::spinoff_prover]
proof fn lemma_ncid_payload(sequence: u64, retire_prior_to: u64, cid: Seq<u8>, reset_token: Seq<u8>, rest: Seq<u8>)
    requires
        sequence <= MAX_VARINT,
        retire_prior_to <= MAX_VARINT,
        cid.len() <= 20,
        reset_token.len() == 16,
    ensures
        new_cid_payload_decode(
            varint_bytes(sequence) + varint_bytes(retire_prior_to) + seq![cid.len() as u8] + cid
                + (reset_token + rest),
        ) == Some(
            (
                FrameV::NewConnectionId { sequence, retire_prior_to, cid, reset_token },
                varint_len_spec(sequence) + varint_len_spec(retire_prior_to) + 1 + cid.len()
                    + 16,
            ),
        ),
{
    let a = varint_bytes(sequence);
    let b = varint_bytes(retire_prior_to);
    let lenb: Seq<u8> = seq![cid.len() as u8];
    let e = reset_token + rest;
    lemma_varint_bytes_len(sequence);
    lemma_varint_bytes_len(retire_prior_to);
    lemma_skip5(a, b, lenb, cid, e);
    crate::varint::lemma_varint_roundtrip(sequence, b + lenb + cid + e);
    lemma_skip4(b, lenb, cid, e);
    crate::varint::lemma_varint_roundtrip(retire_prior_to, lenb + cid + e);
    let s2 = (a + b + lenb + cid + e).skip(a.len() + b.len() as int);
    assert(s2 == lenb + cid + e);
    assert(s2[0] == cid.len() as u8);
    assert(s2.subrange(1, 1 + cid.len() as int) =~= cid);
    assert(s2.subrange(1 + cid.len() as int, 1 + cid.len() as int + 16) =~= reset_token);
}

#[verifier::rlimit(100)]
#[verifier::spinoff_prover]
proof fn lemma_rt_new_connection_id(f: FrameV, rest: Seq<u8>)
    requires
        wf_frame(f),
        f is NewConnectionId,
    ensures
        frame_decode(frame_bytes(f) + rest) == Some((f, frame_bytes(f).len() as int)),
{
    match f {
        FrameV::NewConnectionId { sequence, retire_prior_to, cid, reset_token } => {
            let tb = varint_bytes(0x18);
            let a = varint_bytes(sequence);
            let b = varint_bytes(retire_prior_to);
            let lenb: Seq<u8> = seq![cid.len() as u8];
            lemma_varint_bytes_len(sequence);
            lemma_varint_bytes_len(retire_prior_to);
            lemma_head6(tb, a, b, lenb, cid, reset_token + rest);
            assert(frame_bytes(f) + rest =~= tb + a + b + lenb + cid + (reset_token + rest));
            crate::varint::lemma_varint_roundtrip(0x18, a + b + lenb + cid + (reset_token + rest));
            lemma_ncid_payload(sequence, retire_prior_to, cid, reset_token, rest);
        },
        _ => {},
    }
}

#[verifier::rlimit(100)]
#[verifier::spinoff_prover]
proof fn lemma_rt_reset_stream(f: FrameV, rest: Seq<u8>)
    requires
        wf_frame(f),
        f is ResetStream,
    ensures
        frame_decode(frame_bytes(f) + rest) == Some((f, frame_bytes(f).len() as int)),
{
    match f {
        FrameV::ResetStream { stream, error_code, final_size } => {
            let tb = varint_bytes(0x04);
            let a = varint_bytes(stream);
            let b = varint_bytes(error_code);
            let c = varint_bytes(final_size);
            lemma_varint_bytes_len(stream);
            lemma_varint_bytes_len(error_code);
            lemma_varint_bytes_len(final_size);
            lemma_skip5(tb, a, b, c, rest);
            crate::varint::lemma_varint_roundtrip(0x04, a + b + c + rest);
            lemma_vd3_roundtrip(stream, error_code, final_size, rest);
        },
        _ => {},
    }
}

proof fn lemma_rt_stop_sending(f: FrameV, rest: Seq<u8>)
    requires
        wf_frame(f),
        f is StopSending,
    ensures
        frame_decode(frame_bytes(f) + rest) == Some((f, frame_bytes(f).len() as int)),
{
    let s = frame_bytes(f) + rest;
    match f {
        FrameV::StopSending { stream, error_code } => {
            let tail = varint_bytes(stream) + varint_bytes(error_code) + rest;
            assert(s =~= varint_bytes(0x05) + tail);
            crate::varint::lemma_varint_roundtrip(0x05, tail);
            assert(s.skip(1) =~= tail);
            lemma_vd2_roundtrip(stream, error_code, rest);
            lemma_varint_bytes_len(stream);
            lemma_varint_bytes_len(error_code);
        },
        _ => {},
    }
}

#[verifier::rlimit(100)]
#[verifier::spinoff_prover]
proof fn lemma_rt_crypto(f: FrameV, rest: Seq<u8>)
    requires
        wf_frame(f),
        f is Crypto,
    ensures
        frame_decode(frame_bytes(f) + rest) == Some((f, frame_bytes(f).len() as int)),
{
    match f {
        FrameV::Crypto { offset, data } => {
            let tb = varint_bytes(0x06);
            let a = varint_bytes(offset);
            let c = varint_bytes(data.len() as u64);
            lemma_varint_bytes_len(offset);
            lemma_varint_bytes_len(data.len() as u64);
            lemma_skip5(tb, a, c, data, rest);
            crate::varint::lemma_varint_roundtrip(0x06, a + c + data + rest);
            lemma_skip4(a, c, data, rest);
            crate::varint::lemma_varint_roundtrip(offset, c + data + rest);
            lemma_vd_bytes_roundtrip(data, rest);
        },
        _ => {},
    }
}

#[verifier::rlimit(100)]
#[verifier::spinoff_prover]
proof fn lemma_rt_new_token(f: FrameV, rest: Seq<u8>)
    requires
        wf_frame(f),
        f is NewToken,
    ensures
        frame_decode(frame_bytes(f) + rest) == Some((f, frame_bytes(f).len() as int)),
{
    let s = frame_bytes(f) + rest;
    match f {
        FrameV::NewToken { token } => {
            let tail = varint_bytes(token.len() as u64) + token + rest;
            assert(s =~= varint_bytes(0x07) + tail);
            crate::varint::lemma_varint_roundtrip(0x07, tail);
            assert(s.skip(1) =~= tail);
            lemma_vd_bytes_roundtrip(token, rest);
            lemma_varint_bytes_len(token.len() as u64);
        },
        _ => {},
    }
}

/// Reading back an encoded STREAM body yields its fields.
#[verifier::rlimit(100)]
#[verifier::spinoff_prover]
proof fn lemma_stream_payload(stream: u64, offset: u64, fin: bool, data: Seq<u8>, rest: Seq<u8>)
    requires
        stream <= MAX_VARINT,
        offset <= MAX_VARINT,
        data.len() <= MAX_VARINT,
    ensures
        stream_payload_decode(
            if fin {
                0x0f
            } else {
                0x0e
            },
            varint_bytes(stream) + varint_bytes(offset) + varint_bytes(data.len() as u64) + data
                + rest,
        ) == Some(
            (
                FrameV::Stream { stream, offset, fin, data },
                varint_len_spec(stream) + varint_len_spec(offset) + varint_len_spec(
                    data.len() as u64,
                ) + data.len(),
            ),
        ),
{
    let t: u64 = if fin {
        0x0f
    } else {
        0x0e
    };
    let a = varint_bytes(stream);
    let b = varint_bytes(offset);
    let c = varint_bytes(data.len() as u64);
    let tail = a + b + c + data + rest;
    assert((t - 0x08) / 4 == 1);
    assert(((t - 0x08) / 2) % 2 == 1);
    lemma_varint_bytes_len(stream);
    lemma_varint_bytes_len(offset);
    lemma_varint_bytes_len(data.len() as u64);
    lemma_skip5(a, b, c, data, rest);
    crate::varint::lemma_varint_roundtrip(stream, b + c + data + rest);
    crate::varint::lemma_varint_roundtrip(offset, c + data + rest);
    lemma_cat3(c, data, rest);
    lemma_vd_bytes_roundtrip(data, rest);
}

#[verifier::rlimit(100)]
#[verifier::spinoff_prover]
proof fn lemma_rt_stream(f: FrameV, rest: Seq<u8>)
    requires
        wf_frame(f),
        f is Stream,
    ensures
        frame_decode(frame_bytes(f) + rest) == Some((f, frame_bytes(f).len() as int)),
{
    match f {
        FrameV::Stream { stream, offset, fin, data } => {
            let t: u64 = if fin {
                0x0f
            } else {
                0x0e
            };
            let tb = varint_bytes(t);
            let a = varint_bytes(stream);
            let b = varint_bytes(offset);
            let c = varint_bytes(data.len() as u64);
            lemma_varint_bytes_len(t);
            lemma_varint_bytes_len(stream);
            lemma_varint_bytes_len(offset);
            lemma_varint_bytes_len(data.len() as u64);
            lemma_head6(tb, a, b, c, data, rest);
            crate::varint::lemma_varint_roundtrip(t, a + b + c + data + rest);
            lemma_stream_payload(stream, offset, fin, data, rest);
        },
        _ => {},
    }
}

proof fn lemma_rt_max_data(f: FrameV, rest: Seq<u8>)
    requires
        wf_frame(f),
        f is MaxData,
    ensures
        frame_decode(frame_bytes(f) + rest) == Some((f, frame_bytes(f).len() as int)),
{
    let s = frame_bytes(f) + rest;
    match f {
        FrameV::MaxData { max } => {
            let tail = varint_bytes(max) + rest;
            assert(s =~= varint_bytes(0x10) + tail);
            crate::varint::lemma_varint_roundtrip(0x10, tail);
            assert(s.skip(1) =~= tail);
            crate::varint::lemma_varint_roundtrip(max, rest);
            lemma_varint_bytes_len(max);
        },
        _ => {},
    }
}

proof fn lemma_rt_max_stream_data(f: FrameV, rest: Seq<u8>)
    requires
        wf_frame(f),
        f is MaxStreamData,
    ensures
        frame_decode(frame_bytes(f) + rest) == Some((f, frame_bytes(f).len() as int)),
{
    let s = frame_bytes(f) + rest;
    match f {
        FrameV::MaxStreamData { stream, max } => {
            let tail = varint_bytes(stream) + varint_bytes(max) + rest;
            assert(s =~= varint_bytes(0x11) + tail);
            crate::varint::lemma_varint_roundtrip(0x11, tail);
            assert(s.skip(1) =~= tail);
            lemma_vd2_roundtrip(stream, max, rest);
            lemma_varint_bytes_len(stream);
            lemma_varint_bytes_len(max);
        },
        _ => {},
    }
}

proof fn lemma_rt_max_streams(f: FrameV, rest: Seq<u8>)
    requires
        wf_frame(f),
        f is MaxStreams,
    ensures
        frame_decode(frame_bytes(f) + rest) == Some((f, frame_bytes(f).len() as int)),
{
    let s = frame_bytes(f) + rest;
    match f {
        FrameV::MaxStreams { dir, max } => {
            let t: u64 = if dir == Dir::Bi {
                0x12
            } else {
                0x13
            };
            let tail = varint_bytes(max) + rest;
            assert(s =~= varint_bytes(t) + tail);
            crate::varint::lemma_varint_roundtrip(t, tail);
            assert(s.skip(1) =~= tail);
            crate::varint::lemma_varint_roundtrip(max, rest);
            lemma_varint_bytes_len(max);
        },
        _ => {},
    }
}

proof fn lemma_rt_data_blocked(f: FrameV, rest: Seq<u8>)
    requires
        wf_frame(f),
        f is DataBlocked,
    ensures
        frame_decode(frame_bytes(f) + rest) == Some((f, frame_bytes(f).len() as int)),
{
    let s = frame_bytes(f) + rest;
    match f {
        FrameV::DataBlocked { limit } => {
            let tail = varint_bytes(limit) + rest;
            assert(s =~= varint_bytes(0x14) + tail);
            crate::varint::lemma_varint_roundtrip(0x14, tail);
            assert(s.skip(1) =~= tail);
            crate::varint::lemma_varint_roundtrip(limit, rest);
            lemma_varint_bytes_len(limit);
        },
        _ => {},
    }
}

proof fn lemma_rt_stream_data_blocked(f: FrameV, rest: Seq<u8>)
    requires
        wf_frame(f),
        f is StreamDataBlocked,
    ensures
        frame_decode(frame_bytes(f) + rest) == Some((f, frame_bytes(f).len() as int)),
{
    let s = frame_bytes(f) + rest;
    match f {
        FrameV::StreamDataBlocked { stream, limit } => {
            let tail = varint_bytes(stream) + varint_bytes(limit) + rest;
            assert(s =~= varint_bytes(0x15) + tail);
            crate::varint::lemma_varint_roundtrip(0x15, tail);
            assert(s.skip(1) =~= tail);
            lemma_vd2_roundtrip(stream, limit, rest);
            lemma_varint_bytes_len(stream);
            lemma_varint_bytes_len(limit);
        },
        _ => {},
    }
}

proof fn lemma_rt_streams_blocked(f: FrameV, rest: Seq<u8>)
    requires
        wf_frame(f),
        f is StreamsBlocked,
    ensures
        frame_decode(frame_bytes(f) + rest) == Some((f, frame_bytes(f).len() as int)),
{
    let s = frame_bytes(f) + rest;
    match f {
        FrameV::StreamsBlocked { dir, limit } => {
            let t: u64 = if dir == Dir::Bi {
                0x16
            } else {
                0x17
            };
            let tail = varint_bytes(limit) + rest;
            assert(s =~= varint_bytes(t) + tail);
            crate::varint::lemma_varint_roundtrip(t, tail);
            assert(s.skip(1) =~= tail);
            crate::varint::lemma_varint_roundtrip(limit, rest);
            lemma_varint_bytes_len(limit);
        },
        _ => {},
    }
}

proof fn lemma_rt_retire_connection_id(f: FrameV, rest: Seq<u8>)
    requires
        wf_frame(f),
        f is RetireConnectionId,
    ensures
        frame_decode(frame_bytes(f) + rest) == Some((f, frame_bytes(f).len() as int)),
{
    let s = frame_bytes(f) + rest;
    match f {
        FrameV::RetireConnectionId { sequence } => {
            let tail = varint_bytes(sequence) + rest;
            assert(s =~= varint_bytes(0x19) + tail);
            crate::varint::lemma_varint_roundtrip(0x19, tail);
            assert(s.skip(1) =~= tail);
            crate::varint::lemma_varint_roundtrip(sequence, rest);
            lemma_varint_bytes_len(sequence);
        },
        _ => {},
    }
}

proof fn lemma_rt_path_challenge(f: FrameV, rest: Seq<u8>)
    requires
        wf_frame(f),
        f is PathChallenge,
    ensures
        frame_decode(frame_bytes(f) + rest) == Some((f, frame_bytes(f).len() as int)),
{
    let s = frame_bytes(f) + rest;
    match f {
        FrameV::PathChallenge { token } => {
            let tail = token + rest;
            assert(s =~= varint_bytes(0x1a) + tail);
            crate::varint::lemma_varint_roundtrip(0x1a, tail);
            assert(s.skip(1) =~= tail);
            assert(tail.take(8) =~= token);
        },
        _ => {},
    }
}

proof fn lemma_rt_path_response(f: FrameV, rest: Seq<u8>)
    requires
        wf_frame(f),
        f is PathResponse,
    ensures
        frame_decode(frame_bytes(f) + rest) == Some((f, frame_bytes(f).len() as int)),
{
    let s = frame_bytes(f) + rest;
    match f {
        FrameV::PathResponse { token } => {
            let tail = token + rest;
            assert(s =~= varint_bytes(0x1b) + tail);
            crate::varint::lemma_varint_roundtrip(0x1b, tail);
            assert(s.skip(1) =~= tail);
            assert(tail.take(8) =~= token);
        },
        _ => {},
    }
}

/// Reading back an encoded transport-level CONNECTION_CLOSE body yields
/// its fields.
#[verifier::rlimit(100)]
#[verifier::spinoff_prover]
proof fn lemma_cc_payload_some(error_code: u64, ft: u64, reason: Seq<u8>, rest: Seq<u8>)
    requires
        error_code <= MAX_VARINT,
        ft <= MAX_VARINT,
        reason.len() <= MAX_VARINT,
    ensures
        close_transport_payload_decode(
            varint_bytes(error_code) + varint_bytes(ft) + varint_bytes(reason.len() as u64)
                + reason + rest,
        ) == Some(
            (
                FrameV::ConnectionClose { error_code, frame_type: Some(ft), reason },
                varint_len_spec(error_code) + varint_len_spec(ft) + varint_len_spec(
                    reason.len() as u64,
                ) + reason.len(),
            ),
        ),
{
    let a = varint_bytes(error_code);
    let b = varint_bytes(ft);
    let c = varint_bytes(reason.len() as u64);
    lemma_varint_bytes_len(error_code);
    lemma_varint_bytes_len(ft);
    lemma_varint_bytes_len(reason.len() as u64);
    lemma_skip5(a, b, c, reason, rest);
    crate::varint::lemma_varint_roundtrip(error_code, b + c + reason + rest);
    lemma_skip4(b, c, reason, rest);
    crate::varint::lemma_varint_roundtrip(ft, c + reason + rest);
    lemma_vd_bytes_roundtrip(reason, rest);
}

/// Reading back an encoded application-level CONNECTION_CLOSE body yields
/// its fields.
#[verifier::rlimit(100)]
#[verifier::spinoff_prover]
proof fn lemma_cc_payload_none(error_code: u64, reason: Seq<u8>, rest: Seq<u8>)
    requires
        error_code <= MAX_VARINT,
        reason.len() <= MAX_VARINT,
    ensures
        close_application_payload_decode(
            varint_bytes(error_code) + varint_bytes(reason.len() as u64) + reason + rest,
        ) == Some(
            (
                FrameV::ConnectionClose { error_code, frame_type: None, reason },
                varint_len_spec(error_code) + varint_len_spec(reason.len() as u64)
                    + reason.len(),
            ),
        ),
{
    let a = varint_bytes(error_code);
    let c = varint_bytes(reason.len() as u64);
    lemma_varint_bytes_len(error_code);
    lemma_varint_bytes_len(reason.len() as u64);
    lemma_skip4(a, c, reason, rest);
    crate::varint::lemma_varint_roundtrip(error_code, c + reason + rest);
    lemma_vd_bytes_roundtrip(reason, rest);
}

#[verifier::rlimit(100)]
#[verifier::spinoff_prover]
proof fn lemma_rt_connection_close(f: FrameV, rest: Seq<u8>)
    requires
        wf_frame(f),
        f is ConnectionClose,
    ensures
        frame_decode(frame_bytes(f) + rest) == Some((f, frame_bytes(f).len() as int)),
{
    match f {
        FrameV::ConnectionClose { error_code, frame_type, reason } => {
            let a = varint_bytes(error_code);
            let c = varint_bytes(reason.len() as u64);
            lemma_varint_bytes_len(error_code);
            lemma_varint_bytes_len(reason.len() as u64);
            match frame_type {
                Some(ft) => {
                    let t = varint_bytes(0x1c);
                    let b = varint_bytes(ft);
                    lemma_varint_bytes_len(ft);
                    lemma_head6(t, a, b, c, reason, rest);
                    crate::varint::lemma_varint_roundtrip(0x1c, a + b + c + reason + rest);
                    lemma_cc_payload_some(error_code, ft, reason, rest);
                },
                None => {
                    let t = varint_bytes(0x1d);
                    lemma_skip5(t, a, c, reason, rest);
                    crate::varint::lemma_varint_roundtrip(0x1d, a + c + reason + rest);
                    lemma_cc_payload_none(error_code, reason, rest);
                },
            }
        },
        _ => {},
    }
}

#[verifier::rlimit(100)]
#[verifier::spinoff_prover]
proof fn lemma_rt_datagram(f: FrameV, rest: Seq<u8>)
    requires
        wf_frame(f),
        f is Datagram,
    ensures
        frame_decode(frame_bytes(f) + rest) == Some((f, frame_bytes(f).len() as int)),
{
    let s = frame_bytes(f) + rest;
    match f {
        FrameV::Datagram { data } => {
            let tail = varint_bytes(data.len() as u64) + data + rest;
            assert(s =~= varint_bytes(0x31) + tail);
            crate::varint::lemma_varint_roundtrip(0x31, tail);
            assert(s.skip(1) =~= tail);
            lemma_vd_bytes_roundtrip(data, rest);
            lemma_varint_bytes_len(data.len() as u64);
        },
        _ => {},
    }
}

/// Appends the bytes of `data`.
fn push_bytes(buf: &mut Vec<u8>, data: &[u8])
    ensures
        final(buf)@ == old(buf)@ + data@,
{
    let mut i: usize = 0;
    while i < data.len()
        invariant
            i <= data@.len(),
            buf@ == old(buf)@ + data@.take(i as int),
        decreases data@.len() - i,
    {
        buf.push(data[i]);
        proof {
            assert(buf@ =~= old(buf)@ + data@.take(i + 1));
        }
        i = i + 1;
    }
    proof {
        assert(buf@ =~= old(buf)@ + data@);
    }
}

/// Appends the shortest encoding of `v`.
fn push_varint(buf: &mut Vec<u8>, v: u64)
    requires
        v <= MAX_VARINT,
    ensures
        final(buf)@ == old(buf)@ + varint_bytes(v),
{
    match VarInt::new(v) {
        Ok(vi) => {
            encode_varint(&vi, buf);
        },
        Err(_) => {
            proof {
                assert(false);
            }
        },
    }
}

/// Appends the canonical wire form of a frame.
#[verifier::rlimit(100)]
#[verifier::spinoff_prover]
pub fn encode_frame(f: &Frame, buf: &mut Vec<u8>)
    requires
        wf_frame(f@),
    ensures
        final(buf)@ == old(buf)@ + frame_bytes(f@),
{
    match f {
        Frame::Padding => {
            push_varint(buf, 0x00);
        },
        Frame::Ping => {
            push_varint(buf, 0x01);
        },
        Frame::Ack { largest, delay, first_range, ranges } => {
            push_varint(buf, 0x02);
            push_varint(buf, *largest);
            push_varint(buf, *delay);
            push_varint(buf, ranges.len() as u64);
            push_varint(buf, *first_range);
            let ghost base = buf@;
            let mut i: usize = 0;
            while i < ranges.len()
                invariant
                    i <= ranges@.len(),
                    buf@ == base + ranges_bytes_upto(ranges@, i as int),
                    forall|j: int|
                        0 <= j < ranges@.len() ==> ranges@[j].gap <= MAX_VARINT
                            && ranges@[j].length <= MAX_VARINT,
                decreases ranges@.len() - i,
            {
                let r = ranges[i];
                push_varint(buf, r.gap);
                push_varint(buf, r.length);
                proof {
                    assert(buf@ =~= base + ranges_bytes_upto(ranges@, i + 1));
                }
                i = i + 1;
            }
            proof {
                lemma_ranges_split(ranges@, ranges@.len() as int);
                assert(ranges_bytes_upto(ranges@, ranges@.len() as int) + ranges_bytes(
                    ranges@,
                    ranges@.len() as int,
                ) =~= ranges_bytes_upto(ranges@, ranges@.len() as int));
                assert(buf@ =~= old(buf)@ + frame_bytes(f@));
            }
        },
        Frame::NewConnectionId { sequence, retire_prior_to, cid, reset_token } => {
            push_varint(buf, 0x18);
            push_varint(buf, *sequence);
            push_varint(buf, *retire_prior_to);
            buf.push(cid.len() as u8);
            push_bytes(buf, cid.as_slice());
            push_bytes(buf, reset_token.as_slice());
            proof {
                assert(buf@ =~= old(buf)@ + frame_bytes(f@));
            }
        },
        Frame::ResetStream { stream, error_code, final_size } => {
            push_varint(buf, 0x04);
            push_varint(buf, *stream);
            push_varint(buf, *error_code);
            push_varint(buf, *final_size);
            proof {
                assert(buf@ =~= old(buf)@ + frame_bytes(f@));
            }
        },
        Frame::StopSending { stream, error_code } => {
            push_varint(buf, 0x05);
            push_varint(buf, *stream);
            push_varint(buf, *error_code);
            proof {
                assert(buf@ =~= old(buf)@ + frame_bytes(f@));
            }
        },
        Frame::Crypto { offset, data } => {
            push_varint(buf, 0x06);
            push_varint(buf, *offset);
            push_varint(buf, data.len() as u64);
            push_bytes(buf, data.as_slice());
            proof {
                assert(buf@ =~= old(buf)@ + frame_bytes(f@));
            }
        },
        Frame::NewToken { token } => {
            push_varint(buf, 0x07);
            push_varint(buf, token.len() as u64);
            push_bytes(buf, token.as_slice());
            proof {
                assert(buf@ =~= old(buf)@ + frame_bytes(f@));
            }
        },
        Frame::Stream { stream, offset, fin, data } => {
            push_varint(
                buf,
                if *fin {
                    0x0f
                } else {
                    0x0e
                },
            );
            push_varint(buf, *stream);
            push_varint(buf, *offset);
            push_varint(buf, data.len() as u64);
            push_bytes(buf, data.as_slice());
            proof {
                assert(buf@ =~= old(buf)@ + frame_bytes(f@));
            }
        },
        Frame::MaxData { max } => {
            push_varint(buf, 0x10);
            push_varint(buf, *max);
            proof {
                assert(buf@ =~= old(buf)@ + frame_bytes(f@));
            }
        },
        Frame::MaxStreamData { stream, max } => {
            push_varint(buf, 0x11);
            push_varint(buf, *stream);
            push_varint(buf, *max);
            proof {
                assert(buf@ =~= old(buf)@ + frame_bytes(f@));
            }
        },
        Frame::MaxStreams { dir, max } => {
            push_varint(
                buf,
                if *dir == Dir::Bi {
                    0x12
                } else {
                    0x13
                },
            );
            push_varint(buf, *max);
            proof {
                assert(buf@ =~= old(buf)@ + frame_bytes(f@));
            }
        },
        Frame::DataBlocked { limit } => {
            push_varint(buf, 0x14);
            push_varint(buf, *limit);
            proof {
                assert(buf@ =~= old(buf)@ + frame_bytes(f@));
            }
        },
        Frame::StreamDataBlocked { stream, limit } => {
            push_varint(buf, 0x15);
            push_varint(buf, *stream);
            push_varint(buf, *limit);
            proof {
                assert(buf@ =~= old(buf)@ + frame_bytes(f@));
            }
        },
        Frame::StreamsBlocked { dir, limit } => {
            push_varint(
                buf,
                if *dir == Dir::Bi {
                    0x16
                } else {
                    0x17
                },
            );
            push_varint(buf, *limit);
            proof {
                assert(buf@ =~= old(buf)@ + frame_bytes(f@));
            }
        },
        Frame::RetireConnectionId { sequence } => {
            push_varint(buf, 0x19);
            push_varint(buf, *sequence);
            proof {
                assert(buf@ =~= old(buf)@ + frame_bytes(f@));
            }
        },
        Frame::PathChallenge { token } => {
            push_varint(buf, 0x1a);
            push_bytes(buf, token.as_slice());
            proof {
                assert(buf@ =~= old(buf)@ + frame_bytes(f@));
            }
        },
        Frame::PathResponse { token } => {
            push_varint(buf, 0x1b);
            push_bytes(buf, token.as_slice());
            proof {
                assert(buf@ =~= old(buf)@ + frame_bytes(f@));
            }
        },
        Frame::ConnectionClose { error_code, frame_type, reason } => {
            match frame_type {
                Some(ft) => {
                    push_varint(buf, 0x1c);
                    push_varint(buf, *error_code);
                    push_varint(buf, *ft);
                    push_varint(buf, reason.len() as u64);
                    push_bytes(buf, reason.as_slice());
                },
                None => {
                    push_varint(buf, 0x1d);
                    push_varint(buf, *error_code);
                    push_varint(buf, reason.len() as u64);
                    push_bytes(buf, reason.as_slice());
                },
            }
            proof {
                assert(buf@ =~= old(buf)@ + frame_bytes(f@));
            }
        },
        Frame::HandshakeDone => {
            push_varint(buf, 0x1e);
        },
        Frame::Datagram { data } => {
            push_varint(buf, 0x31);
            push_varint(buf, data.len() as u64);
            push_bytes(buf, data.as_slice());
            proof {
                assert(buf@ =~= old(buf)@ + frame_bytes(f@));
            }
        },
    }
}

/// Reads a length-prefixed byte row at `p`, returning the bytes and the
/// position just past them.
fn read_vd_bytes(buf: &[u8], p: usize) -> (r: Option<(Vec<u8>, usize)>)
    requires
        p <= buf@.len(),
    ensures
        match vd_bytes(buf@.skip(p as int)) {
            None => r is None,
            Some((data, m)) => (r matches Some(q) && q.0@ == data && q.1 == p + m),
        },
{
    let ghost s = buf@.skip(p as int);
    let (len_vi, p1) = match decode_varint(buf, p) {
        Some(x) => x,
        None => {
            return None;
        },
    };
    let len = len_vi.into_u64();
    proof {
        assert(s.skip(p1 - p) =~= buf@.skip(p1 as int));
    }
    let avail = buf.len() - p1;
    if len > avail as u64 {
        return None;
    }
    let end = p1 + len as usize;
    let data = vstd::slice::slice_to_vec(&buf[p1..end]);
    proof {
        assert(data@ =~= s.skip(p1 - p).take(len as int));
    }
    Some((data, end))
}

/// Reads the rest of the input from `p` on.
fn read_rest(buf: &[u8], p: usize) -> (r: Vec<u8>)
    requires
        p <= buf@.len(),
    ensures
        r@ == buf@.skip(p as int),
{
    let data = vstd::slice::slice_to_vec(&buf[p..buf.len()]);
    proof {
        assert(data@ =~= buf@.skip(p as int));
    }
    data
}

/// Decodes the body of a STREAM frame whose type identifier is `t`.
#[verifier::rlimit(100)]
#[verifier::spinoff_prover]
fn decode_stream_payload(t: u64, buf: &[u8], p0: usize) -> (r: Option<(Frame, usize)>)
    requires
        p0 <= buf@.len(),
        0x08 <= t <= 0x0f,
    ensures
        match stream_payload_decode(t, buf@.skip(p0 as int)) {
            None => r is None,
            Some((fv, m)) => (r matches Some(q) && q.0@ == fv && q.1 == p0 + m),
        },
{
    let ghost s = buf@.skip(p0 as int);
    let rel = t - 0x08;
    let has_off = rel / 4 == 1;
    let has_len = (rel / 2) % 2 == 1;
    let fin = rel % 2 == 1;
    let (stream_vi, p1) = match decode_varint(buf, p0) {
        Some(x) => x,
        None => {
            return None;
        },
    };
    proof {
        assert(s.skip(p1 - p0) =~= buf@.skip(p1 as int));
    }
    let (offset, p2) = if has_off {
        match decode_varint(buf, p1) {
            Some((o, q)) => (o.into_u64(), q),
            None => {
                return None;
            },
        }
    } else {
        (0u64, p1)
    };
    proof {
        assert(s.skip(p2 - p0) =~= buf@.skip(p2 as int));
    }
    if has_len {
        let (data, p3) = match read_vd_bytes(buf, p2) {
            Some(x) => x,
            None => {
                return None;
            },
        };
        Some((
            Frame::Stream { stream: stream_vi.into_u64(), offset, fin, data },
            p3,
        ))
    } else {
        let data = read_rest(buf, p2);
        Some((
            Frame::Stream { stream: stream_vi.into_u64(), offset, fin, data },
            buf.len(),
        ))
    }
}

/// Reads `count` acknowledgement ranges starting at `p0`.
#[verifier::rlimit(100)]
#[verifier::spinoff_prover]
fn decode_ranges(buf: &[u8], p0: usize, count: u64) -> (r: Option<(Vec<AckRange>, usize)>)
    requires
        p0 <= buf@.len(),
    ensures
        match ranges_decode(buf@.skip(p0 as int), count) {
            None => r is None,
            Some((rs, m)) => (r matches Some(q) && q.0@ == rs && q.1 == p0 + m),
        },
{
    let mut ranges: Vec<AckRange> = Vec::new();
    let mut left = count;
    let mut p = p0;
    loop
        invariant_except_break
            left <= count,
            p0 <= p <= buf@.len(),
            ranges@.len() == count - left,
            (match ranges_decode(buf@.skip(p0 as int), count) {
                None => ranges_decode(buf@.skip(p as int), left) is None,
                Some((all, m)) => (match ranges_decode(buf@.skip(p as int), left) {
                    None => false,
                    Some((tail, k)) => all == ranges@ + tail && m == (p - p0) + k,
                }),
            }),
        ensures
            left == 0,
            p0 <= p <= buf@.len(),
            (match ranges_decode(buf@.skip(p0 as int), count) {
                None => false,
                Some((all, m)) => all == ranges@ && m == p - p0,
            }),
        decreases left,
    {
        if left == 0 {
            proof {
                assert(ranges@ + Seq::<AckRange>::empty() =~= ranges@);
            }
            break ;
        }
        let ghost s_cur = buf@.skip(p as int);
        let (gap, q1) = match decode_varint(buf, p) {
            Some(x) => x,
            None => {
                return None;
            },
        };
        proof {
            assert(s_cur.skip(q1 - p) =~= buf@.skip(q1 as int));
        }
        let (length, q2) = match decode_varint(buf, q1) {
            Some(x) => x,
            None => {
                return None;
            },
        };
        proof {
            assert(s_cur.skip(q2 - p) =~= buf@.skip(q2 as int));
        }
        let ghost pre_ranges = ranges@;
        let r = AckRange { gap: gap.into_u64(), length: length.into_u64() };
        ranges.push(r);
        proof {
            assert(ranges@ =~= pre_ranges + seq![r]);
            let rd = ranges_decode(buf@.skip(p as int), left);
            if rd is Some {
                let tail_old = rd->Some_0.0;
                // one step of the range list: the head is the range just read
                assert(tail_old =~= seq![r] + tail_old.skip(1));
                assert(pre_ranges + tail_old =~= ranges@ + tail_old.skip(1));
            }
        }
        p = q2;
        left = left - 1;
    }
    Some((ranges, p))
}

/// Decodes the body of an ACK frame.
#[verifier::rlimit(100)]
#[verifier::spinoff_prover]
fn decode_ack_payload(buf: &[u8], p0: usize) -> (r: Option<(Frame, usize)>)
    requires
        p0 <= buf@.len(),
    ensures
        match ack_payload_decode(buf@.skip(p0 as int)) {
            None => r is None,
            Some((fv, m)) => (r matches Some(q) && q.0@ == fv && q.1 == p0 + m),
        },
{
    let ghost s = buf@.skip(p0 as int);
    let (largest, p1) = match decode_varint(buf, p0) {
        Some(x) => x,
        None => {
            return None;
        },
    };
    proof {
        assert(s.skip(p1 - p0) =~= buf@.skip(p1 as int));
    }
    let (delay, p2) = match decode_varint(buf, p1) {
        Some(x) => x,
        None => {
            return None;
        },
    };
    proof {
        assert(s.skip(p2 - p0) =~= buf@.skip(p2 as int));
    }
    let (count_vi, p3) = match decode_varint(buf, p2) {
        Some(x) => x,
        None => {
            return None;
        },
    };
    proof {
        assert(s.skip(p3 - p0) =~= buf@.skip(p3 as int));
    }
    let (first, p4) = match decode_varint(buf, p3) {
        Some(x) => x,
        None => {
            return None;
        },
    };
    proof {
        assert(s.skip(p4 - p0) =~= buf@.skip(p4 as int));
    }
    let count = count_vi.into_u64();
    let (ranges, p) = match decode_ranges(buf, p4, count) {
        Some(x) => x,
        None => {
            return None;
        },
    };
    Some((
        Frame::Ack {
            largest: largest.into_u64(),
            delay: delay.into_u64(),
            first_range: first.into_u64(),
            ranges,
        },
        p,
    ))
}

/// Decodes the body of a NEW_CONNECTION_ID frame.
#[verifier::rlimit(100)]
#[verifier::spinoff_prover]
fn decode_new_cid_payload(buf: &[u8], p0: usize) -> (r: Option<(Frame, usize)>)
    requires
        p0 <= buf@.len(),
    ensures
        match new_cid_payload_decode(buf@.skip(p0 as int)) {
            None => r is None,
            Some((fv, m)) => (r matches Some(q) && q.0@ == fv && q.1 == p0 + m),
        },
{
    let ghost s = buf@.skip(p0 as int);
    let (a, p1) = match decode_varint(buf, p0) {
        Some(x) => x,
        None => {
            return None;
        },
    };
    proof {
        assert(s.skip(p1 - p0) =~= buf@.skip(p1 as int));
    }
    let (b, p2) = match decode_varint(buf, p1) {
        Some(x) => x,
        None => {
            return None;
        },
    };
    proof {
        assert(s.skip(p2 - p0) =~= buf@.skip(p2 as int));
    }
    if buf.len() - p2 < 1 {
        return None;
    }
    let cl = buf[p2];
    if cl > 20 {
        return None;
    }
    if buf.len() - p2 - 1 < cl as usize + 16 {
        return None;
    }
    let cid = vstd::slice::slice_to_vec(&buf[p2 + 1..p2 + 1 + cl as usize]);
    let reset_token = vstd::slice::slice_to_vec(
        &buf[p2 + 1 + cl as usize..p2 + 1 + cl as usize + 16],
    );
    proof {
        let s2 = s.skip(p2 - p0);
        assert(s2[0] == cl);
        assert(cid@ =~= s2.subrange(1, 1 + cl as int));
        assert(reset_token@ =~= s2.subrange(1 + cl as int, 1 + cl as int + 16));
    }
    Some((
        Frame::NewConnectionId {
            sequence: a.into_u64(),
            retire_prior_to: b.into_u64(),
            cid,
            reset_token,
        },
        p2 + 1 + cl as usize + 16,
    ))
}

/// Decodes the body of a frame whose type identifier is `t`, for the
/// types up to STREAM.
#[verifier::rlimit(100)]
#[verifier::spinoff_prover]
fn decode_frame_payload_low(t: u64, buf: &[u8], p0: usize) -> (r: Option<(Frame, usize)>)
    requires
        p0 <= buf@.len(),
        t <= 0x0f,
    ensures
        match frame_payload_decode(t, buf@.skip(p0 as int)) {
            None => r is None,
            Some((fv, m)) => (r matches Some(q) && q.0@ == fv && q.1 == p0 + m),
        },
{
    let ghost s = buf@.skip(p0 as int);
    if t == 0x00 {
        Some((Frame::Padding, p0))
    } else if t == 0x01 {
        Some((Frame::Ping, p0))
    } else if t == 0x02 {
        decode_ack_payload(buf, p0)
    } else if t == 0x04 {
        let (a, p1) = match decode_varint(buf, p0) {
            Some(x) => x,
            None => {
                return None;
            },
        };
        proof {
            assert(s.skip(p1 - p0) =~= buf@.skip(p1 as int));
        }
        let (b, p2) = match decode_varint(buf, p1) {
            Some(x) => x,
            None => {
                return None;
            },
        };
        proof {
            assert(s.skip(p2 - p0) =~= buf@.skip(p2 as int));
        }
        let (c, p3) = match decode_varint(buf, p2) {
            Some(x) => x,
            None => {
                return None;
            },
        };
        Some((
            Frame::ResetStream {
                stream: a.into_u64(),
                error_code: b.into_u64(),
                final_size: c.into_u64(),
            },
            p3,
        ))
    } else if t == 0x05 {
        let (a, p1) = match decode_varint(buf, p0) {
            Some(x) => x,
            None => {
                return None;
            },
        };
        proof {
            assert(s.skip(p1 - p0) =~= buf@.skip(p1 as int));
        }
        let (b, p2) = match decode_varint(buf, p1) {
            Some(x) => x,
            None => {
                return None;
            },
        };
        Some((Frame::StopSending { stream: a.into_u64(), error_code: b.into_u64() }, p2))
    } else if t == 0x06 {
        let (a, p1) = match decode_varint(buf, p0) {
            Some(x) => x,
            None => {
                return None;
            },
        };
        proof {
            assert(s.skip(p1 - p0) =~= buf@.skip(p1 as int));
        }
        let (data, p2) = match read_vd_bytes(buf, p1) {
            Some(x) => x,
            None => {
                return None;
            },
        };
        Some((Frame::Crypto { offset: a.into_u64(), data }, p2))
    } else if t == 0x07 {
        let (token, p1) = match read_vd_bytes(buf, p0) {
            Some(x) => x,
            None => {
                return None;
            },
        };
        Some((Frame::NewToken { token }, p1))
    } else if 0x08 <= t && t <= 0x0f {
        decode_stream_payload(t, buf, p0)
    } else {
        None
    }
}

/// Decodes the body of a frame whose type identifier is `t`, for the
/// flow-control and stream-limit types.
#[verifier::rlimit(100)]
#[verifier::spinoff_prover]
fn decode_frame_payload_high(t: u64, buf: &[u8], p0: usize) -> (r: Option<(Frame, usize)>)
    requires
        p0 <= buf@.len(),
        0x10 <= t <= 0x17,
    ensures
        match frame_payload_decode(t, buf@.skip(p0 as int)) {
            None => r is None,
            Some((fv, m)) => (r matches Some(q) && q.0@ == fv && q.1 == p0 + m),
        },
{
    let ghost s = buf@.skip(p0 as int);
    if t == 0x10 {
        let (a, p1) = match decode_varint(buf, p0) {
            Some(x) => x,
            None => {
                return None;
            },
        };
        Some((Frame::MaxData { max: a.into_u64() }, p1))
    } else if t == 0x11 {
        let (a, p1) = match decode_varint(buf, p0) {
            Some(x) => x,
            None => {
                return None;
            },
        };
        proof {
            assert(s.skip(p1 - p0) =~= buf@.skip(p1 as int));
        }
        let (b, p2) = match decode_varint(buf, p1) {
            Some(x) => x,
            None => {
                return None;
            },
        };
        Some((Frame::MaxStreamData { stream: a.into_u64(), max: b.into_u64() }, p2))
    } else if t == 0x12 || t == 0x13 {
        let (a, p1) = match decode_varint(buf, p0) {
            Some(x) => x,
            None => {
                return None;
            },
        };
        let dir = if t == 0x12 {
            Dir::Bi
        } else {
            Dir::Uni
        };
        Some((Frame::MaxStreams { dir, max: a.into_u64() }, p1))
    } else if t == 0x14 {
        let (a, p1) = match decode_varint(buf, p0) {
            Some(x) => x,
            None => {
                return None;
            },
        };
        Some((Frame::DataBlocked { limit: a.into_u64() }, p1))
    } else if t == 0x15 {
        let (a, p1) = match decode_varint(buf, p0) {
            Some(x) => x,
            None => {
                return None;
            },
        };
        proof {
            assert(s.skip(p1 - p0) =~= buf@.skip(p1 as int));
        }
        let (b, p2) = match decode_varint(buf, p1) {
            Some(x) => x,
            None => {
                return None;
            },
        };
        Some((Frame::StreamDataBlocked { stream: a.into_u64(), limit: b.into_u64() }, p2))
    } else if t == 0x16 || t == 0x17 {
        let (a, p1) = match decode_varint(buf, p0) {
            Some(x) => x,
            None => {
                return None;
            },
        };
        let dir = if t == 0x16 {
            Dir::Bi
        } else {
            Dir::Uni
        };
        Some((Frame::StreamsBlocked { dir, limit: a.into_u64() }, p1))
    } else {
        None
    }
}

/// Decodes the body of a frame whose type identifier is `t`, for the
/// connection-management types.
#[verifier::rlimit(100)]
#[verifier::spinoff_prover]
fn decode_frame_payload_top(t: u64, buf: &[u8], p0: usize) -> (r: Option<(Frame, usize)>)
    requires
        p0 <= buf@.len(),
        t >= 0x18,
    ensures
        match frame_payload_decode(t, buf@.skip(p0 as int)) {
            None => r is None,
            Some((fv, m)) => (r matches Some(q) && q.0@ == fv && q.1 == p0 + m),
        },
{
    let ghost s = buf@.skip(p0 as int);
    if t == 0x18 {
        decode_new_cid_payload(buf, p0)
    } else if t == 0x19 {
        let (a, p1) = match decode_varint(buf, p0) {
            Some(x) => x,
            None => {
                return None;
            },
        };
        Some((Frame::RetireConnectionId { sequence: a.into_u64() }, p1))
    } else if t == 0x1a || t == 0x1b {
        if buf.len() - p0 < 8 {
            return None;
        }
        let token = vstd::slice::slice_to_vec(&buf[p0..p0 + 8]);
        proof {
            assert(token@ =~= s.take(8));
        }
        if t == 0x1a {
            Some((Frame::PathChallenge { token }, p0 + 8))
        } else {
            Some((Frame::PathResponse { token }, p0 + 8))
        }
    } else if t == 0x1c {
        let (a, p1) = match decode_varint(buf, p0) {
            Some(x) => x,
            None => {
                return None;
            },
        };
        proof {
            assert(s.skip(p1 - p0) =~= buf@.skip(p1 as int));
        }
        let (b, p2) = match decode_varint(buf, p1) {
            Some(x) => x,
            None => {
                return None;
            },
        };
        proof {
            assert(s.skip(p2 - p0) =~= buf@.skip(p2 as int));
        }
        let (reason, p3) = match read_vd_bytes(buf, p2) {
            Some(x) => x,
            None => {
                return None;
            },
        };
        Some((
            Frame::ConnectionClose {
                error_code: a.into_u64(),
                frame_type: Some(b.into_u64()),
                reason,
            },
            p3,
        ))
    } else if t == 0x1d {
        let (a, p1) = match decode_varint(buf, p0) {
            Some(x) => x,
            None => {
                return None;
            },
        };
        proof {
            assert(s.skip(p1 - p0) =~= buf@.skip(p1 as int));
        }
        let (reason, p2) = match read_vd_bytes(buf, p1) {
            Some(x) => x,
            None => {
                return None;
            },
        };
        Some((
            Frame::ConnectionClose { error_code: a.into_u64(), frame_type: None, reason },
            p2,
        ))
    } else if t == 0x1e {
        Some((Frame::HandshakeDone, p0))
    } else if t == 0x30 {
        let data = read_rest(buf, p0);
        Some((Frame::Datagram { data }, buf.len()))
    } else if t == 0x31 {
        let (data, p1) = match read_vd_bytes(buf, p0) {
            Some(x) => x,
            None => {
                return None;
            },
        };
        Some((Frame::Datagram { data }, p1))
    } else {
        None
    }
}

/// Decodes the body of a frame whose type identifier is `t`.
fn decode_frame_payload(t: u64, buf: &[u8], p0: usize) -> (r: Option<(Frame, usize)>)
    requires
        p0 <= buf@.len(),
    ensures
        match frame_payload_decode(t, buf@.skip(p0 as int)) {
            None => r is None,
            Some((fv, m)) => (r matches Some(q) && q.0@ == fv && q.1 == p0 + m),
        },
{
    if t <= 0x0f {
        decode_frame_payload_low(t, buf, p0)
    } else if t <= 0x17 {
        decode_frame_payload_high(t, buf, p0)
    } else {
        decode_frame_payload_top(t, buf, p0)
    }
}

/// Reads one frame starting at `start`, returning it with the position
/// just past it, or `None` on truncated input or a reserved type: a
/// FRAME_ENCODING_ERROR, never a panic.
pub fn decode_frame(buf: &[u8], start: usize) -> (r: Option<(Frame, usize)>)
    requires
        start <= buf@.len(),
    ensures
        match frame_decode(buf@.skip(start as int)) {
            None => r is None,
            Some((fv, n)) => (r matches Some(p) && p.0@ == fv && p.1 == start + n),
        },
{
    let ghost s = buf@.skip(start as int);
    let (t_vi, p0) = match decode_varint(buf, start) {
        Some(x) => x,
        None => {
            return None;
        },
    };
    proof {
        assert(s.skip(p0 - start) =~= buf@.skip(p0 as int));
    }
    decode_frame_payload(t_vi.into_u64(), buf, p0)
}

} // verus!
