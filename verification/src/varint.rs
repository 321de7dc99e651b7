//! QUIC variable-length integers: values below `2^62`, carried on the wire
//! in 1, 2, 4 or 8 bytes, the two high bits of the first byte giving the
//! length. Sent values always use the shortest form; received values are
//! accepted in any form.

use vstd::arithmetic::div_mod::{lemma_div_denominator, lemma_fundamental_div_mod};
use vstd::prelude::*;

verus! {

/// Largest value a QUIC variable-length integer can carry: `2^62 - 1`.
pub const MAX_VARINT: u64 = 0x3fff_ffff_ffff_ffff;

/// Error returned where a value does not fit in the variable-length wire
/// encoding.
#[derive(Debug, Clone, Copy, PartialEq, Eq, Structural)]
pub struct VarIntBoundsExceeded;

/// An unsigned integer below `2^62`, the range the variable-length wire
/// encoding covers.
#[derive(Debug, Clone, Copy, PartialEq, Eq, Structural)]
pub struct VarInt {
    value: u64,
}

impl View for VarInt {
    type V = u64;

    closed spec fn view(&self) -> u64 {
        self.value
    }
}

impl VarInt {
    #[verifier::type_invariant]
    pub closed spec fn wf(self) -> bool {
        self.value <= MAX_VARINT
    }

    /// Succeeds exactly on values below `2^62`.
    pub fn new(value: u64) -> (r: Result<VarInt, VarIntBoundsExceeded>)
        ensures
            value <= MAX_VARINT <==> r is Ok,
            r is Ok ==> r->Ok_0@ == value,
    {
        if value <= MAX_VARINT {
            Ok(VarInt { value })
        } else {
            Err(VarIntBoundsExceeded)
        }
    }

    /// Every `u32` fits in a variable-length integer.
    pub fn from_u32(value: u32) -> (r: VarInt)
        ensures
            r@ == value,
    {
        VarInt { value: value as u64 }
    }

    /// The largest variable-length integer, `2^62 - 1`.
    pub fn max() -> (r: VarInt)
        ensures
            r@ == MAX_VARINT,
    {
        VarInt { value: MAX_VARINT }
    }

    /// The carried value, always below `2^62`.
    pub fn into_u64(self) -> (r: u64)
        ensures
            r == self@,
            r <= MAX_VARINT,
    {
        proof {
            use_type_invariant(&self);
        }
        self.value
    }
}

/// Length in bytes of the shortest encoding of `v`.
pub open spec fn varint_len_spec(v: u64) -> int {
    if v < 0x40 {
        1
    } else if v < 0x4000 {
        2
    } else if v < 0x4000_0000 {
        4
    } else {
        8
    }
}

/// The shortest wire form of `v`: big-endian value bits under a 2-bit
/// length tag in the first byte.
pub open spec fn varint_bytes(v: u64) -> Seq<u8> {
    if v < 0x40 {
        seq![v as u8]
    } else if v < 0x4000 {
        seq![(0x40 + v / 0x100) as u8, (v % 0x100) as u8]
    } else if v < 0x4000_0000 {
        seq![
            (0x80 + v / 0x100_0000) as u8,
            (v / 0x1_0000 % 0x100) as u8,
            (v / 0x100 % 0x100) as u8,
            (v % 0x100) as u8,
        ]
    } else {
        seq![
            (0xc0 + v / 0x100_0000_0000_0000) as u8,
            (v / 0x1_0000_0000_0000 % 0x100) as u8,
            (v / 0x100_0000_0000 % 0x100) as u8,
            (v / 0x1_0000_0000 % 0x100) as u8,
            (v / 0x100_0000 % 0x100) as u8,
            (v / 0x1_0000 % 0x100) as u8,
            (v / 0x100 % 0x100) as u8,
            (v % 0x100) as u8,
        ]
    }
}

/// What decoding the head of `s` yields: the value and the number of bytes
/// consumed, or nothing where `s` is truncated. Any of the four forms is
/// accepted.
pub open spec fn varint_decode_spec(s: Seq<u8>) -> Option<(u64, int)> {
    if s.len() < 1 {
        None
    } else {
        let first = s[0] as int;
        let tag = first / 0x40;
        let rem = first % 0x40;
        if tag == 0 {
            Some((rem as u64, 1))
        } else if tag == 1 {
            if s.len() < 2 {
                None
            } else {
                Some(((rem * 0x100 + s[1]) as u64, 2))
            }
        } else if tag == 2 {
            if s.len() < 4 {
                None
            } else {
                Some(
                    (
                        (rem * 0x100_0000 + s[1] * 0x1_0000 + s[2] * 0x100 + s[3]) as u64,
                        4,
                    ),
                )
            }
        } else {
            if s.len() < 8 {
                None
            } else {
                Some(
                    (
                        (rem * 0x100_0000_0000_0000 + s[1] * 0x1_0000_0000_0000 + s[2]
                            * 0x100_0000_0000 + s[3] * 0x1_0000_0000 + s[4] * 0x100_0000 + s[5]
                            * 0x1_0000 + s[6] * 0x100 + s[7]) as u64,
                        8,
                    ),
                )
            }
        }
    }
}

/// Divides out one trailing base-0x100 digit: the digit at weight `d`
/// together with the quotient above it recompose `v / d`.
proof fn lemma_digit_step(v: int, d: int)
    requires
        0 <= v,
        0 < d,
    ensures
        v / (d * 0x100) * 0x100 + (v / d) % 0x100 == v / d,
{
    lemma_div_denominator(v, d, 0x100);
    lemma_fundamental_div_mod(v / d, 0x100);
}

/// Decoding inverts encoding: the shortest form of any representable value,
/// followed by anything at all, decodes to that value, consuming exactly the
/// encoding's bytes.
pub proof fn lemma_varint_roundtrip(v: u64, rest: Seq<u8>)
    requires
        v <= MAX_VARINT,
    ensures
        varint_decode_spec(varint_bytes(v) + rest) == Some((v, varint_len_spec(v))),
{
    let s = varint_bytes(v) + rest;
    if v < 0x40 {
        assert(s[0] == v as u8);
        assert(s[0] as int == v);
    } else if v < 0x4000 {
        let hi = v as int / 0x100;
        assert(hi < 0x40);
        assert(s[0] as int == 0x40 + hi);
        assert((0x40 + hi) / 0x40 == 1 && (0x40 + hi) % 0x40 == hi) by (nonlinear_arith)
            requires 0 <= hi < 0x40;
        assert(s[1] as int == v as int % 0x100);
        lemma_fundamental_div_mod(v as int, 0x100);
        assert(hi * 0x100 + v as int % 0x100 == v as int);
    } else if v < 0x4000_0000 {
        let x = v as int;
        let hi = x / 0x100_0000;
        assert(hi < 0x40) by (nonlinear_arith)
            requires x < 0x4000_0000, hi == x / 0x100_0000;
        assert(s[0] as int == 0x80 + hi);
        assert((0x80 + hi) / 0x40 == 2 && (0x80 + hi) % 0x40 == hi) by (nonlinear_arith)
            requires 0 <= hi < 0x40;
        lemma_digit_step(x, 0x1_0000);
        lemma_digit_step(x, 0x100);
        lemma_fundamental_div_mod(x, 0x100);
        assert(hi * 0x100 + x / 0x1_0000 % 0x100 == x / 0x1_0000) by {
            lemma_digit_step(x, 0x1_0000);
            assert(x / (0x1_0000int * 0x100) == x / 0x100_0000);
        }
        assert((hi * 0x100 + x / 0x1_0000 % 0x100) * 0x100 + x / 0x100 % 0x100 == x / 0x100) by {
            assert(x / (0x100int * 0x100) == x / 0x1_0000);
        }
        assert(x / 0x100 * 0x100 + x % 0x100 == x);
    } else {
        let x = v as int;
        let hi = x / 0x100_0000_0000_0000;
        assert(hi < 0x40) by (nonlinear_arith)
            requires x < 0x4000_0000_0000_0000, hi == x / 0x100_0000_0000_0000;
        assert(s[0] as int == 0xc0 + hi);
        assert((0xc0 + hi) / 0x40 == 3 && (0xc0 + hi) % 0x40 == hi) by (nonlinear_arith)
            requires 0 <= hi < 0x40;
        lemma_fundamental_div_mod(x, 0x100);
        assert(hi * 0x100 + x / 0x1_0000_0000_0000 % 0x100 == x / 0x1_0000_0000_0000) by {
            lemma_digit_step(x, 0x1_0000_0000_0000);
            assert(x / (0x1_0000_0000_0000int * 0x100) == x / 0x100_0000_0000_0000);
        }
        assert(x / 0x1_0000_0000_0000 * 0x100 + x / 0x100_0000_0000 % 0x100 == x
            / 0x100_0000_0000) by {
            lemma_digit_step(x, 0x100_0000_0000);
            assert(x / (0x100_0000_0000int * 0x100) == x / 0x1_0000_0000_0000);
        }
        assert(x / 0x100_0000_0000 * 0x100 + x / 0x1_0000_0000 % 0x100 == x / 0x1_0000_0000) by {
            lemma_digit_step(x, 0x1_0000_0000);
            assert(x / (0x1_0000_0000int * 0x100) == x / 0x100_0000_0000);
        }
        assert(x / 0x1_0000_0000 * 0x100 + x / 0x100_0000 % 0x100 == x / 0x100_0000) by {
            lemma_digit_step(x, 0x100_0000);
            assert(x / (0x100_0000int * 0x100) == x / 0x1_0000_0000);
        }
        assert(x / 0x100_0000 * 0x100 + x / 0x1_0000 % 0x100 == x / 0x1_0000) by {
            lemma_digit_step(x, 0x1_0000);
            assert(x / (0x1_0000int * 0x100) == x / 0x100_0000);
        }
        assert(x / 0x1_0000 * 0x100 + x / 0x100 % 0x100 == x / 0x100) by {
            lemma_digit_step(x, 0x100);
            assert(x / (0x100int * 0x100) == x / 0x1_0000);
        }
        assert(x / 0x100 * 0x100 + x % 0x100 == x);
    }
}

/// Appends the shortest wire form of `v` to `buf`.
pub fn encode_varint(v: &VarInt, buf: &mut Vec<u8>)
    ensures
        final(buf)@ == old(buf)@ + varint_bytes(v@),
{
    proof {
        use_type_invariant(v);
    }
    let x = v.value;
    if x < 0x40 {
        buf.push(x as u8);
    } else if x < 0x4000 {
        buf.push((0x40 + x / 0x100) as u8);
        buf.push((x % 0x100) as u8);
    } else if x < 0x4000_0000 {
        buf.push((0x80 + x / 0x100_0000) as u8);
        buf.push((x / 0x1_0000 % 0x100) as u8);
        buf.push((x / 0x100 % 0x100) as u8);
        buf.push((x % 0x100) as u8);
    } else {
        buf.push((0xc0 + x / 0x100_0000_0000_0000) as u8);
        buf.push((x / 0x1_0000_0000_0000 % 0x100) as u8);
        buf.push((x / 0x100_0000_0000 % 0x100) as u8);
        buf.push((x / 0x1_0000_0000 % 0x100) as u8);
        buf.push((x / 0x100_0000 % 0x100) as u8);
        buf.push((x / 0x1_0000 % 0x100) as u8);
        buf.push((x / 0x100 % 0x100) as u8);
        buf.push((x % 0x100) as u8);
    }
    proof {
        assert(buf@ =~= old(buf)@ + varint_bytes(v@));
    }
}

/// Reads one variable-length integer starting at `start`, returning it with
/// the position just past it, or `None` where the input is truncated.
pub fn decode_varint(buf: &[u8], start: usize) -> (r: Option<(VarInt, usize)>)
    requires
        start <= buf@.len(),
    ensures
        match varint_decode_spec(buf@.skip(start as int)) {
            None => r is None,
            Some((v, n)) => (r matches Some(p) && p.0@ == v && p.1 == start + n),
        },
{
    let ghost tail = buf@.skip(start as int);
    if start >= buf.len() {
        return None;
    }
    let first = buf[start];
    let tag = first / 0x40;
    let rem = (first % 0x40) as u64;
    if tag == 0 {
        Some((VarInt { value: rem }, start + 1))
    } else if tag == 1 {
        if buf.len() - start < 2 {
            return None;
        }
        let value = rem * 0x100 + buf[start + 1] as u64;
        assert(varint_decode_spec(tail) matches Some(p) && p.0 == value);
        Some((VarInt { value }, start + 2))
    } else if tag == 2 {
        if buf.len() - start < 4 {
            return None;
        }
        let value = rem * 0x100_0000 + (buf[start + 1] as u64) * 0x1_0000 + (buf[start + 2] as u64)
            * 0x100 + buf[start + 3] as u64;
        assert(varint_decode_spec(tail) matches Some(p) && p.0 == value);
        Some((VarInt { value }, start + 4))
    } else {
        if buf.len() - start < 8 {
            return None;
        }
        let value = rem * 0x100_0000_0000_0000 + (buf[start + 1] as u64) * 0x1_0000_0000_0000 + (
        buf[start + 2] as u64) * 0x100_0000_0000 + (buf[start + 3] as u64) * 0x1_0000_0000 + (
        buf[start + 4] as u64) * 0x100_0000 + (buf[start + 5] as u64) * 0x1_0000 + (buf[start
            + 6] as u64) * 0x100 + buf[start + 7] as u64;
        assert(varint_decode_spec(tail) matches Some(p) && p.0 == value);
        Some((VarInt { value }, start + 8))
    }
}

} // verus!
