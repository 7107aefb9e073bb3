//! QUIC variable-length integers (RFC 9000, section 16).
use vstd::prelude::*;

use crate::coding::{
    be16, be32, be64, from_be16, from_be32, from_be64, get_u16, get_u32, get_u64, put_u16, put_u32,
    put_u64, UnexpectedEnd,
};

verus! {

/// The exclusive upper bound of values representable as a `VarInt`, 2^62
pub const VARINT_BOUND: u64 = 0x4000_0000_0000_0000;

/// An integer less than 2^62
///
/// Values of this type are suitable for encoding as QUIC variable-length integer.
#[derive(Copy, Clone, Debug, PartialEq, Eq, Structural)]
pub struct VarInt(pub(crate) u64);

impl View for VarInt {
    type V = u64;

    open spec fn view(&self) -> u64 {
        self.value()
    }
}

/// Error returned when constructing a `VarInt` from a value >= 2^62
#[derive(Copy, Clone, Debug, PartialEq, Eq, Structural)]
pub struct VarIntBoundsExceeded;

/// Number of bytes of the encoding of `x`
pub open spec fn spec_varint_size(x: u64) -> nat {
    if x < 0x40 {
        1
    } else if x < 0x4000 {
        2
    } else if x < 0x4000_0000 {
        4
    } else {
        8
    }
}

/// The variable-length encoding of `x`: the two high bits of the first byte give the length
/// (1, 2, 4 or 8 bytes), the remaining bits hold `x` in big-endian order
pub open spec fn spec_varint_encode(x: u64) -> Seq<u8> {
    if x < 0x40 {
        seq![x as u8]
    } else if x < 0x4000 {
        be16((0x4000u64 | x) as u16)
    } else if x < 0x4000_0000 {
        be32((0x8000_0000u64 | x) as u32)
    } else {
        be64(0xc000_0000_0000_0000u64 | x)
    }
}

/// Decoding of a variable-length integer at the start of `s`: the value and the number of bytes
/// it occupies, or `None` when `s` ends before the encoding does
pub open spec fn spec_varint_decode(s: Seq<u8>) -> Option<(u64, nat)> {
    if s.len() == 0 {
        None
    } else {
        let tag = s[0] >> 6u8;
        let first = s[0] & 0x3fu8;
        if tag == 0 {
            Some((first as u64, 1))
        } else if tag == 1 {
            if s.len() < 2 {
                None
            } else {
                Some((from_be16(seq![first, s[1]]) as u64, 2))
            }
        } else if tag == 2 {
            if s.len() < 4 {
                None
            } else {
                Some((from_be32(seq![first, s[1], s[2], s[3]]) as u64, 4))
            }
        } else {
            if s.len() < 8 {
                None
            } else {
                Some((from_be64(seq![first, s[1], s[2], s[3], s[4], s[5], s[6], s[7]]), 8))
            }
        }
    }
}

impl VarInt {
    /// The integer held
    pub closed spec fn value(self) -> u64 {
        self.0
    }

    #[verifier::type_invariant]
    closed spec fn inv(self) -> bool {
        self.0 < VARINT_BOUND
    }

    /// The largest representable value
    pub fn max_value() -> (r: VarInt)
        ensures
            r@ == VARINT_BOUND - 1,
    {
        VarInt(VARINT_BOUND - 1)
    }

    /// Construct a `VarInt`, succeeding iff `x` < 2^62
    pub fn from_u64(x: u64) -> (r: Result<VarInt, VarIntBoundsExceeded>)
        ensures
            x < VARINT_BOUND ==> r is Ok && r->Ok_0@ == x,
            x >= VARINT_BOUND ==> r == Err::<VarInt, VarIntBoundsExceeded>(VarIntBoundsExceeded),
    {
        if x < VARINT_BOUND {
            Ok(VarInt(x))
        } else {
            Err(VarIntBoundsExceeded)
        }
    }

    /// Extract the integer value
    pub fn into_inner(self) -> (r: u64)
        ensures
            r == self@,
            r < VARINT_BOUND,
    {
        proof {
            use_type_invariant(&self);
        }
        self.0
    }

    /// Construct a `VarInt` infallibly
    pub fn from_u32(x: u32) -> (r: VarInt)
        ensures
            r@ == x as u64,
    {
        VarInt(x as u64)
    }

    /// Construct a `VarInt` from a `usize`, succeeding iff `x` < 2^62
    pub fn try_from_usize(x: usize) -> (r: Result<VarInt, VarIntBoundsExceeded>)
        ensures
            x < VARINT_BOUND ==> r is Ok && r->Ok_0@ == x as u64,
            x >= VARINT_BOUND ==> r == Err::<VarInt, VarIntBoundsExceeded>(VarIntBoundsExceeded),
    {
        VarInt::from_u64(x as u64)
    }

    /// Compute the number of bytes needed to encode this value
    pub fn size(self) -> (r: usize)
        ensures
            r == spec_varint_size(self@),
            r == spec_varint_encode(self@).len(),
    {
        proof {
            use_type_invariant(&self);
        }
        let x = self.0;
        if x < 0x40 {
            1
        } else if x < 0x4000 {
            2
        } else if x < 0x4000_0000 {
            4
        } else {
            8
        }
    }

    /// Append the encoding of this value to `w`
    pub fn encode(&self, w: &mut Vec<u8>)
        ensures
            final(w)@ == old(w)@ + spec_varint_encode(self@),
    {
        proof {
            use_type_invariant(self);
        }
        let x = self.0;
        if x < 0x40 {
            w.push(x as u8);
            assert(final(w)@ =~= old(w)@ + spec_varint_encode(self@));
        } else if x < 0x4000 {
            put_u16(w, (0x4000u64 | x) as u16);
        } else if x < 0x4000_0000 {
            put_u32(w, (0x8000_0000u64 | x) as u32);
        } else {
            put_u64(w, 0xc000_0000_0000_0000u64 | x);
        }
    }

    /// Decode a value from the start of `r`, returning it with the number of bytes it occupied
    pub fn decode(r: &[u8]) -> (res: Result<(VarInt, usize), UnexpectedEnd>)
        ensures
            match spec_varint_decode(r@) {
                Some((v, n)) => res is Ok && res->Ok_0.0@ == v && res->Ok_0.1 == n,
                None => res == Err::<(VarInt, usize), UnexpectedEnd>(UnexpectedEnd),
            },
    {
        if r.len() == 0 {
            return Err(UnexpectedEnd);
        }
        let b0 = r[0];
        let tag = b0 >> 6u8;
        let first = b0 & 0x3fu8;
        if tag == 0 {
            assert(first < 0x40) by (bit_vector)
                requires
                    first == b0 & 0x3fu8,
            ;
            Ok((VarInt(first as u64), 1))
        } else if tag == 1 {
            if r.len() < 2 {
                return Err(UnexpectedEnd);
            }
            let x = ((first as u16) << 8u16) | (r[1] as u16);
            proof {
                let s: Seq<u8> = seq![first, r@[1]];
                assert(from_be16(s) == x);
            }
            Ok((VarInt(x as u64), 2))
        } else if tag == 2 {
            if r.len() < 4 {
                return Err(UnexpectedEnd);
            }
            let x = ((first as u32) << 24u32) | ((r[1] as u32) << 16u32) | ((r[2] as u32) << 8u32)
                | (r[3] as u32);
            proof {
                let s: Seq<u8> = seq![first, r@[1], r@[2], r@[3]];
                assert(from_be32(s) == x);
            }
            Ok((VarInt(x as u64), 4))
        } else {
            if r.len() < 8 {
                return Err(UnexpectedEnd);
            }
            let x = ((first as u64) << 56u64) | ((r[1] as u64) << 48u64) | ((r[2] as u64) << 40u64)
                | ((r[3] as u64) << 32u64) | ((r[4] as u64) << 24u64) | ((r[5] as u64) << 16u64) | ((
            r[6] as u64) << 8u64) | (r[7] as u64);
            let b1 = r[1];
            let b2 = r[2];
            let b3 = r[3];
            let b4 = r[4];
            let b5 = r[5];
            let b6 = r[6];
            let b7 = r[7];
            assert(x < VARINT_BOUND) by (bit_vector)
                requires
                    first == b0 & 0x3fu8,
                    x == ((first as u64) << 56u64) | ((b1 as u64) << 48u64) | ((b2 as u64) << 40u64)
                        | ((b3 as u64) << 32u64) | ((b4 as u64) << 24u64) | ((b5 as u64) << 16u64)
                        | ((b6 as u64) << 8u64) | (b7 as u64),
            ;
            proof {
                let s: Seq<u8> = seq![first, b1, b2, b3, b4, b5, b6, b7];
                assert(from_be64(s) == x);
            }
            Ok((VarInt(x), 8))
        }
    }
}


/// Decoding the encoding of any value `x` < 2^62, whatever bytes follow it, gives back `x` and
/// the number of bytes of its encoding
pub proof fn lemma_varint_roundtrip(x: u64, rest: Seq<u8>)
    requires
        x < VARINT_BOUND,
    ensures
        spec_varint_encode(x).len() == spec_varint_size(x),
        spec_varint_decode(spec_varint_encode(x) + rest) == Some((x, spec_varint_size(x))),
{
    let e = spec_varint_encode(x);
    let s = e + rest;
    if x < 0x40 {
        let b = x as u8;
        assert(b >> 6u8 == 0 && b & 0x3fu8 == b && b as u64 == x) by (bit_vector)
            requires
                x < 0x40,
                b == x as u8,
        ;
        assert(s[0] == b);
    } else if x < 0x4000 {
        let w = (0x4000u64 | x) as u16;
        let b0 = (w >> 8u16) as u8;
        let b1 = w as u8;
        let first = b0 & 0x3fu8;
        assert(b0 >> 6u8 == 1 && ((((first as u16) << 8u16) | (b1 as u16)) as u64) == x)
            by (bit_vector)
            requires
                0x40 <= x < 0x4000,
                w == (0x4000u64 | x) as u16,
                b0 == (w >> 8u16) as u8,
                b1 == w as u8,
                first == b0 & 0x3fu8,
        ;
        assert(s[0] == b0 && s[1] == b1);
    } else if x < 0x4000_0000 {
        let w = (0x8000_0000u64 | x) as u32;
        let b0 = (w >> 24u32) as u8;
        let b1 = (w >> 16u32) as u8;
        let b2 = (w >> 8u32) as u8;
        let b3 = w as u8;
        let first = b0 & 0x3fu8;
        assert(b0 >> 6u8 == 2 && ((((first as u32) << 24u32) | ((b1 as u32) << 16u32) | ((
        b2 as u32) << 8u32) | (b3 as u32)) as u64) == x) by (bit_vector)
            requires
                0x4000 <= x < 0x4000_0000,
                w == (0x8000_0000u64 | x) as u32,
                b0 == (w >> 24u32) as u8,
                b1 == (w >> 16u32) as u8,
                b2 == (w >> 8u32) as u8,
                b3 == w as u8,
                first == b0 & 0x3fu8,
        ;
        assert(s[0] == b0 && s[1] == b1 && s[2] == b2 && s[3] == b3);
    } else {
        let w = 0xc000_0000_0000_0000u64 | x;
        let b0 = (w >> 56u64) as u8;
        let b1 = (w >> 48u64) as u8;
        let b2 = (w >> 40u64) as u8;
        let b3 = (w >> 32u64) as u8;
        let b4 = (w >> 24u64) as u8;
        let b5 = (w >> 16u64) as u8;
        let b6 = (w >> 8u64) as u8;
        let b7 = w as u8;
        let first = b0 & 0x3fu8;
        assert(b0 >> 6u8 == 3 && ((first as u64) << 56u64) | ((b1 as u64) << 48u64) | ((b2 as u64)
            << 40u64) | ((b3 as u64) << 32u64) | ((b4 as u64) << 24u64) | ((b5 as u64) << 16u64)
            | ((b6 as u64) << 8u64) | (b7 as u64) == x) by (bit_vector)
            requires
                0x4000_0000 <= x < 0x4000_0000_0000_0000u64,
                w == 0xc000_0000_0000_0000u64 | x,
                b0 == (w >> 56u64) as u8,
                b1 == (w >> 48u64) as u8,
                b2 == (w >> 40u64) as u8,
                b3 == (w >> 32u64) as u8,
                b4 == (w >> 24u64) as u8,
                b5 == (w >> 16u64) as u8,
                b6 == (w >> 8u64) as u8,
                b7 == w as u8,
                first == b0 & 0x3fu8,
        ;
        assert(s[0] == b0 && s[1] == b1 && s[2] == b2 && s[3] == b3 && s[4] == b4 && s[5] == b5
            && s[6] == b6 && s[7] == b7);
    }
}


/// Every decoded value is below 2^62
pub proof fn lemma_varint_decode_bound(s: Seq<u8>)
    ensures
        spec_varint_decode(s) matches Some((v, n)) ==> v < VARINT_BOUND && 1 <= n <= 8 && n
            <= s.len(),
{
    if s.len() >= 8 {
        let b0 = s[0];
        let first = b0 & 0x3fu8;
        let b1 = s[1];
        let b2 = s[2];
        let b3 = s[3];
        let b4 = s[4];
        let b5 = s[5];
        let b6 = s[6];
        let b7 = s[7];
        let x = from_be64(seq![first, b1, b2, b3, b4, b5, b6, b7]);
        assert(x < VARINT_BOUND) by (bit_vector)
            requires
                first == b0 & 0x3fu8,
                x == ((first as u64) << 56u64) | ((b1 as u64) << 48u64) | ((b2 as u64) << 40u64)
                    | ((b3 as u64) << 32u64) | ((b4 as u64) << 24u64) | ((b5 as u64) << 16u64) | ((
                b6 as u64) << 8u64) | (b7 as u64),
        ;
    }
}


/// Append the variable-length encoding of `x` to `w`
pub fn write_var(w: &mut Vec<u8>, x: u64)
    requires
        x < VARINT_BOUND,
    ensures
        final(w)@ == old(w)@ + spec_varint_encode(x),
{
    let v = VarInt(x);
    v.encode(w);
}

/// Read a variable-length integer from `r` at `pos`, returning it with the number of bytes read
pub fn read_var_at(r: &[u8], pos: usize) -> (res: Result<(u64, usize), UnexpectedEnd>)
    requires
        pos <= r@.len(),
    ensures
        match spec_varint_decode(r@.subrange(pos as int, r@.len() as int)) {
            Some((v, n)) => res is Ok && res->Ok_0.0 == v && res->Ok_0.1 == n && pos + n <= r@.len()
                && v < VARINT_BOUND && 1 <= n <= 8,
            None => res is Err,
        },
{
    let rest = &r[pos..r.len()];
    proof {
        lemma_varint_decode_bound(rest@);
    }
    match VarInt::decode(rest) {
        Ok((v, n)) => Ok((v.into_inner(), n)),
        Err(e) => Err(e),
    }
}

} // verus!
