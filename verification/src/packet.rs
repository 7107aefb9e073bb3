//! Packet numbers and the invariant part of QUIC packet headers.
use vstd::prelude::*;

use crate::coding::{be16, be32, from_be16, from_be32, get_u16, get_u32, put_u16, put_u32};
use crate::shared::{spec_decode_long, ConnectionId, MAX_CID_SIZE};
use crate::varint::{spec_varint_decode, VarInt};

verus! {

/// An encoded packet number
#[derive(Debug, Copy, Clone, PartialEq, Eq, Structural)]
pub enum PacketNumber {
    /// One byte
    U8(u8),
    /// Two bytes
    U16(u16),
    /// Three bytes; only the low 24 bits are encoded
    U24(u32),
    /// Four bytes
    U32(u32),
}

/// Number of bytes of an encoded packet number
pub open spec fn spec_pn_len(pn: PacketNumber) -> nat {
    match pn {
        PacketNumber::U8(_) => 1,
        PacketNumber::U16(_) => 2,
        PacketNumber::U24(_) => 3,
        PacketNumber::U32(_) => 4,
    }
}

/// The truncated packet number carried by `pn`
pub open spec fn spec_pn_truncated(pn: PacketNumber) -> u64 {
    match pn {
        PacketNumber::U8(x) => x as u64,
        PacketNumber::U16(x) => x as u64,
        PacketNumber::U24(x) => x as u64,
        PacketNumber::U32(x) => x as u64,
    }
}

/// Wire encoding of a packet number: its truncated value in big-endian order
pub open spec fn spec_pn_encode(pn: PacketNumber) -> Seq<u8> {
    match pn {
        PacketNumber::U8(x) => seq![x],
        PacketNumber::U16(x) => be16(x),
        PacketNumber::U24(x) => be32(x).subrange(1, 4),
        PacketNumber::U32(x) => be32(x),
    }
}

/// The encoding chosen for packet number `n` when the largest acknowledged one is `largest_acked`:
/// the smallest width whose window is more than twice the distance between them
pub open spec fn spec_pn_new(n: u64, largest_acked: u64) -> PacketNumber {
    let range = (n - largest_acked) * 2;
    if range < 0x100 {
        PacketNumber::U8(n as u8)
    } else if range < 0x1_0000 {
        PacketNumber::U16(n as u16)
    } else if range < 0x100_0000 {
        PacketNumber::U24(n as u32)
    } else {
        PacketNumber::U32(n as u32)
    }
}

/// Recovery of a full packet number from its truncation `t`, `nbits` bits wide, given the
/// `expected` next packet number: the value congruent to `t` closest to `expected`
pub open spec fn spec_expand(t: u64, win: u64, expected: u64) -> u64 {
    let hwin = win / 2;
    let mask = (win - 1) as u64;
    let candidate = (expected & !mask) | t;
    if expected >= hwin && candidate <= (expected - hwin) as u64 {
        (candidate + win) as u64
    } else if candidate > expected + hwin && candidate > win {
        (candidate - win) as u64
    } else {
        candidate
    }
}

/// The candidate for a 8-bit window: `e` with its low 8 bits replaced by `t`
proof fn lemma_candidate_bits_8(e: u64, t: u64)
    by (bit_vector)
    requires
        t < 0x100u64,
        e < 0x4000_0000_0000_0000u64,
    ensures
        (e & !0xffu64) | t == (e & !0xffu64) + t,
        (e & !0xffu64) <= e,
        e - (e & !0xffu64) < 0x100u64,
        (e & !0xffu64) % 0x100u64 == 0,
{
}

/// The candidate for a 16-bit window: `e` with its low 16 bits replaced by `t`
proof fn lemma_candidate_bits_16(e: u64, t: u64)
    by (bit_vector)
    requires
        t < 0x10000u64,
        e < 0x4000_0000_0000_0000u64,
    ensures
        (e & !0xffffu64) | t == (e & !0xffffu64) + t,
        (e & !0xffffu64) <= e,
        e - (e & !0xffffu64) < 0x10000u64,
        (e & !0xffffu64) % 0x10000u64 == 0,
{
}

/// The candidate for a 24-bit window: `e` with its low 24 bits replaced by `t`
proof fn lemma_candidate_bits_24(e: u64, t: u64)
    by (bit_vector)
    requires
        t < 0x1000000u64,
        e < 0x4000_0000_0000_0000u64,
    ensures
        (e & !0xffffffu64) | t == (e & !0xffffffu64) + t,
        (e & !0xffffffu64) <= e,
        e - (e & !0xffffffu64) < 0x1000000u64,
        (e & !0xffffffu64) % 0x1000000u64 == 0,
{
}

/// The candidate for a 32-bit window: `e` with its low 32 bits replaced by `t`
proof fn lemma_candidate_bits_32(e: u64, t: u64)
    by (bit_vector)
    requires
        t < 0x100000000u64,
        e < 0x4000_0000_0000_0000u64,
    ensures
        (e & !0xffffffffu64) | t == (e & !0xffffffffu64) + t,
        (e & !0xffffffffu64) <= e,
        e - (e & !0xffffffffu64) < 0x100000000u64,
        (e & !0xffffffffu64) % 0x100000000u64 == 0,
{
}

/// Facts about the candidate `(e & !(w - 1)) | t` for a power-of-two window `w`: it is `e`
/// with its bits below the window replaced by `t`
proof fn lemma_candidate_bits(e: u64, t: u64, w: u64)
    requires
        w == 0x100u64 || w == 0x1_0000u64 || w == 0x100_0000u64 || w == 0x1_0000_0000u64,
        t < w,
        e < 0x4000_0000_0000_0000u64,
    ensures
        (e & !((w - 1) as u64)) | t == (e & !((w - 1) as u64)) + t,
        (e & !((w - 1) as u64)) <= e,
        e - (e & !((w - 1) as u64)) < w,
        (e & !((w - 1) as u64)) % w == 0,
{
    if w == 0x100u64 {
        lemma_candidate_bits_8(e, t);
    } else if w == 0x1_0000u64 {
        lemma_candidate_bits_16(e, t);
    } else if w == 0x100_0000u64 {
        lemma_candidate_bits_24(e, t);
    } else {
        lemma_candidate_bits_32(e, t);
    }
}

/// Expanding a truncated packet number `t` of a window of `win` values, relative to the
/// expected packet number `e`, gives the value congruent to `t` modulo the window that is
/// closest to `e`: it lies in `e - win/2 < r <= e + win/2`, unless that range holds no value
/// of the same residue at or above zero, when `r` is `t` itself (the only one below the window)
pub proof fn lemma_expand_closest(t: u64, win: u64, e: u64)
    requires
        win == 0x100u64 || win == 0x1_0000u64 || win == 0x100_0000u64 || win == 0x1_0000_0000u64,
        t < win,
        e < 0x4000_0000_0000_0000u64,
    ensures
        spec_expand(t, win, e) % win == t,
        e - win / 2 < spec_expand(t, win, e),
        spec_expand(t, win, e) <= e + win / 2 || spec_expand(t, win, e) < win,
{
    lemma_candidate_bits(e, t, win);
    let base = e & !((win - 1) as u64);
    let c = (base | t) as int;
    assert(c == base + t);
    let q = base as int / win as int;
    assert(base as int == q * win) by {
        vstd::arithmetic::div_mod::lemma_fundamental_div_mod(base as int, win as int);
    }
    assert((c + win) % (win as int) == t) by {
        vstd::arithmetic::div_mod::lemma_mod_multiples_vanish(q + 1, t as int, win as int);
        assert(c + win == (q + 1) * win + t) by (nonlinear_arith)
            requires c == q * win + t;
    }
    assert(c % (win as int) == t) by {
        vstd::arithmetic::div_mod::lemma_mod_multiples_vanish(q, t as int, win as int);
    }
    assert(c - win >= 0 ==> (c - win) % (win as int) == t) by {
        if c - win >= 0 {
            assert(q >= 1) by (nonlinear_arith)
                requires c - win >= 0, c == q * win + t, t < win, win > 0;
            vstd::arithmetic::div_mod::lemma_mod_multiples_vanish(q - 1, t as int, win as int);
            assert(c - win == (q - 1) * win + t) by (nonlinear_arith)
                requires c == q * win + t;
        }
    }
}

/// Window size of an encoded packet number, 2^(8 * length)
pub open spec fn spec_pn_window(pn: PacketNumber) -> u64 {
    match pn {
        PacketNumber::U8(_) => 0x100,
        PacketNumber::U16(_) => 0x1_0000,
        PacketNumber::U24(_) => 0x100_0000,
        PacketNumber::U32(_) => 0x1_0000_0000,
    }
}

impl PacketNumber {
    /// Append the encoding of this packet number to `w`
    pub fn encode(self, w: &mut Vec<u8>)
        ensures
            final(w)@ == old(w)@ + spec_pn_encode(self),
    {
        match self {
            PacketNumber::U8(x) => {
                w.push(x);
                assert(final(w)@ =~= old(w)@ + spec_pn_encode(self));
            },
            PacketNumber::U16(x) => put_u16(w, x),
            PacketNumber::U24(x) => {
                w.push((x >> 16u32) as u8);
                w.push((x >> 8u32) as u8);
                w.push(x as u8);
                assert(final(w)@ =~= old(w)@ + spec_pn_encode(self));
            },
            PacketNumber::U32(x) => put_u32(w, x),
        }
    }

    /// Decode a packet number of `len` bytes from the start of `r`
    pub fn decode(len: usize, r: &[u8]) -> (res: Result<PacketNumber, PacketDecodeError>)
        requires
            1 <= len <= 4,
            len == 3 ==> r@.len() >= 3,
        ensures
            r@.len() < len ==> res is Err && res->Err_0.spec_view() == DecodeErrorView::InvalidHeader(
                "unexpected end of packet"@,
            ),
            r@.len() >= len ==> res is Ok && spec_pn_len(res->Ok_0) == len && spec_pn_encode(
                res->Ok_0,
            ) == r@.subrange(0, len as int),
    {
        if r.len() < len {
            return Err(PacketDecodeError::InvalidHeader("unexpected end of packet"));
        }
        if len == 1 {
            let pn = PacketNumber::U8(r[0]);
            assert(spec_pn_encode(pn) =~= r@.subrange(0, 1));
            Ok(pn)
        } else if len == 2 {
            let x = get_u16(r, 0);
            proof {
                crate::coding::lemma_be16_bytes(r@.subrange(0, 2));
            }
            Ok(PacketNumber::U16(x))
        } else if len == 3 {
            let b0 = r[0];
            let b1 = r[1];
            let b2 = r[2];
            let x = ((b0 as u32) << 16u32) | ((b1 as u32) << 8u32) | (b2 as u32);
            assert((x >> 16u32) as u8 == b0 && (x >> 8u32) as u8 == b1 && x as u8 == b2 && (x >> 24u32)
                as u8 == 0) by (bit_vector)
                requires
                    x == ((b0 as u32) << 16u32) | ((b1 as u32) << 8u32) | (b2 as u32),
            ;
            assert(spec_pn_encode(PacketNumber::U24(x)) =~= r@.subrange(0, 3));
            Ok(PacketNumber::U24(x))
        } else {
            let x = get_u32(r, 0);
            proof {
                crate::coding::lemma_be32_bytes(r@.subrange(0, 4));
            }
            Ok(PacketNumber::U32(x))
        }
    }

    /// Number of bytes of the encoding
    pub fn len(self) -> (r: usize)
        ensures
            r == spec_pn_len(self),
    {
        match self {
            PacketNumber::U8(_) => 1,
            PacketNumber::U16(_) => 2,
            PacketNumber::U24(_) => 3,
            PacketNumber::U32(_) => 4,
        }
    }

    /// Choose the encoding of packet number `n` given the largest packet number the peer has
    /// acknowledged
    pub fn new(n: u64, largest_acked: u64) -> (r: PacketNumber)
        requires
            largest_acked <= n,
            (n - largest_acked) * 2 < 0x1_0000_0000,
        ensures
            r == spec_pn_new(n, largest_acked),
    {
        let range = (n - largest_acked) * 2;
        if range < 0x100 {
            PacketNumber::U8(n as u8)
        } else if range < 0x1_0000 {
            PacketNumber::U16(n as u16)
        } else if range < 0x100_0000 {
            PacketNumber::U24(n as u32)
        } else {
            PacketNumber::U32(n as u32)
        }
    }

    /// Recover the full packet number given the expected next packet number
    pub fn expand(self, expected: u64) -> (r: u64)
        requires
            expected < 0x4000_0000_0000_0000,
        ensures
            r == spec_expand(spec_pn_truncated(self), spec_pn_window(self), expected),
            spec_pn_truncated(self) < spec_pn_window(self) ==> {
                &&& r % spec_pn_window(self) == spec_pn_truncated(self)
                &&& expected - spec_pn_window(self) / 2 < r
                &&& r <= expected + spec_pn_window(self) / 2 || r < spec_pn_window(self)
            },
    {
        proof {
            if spec_pn_truncated(self) < spec_pn_window(self) {
                lemma_expand_closest(spec_pn_truncated(self), spec_pn_window(self), expected);
            }
        }
        let truncated: u64 = match self {
            PacketNumber::U8(x) => x as u64,
            PacketNumber::U16(x) => x as u64,
            PacketNumber::U24(x) => x as u64,
            PacketNumber::U32(x) => x as u64,
        };
        let win: u64 = match self {
            PacketNumber::U8(_) => 0x100,
            PacketNumber::U16(_) => 0x1_0000,
            PacketNumber::U24(_) => 0x100_0000,
            PacketNumber::U32(_) => 0x1_0000_0000,
        };
        assert(truncated <= 0xffff_ffff);
        let hwin = win / 2;
        let mask = win - 1;
        let candidate = (expected & !mask) | truncated;
        assert(candidate <= expected + 0x1_0000_0000u64) by (bit_vector)
            requires
                candidate == (expected & !mask) | truncated,
                truncated <= 0xffff_ffffu64,
                mask <= 0xffff_ffffu64,
                expected < 0x4000_0000_0000_0000u64,
        ;
        if expected >= hwin && candidate <= expected - hwin {
            candidate + win
        } else if candidate > expected + hwin && candidate > win {
            candidate - win
        } else {
            candidate
        }
    }
}

/// Expanding what goes on the wire for the encoding that `new` chooses for packet number
/// `actual` (the truncated value modulo the window), relative to any `expected` packet number at
/// or below it, recovers `actual`
pub proof fn lemma_pn_expand_new(actual: u64, expected: u64)
    requires
        expected <= actual < 0x4000_0000_0000_0000,
        (actual - expected) * 2 < 0x1_0000_0000,
    ensures
        spec_expand(
            spec_pn_truncated(spec_pn_new(actual, expected)) % spec_pn_window(
                spec_pn_new(actual, expected),
            ),
            spec_pn_window(spec_pn_new(actual, expected)),
            expected,
        ) == actual,
{
    let d = actual - expected;
    if d * 2 < 0x100 {
        let t = (actual as u8) as u64;
        assert(t % 0x100 == t);
        assert(spec_expand(t, 0x100u64, expected) == actual) by (bit_vector)
            requires
                expected <= actual < 0x4000_0000_0000_0000u64,
                actual - expected < 0x80u64,
                t == (actual as u8) as u64,
        ;
    } else if d * 2 < 0x1_0000 {
        let t = (actual as u16) as u64;
        assert(t % 0x1_0000 == t);
        assert(spec_expand(t, 0x1_0000u64, expected) == actual) by (bit_vector)
            requires
                expected <= actual < 0x4000_0000_0000_0000u64,
                actual - expected < 0x8000u64,
                t == (actual as u16) as u64,
        ;
    } else if d * 2 < 0x100_0000 {
        let t = ((actual as u32) as u64) % 0x100_0000;
        assert(spec_expand(t, 0x100_0000u64, expected) == actual) by (bit_vector)
            requires
                expected <= actual < 0x4000_0000_0000_0000u64,
                actual - expected < 0x80_0000u64,
                t == ((actual as u32) as u64) % 0x100_0000u64,
        ;
    } else {
        let t = (actual as u32) as u64;
        assert(t % 0x1_0000_0000 == t);
        assert(spec_expand(t, 0x1_0000_0000u64, expected) == actual) by (bit_vector)
            requires
                expected <= actual < 0x4000_0000_0000_0000u64,
                actual - expected < 0x8000_0000u64,
                t == (actual as u32) as u64,
        ;
    }
}

#[allow(unreachable_pub)]
/// Reasons why the header of a packet could not be decoded
#[derive(Debug, Clone, PartialEq, Eq)]
pub enum PacketDecodeError {
    /// The header is malformed
    InvalidHeader(&'static str),
    /// Packet uses a QUIC version that is not supported
    UnsupportedVersion {
        /// Source Connection ID
        src_cid: ConnectionId,
        /// Destination Connection ID
        dst_cid: ConnectionId,
        /// The version that was unsupported
        version: u32,
    },
}

/// Abstract value of a [`PacketDecodeError`]
pub enum DecodeErrorView {
    /// The header is malformed, for the given reason
    InvalidHeader(Seq<char>),
    /// Packet uses a QUIC version that is not supported
    UnsupportedVersion { src_cid: Seq<u8>, dst_cid: Seq<u8>, version: u32 },
}

impl PacketDecodeError {
    /// Abstract value of the error
    pub open spec fn spec_view(self) -> DecodeErrorView {
        match self {
            PacketDecodeError::InvalidHeader(r) => DecodeErrorView::InvalidHeader(r@),
            PacketDecodeError::UnsupportedVersion { src_cid, dst_cid, version } =>
                DecodeErrorView::UnsupportedVersion { src_cid: src_cid@, dst_cid: dst_cid@, version },
        }
    }
}


/// Bit that is always set in packets of QUIC version 1, unless greased
pub const FIXED_BIT: u8 = 0x40;

/// Bit set in the first byte of long-header packets
pub const LONG_HEADER_FORM: u8 = 0x80;

/// The latency spin bit of short-header packets
pub const SPIN_BIT: u8 = 0x20;

/// Long packet types with uniform header structure
#[derive(Clone, Copy, Debug, PartialEq, Eq, Structural)]
pub enum LongType {
    /// Handshake packet
    Handshake,
    /// 0-RTT packet
    ZeroRtt,
}

/// Long packet type including non-uniform cases
#[derive(Clone, Copy, Debug, PartialEq, Eq, Structural)]
pub enum LongHeaderType {
    /// Initial packet
    Initial,
    /// Retry packet
    Retry,
    /// Handshake or 0-RTT packet
    Standard(LongType),
}

/// The long packet type encoded in bits 4 and 5 of the first byte
pub open spec fn spec_long_header_type(b: u8) -> LongHeaderType {
    let k = (b / 16) % 4;
    if k == 0 {
        LongHeaderType::Initial
    } else if k == 1 {
        LongHeaderType::Standard(LongType::ZeroRtt)
    } else if k == 2 {
        LongHeaderType::Standard(LongType::Handshake)
    } else {
        LongHeaderType::Retry
    }
}

/// The long packet type sits in bits 4 and 5 of the first byte (RFC 9000, section 17.2):
/// 0b00 is Initial, 0b01 is 0-RTT, 0b10 is Handshake and 0b11 is Retry
pub proof fn lemma_long_header_type_bits(b: u8)
    ensures
        (b & 0x30u8 == 0x00u8) <==> spec_long_header_type(b) == LongHeaderType::Initial,
        (b & 0x30u8 == 0x10u8) <==> spec_long_header_type(b) == LongHeaderType::Standard(
            LongType::ZeroRtt,
        ),
        (b & 0x30u8 == 0x20u8) <==> spec_long_header_type(b) == LongHeaderType::Standard(
            LongType::Handshake,
        ),
        (b & 0x30u8 == 0x30u8) <==> spec_long_header_type(b) == LongHeaderType::Retry,
{
    let k = (b / 16) % 4;
    assert((b & 0x30u8 == 0x00u8) <==> k == 0) by (bit_vector)
        requires
            k == (b / 16) % 4,
    ;
    assert((b & 0x30u8 == 0x10u8) <==> k == 1) by (bit_vector)
        requires
            k == (b / 16) % 4,
    ;
    assert((b & 0x30u8 == 0x20u8) <==> k == 2) by (bit_vector)
        requires
            k == (b / 16) % 4,
    ;
    assert((b & 0x30u8 == 0x30u8) <==> k == 3) by (bit_vector)
        requires
            k == (b / 16) % 4,
    ;
}

impl LongHeaderType {
    /// Read the long packet type from the first byte of a long-header packet
    pub fn from_byte(b: u8) -> (r: Result<LongHeaderType, PacketDecodeError>)
        requires
            b & LONG_HEADER_FORM != 0,
        ensures
            r == Ok::<LongHeaderType, PacketDecodeError>(spec_long_header_type(b)),
            (b & 0x30u8 == 0x00u8) <==> r == Ok::<LongHeaderType, PacketDecodeError>(
                LongHeaderType::Initial,
            ),
            (b & 0x30u8 == 0x10u8) <==> r == Ok::<LongHeaderType, PacketDecodeError>(
                LongHeaderType::Standard(LongType::ZeroRtt),
            ),
            (b & 0x30u8 == 0x20u8) <==> r == Ok::<LongHeaderType, PacketDecodeError>(
                LongHeaderType::Standard(LongType::Handshake),
            ),
            (b & 0x30u8 == 0x30u8) <==> r == Ok::<LongHeaderType, PacketDecodeError>(
                LongHeaderType::Retry,
            ),
    {
        proof {
            lemma_long_header_type_bits(b);
        }
        let k = (b & 0x30u8) >> 4u8;
        assert(k == (b / 16) % 4) by (bit_vector)
            requires
                k == (b & 0x30u8) >> 4u8,
        ;
        Ok(
            if k == 0 {
                LongHeaderType::Initial
            } else if k == 1 {
                LongHeaderType::Standard(LongType::ZeroRtt)
            } else if k == 2 {
                LongHeaderType::Standard(LongType::Handshake)
            } else {
                LongHeaderType::Retry
            },
        )
    }
}

/// Packet number space identifiers
#[derive(Debug, Copy, Clone, PartialEq, Eq, Structural)]
pub enum SpaceId {
    /// Unprotected packets, used to bootstrap the handshake
    Initial,
    /// Packets protected with handshake keys
    Handshake,
    /// Application data space, used for 0-RTT and post-handshake/1-RTT packets
    Data,
}

impl SpaceId {
    /// All spaces, in order
    pub fn iter() -> (r: Vec<SpaceId>)
        ensures
            r@ == seq![SpaceId::Initial, SpaceId::Handshake, SpaceId::Data],
    {
        let mut v = Vec::new();
        v.push(SpaceId::Initial);
        v.push(SpaceId::Handshake);
        v.push(SpaceId::Data);
        assert(v@ =~= seq![SpaceId::Initial, SpaceId::Handshake, SpaceId::Data]);
        v
    }

    /// Index of the space: 0, 1 or 2
    pub fn index(self) -> (r: usize)
        ensures
            r == spec_space_index(self),
    {
        match self {
            SpaceId::Initial => 0,
            SpaceId::Handshake => 1,
            SpaceId::Data => 2,
        }
    }
}

/// Index of a packet number space
pub open spec fn spec_space_index(s: SpaceId) -> nat {
    match s {
        SpaceId::Initial => 0,
        SpaceId::Handshake => 1,
        SpaceId::Data => 2,
    }
}

/// A connection ID parser that assumes the connection ID is of fixed length
pub struct FixedLengthConnectionIdParser {
    expected_len: usize,
}

impl FixedLengthConnectionIdParser {
    /// The length of the connection IDs parsed
    pub closed spec fn spec_expected_len(&self) -> nat {
        self.expected_len as nat
    }

    /// Create a new instance of `FixedLengthConnectionIdParser`
    pub fn new(expected_len: usize) -> (r: FixedLengthConnectionIdParser)
        ensures
            r.spec_expected_len() == expected_len,
    {
        FixedLengthConnectionIdParser { expected_len }
    }

    /// Parse a connection ID of the expected length at `pos` in `buf`
    pub fn parse(&self, buf: &[u8], pos: usize) -> (r: Result<ConnectionId, PacketDecodeError>)
        requires
            self.spec_expected_len() <= MAX_CID_SIZE,
            pos <= buf@.len(),
        ensures
            buf@.len() - pos >= self.spec_expected_len() ==> r is Ok && r->Ok_0@ == buf@.subrange(
                pos as int,
                pos + self.spec_expected_len(),
            ),
            buf@.len() - pos < self.spec_expected_len() ==> r is Err && r->Err_0.spec_view()
                == DecodeErrorView::InvalidHeader("packet too small"@),
    {
        if buf.len() - pos >= self.expected_len {
            Ok(ConnectionId::from_buf(buf, pos, self.expected_len))
        } else {
            Err(PacketDecodeError::InvalidHeader("packet too small"))
        }
    }
}

/// Header of an Initial packet, before decryption
#[derive(Debug)]
pub struct ProtectedInitialHeader {
    /// Destination Connection ID
    pub dst_cid: ConnectionId,
    /// Source Connection ID
    pub src_cid: ConnectionId,
    /// The position of a token in the packet buffer
    pub token_pos: std::ops::Range<usize>,
    /// Length of the packet payload
    pub len: u64,
    /// QUIC version
    pub version: u32,
}

/// Plain packet header
#[derive(Debug)]
pub enum ProtectedHeader {
    /// A short packet header, as used during the data phase
    Short {
        /// Spin bit
        spin: bool,
        /// Destination Connection ID
        dst_cid: ConnectionId,
    },
    /// A Version Negotiation packet header
    VersionNegotiate {
        /// Random value
        random: u8,
        /// Destination Connection ID
        dst_cid: ConnectionId,
        /// Source Connection ID
        src_cid: ConnectionId,
    },
    /// An Initial packet header
    Initial(ProtectedInitialHeader),
    /// A Retry packet header
    Retry {
        /// Destination Connection ID
        dst_cid: ConnectionId,
        /// Source Connection ID
        src_cid: ConnectionId,
        /// QUIC version
        version: u32,
    },
    /// A Long packet header, as used during the handshake
    Long {
        /// Type of the Long header packet
        ty: LongType,
        /// Destination Connection ID
        dst_cid: ConnectionId,
        /// Source Connection ID
        src_cid: ConnectionId,
        /// Length of the packet payload
        len: u64,
        /// QUIC version
        version: u32,
    },
}

/// Abstract value of a [`ProtectedHeader`], with connection IDs as byte sequences
pub enum HeaderView {
    /// Short header
    Short { spin: bool, dst_cid: Seq<u8> },
    /// Version negotiation header
    VersionNegotiate { random: u8, dst_cid: Seq<u8>, src_cid: Seq<u8> },
    /// Initial header, with the token occupying `token_start..token_end` of the datagram
    Initial {
        dst_cid: Seq<u8>,
        src_cid: Seq<u8>,
        token_start: nat,
        token_end: nat,
        len: u64,
        version: u32,
    },
    /// Retry header
    Retry { dst_cid: Seq<u8>, src_cid: Seq<u8>, version: u32 },
    /// Handshake or 0-RTT header
    Long { ty: LongType, dst_cid: Seq<u8>, src_cid: Seq<u8>, len: u64, version: u32 },
}

impl ProtectedHeader {
    /// Abstract value of the header
    pub open spec fn spec_view(self) -> HeaderView {
        match self {
            ProtectedHeader::Short { spin, dst_cid } => HeaderView::Short { spin, dst_cid: dst_cid@ },
            ProtectedHeader::VersionNegotiate { random, dst_cid, src_cid } =>
                HeaderView::VersionNegotiate { random, dst_cid: dst_cid@, src_cid: src_cid@ },
            ProtectedHeader::Initial(h) => HeaderView::Initial {
                dst_cid: h.dst_cid@,
                src_cid: h.src_cid@,
                token_start: h.token_pos.start as nat,
                token_end: h.token_pos.end as nat,
                len: h.len,
                version: h.version,
            },
            ProtectedHeader::Retry { dst_cid, src_cid, version } =>
                HeaderView::Retry { dst_cid: dst_cid@, src_cid: src_cid@, version },
            ProtectedHeader::Long { ty, dst_cid, src_cid, len, version } =>
                HeaderView::Long { ty, dst_cid: dst_cid@, src_cid: src_cid@, len, version },
        }
    }
}

/// The error for a buffer that ends inside the header
pub open spec fn spec_unexpected_end() -> DecodeErrorView {
    DecodeErrorView::InvalidHeader("unexpected end of packet"@)
}

/// Decoding of the part of a long header that follows the two connection IDs, which end at `p`
pub open spec fn spec_decode_long_rest(
    s: Seq<u8>,
    p: nat,
    first: u8,
    version: u32,
    dst: Seq<u8>,
    src: Seq<u8>,
) -> Result<(HeaderView, nat), DecodeErrorView> {
    match spec_long_header_type(first) {
        LongHeaderType::Initial => match spec_varint_decode(s.subrange(p as int, s.len() as int)) {
            None => Err(spec_unexpected_end()),
            Some((token_len, n1)) => {
                let token_start = p + n1;
                if token_len > s.len() - token_start {
                    Err(DecodeErrorView::InvalidHeader("token out of bounds"@))
                } else {
                    let token_end = (token_start + token_len) as nat;
                    match spec_varint_decode(s.subrange(token_end as int, s.len() as int)) {
                        None => Err(spec_unexpected_end()),
                        Some((len, n2)) => Ok(
                            (
                                HeaderView::Initial {
                                    dst_cid: dst,
                                    src_cid: src,
                                    token_start,
                                    token_end,
                                    len,
                                    version,
                                },
                                token_end + n2,
                            ),
                        ),
                    }
                }
            },
        },
        LongHeaderType::Retry => Ok((HeaderView::Retry { dst_cid: dst, src_cid: src, version }, p)),
        LongHeaderType::Standard(ty) => match spec_varint_decode(
            s.subrange(p as int, s.len() as int),
        ) {
            None => Err(spec_unexpected_end()),
            Some((len, n1)) => Ok(
                (HeaderView::Long { ty, dst_cid: dst, src_cid: src, len, version }, p + n1),
            ),
        },
    }
}

/// Decoding of the invariant header at the start of datagram `s`: the header and the number of
/// bytes it occupies, or the reason it could not be decoded
pub open spec fn spec_decode_header(
    s: Seq<u8>,
    cid_len: nat,
    versions: Seq<u32>,
    grease_quic_bit: bool,
) -> Result<(HeaderView, nat), DecodeErrorView> {
    if s.len() == 0 {
        Err(spec_unexpected_end())
    } else {
        let first = s[0];
        if !grease_quic_bit && first & FIXED_BIT == 0 {
            Err(DecodeErrorView::InvalidHeader("fixed bit unset"@))
        } else if first & LONG_HEADER_FORM == 0 {
            if s.len() - 1 >= cid_len {
                Ok(
                    (
                        HeaderView::Short {
                            spin: first & SPIN_BIT != 0,
                            dst_cid: s.subrange(1, (1 + cid_len) as int),
                        },
                        1 + cid_len,
                    ),
                )
            } else {
                Err(DecodeErrorView::InvalidHeader("packet too small"@))
            }
        } else if s.len() < 5 {
            Err(spec_unexpected_end())
        } else {
            let version = from_be32(s.subrange(1, 5));
            match spec_decode_long(s.subrange(5, s.len() as int)) {
                None => Err(DecodeErrorView::InvalidHeader("malformed cid"@)),
                Some((dst, n1)) => match spec_decode_long(s.subrange((5 + n1) as int, s.len() as int)) {
                    None => Err(DecodeErrorView::InvalidHeader("malformed cid"@)),
                    Some((src, n2)) => {
                        let p = (5 + n1 + n2) as nat;
                        if version == 0 {
                            Ok(
                                (
                                    HeaderView::VersionNegotiate {
                                        random: first & !LONG_HEADER_FORM,
                                        dst_cid: dst,
                                        src_cid: src,
                                    },
                                    p,
                                ),
                            )
                        } else if !versions.contains(version) {
                            Err(
                                DecodeErrorView::UnsupportedVersion {
                                    src_cid: src,
                                    dst_cid: dst,
                                    version,
                                },
                            )
                        } else {
                            spec_decode_long_rest(s, p, first, version, dst, src)
                        }
                    },
                },
            }
        }
    }
}

/// Whether `v` is one of `versions`
pub fn version_supported(versions: &[u32], v: u32) -> (r: bool)
    ensures
        r == versions@.contains(v),
{
    let mut i: usize = 0;
    while i < versions.len()
        invariant
            i <= versions@.len(),
            forall|j: int| 0 <= j < i ==> versions@[j] != v,
        decreases versions@.len() - i,
    {
        if versions[i] == v {
            assert(versions@[i as int] == v);
            return true;
        }
        i = i + 1;
    }
    false
}

/// Decode a variable-length integer at `pos`, as a header field
fn read_var(buf: &[u8], pos: usize) -> (r: Result<(u64, usize), PacketDecodeError>)
    requires
        pos <= buf@.len(),
    ensures
        match spec_varint_decode(buf@.subrange(pos as int, buf@.len() as int)) {
            Some((v, n)) => r is Ok && r->Ok_0.0 == v && r->Ok_0.1 == n && pos + n <= buf@.len()
                && v < crate::varint::VARINT_BOUND,
            None => r is Err && r->Err_0.spec_view() == spec_unexpected_end(),
        },
{
    let rest = &buf[pos..buf.len()];
    proof {
        crate::varint::lemma_varint_decode_bound(rest@);
    }
    match VarInt::decode(rest) {
        Ok((v, n)) => Ok((v.into_inner(), n)),
        Err(_) => Err(PacketDecodeError::InvalidHeader("unexpected end of packet")),
    }
}


impl ProtectedHeader {
    /// Decode a plain header from the start of datagram `buf`, with connection IDs of
    /// short-header packets parsed by `cid_parser`
    ///
    /// Returns the header and the number of bytes it occupies.
    pub fn decode(
        buf: &[u8],
        cid_parser: &FixedLengthConnectionIdParser,
        supported_versions: &[u32],
        grease_quic_bit: bool,
    ) -> (r: Result<(ProtectedHeader, usize), PacketDecodeError>)
        requires
            cid_parser.spec_expected_len() <= MAX_CID_SIZE,
        ensures
            match spec_decode_header(
                buf@,
                cid_parser.spec_expected_len(),
                supported_versions@,
                grease_quic_bit,
            ) {
                Ok((h, n)) => r is Ok && r->Ok_0.0.spec_view() == h && r->Ok_0.1 == n,
                Err(e) => r is Err && r->Err_0.spec_view() == e,
            },
    {
        if buf.len() == 0 {
            return Err(PacketDecodeError::InvalidHeader("unexpected end of packet"));
        }
        let first = buf[0];
        if !grease_quic_bit && first & FIXED_BIT == 0 {
            return Err(PacketDecodeError::InvalidHeader("fixed bit unset"));
        }
        if first & LONG_HEADER_FORM == 0 {
            let spin = first & SPIN_BIT != 0;
            let dst_cid = match cid_parser.parse(buf, 1) {
                Ok(c) => c,
                Err(e) => return Err(e),
            };
            let n = 1 + dst_cid.len();
            return Ok((ProtectedHeader::Short { spin, dst_cid }, n));
        }
        if buf.len() < 5 {
            return Err(PacketDecodeError::InvalidHeader("unexpected end of packet"));
        }
        let version = get_u32(buf, 1);
        let (dst_cid, n1) = match ConnectionId::decode_long(&buf[5..buf.len()]) {
            Some(x) => x,
            None => return Err(PacketDecodeError::InvalidHeader("malformed cid")),
        };
        let p1 = 5 + n1;
        let (src_cid, n2) = match ConnectionId::decode_long(&buf[p1..buf.len()]) {
            Some(x) => x,
            None => return Err(PacketDecodeError::InvalidHeader("malformed cid")),
        };
        let p = p1 + n2;
        if version == 0 {
            let random = first & !LONG_HEADER_FORM;
            return Ok((ProtectedHeader::VersionNegotiate { random, dst_cid, src_cid }, p));
        }
        if !version_supported(supported_versions, version) {
            return Err(PacketDecodeError::UnsupportedVersion { src_cid, dst_cid, version });
        }
        let ty = match LongHeaderType::from_byte(first) {
            Ok(t) => t,
            Err(e) => return Err(e),
        };
        match ty {
            LongHeaderType::Initial => {
                let (token_len, n3) = match read_var(buf, p) {
                    Ok(x) => x,
                    Err(e) => return Err(e),
                };
                let token_start = p + n3;
                if token_len > (buf.len() - token_start) as u64 {
                    return Err(PacketDecodeError::InvalidHeader("token out of bounds"));
                }
                let token_end = token_start + token_len as usize;
                let (len, n4) = match read_var(buf, token_end) {
                    Ok(x) => x,
                    Err(e) => return Err(e),
                };
                Ok(
                    (
                        ProtectedHeader::Initial(
                            ProtectedInitialHeader {
                                dst_cid,
                                src_cid,
                                token_pos: token_start..token_end,
                                len,
                                version,
                            },
                        ),
                        token_end + n4,
                    ),
                )
            },
            LongHeaderType::Retry => Ok((ProtectedHeader::Retry { dst_cid, src_cid, version }, p)),
            LongHeaderType::Standard(ty) => {
                let (len, n3) = match read_var(buf, p) {
                    Ok(x) => x,
                    Err(e) => return Err(e),
                };
                Ok((ProtectedHeader::Long { ty, dst_cid, src_cid, len, version }, p + n3))
            },
        }
    }

    /// Length of the packet payload, for headers that carry it
    pub fn payload_len(&self) -> (r: Option<u64>)
        ensures
            r == spec_payload_len(self.spec_view()),
    {
        match self {
            ProtectedHeader::Initial(h) => Some(h.len),
            ProtectedHeader::Long { len, .. } => Some(*len),
            _ => None,
        }
    }

    /// The destination Connection ID of the packet
    pub fn dst_cid(&self) -> (r: &ConnectionId)
        ensures
            r@ == spec_header_dst_cid(self.spec_view()),
    {
        match self {
            ProtectedHeader::Initial(header) => &header.dst_cid,
            ProtectedHeader::Long { dst_cid, .. } => dst_cid,
            ProtectedHeader::Retry { dst_cid, .. } => dst_cid,
            ProtectedHeader::Short { dst_cid, .. } => dst_cid,
            ProtectedHeader::VersionNegotiate { dst_cid, .. } => dst_cid,
        }
    }
}

/// Payload length carried by Initial and Handshake/0-RTT headers
pub open spec fn spec_payload_len(h: HeaderView) -> Option<u64> {
    match h {
        HeaderView::Initial { len, .. } => Some(len),
        HeaderView::Long { len, .. } => Some(len),
        _ => None,
    }
}

/// Destination connection ID of any header
pub open spec fn spec_header_dst_cid(h: HeaderView) -> Seq<u8> {
    match h {
        HeaderView::Short { dst_cid, .. } => dst_cid,
        HeaderView::VersionNegotiate { dst_cid, .. } => dst_cid,
        HeaderView::Initial { dst_cid, .. } => dst_cid,
        HeaderView::Retry { dst_cid, .. } => dst_cid,
        HeaderView::Long { dst_cid, .. } => dst_cid,
    }
}


/// Decodes a QUIC packet's invariant header
///
/// Due to packet number encryption, it is impossible to fully decode a header
/// (which includes a variable-length packet number) without crypto context.
/// The crypto context is usually part of the `Connection`, or can be derived from the
/// destination CID for Initial packets.
///
/// To cope with this, we decode the invariant header (which should be stable
/// across QUIC versions), which gives us the destination CID and allows us
/// to inspect the version and packet type (which depends on the version).
/// This information allows us to fully decode and decrypt the packet.
#[derive(Debug)]
pub struct PartialDecode {
    plain_header: ProtectedHeader,
    buf: Vec<u8>,
    pos: usize,
}

/// Length of the packet at the start of a datagram of `dgram_len` bytes whose header, `n` bytes
/// long, is `h`: the header plus its payload length if it has one, else the whole datagram
pub open spec fn spec_packet_len(h: HeaderView, n: nat, dgram_len: nat) -> int {
    match spec_payload_len(h) {
        Some(len) => n + len,
        None => dgram_len as int,
    }
}

/// Space of a header, for packets that belong to one
pub open spec fn spec_header_space(h: HeaderView) -> Option<SpaceId> {
    match h {
        HeaderView::Initial { .. } => Some(SpaceId::Initial),
        HeaderView::Long { ty: LongType::Handshake, .. } => Some(SpaceId::Handshake),
        HeaderView::Long { ty: LongType::ZeroRtt, .. } => Some(SpaceId::Data),
        HeaderView::Short { .. } => Some(SpaceId::Data),
        _ => None,
    }
}

/// Payload lengths of decoded headers are below 2^62
pub proof fn lemma_decode_header_len_bound(s: Seq<u8>, cid_len: nat, versions: Seq<u32>, grease: bool)
    ensures
        spec_decode_header(s, cid_len, versions, grease) matches Ok((h, n)) ==> n <= s.len() && (
        spec_payload_len(h) matches Some(l) ==> l < crate::varint::VARINT_BOUND),
{
    if s.len() >= 5 {
        match spec_decode_long(s.subrange(5, s.len() as int)) {
            None => {},
            Some((dst, n1)) => match spec_decode_long(s.subrange((5 + n1) as int, s.len() as int)) {
                None => {},
                Some((src, n2)) => {
                    let p = (5 + n1 + n2) as nat;
                    crate::varint::lemma_varint_decode_bound(s.subrange(p as int, s.len() as int));
                    match spec_varint_decode(s.subrange(p as int, s.len() as int)) {
                        None => {},
                        Some((tl, m)) => {
                            let te = p + m + tl;
                            if te <= s.len() {
                                crate::varint::lemma_varint_decode_bound(
                                    s.subrange(te as int, s.len() as int),
                                );
                            }
                        },
                    }
                },
            },
        }
    }
}

impl PartialDecode {
    /// The decoded header
    pub closed spec fn spec_header(&self) -> HeaderView {
        self.plain_header.spec_view()
    }

    /// The bytes of the packet
    pub closed spec fn spec_data(&self) -> Seq<u8> {
        self.buf@
    }

    /// Begin decoding a QUIC packet from `bytes`, returning any trailing data not part of that
    /// packet
    pub fn new(
        bytes: Vec<u8>,
        cid_parser: &FixedLengthConnectionIdParser,
        supported_versions: &[u32],
        grease_quic_bit: bool,
    ) -> (r: Result<(PartialDecode, Option<Vec<u8>>), PacketDecodeError>)
        requires
            cid_parser.spec_expected_len() <= MAX_CID_SIZE,
        ensures
            match spec_decode_header(
                bytes@,
                cid_parser.spec_expected_len(),
                supported_versions@,
                grease_quic_bit,
            ) {
                Err(e) => r is Err && r->Err_0.spec_view() == e,
                Ok((h, n)) => {
                    let plen = spec_packet_len(h, n, bytes@.len());
                    if bytes@.len() == plen {
                        &&& r is Ok
                        &&& r->Ok_0.0.spec_header() == h
                        &&& r->Ok_0.0.spec_data() == bytes@
                        &&& r->Ok_0.1 is None
                    } else if bytes@.len() < plen {
                        &&& r is Err
                        &&& r->Err_0.spec_view() == DecodeErrorView::InvalidHeader(
                            "packet too short to contain payload length"@,
                        )
                    } else {
                        &&& r is Ok
                        &&& r->Ok_0.0.spec_header() == h
                        &&& r->Ok_0.0.spec_data() == bytes@.subrange(0, plen)
                        &&& r->Ok_0.1 is Some
                        &&& r->Ok_0.1->Some_0@ == bytes@.subrange(plen, bytes@.len() as int)
                    }
                },
            },
    {
        let (plain_header, pos) = match ProtectedHeader::decode(
            bytes.as_slice(),
            cid_parser,
            supported_versions,
            grease_quic_bit,
        ) {
            Ok(x) => x,
            Err(e) => return Err(e),
        };
        proof {
            lemma_decode_header_len_bound(
                bytes@,
                cid_parser.spec_expected_len(),
                supported_versions@,
                grease_quic_bit,
            );
        }
        let dgram_len = bytes.len();
        let payload = match plain_header.payload_len() {
            Some(len) => len,
            None => return Ok((PartialDecode { plain_header, buf: bytes, pos }, None)),
        };
        let room = (dgram_len - pos) as u64;
        if payload == room {
            Ok((PartialDecode { plain_header, buf: bytes, pos }, None))
        } else if payload > room {
            Err(PacketDecodeError::InvalidHeader("packet too short to contain payload length"))
        } else {
            let packet_len = pos + payload as usize;
            let mut buf = bytes;
            let rest = buf.split_off(packet_len);
            Ok((PartialDecode { plain_header, buf, pos }, Some(rest)))
        }
    }

    /// The destination connection ID of the packet
    pub fn dst_cid(&self) -> (r: &ConnectionId)
        ensures
            r@ == spec_header_dst_cid(self.spec_header()),
    {
        self.plain_header.dst_cid()
    }

    /// Whether the packet has a long header
    pub fn has_long_header(&self) -> (r: bool)
        ensures
            r == !(self.spec_header() is Short),
    {
        match &self.plain_header {
            ProtectedHeader::Short { .. } => false,
            _ => true,
        }
    }

    /// Whether this is an Initial packet
    pub fn is_initial(&self) -> (r: bool)
        ensures
            r == (spec_header_space(self.spec_header()) == Some(SpaceId::Initial)),
    {
        match self.space() {
            Some(SpaceId::Initial) => true,
            _ => false,
        }
    }

    /// The packet number space of the packet, if it belongs to one
    pub fn space(&self) -> (r: Option<SpaceId>)
        ensures
            r == spec_header_space(self.spec_header()),
    {
        match &self.plain_header {
            ProtectedHeader::Initial(_) => Some(SpaceId::Initial),
            ProtectedHeader::Long { ty: LongType::Handshake, .. } => Some(SpaceId::Handshake),
            ProtectedHeader::Long { ty: LongType::ZeroRtt, .. } => Some(SpaceId::Data),
            ProtectedHeader::Short { .. } => Some(SpaceId::Data),
            _ => None,
        }
    }

    /// Whether this is a 0-RTT packet
    pub fn is_0rtt(&self) -> (r: bool)
        ensures
            r == (self.spec_header() matches HeaderView::Long { ty, .. } && ty == LongType::ZeroRtt),
    {
        match &self.plain_header {
            ProtectedHeader::Long { ty, .. } => match ty {
                LongType::ZeroRtt => true,
                LongType::Handshake => false,
            },
            _ => false,
        }
    }

    /// The underlying partially-decoded packet data
    pub fn data(&self) -> (r: &[u8])
        ensures
            r@ == self.spec_data(),
    {
        self.buf.as_slice()
    }

    /// Length of QUIC packet being decoded
    pub fn len(&self) -> (r: usize)
        ensures
            r == self.spec_data().len(),
    {
        self.buf.len()
    }
}

} // verus!
