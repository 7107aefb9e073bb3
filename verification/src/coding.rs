//! Big-endian integer coding on byte sequences.
use vstd::prelude::*;

verus! {

/// Error returned when a buffer ends before a value could be read from it
#[derive(Debug, Copy, Clone, PartialEq, Eq, Structural)]
pub struct UnexpectedEnd;

/// Big-endian bytes of a 16-bit value
pub open spec fn be16(v: u16) -> Seq<u8> {
    seq![(v >> 8u16) as u8, v as u8]
}

/// Big-endian bytes of a 32-bit value
pub open spec fn be32(v: u32) -> Seq<u8> {
    seq![(v >> 24u32) as u8, (v >> 16u32) as u8, (v >> 8u32) as u8, v as u8]
}

/// Big-endian bytes of a 64-bit value
pub open spec fn be64(v: u64) -> Seq<u8> {
    seq![
        (v >> 56u64) as u8,
        (v >> 48u64) as u8,
        (v >> 40u64) as u8,
        (v >> 32u64) as u8,
        (v >> 24u64) as u8,
        (v >> 16u64) as u8,
        (v >> 8u64) as u8,
        v as u8,
    ]
}

/// The 16-bit value whose big-endian bytes start `s`
pub open spec fn from_be16(s: Seq<u8>) -> u16 {
    ((s[0] as u16) << 8u16) | (s[1] as u16)
}

/// The 32-bit value whose big-endian bytes start `s`
pub open spec fn from_be32(s: Seq<u8>) -> u32 {
    ((s[0] as u32) << 24u32) | ((s[1] as u32) << 16u32) | ((s[2] as u32) << 8u32) | (s[3] as u32)
}

/// The 64-bit value whose big-endian bytes start `s`
pub open spec fn from_be64(s: Seq<u8>) -> u64 {
    ((s[0] as u64) << 56u64) | ((s[1] as u64) << 48u64) | ((s[2] as u64) << 40u64) | ((s[3] as u64)
        << 32u64) | ((s[4] as u64) << 24u64) | ((s[5] as u64) << 16u64) | ((s[6] as u64) << 8u64)
        | (s[7] as u64)
}

/// Appends the big-endian bytes of `v` to `w`
pub fn put_u16(w: &mut Vec<u8>, v: u16)
    ensures
        final(w)@ == old(w)@ + be16(v),
{
    w.push((v >> 8u16) as u8);
    w.push(v as u8);
    assert(final(w)@ =~= old(w)@ + be16(v));
}

/// Appends the big-endian bytes of `v` to `w`
pub fn put_u32(w: &mut Vec<u8>, v: u32)
    ensures
        final(w)@ == old(w)@ + be32(v),
{
    w.push((v >> 24u32) as u8);
    w.push((v >> 16u32) as u8);
    w.push((v >> 8u32) as u8);
    w.push(v as u8);
    assert(final(w)@ =~= old(w)@ + be32(v));
}

/// Appends the big-endian bytes of `v` to `w`
pub fn put_u64(w: &mut Vec<u8>, v: u64)
    ensures
        final(w)@ == old(w)@ + be64(v),
{
    w.push((v >> 56u64) as u8);
    w.push((v >> 48u64) as u8);
    w.push((v >> 40u64) as u8);
    w.push((v >> 32u64) as u8);
    w.push((v >> 24u64) as u8);
    w.push((v >> 16u64) as u8);
    w.push((v >> 8u64) as u8);
    w.push(v as u8);
    assert(final(w)@ =~= old(w)@ + be64(v));
}

/// Reads a big-endian 16-bit value at `pos`
pub fn get_u16(r: &[u8], pos: usize) -> (res: u16)
    requires
        pos + 2 <= r@.len(),
    ensures
        res == from_be16(r@.subrange(pos as int, pos + 2)),
{
    ((r[pos] as u16) << 8u16) | (r[pos + 1] as u16)
}

/// Reads a big-endian 32-bit value at `pos`
pub fn get_u32(r: &[u8], pos: usize) -> (res: u32)
    requires
        pos + 4 <= r@.len(),
    ensures
        res == from_be32(r@.subrange(pos as int, pos + 4)),
{
    ((r[pos] as u32) << 24u32) | ((r[pos + 1] as u32) << 16u32) | ((r[pos + 2] as u32) << 8u32) | (
    r[pos + 3] as u32)
}

/// Reads a big-endian 64-bit value at `pos`
pub fn get_u64(r: &[u8], pos: usize) -> (res: u64)
    requires
        pos + 8 <= r@.len(),
    ensures
        res == from_be64(r@.subrange(pos as int, pos + 8)),
{
    ((r[pos] as u64) << 56u64) | ((r[pos + 1] as u64) << 48u64) | ((r[pos + 2] as u64) << 40u64) | ((
    r[pos + 3] as u64) << 32u64) | ((r[pos + 4] as u64) << 24u64) | ((r[pos + 5] as u64) << 16u64)
        | ((r[pos + 6] as u64) << 8u64) | (r[pos + 7] as u64)
}

/// Decoding a 16-bit value from its big-endian bytes gives it back
pub proof fn lemma_be16_roundtrip(v: u16)
    ensures
        from_be16(be16(v)) == v,
{
    let b0 = (v >> 8u16) as u8;
    let b1 = v as u8;
    assert(((b0 as u16) << 8u16) | (b1 as u16) == v) by (bit_vector)
        requires
            b0 == (v >> 8u16) as u8,
            b1 == v as u8,
    ;
}

/// Decoding a 32-bit value from its big-endian bytes gives it back
pub proof fn lemma_be32_roundtrip(v: u32)
    ensures
        from_be32(be32(v)) == v,
{
    let b0 = (v >> 24u32) as u8;
    let b1 = (v >> 16u32) as u8;
    let b2 = (v >> 8u32) as u8;
    let b3 = v as u8;
    assert(((b0 as u32) << 24u32) | ((b1 as u32) << 16u32) | ((b2 as u32) << 8u32) | (b3 as u32)
        == v) by (bit_vector)
        requires
            b0 == (v >> 24u32) as u8,
            b1 == (v >> 16u32) as u8,
            b2 == (v >> 8u32) as u8,
            b3 == v as u8,
    ;
}

/// Decoding a 64-bit value from its big-endian bytes gives it back
pub proof fn lemma_be64_roundtrip(v: u64)
    ensures
        from_be64(be64(v)) == v,
{
    let b0 = (v >> 56u64) as u8;
    let b1 = (v >> 48u64) as u8;
    let b2 = (v >> 40u64) as u8;
    let b3 = (v >> 32u64) as u8;
    let b4 = (v >> 24u64) as u8;
    let b5 = (v >> 16u64) as u8;
    let b6 = (v >> 8u64) as u8;
    let b7 = v as u8;
    assert(((b0 as u64) << 56u64) | ((b1 as u64) << 48u64) | ((b2 as u64) << 40u64) | ((b3 as u64)
        << 32u64) | ((b4 as u64) << 24u64) | ((b5 as u64) << 16u64) | ((b6 as u64) << 8u64) | (
    b7 as u64) == v) by (bit_vector)
        requires
            b0 == (v >> 56u64) as u8,
            b1 == (v >> 48u64) as u8,
            b2 == (v >> 40u64) as u8,
            b3 == (v >> 32u64) as u8,
            b4 == (v >> 24u64) as u8,
            b5 == (v >> 16u64) as u8,
            b6 == (v >> 8u64) as u8,
            b7 == v as u8,
    ;
}


/// Bytes read back as a 16-bit value encode to themselves
pub proof fn lemma_be16_bytes(s: Seq<u8>)
    requires
        s.len() == 2,
    ensures
        be16(from_be16(s)) == s,
{
    let b0 = s[0];
    let b1 = s[1];
    let v = from_be16(s);
    assert((v >> 8u16) as u8 == b0 && v as u8 == b1) by (bit_vector)
        requires
            v == ((b0 as u16) << 8u16) | (b1 as u16),
    ;
    assert(be16(v) =~= s);
}

/// Bytes read back as a 32-bit value encode to themselves
pub proof fn lemma_be32_bytes(s: Seq<u8>)
    requires
        s.len() == 4,
    ensures
        be32(from_be32(s)) == s,
{
    let b0 = s[0];
    let b1 = s[1];
    let b2 = s[2];
    let b3 = s[3];
    let v = from_be32(s);
    assert((v >> 24u32) as u8 == b0 && (v >> 16u32) as u8 == b1 && (v >> 8u32) as u8 == b2 && v as u8
        == b3) by (bit_vector)
        requires
            v == ((b0 as u32) << 24u32) | ((b1 as u32) << 16u32) | ((b2 as u32) << 8u32) | (b3 as u32),
    ;
    assert(be32(v) =~= s);
}

/// Append the bytes of `v` to `w`
pub fn put_slice(w: &mut Vec<u8>, v: &[u8])
    ensures
        final(w)@ == old(w)@ + v@,
{
    let mut i: usize = 0;
    while i < v.len()
        invariant
            i <= v@.len(),
            w@ == old(w)@ + v@.subrange(0, i as int),
        decreases v@.len() - i,
    {
        w.push(v[i]);
        i = i + 1;
        assert(w@ =~= old(w)@ + v@.subrange(0, i as int));
    }
    assert(v@.subrange(0, v@.len() as int) =~= v@);
}

} // verus!
