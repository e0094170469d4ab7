//! Fixed-width integers as bytes, in little- and big-endian order.
use vstd::prelude::*;

verus! {

/// The eight bytes of `u`, least significant first.
pub open spec fn le_u64(u: u64) -> Seq<u8> {
    seq![
        (u & 0xff) as u8,
        ((u >> 8u64) & 0xff) as u8,
        ((u >> 16u64) & 0xff) as u8,
        ((u >> 24u64) & 0xff) as u8,
        ((u >> 32u64) & 0xff) as u8,
        ((u >> 40u64) & 0xff) as u8,
        ((u >> 48u64) & 0xff) as u8,
        ((u >> 56u64) & 0xff) as u8,
    ]
}

/// The eight bytes of `u`, most significant first.
pub open spec fn be_u64(u: u64) -> Seq<u8> {
    le_u64(u).reverse()
}

/// The four bytes of `u`, least significant first.
pub open spec fn le_u32(u: u32) -> Seq<u8> {
    seq![
        (u & 0xff) as u8,
        ((u >> 8u32) & 0xff) as u8,
        ((u >> 16u32) & 0xff) as u8,
        ((u >> 24u32) & 0xff) as u8,
    ]
}

/// The integer whose least significant byte comes first in `b[0..8]`.
pub open spec fn from_le_u64(b: Seq<u8>) -> u64 {
    (b[0] as u64) | ((b[1] as u64) << 8u64) | ((b[2] as u64) << 16u64) | ((b[3] as u64) << 24u64)
        | ((b[4] as u64) << 32u64) | ((b[5] as u64) << 40u64) | ((b[6] as u64) << 48u64) | ((
    b[7] as u64) << 56u64)
}

/// The integer whose most significant byte comes first in `b[0..8]`.
pub open spec fn from_be_u64(b: Seq<u8>) -> u64 {
    from_le_u64(b.reverse())
}

/// The integer whose least significant byte comes first in `b[0..4]`.
pub open spec fn from_le_u32(b: Seq<u8>) -> u32 {
    (b[0] as u32) | ((b[1] as u32) << 8u32) | ((b[2] as u32) << 16u32) | ((b[3] as u32) << 24u32)
}

/// Reading back the little-endian bytes of `u` gives `u`.
pub proof fn lemma_le_u64_round_trip(u: u64)
    ensures
        from_le_u64(le_u64(u)) == u,
{
    let b = le_u64(u);
    assert(from_le_u64(b) == ((((u & 0xff) as u8) as u64) | (((((u >> 8u64) & 0xff) as u8) as u64)
        << 8u64) | (((((u >> 16u64) & 0xff) as u8) as u64) << 16u64) | (((((u >> 24u64) & 0xff) as u8)
        as u64) << 24u64) | (((((u >> 32u64) & 0xff) as u8) as u64) << 32u64) | (((((u >> 40u64)
        & 0xff) as u8) as u64) << 40u64) | (((((u >> 48u64) & 0xff) as u8) as u64) << 48u64) | ((
    (((u >> 56u64) & 0xff) as u8) as u64) << 56u64)));
    assert(((((u & 0xff) as u8) as u64) | (((((u >> 8u64) & 0xff) as u8) as u64) << 8u64) | (((((u
        >> 16u64) & 0xff) as u8) as u64) << 16u64) | (((((u >> 24u64) & 0xff) as u8) as u64)
        << 24u64) | (((((u >> 32u64) & 0xff) as u8) as u64) << 32u64) | (((((u >> 40u64) & 0xff)
        as u8) as u64) << 40u64) | (((((u >> 48u64) & 0xff) as u8) as u64) << 48u64) | (((((u
        >> 56u64) & 0xff) as u8) as u64) << 56u64)) == u) by (bit_vector);
}

/// Reading back the big-endian bytes of `u` gives `u`.
pub proof fn lemma_be_u64_round_trip(u: u64)
    ensures
        from_be_u64(be_u64(u)) == u,
{
    assert(be_u64(u).reverse() =~= le_u64(u));
    lemma_le_u64_round_trip(u);
}

/// Reading back the little-endian bytes of `u` gives `u`.
pub proof fn lemma_le_u32_round_trip(u: u32)
    ensures
        from_le_u32(le_u32(u)) == u,
{
    let b = le_u32(u);
    assert(from_le_u32(b) == ((((u & 0xff) as u8) as u32) | (((((u >> 8u32) & 0xff) as u8) as u32)
        << 8u32) | (((((u >> 16u32) & 0xff) as u8) as u32) << 16u32) | (((((u >> 24u32) & 0xff)
        as u8) as u32) << 24u32)));
    assert(((((u & 0xff) as u8) as u32) | (((((u >> 8u32) & 0xff) as u8) as u32) << 8u32) | (((((u
        >> 16u32) & 0xff) as u8) as u32) << 16u32) | (((((u >> 24u32) & 0xff) as u8) as u32)
        << 24u32)) == u) by (bit_vector);
}

/// The signed value survives a trip through its unsigned bit pattern.
pub proof fn lemma_i64_bits(x: i64)
    ensures
        ((x as u64) as i64) == x,
{
    assert(((x as u64) as i64) == x) by (bit_vector);
}

/// Appends the little-endian bytes of `u`.
pub fn push_le_u64(buf: &mut Vec<u8>, u: u64)
    ensures
        final(buf)@ == old(buf)@ + le_u64(u),
{
    buf.push((u & 0xff) as u8);
    buf.push(((u >> 8) & 0xff) as u8);
    buf.push(((u >> 16) & 0xff) as u8);
    buf.push(((u >> 24) & 0xff) as u8);
    buf.push(((u >> 32) & 0xff) as u8);
    buf.push(((u >> 40) & 0xff) as u8);
    buf.push(((u >> 48) & 0xff) as u8);
    buf.push(((u >> 56) & 0xff) as u8);
    assert(buf@ =~= old(buf)@ + le_u64(u));
}

/// Appends the big-endian bytes of `u`.
pub fn push_be_u64(buf: &mut Vec<u8>, u: u64)
    ensures
        final(buf)@ == old(buf)@ + be_u64(u),
{
    buf.push(((u >> 56) & 0xff) as u8);
    buf.push(((u >> 48) & 0xff) as u8);
    buf.push(((u >> 40) & 0xff) as u8);
    buf.push(((u >> 32) & 0xff) as u8);
    buf.push(((u >> 24) & 0xff) as u8);
    buf.push(((u >> 16) & 0xff) as u8);
    buf.push(((u >> 8) & 0xff) as u8);
    buf.push((u & 0xff) as u8);
    assert(buf@ =~= old(buf)@ + be_u64(u));
}

/// Appends the little-endian bytes of `u`.
pub fn push_le_u32(buf: &mut Vec<u8>, u: u32)
    ensures
        final(buf)@ == old(buf)@ + le_u32(u),
{
    buf.push((u & 0xff) as u8);
    buf.push(((u >> 8) & 0xff) as u8);
    buf.push(((u >> 16) & 0xff) as u8);
    buf.push(((u >> 24) & 0xff) as u8);
    assert(buf@ =~= old(buf)@ + le_u32(u));
}

/// Appends every byte of `src`.
pub fn push_slice(buf: &mut Vec<u8>, src: &[u8])
    ensures
        final(buf)@ == old(buf)@ + src@,
{
    let mut i: usize = 0;
    while i < src.len()
        invariant
            0 <= i <= src@.len(),
            buf@ == old(buf)@ + src@.take(i as int),
        decreases src@.len() - i,
    {
        buf.push(src[i]);
        i = i + 1;
        assert(src@.take(i as int) =~= src@.take(i - 1).push(src@[i - 1]));
    }
    assert(src@.take(i as int) =~= src@);
}

/// The little-endian integer in `b[at..at + 8]`.
pub fn read_le_u64(b: &[u8], at: usize) -> (r: u64)
    requires
        at + 8 <= b@.len(),
    ensures
        r == from_le_u64(b@.subrange(at as int, at + 8)),
{
    proof {
        let s = b@.subrange(at as int, at + 8);
        assert(s[0] == b@[at as int] && s[7] == b@[at + 7]);
    }
    (b[at] as u64) | ((b[at + 1] as u64) << 8) | ((b[at + 2] as u64) << 16) | ((b[at + 3] as u64) << 24)
        | ((b[at + 4] as u64) << 32) | ((b[at + 5] as u64) << 40) | ((b[at + 6] as u64) << 48) | ((
    b[at + 7] as u64) << 56)
}

/// The big-endian integer in `b[at..at + 8]`.
pub fn read_be_u64(b: &[u8], at: usize) -> (r: u64)
    requires
        at + 8 <= b@.len(),
    ensures
        r == from_be_u64(b@.subrange(at as int, at + 8)),
{
    proof {
        assert(b@.len() == b.len());
        let s = b@.subrange(at as int, at + 8).reverse();
        assert(s[0] == b@[at + 7] && s[7] == b@[at as int]);
    }
    (b[at + 7] as u64) | ((b[at + 6] as u64) << 8) | ((b[at + 5] as u64) << 16) | ((b[at + 4] as u64)
        << 24) | ((b[at + 3] as u64) << 32) | ((b[at + 2] as u64) << 40) | ((b[at + 1] as u64) << 48)
        | ((b[at] as u64) << 56)
}

/// The little-endian integer in `b[at..at + 4]`.
pub fn read_le_u32(b: &[u8], at: usize) -> (r: u32)
    requires
        at + 4 <= b@.len(),
    ensures
        r == from_le_u32(b@.subrange(at as int, at + 4)),
{
    (b[at] as u32) | ((b[at + 1] as u32) << 8) | ((b[at + 2] as u32) << 16) | ((b[at + 3] as u32) << 24)
}

} // verus!
