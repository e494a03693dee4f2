//! Fixed-width integers as bytes, in network (big-endian) and little-endian order.

use vstd::prelude::*;

verus! {

/// The four bytes of `v`, most significant first.
pub open spec fn u32_be_bytes(v: u32) -> Seq<u8> {
    seq![(v >> 24) as u8, ((v >> 16) & 0xff) as u8, ((v >> 8) & 0xff) as u8, (v & 0xff) as u8]
}

/// The value of four bytes read most significant first.
pub open spec fn u32_from_be(b: Seq<u8>) -> u32
    recommends
        b.len() == 4,
{
    ((b[0] as u32) << 24) | ((b[1] as u32) << 16) | ((b[2] as u32) << 8) | (b[3] as u32)
}

/// The eight bytes of `v`, most significant first.
pub open spec fn u64_be_bytes(v: u64) -> Seq<u8> {
    seq![
        (v >> 56) as u8,
        ((v >> 48) & 0xff) as u8,
        ((v >> 40) & 0xff) as u8,
        ((v >> 32) & 0xff) as u8,
        ((v >> 24) & 0xff) as u8,
        ((v >> 16) & 0xff) as u8,
        ((v >> 8) & 0xff) as u8,
        (v & 0xff) as u8,
    ]
}

/// The value of eight bytes read most significant first.
pub open spec fn u64_from_be(b: Seq<u8>) -> u64
    recommends
        b.len() == 8,
{
    ((b[0] as u64) << 56) | ((b[1] as u64) << 48) | ((b[2] as u64) << 40) | ((b[3] as u64) << 32)
        | ((b[4] as u64) << 24) | ((b[5] as u64) << 16) | ((b[6] as u64) << 8) | (b[7] as u64)
}

/// The two bytes of `v`, most significant first.
pub open spec fn u16_be_bytes(v: u16) -> Seq<u8> {
    seq![(v >> 8) as u8, (v & 0xff) as u8]
}

/// The value of two bytes read most significant first.
pub open spec fn u16_from_be(b: Seq<u8>) -> u16
    recommends
        b.len() == 2,
{
    ((b[0] as u16) << 8) | (b[1] as u16)
}

/// The sample of two bytes read least significant first.
pub open spec fn i16_from_le(lo: u8, hi: u8) -> i16 {
    (((hi as u16) << 8) | (lo as u16)) as i16
}

/// The two bytes of a sample, least significant first.
pub open spec fn i16_le_bytes(v: i16) -> Seq<u8> {
    seq![((v as u16) & 0xff) as u8, ((v as u16) >> 8) as u8]
}

pub proof fn lemma_u32_be_round_trip(v: u32)
    ensures
        u32_from_be(u32_be_bytes(v)) == v,
        u32_be_bytes(v).len() == 4,
{
    let b = u32_be_bytes(v);
    let (b0, b1, b2, b3) = (b[0], b[1], b[2], b[3]);
    assert(b0 == (v >> 24) as u8 && b1 == ((v >> 16) & 0xff) as u8 && b2 == ((v >> 8) & 0xff) as u8
        && b3 == (v & 0xff) as u8);
    assert(b0 == (v >> 24) as u8 && b1 == ((v >> 16) & 0xff) as u8 && b2 == ((v >> 8) & 0xff) as u8
        && b3 == (v & 0xff) as u8 ==> ((b0 as u32) << 24) | ((b1 as u32) << 16) | ((b2 as u32) << 8)
        | (b3 as u32) == v) by (bit_vector);
}

pub proof fn lemma_u32_be_bytes_of_value(b: Seq<u8>)
    requires
        b.len() == 4,
    ensures
        u32_be_bytes(u32_from_be(b)) == b,
{
    let v = u32_from_be(b);
    let (b0, b1, b2, b3) = (b[0], b[1], b[2], b[3]);
    assert(v == ((b0 as u32) << 24) | ((b1 as u32) << 16) | ((b2 as u32) << 8) | (b3 as u32) ==> (v
        >> 24) as u8 == b0 && ((v >> 16) & 0xff) as u8 == b1 && ((v >> 8) & 0xff) as u8 == b2 && (v
        & 0xff) as u8 == b3) by (bit_vector);
    assert(u32_be_bytes(v) =~= b);
}

pub proof fn lemma_u64_be_round_trip(v: u64)
    ensures
        u64_from_be(u64_be_bytes(v)) == v,
        u64_be_bytes(v).len() == 8,
{
    let b = u64_be_bytes(v);
    let (b0, b1, b2, b3, b4, b5, b6, b7) = (b[0], b[1], b[2], b[3], b[4], b[5], b[6], b[7]);
    assert(b0 == (v >> 56) as u8 && b1 == ((v >> 48) & 0xff) as u8 && b2 == ((v >> 40) & 0xff) as u8
        && b3 == ((v >> 32) & 0xff) as u8 && b4 == ((v >> 24) & 0xff) as u8 && b5 == ((v >> 16)
        & 0xff) as u8 && b6 == ((v >> 8) & 0xff) as u8 && b7 == (v & 0xff) as u8 ==> ((b0 as u64)
        << 56) | ((b1 as u64) << 48) | ((b2 as u64) << 40) | ((b3 as u64) << 32) | ((b4 as u64)
        << 24) | ((b5 as u64) << 16) | ((b6 as u64) << 8) | (b7 as u64) == v) by (bit_vector);
}

pub proof fn lemma_u64_be_bytes_of_value(b: Seq<u8>)
    requires
        b.len() == 8,
    ensures
        u64_be_bytes(u64_from_be(b)) == b,
{
    let v = u64_from_be(b);
    let (b0, b1, b2, b3, b4, b5, b6, b7) = (b[0], b[1], b[2], b[3], b[4], b[5], b[6], b[7]);
    assert(v == ((b0 as u64) << 56) | ((b1 as u64) << 48) | ((b2 as u64) << 40) | ((b3 as u64)
        << 32) | ((b4 as u64) << 24) | ((b5 as u64) << 16) | ((b6 as u64) << 8) | (b7 as u64) ==> (v
        >> 56) as u8 == b0 && ((v >> 48) & 0xff) as u8 == b1 && ((v >> 40) & 0xff) as u8 == b2 && ((v
        >> 32) & 0xff) as u8 == b3 && ((v >> 24) & 0xff) as u8 == b4 && ((v >> 16) & 0xff) as u8
        == b5 && ((v >> 8) & 0xff) as u8 == b6 && (v & 0xff) as u8 == b7) by (bit_vector);
    assert(u64_be_bytes(v) =~= b);
}

pub proof fn lemma_u16_be_round_trip(v: u16)
    ensures
        u16_from_be(u16_be_bytes(v)) == v,
        u16_be_bytes(v).len() == 2,
{
    let b = u16_be_bytes(v);
    let (b0, b1) = (b[0], b[1]);
    assert(b0 == (v >> 8) as u8 && b1 == (v & 0xff) as u8 ==> ((b0 as u16) << 8) | (b1 as u16) == v)
        by (bit_vector);
}

/// Appends the big-endian bytes of a `u16`.
pub fn push_u16_be(out: &mut Vec<u8>, v: u16)
    ensures
        final(out)@ == old(out)@ + u16_be_bytes(v),
{
    out.push((v >> 8) as u8);
    out.push((v & 0xff) as u8);
    assert(final(out)@ =~= old(out)@ + u16_be_bytes(v));
}

/// Appends the big-endian bytes of a `u32`.
pub fn push_u32_be(out: &mut Vec<u8>, v: u32)
    ensures
        final(out)@ == old(out)@ + u32_be_bytes(v),
{
    out.push((v >> 24) as u8);
    out.push(((v >> 16) & 0xff) as u8);
    out.push(((v >> 8) & 0xff) as u8);
    out.push((v & 0xff) as u8);
    assert(final(out)@ =~= old(out)@ + u32_be_bytes(v));
}

/// Appends the big-endian bytes of a `u64`.
pub fn push_u64_be(out: &mut Vec<u8>, v: u64)
    ensures
        final(out)@ == old(out)@ + u64_be_bytes(v),
{
    out.push((v >> 56) as u8);
    out.push(((v >> 48) & 0xff) as u8);
    out.push(((v >> 40) & 0xff) as u8);
    out.push(((v >> 32) & 0xff) as u8);
    out.push(((v >> 24) & 0xff) as u8);
    out.push(((v >> 16) & 0xff) as u8);
    out.push(((v >> 8) & 0xff) as u8);
    out.push((v & 0xff) as u8);
    assert(final(out)@ =~= old(out)@ + u64_be_bytes(v));
}

} // verus!
