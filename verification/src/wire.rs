//! Little-endian integer layouts used by every Synapse payload and header.
//!
//! A value is written least significant byte first; reading the bytes back
//! weighs byte `k` by `256^k`.
use vstd::arithmetic::div_mod::lemma_fundamental_div_mod_converse;
use vstd::prelude::*;
pub use crate::float_bits::{F32Bits, F64Bits};

verus! {

/// Little-endian bytes of a `u16`.
pub open spec fn le16(x: u16) -> Seq<u8> {
    seq![(x % 256) as u8, (x / 256) as u8]
}

/// Little-endian bytes of a `u32`.
pub open spec fn le32(x: u32) -> Seq<u8> {
    seq![
        (x % 256) as u8,
        ((x / 0x100) % 256) as u8,
        ((x / 0x1_0000) % 256) as u8,
        (x / 0x100_0000) as u8,
    ]
}

/// Little-endian bytes of a `u64`.
pub open spec fn le64(x: u64) -> Seq<u8> {
    le32((x % 0x1_0000_0000) as u32) + le32((x / 0x1_0000_0000) as u32)
}

/// The `u16` stored little-endian at `b[i..i + 2]`.
pub open spec fn u16_at(b: Seq<u8>, i: int) -> u16 {
    (b[i] + 256 * b[i + 1]) as u16
}

/// The `u32` stored little-endian at `b[i..i + 4]`.
pub open spec fn u32_at(b: Seq<u8>, i: int) -> u32 {
    (b[i] + 0x100 * b[i + 1] + 0x1_0000 * b[i + 2] + 0x100_0000 * b[i + 3]) as u32
}

/// The `u64` stored little-endian at `b[i..i + 8]`.
pub open spec fn u64_at(b: Seq<u8>, i: int) -> u64 {
    (u32_at(b, i) + 0x1_0000_0000 * u32_at(b, i + 4)) as u64
}

/// The single-precision number stored little-endian at `b[i..i + 4]`.
pub open spec fn f32_at(b: Seq<u8>, i: int) -> F32Bits {
    F32Bits(u32_at(b, i))
}

/// The double-precision number stored little-endian at `b[i..i + 8]`.
pub open spec fn f64_at(b: Seq<u8>, i: int) -> F64Bits {
    F64Bits(u64_at(b, i))
}

/// The two's-complement bit pattern of an `i16`.
pub open spec fn i16_bits(x: i16) -> u16 {
    if x < 0 {
        (x + 0x1_0000) as u16
    } else {
        x as u16
    }
}

/// The `i16` whose two's-complement bit pattern is `u`.
pub open spec fn i16_from_bits(u: u16) -> i16 {
    if u >= 0x8000 {
        (u - 0x1_0000) as i16
    } else {
        u as i16
    }
}

/// The two's-complement bit pattern of an `i8`.
pub open spec fn i8_bits(x: i8) -> u8 {
    if x < 0 {
        (x + 0x100) as u8
    } else {
        x as u8
    }
}

/// The `i8` whose two's-complement bit pattern is `u`.
pub open spec fn i8_from_bits(u: u8) -> i8 {
    if u >= 0x80 {
        (u - 0x100) as i8
    } else {
        u as i8
    }
}

/// Reading back the bytes of a `u16` gives the value.
pub proof fn lemma_le16_roundtrip(x: u16)
    ensures
        le16(x).len() == 2,
        u16_at(le16(x), 0) == x,
{
}

/// Reading back the bytes of a `u32` gives the value.
pub proof fn lemma_le32_roundtrip(x: u32)
    ensures
        le32(x).len() == 4,
        u32_at(le32(x), 0) == x,
{
}

/// Reading back the bytes of a `u64` gives the value.
pub proof fn lemma_le64_roundtrip(x: u64)
    ensures
        le64(x).len() == 8,
        u64_at(le64(x), 0) == x,
{
    let lo = (x % 0x1_0000_0000) as u32;
    let hi = (x / 0x1_0000_0000) as u32;
    lemma_le32_roundtrip(lo);
    lemma_le32_roundtrip(hi);
    let b = le64(x);
    assert(b.subrange(0, 4) =~= le32(lo));
    assert(b.subrange(4, 8) =~= le32(hi));
    assert(u32_at(b, 0) == u32_at(le32(lo), 0));
    assert(u32_at(b, 4) == u32_at(le32(hi), 0));
}

/// Writing out a `u16` read from two bytes gives back those bytes.
pub proof fn lemma_u16_at_bytes(b: Seq<u8>, i: int)
    requires
        0 <= i,
        i + 2 <= b.len(),
    ensures
        le16(u16_at(b, i)) == b.subrange(i, i + 2),
{
    assert(le16(u16_at(b, i)) =~= b.subrange(i, i + 2));
}

/// Writing out a `u32` read from four bytes gives back those bytes.
pub proof fn lemma_u32_at_bytes(b: Seq<u8>, i: int)
    requires
        0 <= i,
        i + 4 <= b.len(),
    ensures
        le32(u32_at(b, i)) == b.subrange(i, i + 4),
{
    let b0 = b[i] as int;
    let b1 = b[i + 1] as int;
    let b2 = b[i + 2] as int;
    let b3 = b[i + 3] as int;
    let x = u32_at(b, i) as int;
    assert(x == b0 + 0x100 * b1 + 0x1_0000 * b2 + 0x100_0000 * b3);
    let q1 = b1 + 0x100 * b2 + 0x1_0000 * b3;
    let q2 = b2 + 0x100 * b3;
    lemma_fundamental_div_mod_converse(x, 0x100, q1, b0);
    lemma_fundamental_div_mod_converse(x, 0x1_0000, q2, b0 + 0x100 * b1);
    lemma_fundamental_div_mod_converse(x, 0x100_0000, b3, b0 + 0x100 * b1 + 0x1_0000 * b2);
    lemma_fundamental_div_mod_converse(q1, 0x100, b2 + 0x100 * b3, b1);
    lemma_fundamental_div_mod_converse(q2, 0x100, b3, b2);
    assert(le32(u32_at(b, i)) =~= b.subrange(i, i + 4));
}

/// Writing out a `u64` read from eight bytes gives back those bytes.
pub proof fn lemma_u64_at_bytes(b: Seq<u8>, i: int)
    requires
        0 <= i,
        i + 8 <= b.len(),
    ensures
        le64(u64_at(b, i)) == b.subrange(i, i + 8),
{
    let x = u64_at(b, i);
    let lo = u32_at(b, i);
    let hi = u32_at(b, i + 4);
    assert(x == hi * 0x1_0000_0000 + lo);
    lemma_fundamental_div_mod_converse(
        x as int,
        0x1_0000_0000,
        hi as int,
        lo as int,
    );
    assert((x % 0x1_0000_0000) as u32 == lo);
    assert((x / 0x1_0000_0000) as u32 == hi);
    lemma_u32_at_bytes(b, i);
    lemma_u32_at_bytes(b, i + 4);
    assert(le64(x) =~= b.subrange(i, i + 8));
}

/// Whatever bytes surround them, the little-endian bytes of `x` at
/// position `i` read back as `x`.
pub proof fn lemma_u16_in(d: Seq<u8>, i: int, x: u16)
    requires
        0 <= i,
        i + 2 <= d.len(),
        d.subrange(i, i + 2) == le16(x),
    ensures
        u16_at(d, i) == x,
{
    lemma_u16_at_bytes(d, i);
    lemma_le16_roundtrip(x);
    lemma_le16_roundtrip(u16_at(d, i));
}

/// Whatever bytes surround them, the little-endian bytes of `x` at
/// position `i` read back as `x`.
pub proof fn lemma_u32_in(d: Seq<u8>, i: int, x: u32)
    requires
        0 <= i,
        i + 4 <= d.len(),
        d.subrange(i, i + 4) == le32(x),
    ensures
        u32_at(d, i) == x,
{
    lemma_u32_at_bytes(d, i);
    lemma_le32_roundtrip(x);
    lemma_le32_roundtrip(u32_at(d, i));
}

/// Whatever bytes surround them, the little-endian bytes of `x` at
/// position `i` read back as `x`.
pub proof fn lemma_u64_at_in(d: Seq<u8>, i: int, x: u64)
    requires
        0 <= i,
        i + 8 <= d.len(),
        d.subrange(i, i + 8) == le64(x),
    ensures
        u64_at(d, i) == x,
{
    lemma_u64_at_bytes(d, i);
    lemma_le64_roundtrip(x);
    lemma_le64_roundtrip(u64_at(d, i));
}

/// Two's complement of an `i16` is undone by reading it back.
pub proof fn lemma_i16_bits_roundtrip(x: i16, u: u16)
    ensures
        i16_from_bits(i16_bits(x)) == x,
        i16_bits(i16_from_bits(u)) == u,
{
}

/// Two's complement of an `i8` is undone by reading it back.
pub proof fn lemma_i8_bits_roundtrip(x: i8, u: u8)
    ensures
        i8_from_bits(i8_bits(x)) == x,
        i8_bits(i8_from_bits(u)) == u,
{
}

/// Append the little-endian bytes of `x`.
pub fn push_u16_le(out: &mut Vec<u8>, x: u16)
    ensures
        final(out)@ == old(out)@ + le16(x),
{
    out.push((x % 256) as u8);
    out.push((x / 256) as u8);
    assert(out@ =~= old(out)@ + le16(x));
}

/// Append the little-endian bytes of `x`.
pub fn push_u32_le(out: &mut Vec<u8>, x: u32)
    ensures
        final(out)@ == old(out)@ + le32(x),
{
    out.push((x % 256) as u8);
    out.push(((x / 0x100) % 256) as u8);
    out.push(((x / 0x1_0000) % 256) as u8);
    out.push((x / 0x100_0000) as u8);
    assert(out@ =~= old(out)@ + le32(x));
}

/// Append the little-endian bytes of `x`.
pub fn push_u64_le(out: &mut Vec<u8>, x: u64)
    ensures
        final(out)@ == old(out)@ + le64(x),
{
    push_u32_le(out, (x % 0x1_0000_0000) as u32);
    push_u32_le(out, (x / 0x1_0000_0000) as u32);
    assert(out@ =~= old(out)@ + le64(x));
}

/// Little-endian bytes of a `u16`, as an array.
pub fn u16_le_bytes(x: u16) -> (b: [u8; 2])
    ensures
        b@ == le16(x),
{
    let b = [(x % 256) as u8, (x / 256) as u8];
    assert(b@ =~= le16(x));
    b
}

/// Little-endian bytes of a `u32`, as an array.
pub fn u32_le_bytes(x: u32) -> (b: [u8; 4])
    ensures
        b@ == le32(x),
{
    let b = [(x % 256) as u8, ((x / 0x100) % 256) as u8, ((x / 0x1_0000) % 256) as u8, (x
        / 0x100_0000) as u8];
    assert(b@ =~= le32(x));
    b
}

/// Append all of `bytes`.
pub fn push_bytes(out: &mut Vec<u8>, bytes: &[u8])
    ensures
        final(out)@ == old(out)@ + bytes@,
{
    let mut k: usize = 0;
    while k < bytes.len()
        invariant
            k <= bytes@.len(),
            out@ == old(out)@ + bytes@.take(k as int),
        decreases bytes@.len() - k,
    {
        out.push(bytes[k]);
        k = k + 1;
        assert(out@ =~= old(out)@ + bytes@.take(k as int));
    }
    assert(bytes@.take(k as int) =~= bytes@);
}

/// The little-endian `u16` at `b[i..i + 2]`.
pub fn read_u16_le(b: &[u8], i: usize) -> (x: u16)
    requires
        i + 2 <= b@.len(),
    ensures
        x == u16_at(b@, i as int),
{
    (b[i] as u16) + (b[i + 1] as u16) * 256
}

/// The little-endian `u32` at `b[i..i + 4]`.
pub fn read_u32_le(b: &[u8], i: usize) -> (x: u32)
    requires
        i + 4 <= b@.len(),
    ensures
        x == u32_at(b@, i as int),
{
    (b[i] as u32) + (b[i + 1] as u32) * 0x100 + (b[i + 2] as u32) * 0x1_0000 + (b[i + 3] as u32)
        * 0x100_0000
}

/// The little-endian `u64` at `b[i..i + 8]`.
pub fn read_u64_le(b: &[u8], i: usize) -> (x: u64)
    requires
        i + 8 <= b@.len(),
    ensures
        x == u64_at(b@, i as int),
{
    let n = b.len();
    assert(n == b@.len());
    let lo = read_u32_le(b, i) as u64;
    let hi = read_u32_le(b, i + 4) as u64;
    lo + hi * 0x1_0000_0000
}

/// The single-precision number stored little-endian at `b[i..i + 4]`.
pub fn read_f32_le(b: &[u8], i: usize) -> (x: F32Bits)
    requires
        i + 4 <= b@.len(),
    ensures
        x == f32_at(b@, i as int),
{
    F32Bits(read_u32_le(b, i))
}

/// The double-precision number stored little-endian at `b[i..i + 8]`.
pub fn read_f64_le(b: &[u8], i: usize) -> (x: F64Bits)
    requires
        i + 8 <= b@.len(),
    ensures
        x == f64_at(b@, i as int),
{
    F64Bits(read_u64_le(b, i))
}

/// Two's-complement bit pattern of `x`.
pub fn i16_to_bits(x: i16) -> (u: u16)
    ensures
        u == i16_bits(x),
{
    if x < 0 {
        (x as i32 + 0x1_0000) as u16
    } else {
        x as u16
    }
}

/// The `i16` with two's-complement bit pattern `u`.
pub fn i16_of_bits(u: u16) -> (x: i16)
    ensures
        x == i16_from_bits(u),
{
    if u >= 0x8000 {
        (u as i32 - 0x1_0000) as i16
    } else {
        u as i16
    }
}

/// Two's-complement bit pattern of `x`.
pub fn i8_to_bits(x: i8) -> (u: u8)
    ensures
        u == i8_bits(x),
{
    if x < 0 {
        (x as i16 + 0x100) as u8
    } else {
        x as u8
    }
}

/// The `i8` with two's-complement bit pattern `u`.
pub fn i8_of_bits(u: u8) -> (x: i8)
    ensures
        x == i8_from_bits(u),
{
    if u >= 0x80 {
        (u as i16 - 0x100) as i8
    } else {
        u as i8
    }
}

} // verus!
