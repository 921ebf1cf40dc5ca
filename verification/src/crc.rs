//! Cyclic redundancy checks used by the Synapse wire format.
//!
//! Each checksum is specified bit by bit, exactly as the shift register
//! that computes it: a byte is folded into the register, then the register
//! is shifted eight times, XOR-ing in the polynomial whenever a set bit
//! falls off the end.
use vstd::prelude::*;

verus! {

/// One shift of the CRC-8 register (polynomial 0x07, MSB first).
pub open spec fn crc8_shift(c: u8) -> u8 {
    if c & 0x80 != 0 {
        (c << 1) ^ 0x07
    } else {
        c << 1
    }
}

/// `n` shifts of the CRC-8 register.
pub open spec fn crc8_shifts(c: u8, n: nat) -> u8
    decreases n,
{
    if n == 0 {
        c
    } else {
        crc8_shift(crc8_shifts(c, (n - 1) as nat))
    }
}

/// The CRC-8 register after folding in one more byte.
pub open spec fn crc8_update(crc: u8, byte: u8) -> u8 {
    crc8_shifts(crc ^ byte, 8)
}

/// CRC-8 (polynomial 0x07, initial value 0, no final XOR) of `data`.
pub open spec fn spec_crc8(data: Seq<u8>) -> u8
    decreases data.len(),
{
    if data.len() == 0 {
        0
    } else {
        crc8_update(spec_crc8(data.drop_last()), data.last())
    }
}

/// One shift of the CRC-16-CCITT register (polynomial 0x1021, MSB first).
pub open spec fn crc16_shift(c: u16) -> u16 {
    if c & 0x8000 != 0 {
        (c << 1) ^ 0x1021
    } else {
        c << 1
    }
}

/// `n` shifts of the CRC-16 register.
pub open spec fn crc16_shifts(c: u16, n: nat) -> u16
    decreases n,
{
    if n == 0 {
        c
    } else {
        crc16_shift(crc16_shifts(c, (n - 1) as nat))
    }
}

/// The CRC-16 register after folding in one more byte (into its high half).
pub open spec fn crc16_update(crc: u16, byte: u8) -> u16 {
    crc16_shifts(crc ^ ((byte as u16) << 8), 8)
}

/// CRC-16-CCITT (polynomial 0x1021, initial value 0xFFFF, no final XOR) of `data`.
pub open spec fn spec_crc16(data: Seq<u8>) -> u16
    decreases data.len(),
{
    if data.len() == 0 {
        0xFFFF
    } else {
        crc16_update(spec_crc16(data.drop_last()), data.last())
    }
}

/// One shift of the reflected CRC-32 register (polynomial 0xEDB88320, LSB first).
pub open spec fn crc32_shift(c: u32) -> u32 {
    if c & 1 != 0 {
        (c >> 1) ^ 0xEDB88320
    } else {
        c >> 1
    }
}

/// `n` shifts of the CRC-32 register.
pub open spec fn crc32_shifts(c: u32, n: nat) -> u32
    decreases n,
{
    if n == 0 {
        c
    } else {
        crc32_shift(crc32_shifts(c, (n - 1) as nat))
    }
}

/// The CRC-32 register after folding in one more byte (into its low byte).
pub open spec fn crc32_update(crc: u32, byte: u8) -> u32 {
    crc32_shifts(crc ^ (byte as u32), 8)
}

/// The CRC-32 register (initial value 0xFFFFFFFF) after all of `data`.
pub open spec fn crc32_register(data: Seq<u8>) -> u32
    decreases data.len(),
{
    if data.len() == 0 {
        0xFFFF_FFFF
    } else {
        crc32_update(crc32_register(data.drop_last()), data.last())
    }
}

/// IEEE 802.3 CRC-32 of `data`: the register, finally XOR-ed with 0xFFFFFFFF.
pub open spec fn spec_crc32(data: Seq<u8>) -> u32 {
    crc32_register(data) ^ 0xFFFF_FFFF
}

/// The byte-wise XOR of two sequences of equal length.
pub open spec fn bytewise_xor(a: Seq<u8>, b: Seq<u8>) -> Seq<u8> {
    Seq::new(a.len(), |i: int| a[i] ^ b[i])
}

/// `n` zero bytes.
pub open spec fn zero_bytes(n: nat) -> Seq<u8> {
    Seq::new(n, |i: int| 0u8)
}

/// One shift of the CRC-8 register is linear under XOR.
proof fn lemma_crc8_shift_xor(x: u8, y: u8)
    ensures
        crc8_shift(x ^ y) == crc8_shift(x) ^ crc8_shift(y),
{
    assert(((x ^ y) & 0x80 != 0 ==> ((x ^ y) << 1) ^ 0x07 == (if x & 0x80 != 0 {
        (x << 1) ^ 0x07
    } else {
        x << 1
    }) ^ (if y & 0x80 != 0 {
        (y << 1) ^ 0x07
    } else {
        y << 1
    })) && ((x ^ y) & 0x80 == 0 ==> (x ^ y) << 1 == (if x & 0x80 != 0 {
        (x << 1) ^ 0x07
    } else {
        x << 1
    }) ^ (if y & 0x80 != 0 {
        (y << 1) ^ 0x07
    } else {
        y << 1
    }))) by (bit_vector);
}

/// Any number of shifts of the CRC-8 register is linear under XOR.
proof fn lemma_crc8_shifts_xor(x: u8, y: u8, n: nat)
    ensures
        crc8_shifts(x ^ y, n) == crc8_shifts(x, n) ^ crc8_shifts(y, n),
    decreases n,
{
    if n > 0 {
        lemma_crc8_shifts_xor(x, y, (n - 1) as nat);
        lemma_crc8_shift_xor(crc8_shifts(x, (n - 1) as nat), crc8_shifts(y, (n - 1) as nat));
    }
}

/// Shifting a zero register leaves it zero.
proof fn lemma_crc8_shifts_zero(n: nat)
    ensures
        crc8_shifts(0, n) == 0,
    decreases n,
{
    if n > 0 {
        lemma_crc8_shifts_zero((n - 1) as nat);
        assert(crc8_shift(0) == 0) by (bit_vector);
    }
}

/// Laws of CRC-8 (initial value 0, no final XOR):
/// appending the CRC of `d` to `d` leaves a residue of zero;
/// the CRC of any run of zero bytes is zero;
/// and the CRC is linear: for sequences of equal length, the CRC of their
/// byte-wise XOR is the XOR of their CRCs.
pub proof fn lemma_crc8_laws(d: Seq<u8>, a: Seq<u8>, b: Seq<u8>, n: nat)
    ensures
        spec_crc8(d.push(spec_crc8(d))) == 0,
        spec_crc8(zero_bytes(n)) == 0,
        a.len() == b.len() ==> spec_crc8(bytewise_xor(a, b)) == spec_crc8(a) ^ spec_crc8(b),
{
    lemma_crc8_residue(d);
    lemma_crc8_zeros(n);
    if a.len() == b.len() {
        lemma_crc8_linear(a, b);
    }
}

proof fn lemma_crc8_residue(d: Seq<u8>)
    ensures
        spec_crc8(d.push(spec_crc8(d))) == 0,
{
    let c = spec_crc8(d);
    assert(d.push(c).drop_last() =~= d);
    assert(c ^ c == 0) by (bit_vector);
    lemma_crc8_shifts_zero(8);
}

proof fn lemma_crc8_zeros(n: nat)
    ensures
        spec_crc8(zero_bytes(n)) == 0,
    decreases n,
{
    if n > 0 {
        lemma_crc8_zeros((n - 1) as nat);
        assert(zero_bytes(n).drop_last() =~= zero_bytes((n - 1) as nat));
        assert(0u8 ^ 0u8 == 0u8) by (bit_vector);
        lemma_crc8_shifts_zero(8);
    }
}

proof fn lemma_crc8_linear(a: Seq<u8>, b: Seq<u8>)
    requires
        a.len() == b.len(),
    ensures
        spec_crc8(bytewise_xor(a, b)) == spec_crc8(a) ^ spec_crc8(b),
    decreases a.len(),
{
    if a.len() == 0 {
        assert(0u8 ^ 0u8 == 0u8) by (bit_vector);
    } else {
        let x = bytewise_xor(a, b);
        lemma_crc8_linear(a.drop_last(), b.drop_last());
        assert(x.drop_last() =~= bytewise_xor(a.drop_last(), b.drop_last()));
        let ca = spec_crc8(a.drop_last());
        let cb = spec_crc8(b.drop_last());
        let la = a.last();
        let lb = b.last();
        assert(x.last() == la ^ lb);
        assert((ca ^ cb) ^ (la ^ lb) == (ca ^ la) ^ (cb ^ lb)) by (bit_vector);
        lemma_crc8_shifts_xor(ca ^ la, cb ^ lb, 8);
    }
}

/// Calculate CRC8 for Synapse header validation.
/// Polynomial: 0x07
pub fn crc8(data: &[u8]) -> (crc: u8)
    ensures
        crc == spec_crc8(data@),
{
    let mut crc: u8 = 0;
    let mut i: usize = 0;
    while i < data.len()
        invariant
            i <= data@.len(),
            crc == spec_crc8(data@.take(i as int)),
        decreases data@.len() - i,
    {
        let byte = data[i];
        assert(data@.take(i + 1).drop_last() =~= data@.take(i as int));
        let ghost start = crc ^ byte;
        crc = crc ^ byte;
        let mut k: usize = 0;
        while k < 8
            invariant
                k <= 8,
                crc == crc8_shifts(start, k as nat),
            decreases 8 - k,
        {
            if crc & 0x80 != 0 {
                crc = (crc << 1) ^ 0x07;
            } else {
                crc = crc << 1;
            }
            k = k + 1;
        }
        i = i + 1;
    }
    assert(data@.take(data@.len() as int) =~= data@);
    crc
}

/// Calculate CRC16 for Synapse V2 payload validation.
/// Polynomial: CRC-16-CCITT (0x1021)
pub fn crc16(data: &[u8]) -> (crc: u16)
    ensures
        crc == spec_crc16(data@),
{
    let mut crc: u16 = 0xFFFF;
    let mut i: usize = 0;
    while i < data.len()
        invariant
            i <= data@.len(),
            crc == spec_crc16(data@.take(i as int)),
        decreases data@.len() - i,
    {
        let byte = data[i];
        assert(data@.take(i + 1).drop_last() =~= data@.take(i as int));
        let ghost start = crc ^ ((byte as u16) << 8);
        crc = crc ^ ((byte as u16) << 8);
        let mut k: usize = 0;
        while k < 8
            invariant
                k <= 8,
                crc == crc16_shifts(start, k as nat),
            decreases 8 - k,
        {
            if crc & 0x8000 != 0 {
                crc = (crc << 1) ^ 0x1021;
            } else {
                crc = crc << 1;
            }
            k = k + 1;
        }
        i = i + 1;
    }
    assert(data@.take(data@.len() as int) =~= data@);
    crc
}

/// Calculate CRC32 for Synapse V1 payload validation (legacy).
/// Polynomial: IEEE 802.3 (0xEDB88320)
pub fn crc32(data: &[u8]) -> (crc: u32)
    ensures
        crc == spec_crc32(data@),
{
    let mut crc: u32 = 0xFFFF_FFFF;
    let mut i: usize = 0;
    while i < data.len()
        invariant
            i <= data@.len(),
            crc == crc32_register(data@.take(i as int)),
        decreases data@.len() - i,
    {
        let byte = data[i];
        assert(data@.take(i + 1).drop_last() =~= data@.take(i as int));
        let ghost start = crc ^ (byte as u32);
        crc = crc ^ (byte as u32);
        let mut k: usize = 0;
        while k < 8
            invariant
                k <= 8,
                crc == crc32_shifts(start, k as nat),
            decreases 8 - k,
        {
            if crc & 1 != 0 {
                crc = (crc >> 1) ^ 0xEDB88320;
            } else {
                crc = crc >> 1;
            }
            k = k + 1;
        }
        i = i + 1;
    }
    assert(data@.take(data@.len() as int) =~= data@);
    crc ^ 0xFFFF_FFFF
}

} // verus!
