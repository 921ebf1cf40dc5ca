//! COBS (Consistent Overhead Byte Stuffing), wire-compatible with the
//! Synapse C++ / Python codec.
//!
//! Encoding rules:
//! - no 0x00 byte in the encoded payload,
//! - exactly one 0x00 delimiter, at the end,
//! - empty input => `[0x01, 0x00]`.
//!
//! The encoding is a sequence of blocks. Each block is a code byte `c`
//! followed by `c - 1` non-zero data bytes; a code below 0xFF stands for its
//! data followed by one zero byte, the code 0xFF for 254 data bytes and no
//! zero.
use vstd::prelude::*;

verus! {

/// Why a COBS frame could not be decoded.
#[derive(Debug, Clone, Copy, PartialEq, Eq)]
pub enum CobsError {
    /// The input holds no byte at all.
    EmptyInput,
    /// The input does not end with the 0x00 delimiter.
    MissingDelimiter,
    /// A block starts with the code byte 0x00.
    InvalidCode,
    /// A block's code byte announces more bytes than the frame holds.
    BlockOverrun,
    /// A zero byte stands among a block's data bytes.
    ZeroInPayload,
}

/// The most data bytes one block carries.
pub const MAX_BLOCK_DATA: usize = 254;

/// How many bytes at the start of `s` are non-zero, counting at most `cap`.
pub open spec fn nonzero_prefix_len(s: Seq<u8>, cap: nat) -> nat
    decreases cap,
{
    if cap == 0 || s.len() == 0 || s[0] == 0 {
        0
    } else {
        1 + nonzero_prefix_len(s.drop_first(), (cap - 1) as nat)
    }
}

/// `nonzero_prefix_len` is the one count that is bounded by `cap` and by
/// the length, covers only non-zero bytes, and stops at the cap, the end, or
/// a zero byte.
pub proof fn lemma_nonzero_prefix_len(s: Seq<u8>, cap: nat)
    ensures
        nonzero_prefix_len(s, cap) <= cap,
        nonzero_prefix_len(s, cap) <= s.len(),
        forall|j: int| 0 <= j < nonzero_prefix_len(s, cap) ==> s[j] != 0,
        nonzero_prefix_len(s, cap) == cap || nonzero_prefix_len(s, cap) == s.len()
            || s[nonzero_prefix_len(s, cap) as int] == 0,
    decreases cap,
{
    if cap == 0 || s.len() == 0 || s[0] == 0 {
    } else {
        lemma_nonzero_prefix_len(s.drop_first(), (cap - 1) as nat);
        let n = nonzero_prefix_len(s, cap);
        assert forall|j: int| 0 <= j < n implies s[j] != 0 by {
            if j > 0 {
                assert(s[j] == s.drop_first()[j - 1]);
            }
        }
    }
}

/// Any count with the properties of `lemma_nonzero_prefix_len` is that count.
pub proof fn lemma_nonzero_prefix_len_unique(s: Seq<u8>, cap: nat, n: nat)
    requires
        n <= cap,
        n <= s.len(),
        forall|j: int| 0 <= j < n ==> s[j] != 0,
        n == cap || n == s.len() || s[n as int] == 0,
    ensures
        nonzero_prefix_len(s, cap) == n,
    decreases cap,
{
    if cap == 0 || s.len() == 0 || s[0] == 0 {
        if n > 0 {
            assert(s[0] != 0);
        }
    } else {
        assert(n > 0);
        let t = s.drop_first();
        assert forall|j: int| 0 <= j < n - 1 implies t[j] != 0 by {
            assert(t[j] == s[j + 1]);
        }
        if n < cap && n < s.len() {
            assert(t[n - 1] == s[n as int]);
        }
        lemma_nonzero_prefix_len_unique(t, (cap - 1) as nat, (n - 1) as nat);
    }
}

/// The COBS blocks of `data`, without the final delimiter.
pub open spec fn encode_blocks(data: Seq<u8>) -> Seq<u8>
    decreases data.len(),
{
    let n = nonzero_prefix_len(data, 254);
    proof {
        lemma_nonzero_prefix_len(data, 254);
    }
    if n == 254 {
        seq![0xFFu8] + data.take(254) + encode_blocks(data.skip(254))
    } else if n < data.len() {
        seq![(n + 1) as u8] + data.take(n as int) + encode_blocks(data.skip((n + 1) as int))
    } else {
        seq![(n + 1) as u8] + data
    }
}

/// The COBS encoding of `data`: its blocks, then the 0x00 delimiter.
pub open spec fn spec_encode(data: Seq<u8>) -> Seq<u8> {
    encode_blocks(data).push(0)
}

/// Puts `prefix` in front of a successful decoding; passes an error on.
pub open spec fn prepend_decoded(prefix: Seq<u8>, r: Result<Seq<u8>, CobsError>) -> Result<
    Seq<u8>,
    CobsError,
> {
    match r {
        Ok(rest) => Ok(prefix + rest),
        Err(e) => Err(e),
    }
}

/// Decoding of a sequence of COBS blocks (the frame without its delimiter).
pub open spec fn decode_blocks(b: Seq<u8>) -> Result<Seq<u8>, CobsError>
    decreases b.len(),
{
    if b.len() == 0 {
        Ok(Seq::empty())
    } else {
        let code = b[0];
        if code == 0 {
            Err(CobsError::InvalidCode)
        } else if code > b.len() {
            Err(CobsError::BlockOverrun)
        } else if exists|j: int| 1 <= j < code && b[j] == 0 {
            Err(CobsError::ZeroInPayload)
        } else {
            let block = b.subrange(1, code as int);
            let tail: Seq<u8> = if code < 0xFF {
                seq![0u8]
            } else {
                Seq::empty()
            };
            prepend_decoded(block + tail, decode_blocks(b.skip(code as int)))
        }
    }
}

/// Decoding of a whole COBS frame: it must be non-empty and end with 0x00.
pub open spec fn spec_decode(encoded: Seq<u8>) -> Result<Seq<u8>, CobsError> {
    if encoded.len() == 0 {
        Err(CobsError::EmptyInput)
    } else if encoded.last() != 0 {
        Err(CobsError::MissingDelimiter)
    } else {
        decode_blocks(encoded.drop_last())
    }
}

/// The view of a decoding result: the bytes on success, the error otherwise.
pub open spec fn decoded_view(r: Result<Vec<u8>, CobsError>) -> Result<Seq<u8>, CobsError> {
    match r {
        Ok(v) => Ok(v@),
        Err(e) => Err(e),
    }
}

/// No block of an encoding holds a zero byte.
pub proof fn lemma_encode_blocks_nonzero(data: Seq<u8>)
    ensures
        forall|j: int| 0 <= j < encode_blocks(data).len() ==> encode_blocks(data)[j] != 0,
    decreases data.len(),
{
    let n = nonzero_prefix_len(data, 254);
    lemma_nonzero_prefix_len(data, 254);
    let e = encode_blocks(data);
    if n == 254 {
        let rest = data.skip(254);
        lemma_encode_blocks_nonzero(rest);
        assert forall|j: int| 0 <= j < e.len() implies e[j] != 0 by {
            if 1 <= j < 255 {
                assert(e[j] == data[j - 1]);
            } else if j >= 255 {
                assert(e[j] == encode_blocks(rest)[j - 255]);
            }
        }
    } else if n < data.len() {
        let rest = data.skip((n + 1) as int);
        lemma_encode_blocks_nonzero(rest);
        assert forall|j: int| 0 <= j < e.len() implies e[j] != 0 by {
            if 1 <= j < n + 1 {
                assert(e[j] == data[j - 1]);
            } else if j >= n + 1 {
                assert(e[j] == encode_blocks(rest)[j - n - 1]);
            }
        }
    } else {
        assert forall|j: int| 0 <= j < e.len() implies e[j] != 0 by {
            if j >= 1 {
                assert(e[j] == data[j - 1]);
            }
        }
    }
}

/// Decoding the blocks of an encoding gives back the data and one zero byte.
pub proof fn lemma_decode_encode_blocks(data: Seq<u8>)
    ensures
        decode_blocks(encode_blocks(data)) == Ok::<Seq<u8>, CobsError>(data.push(0)),
    decreases data.len(),
{
    let n = nonzero_prefix_len(data, 254);
    lemma_nonzero_prefix_len(data, 254);
    let e = encode_blocks(data);
    if n == 254 {
        let rest = data.skip(254);
        lemma_decode_encode_blocks(rest);
        assert(e.subrange(1, 255) =~= data.take(254));
        assert(e.skip(255) =~= encode_blocks(rest));
        assert(!(exists|j: int| 1 <= j < 255 && e[j] == 0)) by {
            assert forall|j: int| 1 <= j < 255 implies e[j] != 0 by {
                assert(e[j] == data[j - 1]);
            }
        }
        assert(e[0] == 0xFFu8);
        assert(e.len() >= 255);
        assert(decode_blocks(e) == prepend_decoded(
            e.subrange(1, 255) + Seq::<u8>::empty(),
            decode_blocks(e.skip(255)),
        ));
        assert(data.take(254) + Seq::<u8>::empty() + rest.push(0) =~= data.push(0));
        assert(decode_blocks(e) == Ok::<Seq<u8>, CobsError>(data.push(0)));
    } else if n < data.len() {
        let rest = data.skip((n + 1) as int);
        lemma_decode_encode_blocks(rest);
        let code = (n + 1) as u8;
        assert(e[0] == code);
        assert(e.subrange(1, (n + 1) as int) =~= data.take(n as int));
        assert(e.skip((n + 1) as int) =~= encode_blocks(rest));
        assert(!(exists|j: int| 1 <= j < code && e[j] == 0)) by {
            assert forall|j: int| 1 <= j < code implies e[j] != 0 by {
                assert(e[j] == data[j - 1]);
            }
        }
        assert(data.take(n as int) + seq![0u8] + rest.push(0) =~= data.push(0));
        assert(decode_blocks(e) == Ok::<Seq<u8>, CobsError>(data.push(0)));
    } else {
        let code = (n + 1) as u8;
        assert(e[0] == code);
        assert(e.subrange(1, (n + 1) as int) =~= data);
        assert(e.skip((n + 1) as int) =~= Seq::<u8>::empty());
        assert(!(exists|j: int| 1 <= j < code && e[j] == 0)) by {
            assert forall|j: int| 1 <= j < code implies e[j] != 0 by {
                assert(e[j] == data[j - 1]);
            }
        }
        assert(e.len() == n + 1);
        assert(code < 0xFF);
        assert(decode_blocks(e.skip((n + 1) as int)) == Ok::<Seq<u8>, CobsError>(Seq::empty()));
        assert(data + seq![0u8] + Seq::<u8>::empty() =~= data.push(0));
        assert(decode_blocks(e) == Ok::<Seq<u8>, CobsError>(data.push(0)));
    }
}

/// Decoding undoes encoding: a decoded frame is the original data followed
/// by one zero byte (the block that ends the frame stands for a zero).
pub proof fn lemma_decode_encode(data: Seq<u8>)
    ensures
        spec_decode(spec_encode(data)) == Ok::<Seq<u8>, CobsError>(data.push(0)),
{
    lemma_decode_encode_blocks(data);
    assert(spec_encode(data).drop_last() =~= encode_blocks(data));
}

/// COBS-encode `data`: blocks free of zero bytes, then one 0x00 delimiter.
pub fn encode(data: &[u8]) -> (out: Vec<u8>)
    ensures
        out@ == spec_encode(data@),
        out@.len() >= 2,
        out@.last() == 0,
        forall|j: int| 0 <= j < out@.len() - 1 ==> out@[j] != 0,
        data@.len() == 0 ==> out@ == seq![0x01u8, 0x00u8],
{
    proof {
        lemma_encode_blocks_nonzero(data@);
        reveal_with_fuel(encode_blocks, 2);
    }
    if data.len() == 0 {
        let out = vec![0x01u8, 0x00u8];
        assert(out@ =~= spec_encode(data@));
        return out;
    }
    let len = data.len();
    let mut out: Vec<u8> = Vec::new();
    let mut i: usize = 0;
    assert(data@.skip(0) =~= data@);
    loop
        invariant_except_break
            i <= len,
            len == data@.len(),
            encode_blocks(data@) == out@ + encode_blocks(data@.skip(i as int)),
        ensures
            out@ == encode_blocks(data@),
        decreases len - i,
    {
        let ghost rest = data@.skip(i as int);
        let mut n: usize = 0;
        while n < MAX_BLOCK_DATA && n < len - i && data[i + n] != 0
            invariant
                i <= len,
                len == data@.len(),
                rest == data@.skip(i as int),
                n <= 254,
                n <= len - i,
                forall|j: int| 0 <= j < n ==> rest[j] != 0,
            decreases 254 - n,
        {
            n = n + 1;
        }
        proof {
            lemma_nonzero_prefix_len_unique(rest, 254, n as nat);
        }
        let ghost before = out@;
        if n == MAX_BLOCK_DATA {
            out.push(0xFF);
        } else {
            out.push((n + 1) as u8);
        }
        let mut k: usize = 0;
        while k < n
            invariant
                k <= n,
                n <= len - i,
                len == data@.len(),
                out@.len() == before.len() + 1 + k,
                out@ == before + seq![if n == 254 { 0xFFu8 } else { (n + 1) as u8 }] + data@.subrange(
                    i as int,
                    i + k,
                ),
            decreases n - k,
        {
            out.push(data[i + k]);
            k = k + 1;
            assert(out@ =~= before + seq![if n == 254 { 0xFFu8 } else { (n + 1) as u8 }]
                + data@.subrange(i as int, i + k));
        }
        assert(data@.subrange(i as int, i + n) =~= rest.take(n as int));
        if n == MAX_BLOCK_DATA {
            assert(rest.skip(254) =~= data@.skip(i + 254));
            i = i + MAX_BLOCK_DATA;
        } else if n < len - i {
            assert(rest.skip((n + 1) as int) =~= data@.skip(i + n + 1));
            i = i + n + 1;
        } else {
            assert(rest.take(n as int) =~= rest);
            break;
        }
    }
    out.push(0);
    out
}

/// Decode one COBS frame (its blocks and the final 0x00 delimiter).
pub fn decode(encoded: &[u8]) -> (r: Result<Vec<u8>, CobsError>)
    ensures
        decoded_view(r) == spec_decode(encoded@),
{
    if encoded.len() == 0 {
        return Err(CobsError::EmptyInput);
    }
    if encoded[encoded.len() - 1] != 0x00 {
        return Err(CobsError::MissingDelimiter);
    }
    let end = encoded.len() - 1;
    let ghost body = encoded@.drop_last();
    let mut decoded: Vec<u8> = Vec::new();
    let mut i: usize = 0;
    assert(body.skip(0) =~= body);
    while i < end
        invariant
            i <= end,
            encoded@.len() > 0,
            encoded@.last() == 0,
            end == encoded@.len() - 1,
            body == encoded@.drop_last(),
            decode_blocks(body) == prepend_decoded(decoded@, decode_blocks(body.skip(i as int))),
        decreases end - i,
    {
        let ghost rest = body.skip(i as int);
        let ghost start = i;
        let ghost before = decoded@;
        let code = encoded[i];
        assert(rest[0] == code);
        assert(rest.len() == end - start);
        if code == 0 {
            assert(decode_blocks(rest) == Err::<Seq<u8>, CobsError>(CobsError::InvalidCode));
            return Err(CobsError::InvalidCode);
        }
        i = i + 1;
        let copy_len = (code - 1) as usize;
        if copy_len > end - i {
            assert(decode_blocks(rest) == Err::<Seq<u8>, CobsError>(CobsError::BlockOverrun));
            return Err(CobsError::BlockOverrun);
        }
        let mut k: usize = 0;
        while k < copy_len
            invariant
                k <= copy_len,
                copy_len == code - 1,
                i == start + 1 + k,
                start + code <= end,
                encoded@.len() > 0,
                encoded@.last() == 0,
                end == encoded@.len() - 1,
                decode_blocks(body) == prepend_decoded(before, decode_blocks(rest)),
                body == encoded@.drop_last(),
                rest == body.skip(start as int),
                rest[0] == code,
                decoded@ == before + rest.subrange(1, 1 + k),
                forall|j: int| 1 <= j < 1 + k ==> rest[j] != 0,
            decreases copy_len - k,
        {
            let b = encoded[i];
            assert(rest[1 + k] == b);
            if b == 0 {
                assert(exists|j: int| 1 <= j < code && rest[j] == 0);
                assert(decode_blocks(rest) == Err::<Seq<u8>, CobsError>(CobsError::ZeroInPayload));
                return Err(CobsError::ZeroInPayload);
            }
            decoded.push(b);
            i = i + 1;
            k = k + 1;
            assert(decoded@ =~= before + rest.subrange(1, 1 + k));
        }
        assert(!(exists|j: int| 1 <= j < code && rest[j] == 0));
        if code < 0xFF {
            decoded.push(0x00);
        }
        assert(rest.skip(code as int) =~= body.skip(i as int));
        let ghost tail: Seq<u8> = if code < 0xFF {
            seq![0u8]
        } else {
            Seq::empty()
        };
        assert(decoded@ =~= before + (rest.subrange(1, code as int) + tail));
        assert(forall|s: Seq<u8>|
            before + ((rest.subrange(1, code as int) + tail) + s) =~= decoded@ + s);
    }
    assert(body.skip(i as int) =~= Seq::<u8>::empty());
    assert(decoded@ + Seq::<u8>::empty() =~= decoded@);
    Ok(decoded)
}

} // verus!
