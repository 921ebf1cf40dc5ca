//! Text carried in payloads: UTF-8 on the wire, decoded leniently.
use crate::wire::push_bytes;
use vstd::prelude::*;
use vstd::utf8::{
    decode_utf8, encode_utf8, encode_utf8_decode_utf8, encode_utf8_valid_utf8, valid_utf8,
};

verus! {

/// The characters that `String::from_utf8_lossy` makes of bytes that are not
/// valid UTF-8 (each invalid sequence replaced by U+FFFD).
pub uninterp spec fn utf8_lossy_invalid(bytes: Seq<u8>) -> Seq<char>;

/// Lenient UTF-8 decoding: valid UTF-8 decodes to its characters; anything
/// else to what `String::from_utf8_lossy` makes of it.
pub open spec fn lossy_text(bytes: Seq<u8>) -> Seq<char> {
    if valid_utf8(bytes) {
        decode_utf8(bytes)
    } else {
        utf8_lossy_invalid(bytes)
    }
}

/// Calls `String::from_utf8_lossy` and takes the string out of the `Cow`.
///
/// Claimed of it: on valid UTF-8 the characters are those the bytes encode
/// (the documented behaviour: a valid slice is returned as it is); on any
/// other input the result is a function of the bytes alone, named
/// `utf8_lossy_invalid`, of which nothing more is stated.
#[verifier::external_body]
pub(crate) fn string_from_utf8_lossy(bytes: &[u8]) -> (s: String)
    ensures
        valid_utf8(bytes@) ==> s@ == decode_utf8(bytes@),
        !valid_utf8(bytes@) ==> s@ == utf8_lossy_invalid(bytes@),
{
    String::from_utf8_lossy(bytes).into_owned()
}

/// The characters of an optional text.
pub open spec fn text_view(t: Option<String>) -> Option<Seq<char>> {
    match t {
        Some(s) => Some(s@),
        None => None,
    }
}

/// The UTF-8 bytes of an optional text (none for an absent one).
pub open spec fn optional_text_bytes(t: Option<Seq<char>>) -> Seq<u8> {
    match t {
        Some(s) => encode_utf8(s),
        None => Seq::empty(),
    }
}

/// The optional trailing text starting at byte `start`: absent when the
/// payload ends there.
pub open spec fn trailing_text(p: Seq<u8>, start: int) -> Option<Seq<char>> {
    if p.len() > start {
        Some(lossy_text(p.skip(start)))
    } else {
        None
    }
}

/// The optional trailing text of a payload, from byte `start` on.
pub(crate) fn read_trailing_text(payload: &[u8], start: usize) -> (t: Option<String>)
    ensures
        text_view(t) == trailing_text(payload@, start as int),
{
    if payload.len() > start {
        let rest = vstd::slice::slice_subrange(payload, start, payload.len());
        assert(rest@ =~= payload@.skip(start as int));
        Some(string_from_utf8_lossy(rest))
    } else {
        None
    }
}

/// Append the UTF-8 bytes of `text`.
pub(crate) fn push_text(out: &mut Vec<u8>, text: &String)
    ensures
        final(out)@ == old(out)@ + encode_utf8(text@),
{
    push_bytes(out, text.as_str().as_bytes());
}

/// Append the UTF-8 bytes of an optional text.
pub(crate) fn push_optional_text(out: &mut Vec<u8>, text: &Option<String>)
    ensures
        final(out)@ == old(out)@ + optional_text_bytes(text_view(*text)),
{
    match text {
        Some(t) => push_text(out, t),
        None => {
            assert(out@ =~= out@ + Seq::<u8>::empty());
        },
    }
}

/// Decoding the UTF-8 encoding of a text gives the text back; a non-empty
/// text has a non-empty encoding.
pub proof fn lemma_text_roundtrip(chars: Seq<char>)
    ensures
        lossy_text(encode_utf8(chars)) == chars,
        chars.len() > 0 ==> encode_utf8(chars).len() > 0,
{
    encode_utf8_valid_utf8(chars);
    encode_utf8_decode_utf8(chars);
    if chars.len() > 0 && encode_utf8(chars).len() == 0 {
        assert(encode_utf8(chars) =~= Seq::<u8>::empty());
        assert(decode_utf8(Seq::<u8>::empty()) =~= Seq::<char>::empty());
    }
}

/// A payload that ends with the encoding of an optional non-empty text
/// reads that text back.
pub proof fn lemma_trailing_text(p: Seq<u8>, start: int, head: Seq<u8>, t: Option<Seq<char>>)
    requires
        head.len() == start,
        p == head + optional_text_bytes(t),
        t matches Some(e) ==> e.len() > 0,
    ensures
        trailing_text(p, start) == t,
{
    match t {
        Some(e) => {
            lemma_text_roundtrip(e);
            assert(p.skip(start) =~= encode_utf8(e));
        },
        None => {},
    }
}

} // verus!
