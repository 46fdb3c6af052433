//! Decoding of window text properties.
use vstd::prelude::*;
use vstd::utf8::{decode_utf8, valid_utf8};
use encoding::all::{ISO_8859_1, UTF_8};
use encoding::{DecoderTrap, Encoding};

verus! {

/// Latin-1 text of a byte string: each byte is the code point of its character.
pub open spec fn latin1_text(b: Seq<u8>) -> Seq<char> {
    Seq::new(b.len(), |i: int| b[i] as char)
}

/// Text of a legacy property: UTF-8 where the bytes are valid UTF-8, Latin-1 otherwise.
pub open spec fn legacy_text(b: Seq<u8>) -> Seq<char> {
    if valid_utf8(b) {
        decode_utf8(b)
    } else {
        latin1_text(b)
    }
}

/// Text of a modern (UTF8_STRING) property: only valid UTF-8 decodes.
pub open spec fn utf8_text(b: Seq<u8>) -> Option<Seq<char>> {
    if valid_utf8(b) {
        Some(decode_utf8(b))
    } else {
        None
    }
}

/// Non-empty text, or nothing.
pub open spec fn non_empty(t: Seq<char>) -> Option<Seq<char>> {
    if t.len() == 0 {
        None
    } else {
        Some(t)
    }
}

/// Index of the first NUL byte at or after `i`, or the length where there is none.
pub open spec fn nul_from(b: Seq<u8>, i: int) -> int
    decreases b.len() - i,
{
    if i < 0 || i >= b.len() {
        b.len() as int
    } else if b[i] == 0 {
        i
    } else {
        nul_from(b, i + 1)
    }
}

/// The second NUL-separated component of a WM_CLASS value (the class), if there is one.
pub open spec fn class_bytes(b: Seq<u8>) -> Option<Seq<u8>> {
    let k = nul_from(b, 0);
    if k >= b.len() {
        None
    } else {
        Some(b.subrange(k + 1, nul_from(b, k + 1)))
    }
}

/// Relies on encoding's `UTF_8.decode` with `DecoderTrap::Strict`: it fails exactly
/// on malformed UTF-8 and otherwise yields the decoded characters.
#[verifier::external_body]
fn utf8_strict(b: &[u8]) -> (r: Option<String>)
    ensures
        r is Some <==> valid_utf8(b@),
        r is Some ==> r->0@ == decode_utf8(b@),
{
    UTF_8.decode(b, DecoderTrap::Strict).ok()
}

/// Relies on encoding's `ISO_8859_1.decode`: every byte maps to the character
/// with the same code point, so decoding never fails.
#[verifier::external_body]
fn latin1(b: &[u8]) -> (r: String)
    ensures
        r@ == latin1_text(b@),
{
    ISO_8859_1.decode(b, DecoderTrap::Strict).unwrap_or_default()
}

/// Decodes a legacy text property, trying UTF-8 first and Latin-1 after it.
pub fn decode_legacy(b: &[u8]) -> (r: String)
    ensures
        r@ == legacy_text(b@),
{
    match utf8_strict(b) {
        Some(s) => s,
        None => latin1(b),
    }
}

/// Decodes a modern text property, which must be valid UTF-8.
pub fn decode_utf8_text(b: &[u8]) -> (r: Option<String>)
    ensures
        r is Some <==> utf8_text(b@) is Some,
        r is Some ==> r->0@ == utf8_text(b@)->0,
{
    utf8_strict(b)
}

/// The class component of a raw WM_CLASS value (`instance NUL class NUL`).
pub fn class_component(b: &[u8]) -> (r: Option<Vec<u8>>)
    ensures
        r is Some <==> class_bytes(b@) is Some,
        r is Some ==> r->0@ == class_bytes(b@)->0,
{
    let n = b.len();
    let mut i: usize = 0;
    while i < n && b[i] != 0
        invariant
            i <= n,
            n == b@.len(),
            nul_from(b@, 0) == nul_from(b@, i as int),
        decreases n - i,
    {
        i = i + 1;
    }
    if i >= n {
        return None;
    }
    let start: usize = i + 1;
    let mut j: usize = start;
    let mut out: Vec<u8> = Vec::new();
    while j < n && b[j] != 0
        invariant
            start <= j <= n,
            n == b@.len(),
            nul_from(b@, start as int) == nul_from(b@, j as int),
            out@ == b@.subrange(start as int, j as int),
        decreases n - j,
    {
        out.push(b[j]);
        j = j + 1;
        assert(out@ == b@.subrange(start as int, j as int));
    }
    Some(out)
}

} // verus!
