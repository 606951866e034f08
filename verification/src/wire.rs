//! Byte-level building blocks of the wire protocol: big-endian integer
//! fields, text fields, and decimal rendering of numbers.

use vstd::prelude::*;
use vstd::utf8::{decode_utf8, encode_scalar, encode_utf8, valid_utf8};

verus! {

// ---------------------------------------------------------------------------
// Big-endian integer fields
// ---------------------------------------------------------------------------
/// Value of a two-byte big-endian field.
pub open spec fn be16(b: Seq<u8>) -> int
    recommends
        b.len() == 2,
{
    b[0] * 256 + b[1]
}

/// Value of a four-byte big-endian field.
pub open spec fn be32(b: Seq<u8>) -> int
    recommends
        b.len() == 4,
{
    ((b[0] * 256 + b[1]) * 256 + b[2]) * 256 + b[3]
}

/// The two-byte big-endian encoding of `x`.
pub open spec fn be16_bytes(x: u16) -> Seq<u8> {
    seq![(x / 256) as u8, (x % 256) as u8]
}

/// The four-byte big-endian encoding of `x`.
pub open spec fn be32_bytes(x: u32) -> Seq<u8> {
    seq![
        (x / 0x1000000) as u8,
        ((x / 0x10000) % 256) as u8,
        ((x / 256) % 256) as u8,
        (x % 256) as u8,
    ]
}

/// The eight-byte big-endian encoding of `x`.
pub open spec fn be64_bytes(x: u64) -> Seq<u8> {
    be32_bytes((x / 0x100000000) as u32) + be32_bytes((x % 0x100000000) as u32)
}

/// Reads a big-endian `u16` from `v` at offset `off`.
pub fn read_be16(v: &[u8], off: usize) -> (r: u16)
    requires
        off + 2 <= v@.len(),
    ensures
        r == be16(v@.subrange(off as int, off + 2)),
{
    (v[off] as u16) * 256 + (v[off + 1] as u16)
}

/// Reads a big-endian `u32` from `v` at offset `off`.
pub fn read_be32(v: &[u8], off: usize) -> (r: u32)
    requires
        off + 4 <= v@.len(),
    ensures
        r == be32(v@.subrange(off as int, off + 4)),
{
    (((v[off] as u32) * 256 + (v[off + 1] as u32)) * 256 + (v[off + 2] as u32)) * 256 + (v[off
        + 3] as u32)
}

/// Appends the two-byte big-endian encoding of `x` to `out`.
pub fn push_be16(out: &mut Vec<u8>, x: u16)
    ensures
        final(out)@ == old(out)@ + be16_bytes(x),
{
    out.push((x / 256) as u8);
    out.push((x % 256) as u8);
    assert(out@ =~= old(out)@ + be16_bytes(x));
}

/// Appends the four-byte big-endian encoding of `x` to `out`.
pub fn push_be32(out: &mut Vec<u8>, x: u32)
    ensures
        final(out)@ == old(out)@ + be32_bytes(x),
{
    out.push((x / 0x1000000) as u8);
    out.push(((x / 0x10000) % 256) as u8);
    out.push(((x / 256) % 256) as u8);
    out.push((x % 256) as u8);
    assert(out@ =~= old(out)@ + be32_bytes(x));
}

/// Appends the eight-byte big-endian encoding of `x` to `out`.
pub fn push_be64(out: &mut Vec<u8>, x: u64)
    ensures
        final(out)@ == old(out)@ + be64_bytes(x),
{
    push_be32(out, (x / 0x100000000) as u32);
    push_be32(out, (x % 0x100000000) as u32);
    assert(out@ =~= old(out)@ + be64_bytes(x));
}

/// Round trip: reading back a two-byte big-endian field gives the value
/// that was written.
pub proof fn lemma_be16_roundtrip(x: u16)
    ensures
        be16_bytes(x).len() == 2,
        be16(be16_bytes(x)) == x,
{
}

// ---------------------------------------------------------------------------
// Text fields read byte-for-byte as characters
// ---------------------------------------------------------------------------
/// Each byte interpreted as the character with the same code point.
pub open spec fn latin1_chars(b: Seq<u8>) -> Seq<char> {
    Seq::new(b.len(), |i: int| b[i] as char)
}

proof fn lemma_encode_utf8_push(s: Seq<char>, c: char)
    ensures
        encode_utf8(s.push(c)) == encode_utf8(s) + encode_scalar(c as u32),
    decreases s.len(),
{
    let t = s.push(c);
    assert(t.len() == s.len() + 1);
    if s.len() == 0 {
        assert(t[0] == c);
        assert(t.drop_first() =~= s);
        assert(encode_utf8(t) == encode_scalar(t[0] as u32) + encode_utf8(t.drop_first()));
        assert(encode_utf8(s) == Seq::<u8>::empty());
        assert(encode_utf8(t) =~= encode_utf8(s) + encode_scalar(c as u32));
    } else {
        lemma_encode_utf8_push(s.drop_first(), c);
        assert(t.drop_first() =~= s.drop_first().push(c));
        assert(t[0] == s[0]);
        assert(encode_utf8(t) == encode_scalar(t[0] as u32) + encode_utf8(t.drop_first()));
        assert(encode_utf8(s) == encode_scalar(s[0] as u32) + encode_utf8(s.drop_first()));
        assert(encode_utf8(t) =~= encode_utf8(s) + encode_scalar(c as u32));
    }
}

/// Builds the string whose characters are the bytes of `b`, read
/// byte-for-byte.
pub fn latin1_to_string(b: &[u8]) -> (r: String)
    ensures
        r@ == latin1_chars(b@),
{
    broadcast use vstd::utf8::encode_utf8_valid_utf8, vstd::utf8::encode_utf8_decode_utf8;

    let n = b.len();
    let mut enc: Vec<u8> = Vec::new();
    let mut i: usize = 0;
    while i < n
        invariant
            n == b@.len(),
            i <= n,
            enc@ == encode_utf8(latin1_chars(b@).take(i as int)),
        decreases n - i,
    {
        let byte = b[i];
        let x = byte as u32;
        let c = byte as char;
        proof {
            assert(c as u32 == x);
            lemma_encode_utf8_push(latin1_chars(b@).take(i as int), c);
            assert(latin1_chars(b@).take(i as int).push(c) =~= latin1_chars(b@).take(i + 1));
        }
        if byte < 0x80 {
            assert(encode_scalar(x) =~= seq![(x & 0x7F) as u8]);
            assert((x & 0x7F) as u8 == byte) by (bit_vector)
                requires
                    x == byte && byte < 0x80,
            ;
            enc.push(byte);
        } else {
            let b0: u8 = 0xC0u8 | (((x >> 6) & 0x1F) as u8);
            let b1: u8 = 0x80u8 | ((x & 0x3F) as u8);
            assert(encode_scalar(x) =~= seq![b0, b1]);
            enc.push(b0);
            enc.push(b1);
        }
        assert(enc@ =~= encode_utf8(latin1_chars(b@).take(i + 1)));
        i += 1;
    }
    proof {
        assert(latin1_chars(b@).take(n as int) =~= latin1_chars(b@));
    }
    match string_from_utf8(enc) {
        Some(s) => s,
        None => {
            proof {
                assert(false);
            }
            String::new()
        },
    }
}

// ---------------------------------------------------------------------------
// Decimal rendering
// ---------------------------------------------------------------------------
/// The ASCII digits of `v` written in decimal, most significant first.
pub open spec fn dec_bytes(v: int) -> Seq<u8>
    recommends
        v >= 0,
    decreases v,
{
    if v < 10 {
        seq![(48 + v) as u8]
    } else {
        dec_bytes(v / 10).push((48 + v % 10) as u8)
    }
}

/// The decimal rendering of `v` as characters.
pub open spec fn dec_chars(v: int) -> Seq<char> {
    latin1_chars(dec_bytes(v))
}

/// The ASCII digits of `v` in decimal, most significant first.
pub fn u32_dec_bytes(v: u32) -> (r: Vec<u8>)
    ensures
        r@ == dec_bytes(v as int),
    decreases v,
{
    if v < 10 {
        let mut r: Vec<u8> = Vec::new();
        r.push(48 + (v as u8));
        assert(r@ =~= dec_bytes(v as int));
        r
    } else {
        let mut r = u32_dec_bytes(v / 10);
        r.push(48 + ((v % 10) as u8));
        r
    }
}

/// Renders `v` in decimal.
pub fn u32_dec_string(v: u32) -> (r: String)
    ensures
        r@ == dec_chars(v as int),
{
    let b = u32_dec_bytes(v);
    latin1_to_string(b.as_slice())
}

// ---------------------------------------------------------------------------
// UTF-8 conversions
// ---------------------------------------------------------------------------
/// Relies on `String::from_utf8`: it returns the string holding the given
/// bytes exactly when they are valid UTF-8.
#[verifier::external_body]
pub fn string_from_utf8(v: Vec<u8>) -> (r: Option<String>)
    ensures
        r matches Some(s) ==> valid_utf8(v@) && s@ == decode_utf8(v@),
        r is None ==> !valid_utf8(v@),
{
    String::from_utf8(v).ok()
}

/// What `String::from_utf8_lossy` yields on the given bytes.
pub uninterp spec fn utf8_lossy_chars(b: Seq<u8>) -> Seq<char>;

/// Relies on `String::from_utf8_lossy`: on valid UTF-8 it decodes the bytes
/// unchanged; on invalid input it substitutes replacement characters.
#[verifier::external_body]
pub fn string_from_utf8_lossy(v: &[u8]) -> (r: String)
    ensures
        r@ == utf8_lossy_chars(v@),
        valid_utf8(v@) ==> r@ == decode_utf8(v@),
{
    String::from_utf8_lossy(v).into_owned()
}

/// Decoding bytes that are not valid UTF-8 with `String::from_utf8` and
/// falling back to the empty string on failure.
pub open spec fn utf8_or_empty(b: Seq<u8>) -> Seq<char> {
    if valid_utf8(b) {
        decode_utf8(b)
    } else {
        Seq::empty()
    }
}

/// Decodes `v` as UTF-8, yielding the empty string when the bytes are not
/// valid UTF-8.
pub fn utf8_string_or_empty(v: Vec<u8>) -> (r: String)
    ensures
        r@ == utf8_or_empty(v@),
{
    match string_from_utf8(v) {
        Some(s) => s,
        None => String::new(),
    }
}

} // verus!
