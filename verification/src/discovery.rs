//! The UDP discovery exchange, on its computing side: the fixed request
//! datagram, and the TLV decoding of a server's response.
//!
//! A response begins with the byte `E`, followed by records of a
//! four-character token, a one-byte value length, and that many value
//! bytes. `NAME` and `VERS` carry text; `IPAD` carries a dotted-quad IPv4
//! address and `JSON` a decimal port, both as text, and a value that does
//! not parse stops the decoding there, keeping what was already read — as
//! does any unknown token. Sending and receiving the datagrams is the
//! caller's transport work; this module fixes what the bytes mean.

use vstd::prelude::*;
use vstd::slice::{slice_index_get, slice_subrange, slice_to_vec};
use crate::proto::{ServerTlv, ServerTlvMap, SpecServerTlv, SpecServerTlvMap, spec_tlv_set};
use crate::wire::{utf8_or_empty, utf8_string_or_empty};

verus! {

// ---------------------------------------------------------------------------
// Decimal text
// ---------------------------------------------------------------------------
pub open spec fn is_digit(b: u8) -> bool {
    48 <= b <= 57
}

pub open spec fn all_digits(s: Seq<u8>) -> bool {
    forall|i: int| 0 <= i < s.len() ==> is_digit(#[trigger] s[i])
}

/// The number a string of ASCII digits denotes.
pub open spec fn dec_value(s: Seq<u8>) -> int
    decreases s.len(),
{
    if s.len() == 0 {
        0
    } else {
        dec_value(s.drop_last()) * 10 + (s.last() - 48)
    }
}

proof fn lemma_dec_value_nonneg(s: Seq<u8>)
    requires
        all_digits(s),
    ensures
        dec_value(s) >= 0,
    decreases s.len(),
{
    if s.len() > 0 {
        assert(all_digits(s.drop_last())) by {
            assert(forall|i: int| 0 <= i < s.len() - 1 ==> s.drop_last()[i] == s[i]);
        }
        lemma_dec_value_nonneg(s.drop_last());
    }
}

proof fn lemma_dec_value_prefix(s: Seq<u8>, j: int)
    requires
        all_digits(s),
        0 <= j <= s.len(),
    ensures
        dec_value(s.take(j)) <= dec_value(s),
    decreases s.len() - j,
{
    if j < s.len() {
        assert(s.take(j + 1).drop_last() =~= s.take(j));
        assert(all_digits(s.take(j))) by {
            assert(forall|i: int| 0 <= i < j ==> s.take(j)[i] == s[i]);
        }
        lemma_dec_value_nonneg(s.take(j));
        assert(dec_value(s.take(j + 1)) == dec_value(s.take(j)) * 10 + (s[j] - 48));
        lemma_dec_value_prefix(s, j + 1);
    } else {
        assert(s.take(j) =~= s);
    }
}

// ---------------------------------------------------------------------------
// The decimal port grammar of `u16::from_str`
// ---------------------------------------------------------------------------
/// The digits of a port value: an optional leading `+` is allowed.
pub open spec fn u16_digits(s: Seq<u8>) -> Seq<u8> {
    if s.len() > 0 && s[0] == 43 {
        s.skip(1)
    } else {
        s
    }
}

/// Whether the text parses as a `u16`: at least one digit, digits only
/// after the optional sign, and a value of at most 65535.
pub open spec fn parses_as_u16(s: Seq<u8>) -> bool {
    let b = u16_digits(s);
    b.len() >= 1 && all_digits(b) && dec_value(b) <= 65535
}

/// The port the text denotes.
pub open spec fn u16_value(s: Seq<u8>) -> u16 {
    dec_value(u16_digits(s)) as u16
}

/// Parses a decimal port as `u16::from_str` does.
pub fn parse_u16(s: &[u8]) -> (r: Option<u16>)
    ensures
        r is Some <==> parses_as_u16(s@),
        r matches Some(v) ==> v == u16_value(s@),
{
    let n = s.len();
    let start: usize = if n > 0 && *slice_index_get(s, 0) == 43 {
        1
    } else {
        0
    };
    let ghost body = u16_digits(s@);
    proof {
        assert(body =~= s@.skip(start as int));
    }
    if start >= n {
        return None;
    }
    let mut acc: u32 = 0;
    let mut i: usize = start;
    while i < n
        invariant
            n == s@.len(),
            start <= i <= n,
            start < n,
            body == s@.skip(start as int),
            body == u16_digits(s@),
            body.len() == n - start,
            all_digits(body.take(i - start)),
            acc == dec_value(body.take(i - start)),
            acc <= 65535,
        decreases n - i,
    {
        let c = *slice_index_get(s, i);
        proof {
            assert(body[i - start] == s@[i as int]);
        }
        if c < 48 || c > 57 {
            proof {
                assert(!is_digit(body[i - start]));
            }
            return None;
        }
        acc = acc * 10 + ((c - 48) as u32);
        proof {
            assert(body.take(i - start + 1).drop_last() =~= body.take(i - start));
            assert(body.take(i - start + 1).last() == c);
            assert(forall|j: int|
                0 <= j < i - start + 1 ==> body.take(i - start + 1)[j] == body[j]);
        }
        if acc > 65535 {
            proof {
                if parses_as_u16(s@) {
                    lemma_dec_value_prefix(body, i - start + 1);
                }
            }
            return None;
        }
        i += 1;
    }
    proof {
        assert(body.take(n - start) =~= body);
    }
    Some(acc as u16)
}

// ---------------------------------------------------------------------------
// The dotted-quad grammar of `Ipv4Addr::from_str`
// ---------------------------------------------------------------------------
/// Bytes before the first `.`, or the whole text when it has none.
pub open spec fn token_len(s: Seq<u8>) -> int
    decreases s.len(),
{
    if s.len() == 0 || s[0] == 46 {
        0
    } else {
        1 + token_len(s.skip(1))
    }
}

proof fn lemma_token_len_is(s: Seq<u8>, i: int)
    requires
        0 <= i <= s.len(),
        forall|j: int| 0 <= j < i ==> s[j] != 46,
        i == s.len() || s[i] == 46,
    ensures
        token_len(s) == i,
    decreases i,
{
    if i > 0 {
        lemma_token_len_is(s.skip(1), i - 1);
    }
}

/// One octet of a dotted quad: one to three digits, no leading zero unless
/// the octet is exactly `0`, value at most 255.
pub open spec fn valid_octet(t: Seq<u8>) -> bool {
    1 <= t.len() <= 3 && all_digits(t) && dec_value(t) <= 255 && (t.len() > 1 ==> t[0] != 48)
}

/// Whether the text is a dotted quad: four octets separated by `.`.
pub open spec fn parses_as_ipv4(s: Seq<u8>) -> bool {
    let n0 = token_len(s);
    n0 < s.len() && {
        let s1 = s.skip(n0 + 1);
        let n1 = token_len(s1);
        n1 < s1.len() && {
            let s2 = s1.skip(n1 + 1);
            let n2 = token_len(s2);
            n2 < s2.len() && {
                let s3 = s2.skip(n2 + 1);
                token_len(s3) == s3.len() && valid_octet(s.take(n0)) && valid_octet(s1.take(n1))
                    && valid_octet(s2.take(n2)) && valid_octet(s3)
            }
        }
    }
}

/// The four octets the text denotes.
pub open spec fn ipv4_octets(s: Seq<u8>) -> [u8; 4] {
    let n0 = token_len(s);
    let s1 = s.skip(n0 + 1);
    let n1 = token_len(s1);
    let s2 = s1.skip(n1 + 1);
    let n2 = token_len(s2);
    let s3 = s2.skip(n2 + 1);
    [
        dec_value(s.take(n0)) as u8,
        dec_value(s1.take(n1)) as u8,
        dec_value(s2.take(n2)) as u8,
        dec_value(s3) as u8,
    ]
}

/// Index of the first `.` at or after `from`, or the length when there is
/// none.
fn scan_token(s: &[u8], from: usize) -> (r: usize)
    requires
        from <= s@.len(),
    ensures
        from <= r <= s@.len(),
        token_len(s@.skip(from as int)) == r - from,
        r < s@.len() ==> s@[r as int] == 46,
        forall|j: int| from <= j < r ==> s@[j] != 46,
    decreases s@.len() - from,
{
    let n = s.len();
    let mut i: usize = from;
    while i < n
        invariant
            n == s@.len(),
            from <= i <= n,
            forall|j: int| from <= j < i ==> s@[j] != 46,
        decreases n - i,
    {
        if *slice_index_get(s, i) == 46 {
            proof {
                assert(forall|j: int|
                    0 <= j < i - from ==> s@.skip(from as int)[j] == s@[from + j]);
                lemma_token_len_is(s@.skip(from as int), i - from);
            }
            return i;
        }
        i += 1;
    }
    proof {
        assert(forall|j: int| 0 <= j < n - from ==> s@.skip(from as int)[j] == s@[from + j]);
        lemma_token_len_is(s@.skip(from as int), n - from);
    }
    n
}

/// Parses the octet written at `s[from .. to]`.
fn parse_octet(s: &[u8], from: usize, to: usize) -> (r: Option<u8>)
    requires
        from <= to <= s@.len(),
    ensures
        r is Some <==> valid_octet(s@.subrange(from as int, to as int)),
        r matches Some(v) ==> v == dec_value(s@.subrange(from as int, to as int)),
    decreases to - from,
{
    let ghost t = s@.subrange(from as int, to as int);
    let len = to - from;
    if len == 0 || len > 3 {
        return None;
    }
    if len > 1 && *slice_index_get(s, from) == 48 {
        proof {
            assert(t[0] == s@[from as int]);
        }
        return None;
    }
    let mut acc: u32 = 0;
    let mut i: usize = from;
    while i < to
        invariant
            from <= i <= to <= s@.len(),
            t == s@.subrange(from as int, to as int),
            t.len() == to - from,
            to - from <= 3,
            all_digits(t.take(i - from)),
            acc == dec_value(t.take(i - from)),
            i - from == 0 ==> acc == 0,
            i - from == 1 ==> acc <= 9,
            i - from == 2 ==> acc <= 99,
            i - from == 3 ==> acc <= 999,
        decreases to - i,
    {
        let c = *slice_index_get(s, i);
        proof {
            assert(t[i - from] == s@[i as int]);
        }
        if c < 48 || c > 57 {
            return None;
        }
        acc = acc * 10 + ((c - 48) as u32);
        proof {
            assert(t.take(i - from + 1).drop_last() =~= t.take(i - from));
            assert(t.take(i - from + 1).last() == c);
            assert(forall|j: int| 0 <= j < i - from + 1 ==> t.take(i - from + 1)[j] == t[j]);
            lemma_dec_value_nonneg(t.take(i - from));
        }
        i += 1;
    }
    proof {
        assert(t.take(to - from) =~= t);
    }
    if acc > 255 {
        return None;
    }
    Some(acc as u8)
}

/// Parses a dotted-quad IPv4 address as `Ipv4Addr::from_str` does.
#[verifier::rlimit(90)]
pub fn parse_ipv4(s: &[u8]) -> (r: Option<[u8; 4]>)
    ensures
        r is Some <==> parses_as_ipv4(s@),
        r matches Some(v) ==> v == ipv4_octets(s@),
{
    let n = s.len();
    let d0 = scan_token(s, 0);
    proof {
        assert(s@.skip(0) =~= s@);
    }
    if d0 == n {
        return None;
    }
    let ghost s1 = s@.skip(d0 + 1);
    let d1 = scan_token(s, d0 + 1);
    proof {
        assert(s1 =~= s@.skip(d0 + 1));
        assert(token_len(s1) == d1 - (d0 + 1));
    }
    if d1 == n {
        return None;
    }
    let ghost s2 = s1.skip(token_len(s1) + 1);
    let d2 = scan_token(s, d1 + 1);
    proof {
        assert(s2 =~= s@.skip(d1 + 1));
        assert(token_len(s2) == d2 - (d1 + 1));
    }
    if d2 == n {
        return None;
    }
    let ghost s3 = s2.skip(token_len(s2) + 1);
    let d3 = scan_token(s, d2 + 1);
    proof {
        assert(s3 =~= s@.skip(d2 + 1));
        assert(token_len(s3) == d3 - (d2 + 1));
    }
    if d3 != n {
        return None;
    }
    let o0 = match parse_octet(s, 0, d0) {
        Some(v) => v,
        None => {
            proof {
                assert(s@.subrange(0, d0 as int) =~= s@.take(d0 as int));
            }
            return None;
        },
    };
    let o1 = match parse_octet(s, d0 + 1, d1) {
        Some(v) => v,
        None => {
            proof {
                assert(s@.subrange(d0 + 1, d1 as int) =~= s1.take(token_len(s1)));
            }
            return None;
        },
    };
    let o2 = match parse_octet(s, d1 + 1, d2) {
        Some(v) => v,
        None => {
            proof {
                assert(s@.subrange(d1 + 1, d2 as int) =~= s2.take(token_len(s2)));
            }
            return None;
        },
    };
    let o3 = match parse_octet(s, d2 + 1, n) {
        Some(v) => v,
        None => {
            proof {
                assert(s@.subrange(d2 + 1, n as int) =~= s3);
            }
            return None;
        },
    };
    proof {
        assert(s@.subrange(0, d0 as int) =~= s@.take(d0 as int));
        assert(s@.subrange(d0 + 1, d1 as int) =~= s1.take(token_len(s1)));
        assert(s@.subrange(d1 + 1, d2 as int) =~= s2.take(token_len(s2)));
        assert(s@.subrange(d2 + 1, n as int) =~= s3);
        assert(s3.len() == n - (d2 + 1));
    }
    Some([o0, o1, o2, o3])
}

// ---------------------------------------------------------------------------
// The TLV records of a discovery response
// ---------------------------------------------------------------------------
/// The empty record set.
pub open spec fn empty_tlv_map() -> SpecServerTlvMap {
    SpecServerTlvMap { name: None, version: None, address: None, port: None }
}

/// What decoding a TLV byte sequence into `acc` yields. Decoding stops at a
/// short record, a non-ASCII or unknown token, or an `IPAD` or `JSON` value
/// that does not parse; the records already read are kept.
pub open spec fn spec_decode_tlv(b: Seq<u8>, acc: SpecServerTlvMap) -> SpecServerTlvMap
    decreases b.len(),
{
    if b.len() <= 4 || b[0] >= 128 {
        acc
    } else {
        let vlen = b[4] as int;
        let rest = b.skip(5);
        if rest.len() < vlen {
            acc
        } else {
            let value = rest.take(vlen);
            let rem = rest.skip(vlen);
            if b[0] == 78 && b[1] == 65 && b[2] == 77 && b[3] == 69 {  // NAME
                spec_decode_tlv(rem, spec_tlv_set(acc, SpecServerTlv::Name(utf8_or_empty(value))))
            } else if b[0] == 86 && b[1] == 69 && b[2] == 82 && b[3] == 83 {  // VERS
                spec_decode_tlv(
                    rem,
                    spec_tlv_set(acc, SpecServerTlv::Version(utf8_or_empty(value))),
                )
            } else if b[0] == 73 && b[1] == 80 && b[2] == 65 && b[3] == 68 {  // IPAD
                if parses_as_ipv4(value) {
                    spec_decode_tlv(
                        rem,
                        spec_tlv_set(acc, SpecServerTlv::Address(ipv4_octets(value))),
                    )
                } else {
                    acc
                }
            } else if b[0] == 74 && b[1] == 83 && b[2] == 79 && b[3] == 78 {  // JSON
                if parses_as_u16(value) {
                    spec_decode_tlv(rem, spec_tlv_set(acc, SpecServerTlv::Port(u16_value(value))))
                } else {
                    acc
                }
            } else {
                acc
            }
        }
    }
}

fn decode_tlv_from(buf: &[u8], o: usize, acc: ServerTlvMap) -> (r: ServerTlvMap)
    requires
        o <= buf@.len(),
    ensures
        r@ == spec_decode_tlv(buf@.skip(o as int), acc@),
    decreases buf@.len() - o,
{
    let n = buf.len();
    let ghost b = buf@.skip(o as int);
    proof {
        assert(b.len() == n - o);
        assert(forall|i: int| 0 <= i < b.len() ==> b[i] == buf@[o + i]);
    }
    if n - o <= 4 || *slice_index_get(buf, o) >= 128 {
        return acc;
    }
    let vlen = *slice_index_get(buf, o + 4) as usize;
    proof {
        assert(b.skip(5) =~= buf@.skip(o + 5));
        assert(b.skip(5).len() == n - o - 5);
    }
    if n - (o + 5) < vlen {
        return acc;
    }
    let vstart = o + 5;
    let vend = o + 5 + vlen;
    let ghost value = b.skip(5).take(vlen as int);
    let ghost rem = b.skip(5).skip(vlen as int);
    proof {
        assert(value =~= buf@.subrange(vstart as int, vend as int));
        assert(rem =~= buf@.skip(vend as int));
    }
    let t0 = *slice_index_get(buf, o);
    let t1 = *slice_index_get(buf, o + 1);
    let t2 = *slice_index_get(buf, o + 2);
    let t3 = *slice_index_get(buf, o + 3);
    if t0 == 78 && t1 == 65 && t2 == 77 && t3 == 69 {
        let v = slice_to_vec(slice_subrange(buf, vstart, vend));
        let mut m = acc;
        m.set(ServerTlv::Name(utf8_string_or_empty(v)));
        decode_tlv_from(buf, vend, m)
    } else if t0 == 86 && t1 == 69 && t2 == 82 && t3 == 83 {
        let v = slice_to_vec(slice_subrange(buf, vstart, vend));
        let mut m = acc;
        m.set(ServerTlv::Version(utf8_string_or_empty(v)));
        decode_tlv_from(buf, vend, m)
    } else if t0 == 73 && t1 == 80 && t2 == 65 && t3 == 68 {
        match parse_ipv4(slice_subrange(buf, vstart, vend)) {
            Some(a) => {
                let mut m = acc;
                m.set(ServerTlv::Address(a));
                decode_tlv_from(buf, vend, m)
            },
            None => acc,
        }
    } else if t0 == 74 && t1 == 83 && t2 == 79 && t3 == 78 {
        match parse_u16(slice_subrange(buf, vstart, vend)) {
            Some(p) => {
                let mut m = acc;
                m.set(ServerTlv::Port(p));
                decode_tlv_from(buf, vend, m)
            },
            None => acc,
        }
    } else {
        acc
    }
}

/// Decodes the TLV records of a discovery response body.
pub fn decode_tlv(buf: &[u8]) -> (r: ServerTlvMap)
    ensures
        r@ == spec_decode_tlv(buf@, empty_tlv_map()),
{
    let m = decode_tlv_from(buf, 0, ServerTlvMap::new());
    proof {
        assert(buf@.skip(0) =~= buf@);
    }
    m
}

// ---------------------------------------------------------------------------
// The request datagram and the response as a whole
// ---------------------------------------------------------------------------
/// The fixed discovery request: `e`, then the four tokens the client asks
/// for, each terminated by a zero byte.
pub open spec fn discovery_request_bytes() -> Seq<u8> {
    seq![
        101u8, 78u8, 65u8, 77u8, 69u8, 0u8, 73u8, 80u8, 65u8, 68u8, 0u8, 74u8, 83u8, 79u8, 78u8,
        0u8, 86u8, 69u8, 82u8, 83u8, 0u8,
    ]
}

/// Builds the discovery request datagram.
pub fn discovery_request() -> (r: Vec<u8>)
    ensures
        r@ == discovery_request_bytes(),
{
    let mut v: Vec<u8> = Vec::new();
    v.push(101);
    v.push(78);
    v.push(65);
    v.push(77);
    v.push(69);
    v.push(0);
    v.push(73);
    v.push(80);
    v.push(65);
    v.push(68);
    v.push(0);
    v.push(74);
    v.push(83);
    v.push(79);
    v.push(78);
    v.push(0);
    v.push(86);
    v.push(69);
    v.push(82);
    v.push(83);
    v.push(0);
    assert(v@ =~= discovery_request_bytes());
    v
}

/// What discovery keeps of a received datagram: its TLV records when it
/// begins with `E`, nothing otherwise.
pub open spec fn spec_parse_response(d: Seq<u8>) -> SpecServerTlvMap {
    if d.len() > 0 && d[0] == 69 {
        spec_decode_tlv(d.skip(1), empty_tlv_map())
    } else {
        empty_tlv_map()
    }
}

/// Reads the TLV records out of a received discovery datagram.
pub fn parse_discovery_response(d: &[u8]) -> (r: ServerTlvMap)
    ensures
        r@ == spec_parse_response(d@),
{
    if d.len() > 0 && *slice_index_get(d, 0) == 69 {
        decode_tlv(slice_subrange(d, 1, d.len()))
    } else {
        ServerTlvMap::new()
    }
}

// ---------------------------------------------------------------------------
// Laws of TLV decoding
// ---------------------------------------------------------------------------
pub open spec fn tok_name() -> Seq<u8> {
    seq![78u8, 65u8, 77u8, 69u8]
}

pub open spec fn tok_vers() -> Seq<u8> {
    seq![86u8, 69u8, 82u8, 83u8]
}

pub open spec fn tok_ipad() -> Seq<u8> {
    seq![73u8, 80u8, 65u8, 68u8]
}

pub open spec fn tok_json() -> Seq<u8> {
    seq![74u8, 83u8, 79u8, 78u8]
}

/// The bytes of one TLV record: token, value length, value.
pub open spec fn tlv_record(t: Seq<u8>, v: Seq<u8>) -> Seq<u8> {
    t + seq![v.len() as u8] + v
}

/// A record the decoder accepts and walks past: a recognised token, a value
/// that fits the one-byte length, and, for the parsed tokens, a value that
/// parses.
pub open spec fn good_record(t: Seq<u8>, v: Seq<u8>) -> bool {
    v.len() <= 255 && (t == tok_name() || t == tok_vers() || (t == tok_ipad() && parses_as_ipv4(v))
        || (t == tok_json() && parses_as_u16(v)))
}

/// The entry a good record stores.
pub open spec fn record_entry(t: Seq<u8>, v: Seq<u8>) -> SpecServerTlv {
    if t == tok_name() {
        SpecServerTlv::Name(utf8_or_empty(v))
    } else if t == tok_vers() {
        SpecServerTlv::Version(utf8_or_empty(v))
    } else if t == tok_ipad() {
        SpecServerTlv::Address(ipv4_octets(v))
    } else {
        SpecServerTlv::Port(u16_value(v))
    }
}

/// The bytes of a run of records, one after the other.
pub open spec fn tlv_records(rs: Seq<(Seq<u8>, Seq<u8>)>) -> Seq<u8>
    decreases rs.len(),
{
    if rs.len() == 0 {
        Seq::empty()
    } else {
        tlv_record(rs[0].0, rs[0].1) + tlv_records(rs.skip(1))
    }
}

/// The map after storing each record's entry, in order.
pub open spec fn tlv_entries(acc: SpecServerTlvMap, rs: Seq<(Seq<u8>, Seq<u8>)>) -> SpecServerTlvMap
    decreases rs.len(),
{
    if rs.len() == 0 {
        acc
    } else {
        tlv_entries(spec_tlv_set(acc, record_entry(rs[0].0, rs[0].1)), rs.skip(1))
    }
}

proof fn lemma_tlv_step(t: Seq<u8>, v: Seq<u8>, rest: Seq<u8>, acc: SpecServerTlvMap)
    requires
        good_record(t, v),
    ensures
        spec_decode_tlv(tlv_record(t, v) + rest, acc) == spec_decode_tlv(
            rest,
            spec_tlv_set(acc, record_entry(t, v)),
        ),
{
    let b = tlv_record(t, v) + rest;
    assert(t.len() == 4);
    assert(b.len() == 5 + v.len() + rest.len());
    assert(b[0] == t[0] && b[1] == t[1] && b[2] == t[2] && b[3] == t[3]);
    assert(b[4] == v.len() as u8);
    assert(b[4] as int == v.len());
    assert(b.skip(5) =~= v + rest);
    assert(b.skip(5).take(v.len() as int) =~= v);
    assert(b.skip(5).skip(v.len() as int) =~= rest);
}

proof fn lemma_tlv_stop_bad_address(v: Seq<u8>, rest: Seq<u8>, acc: SpecServerTlvMap)
    requires
        v.len() <= 255,
        !parses_as_ipv4(v),
    ensures
        spec_decode_tlv(tlv_record(tok_ipad(), v) + rest, acc) == acc,
{
    let t = tok_ipad();
    let b = tlv_record(t, v) + rest;
    assert(b.len() == 5 + v.len() + rest.len());
    assert(b[0] == t[0] && b[1] == t[1] && b[2] == t[2] && b[3] == t[3]);
    assert(b[4] == v.len() as u8);
    assert(b[4] as int == v.len());
    assert(b.skip(5) =~= v + rest);
    assert(b.skip(5).take(v.len() as int) =~= v);
}

/// Decoding a run of good records walks past all of them, storing their
/// entries, and continues with whatever follows.
pub proof fn lemma_tlv_run(rs: Seq<(Seq<u8>, Seq<u8>)>, tail: Seq<u8>, acc: SpecServerTlvMap)
    requires
        forall|i: int| 0 <= i < rs.len() ==> good_record((#[trigger] rs[i]).0, rs[i].1),
    ensures
        spec_decode_tlv(tlv_records(rs) + tail, acc) == spec_decode_tlv(tail, tlv_entries(acc, rs)),
    decreases rs.len(),
{
    if rs.len() == 0 {
        assert(tlv_records(rs) + tail =~= tail);
    } else {
        lemma_tlv_step(rs[0].0, rs[0].1, tlv_records(rs.skip(1)) + tail, acc);
        assert(tlv_records(rs) + tail =~= tlv_record(rs[0].0, rs[0].1) + (tlv_records(rs.skip(1))
            + tail));
        lemma_tlv_run(rs.skip(1), tail, spec_tlv_set(acc, record_entry(rs[0].0, rs[0].1)));
    }
}

/// Any run of good records followed by an address record whose value does
/// not parse decodes to exactly the entries of the good records: decoding
/// stops at the bad record, keeps what was already read, and still
/// succeeds.
pub proof fn lemma_tlv_truncation(
    rs: Seq<(Seq<u8>, Seq<u8>)>,
    bad: Seq<u8>,
    rest: Seq<u8>,
    acc: SpecServerTlvMap,
)
    requires
        forall|i: int| 0 <= i < rs.len() ==> good_record((#[trigger] rs[i]).0, rs[i].1),
        bad.len() <= 255,
        !parses_as_ipv4(bad),
    ensures
        spec_decode_tlv(tlv_records(rs) + tlv_record(tok_ipad(), bad) + rest, acc) == tlv_entries(
            acc,
            rs,
        ),
{
    lemma_tlv_run(rs, tlv_record(tok_ipad(), bad) + rest, acc);
    assert(tlv_records(rs) + tlv_record(tok_ipad(), bad) + rest =~= tlv_records(rs) + (tlv_record(
        tok_ipad(),
        bad,
    ) + rest));
    lemma_tlv_stop_bad_address(bad, rest, tlv_entries(acc, rs));
}

} // verus!

