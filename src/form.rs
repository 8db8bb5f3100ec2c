//! The `application/x-www-form-urlencoded` form of a query string.
//!
//! A component is encoded byte by byte: the bytes `*`, `-`, `.`, `_` and the
//! ASCII letters and digits stand for themselves, a space becomes `+`, and
//! every other byte becomes `%` followed by two upper-case hex digits. Pairs
//! are written `key=value` and joined with `&`.
use vstd::prelude::*;
use vstd::utf8::*;

use crate::text::{ascii_string, is_ascii_bytes};

verus! {

/// The bytes that stand for themselves in an encoded component.
pub open spec fn is_unreserved(b: u8) -> bool {
    b == 0x2a || b == 0x2d || b == 0x2e || b == 0x5f || (0x30 <= b && b <= 0x39) || (0x41 <= b
        && b <= 0x5a) || (0x61 <= b && b <= 0x7a)
}

/// The upper-case hex digit of a value below 16.
pub open spec fn hex_digit(n: u8) -> u8 {
    if n < 10 {
        (0x30 + n) as u8
    } else {
        (0x37 + n) as u8
    }
}

/// The value of a hex digit of either case.
pub open spec fn hex_value(d: u8) -> Option<u8> {
    if 0x30 <= d && d <= 0x39 {
        Some((d - 0x30) as u8)
    } else if 0x41 <= d && d <= 0x46 {
        Some((d - 0x37) as u8)
    } else if 0x61 <= d && d <= 0x66 {
        Some((d - 0x57) as u8)
    } else {
        None
    }
}

/// The encoding of one byte.
pub open spec fn encode_byte(b: u8) -> Seq<u8> {
    if is_unreserved(b) {
        seq![b]
    } else if b == 0x20 {
        seq![0x2bu8]
    } else {
        seq![0x25u8, hex_digit(b / 16), hex_digit(b % 16)]
    }
}

/// The encoding of a component.
pub open spec fn encode_component(bytes: Seq<u8>) -> Seq<u8>
    decreases bytes.len(),
{
    if bytes.len() == 0 {
        seq![]
    } else {
        encode_byte(bytes[0]) + encode_component(bytes.drop_first())
    }
}

/// The decoding of a component: `+` is a space, `%` with two hex digits is
/// the byte they spell, and any other byte, a lone `%` included, stands for
/// itself.
pub open spec fn decode_component(s: Seq<u8>) -> Seq<u8>
    decreases s.len(),
{
    if s.len() == 0 {
        seq![]
    } else if s[0] == 0x2b {
        seq![0x20u8] + decode_component(s.drop_first())
    } else if s[0] == 0x25 && s.len() >= 3 && hex_value(s[1]) is Some && hex_value(s[2]) is Some {
        seq![(hex_value(s[1])->Some_0 * 16 + hex_value(s[2])->Some_0) as u8] + decode_component(
            s.subrange(3, s.len() as int),
        )
    } else {
        seq![s[0]] + decode_component(s.drop_first())
    }
}

/// The encoding of one `key=value` pair.
pub open spec fn encode_pair(p: (Seq<u8>, Seq<u8>)) -> Seq<u8> {
    encode_component(p.0) + seq![0x3du8] + encode_component(p.1)
}

/// The encoding of a sequence of pairs, joined with `&`.
pub open spec fn encode_pairs(ps: Seq<(Seq<u8>, Seq<u8>)>) -> Seq<u8>
    decreases ps.len(),
{
    if ps.len() == 0 {
        seq![]
    } else if ps.len() == 1 {
        encode_pair(ps[0])
    } else {
        encode_pair(ps[0]) + seq![0x26u8] + encode_pairs(ps.drop_first())
    }
}

/// The index of the first `b` in `s`, or the length of `s` if there is none.
pub open spec fn find_byte(s: Seq<u8>, b: u8) -> nat
    decreases s.len(),
{
    if s.len() == 0 {
        0
    } else if s[0] == b {
        0
    } else {
        1 + find_byte(s.drop_first(), b)
    }
}

/// One segment read as a pair: the key runs to the first `=`, the value
/// after it; a segment without `=` is a key with an empty value.
pub open spec fn parse_pair(seg: Seq<u8>) -> (Seq<u8>, Seq<u8>) {
    let k = find_byte(seg, 0x3d) as int;
    if k < seg.len() {
        (decode_component(seg.subrange(0, k)), decode_component(seg.subrange(k + 1, seg.len() as int)))
    } else {
        (decode_component(seg), seq![])
    }
}

/// The pairs of a non-empty query, one for each `&`-separated segment.
pub open spec fn parse_segments(s: Seq<u8>) -> Seq<(Seq<u8>, Seq<u8>)>
    decreases s.len(),
{
    let j = find_byte(s, 0x26) as int;
    if j < s.len() {
        seq![parse_pair(s.subrange(0, j))] + parse_segments(s.subrange(j + 1, s.len() as int))
    } else {
        seq![parse_pair(s)]
    }
}

/// The pairs of a query; the empty query has none.
pub open spec fn parse_query(s: Seq<u8>) -> Seq<(Seq<u8>, Seq<u8>)> {
    if s.len() == 0 {
        seq![]
    } else {
        parse_segments(s)
    }
}

/// A sequence that holds no byte `b`.
pub open spec fn lacks_byte(s: Seq<u8>, b: u8) -> bool {
    forall|i: int| 0 <= i < s.len() ==> s[i] != b
}

// ----- lemmas -----

proof fn lemma_hex_round_trip(n: u8)
    requires
        n < 16,
    ensures
        hex_value(hex_digit(n)) == Some(n),
        hex_digit(n) != 0x26u8,
        hex_digit(n) != 0x3du8,
        hex_digit(n) < 0x80,
{
}

/// Encoding distributes over concatenation.
pub proof fn lemma_encode_append(a: Seq<u8>, b: Seq<u8>)
    ensures
        encode_component(a + b) == encode_component(a) + encode_component(b),
    decreases a.len(),
{
    if a.len() == 0 {
        assert(a + b =~= b);
    } else {
        lemma_encode_append(a.drop_first(), b);
        assert((a + b).drop_first() =~= a.drop_first() + b);
        assert(encode_component(a + b) =~= encode_component(a) + encode_component(b));
    }
}

/// An encoded component is ASCII and holds neither `&` nor `=`.
pub proof fn lemma_encoded_plain(bytes: Seq<u8>)
    ensures
        lacks_byte(encode_component(bytes), 0x26),
        lacks_byte(encode_component(bytes), 0x3d),
        is_ascii_bytes(encode_component(bytes)),
    decreases bytes.len(),
{
    if bytes.len() > 0 {
        let b = bytes[0];
        lemma_encoded_plain(bytes.drop_first());
        if !is_unreserved(b) && b != 0x20 {
            lemma_hex_round_trip(b / 16);
            lemma_hex_round_trip(b % 16);
        }
        let e = encode_component(bytes);
        let h = encode_byte(b);
        let t = encode_component(bytes.drop_first());
        assert(e == h + t);
        assert forall|i: int| 0 <= i < e.len() implies e[i] != 0x26 && e[i] != 0x3d && e[i]
            < 0x80 by {
            if i < h.len() {
                assert(e[i] == h[i]);
            } else {
                assert(e[i] == t[i - h.len()]);
            }
        }
    }
}

/// Decoding undoes encoding.
pub proof fn lemma_decode_encode(bytes: Seq<u8>)
    ensures
        decode_component(encode_component(bytes)) == bytes,
    decreases bytes.len(),
{
    if bytes.len() > 0 {
        let b = bytes[0];
        let rest = bytes.drop_first();
        lemma_decode_encode(rest);
        let h = encode_byte(b);
        let t = encode_component(rest);
        let e = h + t;
        assert(encode_component(bytes) == e);
        if is_unreserved(b) {
            assert(e.drop_first() =~= t);
        } else if b == 0x20 {
            assert(e.drop_first() =~= t);
        } else {
            lemma_hex_round_trip(b / 16);
            lemma_hex_round_trip(b % 16);
            assert(e.subrange(3, e.len() as int) =~= t);
            assert(((b / 16) * 16 + b % 16) as u8 == b);
        }
        assert(decode_component(e) =~= bytes);
    }
}

/// `find_byte` is the first position of `b`.
pub proof fn lemma_find_byte(s: Seq<u8>, b: u8, k: int)
    requires
        0 <= k <= s.len(),
        forall|j: int| 0 <= j < k ==> s[j] != b,
        k == s.len() || s[k] == b,
    ensures
        find_byte(s, b) == k,
    decreases k,
{
    if k > 0 {
        lemma_find_byte(s.drop_first(), b, k - 1);
    }
}

proof fn lemma_parse_encoded_pair(p: (Seq<u8>, Seq<u8>))
    ensures
        parse_pair(encode_pair(p)) == p,
        lacks_byte(encode_pair(p), 0x26),
        is_ascii_bytes(encode_pair(p)),
{
    let ek = encode_component(p.0);
    let ev = encode_component(p.1);
    let e = encode_pair(p);
    lemma_encoded_plain(p.0);
    lemma_encoded_plain(p.1);
    lemma_decode_encode(p.0);
    lemma_decode_encode(p.1);
    assert forall|j: int| 0 <= j < ek.len() implies e[j] != 0x3d by {
        assert(e[j] == ek[j]);
    }
    lemma_find_byte(e, 0x3d, ek.len() as int);
    assert(e.subrange(0, ek.len() as int) =~= ek);
    assert(e.subrange(ek.len() as int + 1, e.len() as int) =~= ev);
    assert forall|i: int| 0 <= i < e.len() implies e[i] != 0x26 && e[i] < 0x80 by {
        if i < ek.len() {
            assert(e[i] == ek[i]);
        } else if i > ek.len() {
            assert(e[i] == ev[i - ek.len() - 1]);
        }
    }
}

/// Appending a pair to a sequence of pairs appends its encoding.
pub proof fn lemma_encode_pairs_push(ps: Seq<(Seq<u8>, Seq<u8>)>, p: (Seq<u8>, Seq<u8>))
    ensures
        encode_pairs(ps.push(p)) == if ps.len() == 0 {
            encode_pair(p)
        } else {
            encode_pairs(ps) + seq![0x26u8] + encode_pair(p)
        },
    decreases ps.len(),
{
    let q = ps.push(p);
    assert(q[q.len() - 1] == p);
    if ps.len() == 0 {
        assert(q[0] == p);
    } else if ps.len() == 1 {
        assert(q[0] == ps[0]);
        assert(q.drop_first() =~= seq![p]);
        assert(seq![p][0] == p);
        assert(encode_pairs(q.drop_first()) == encode_pair(p));
    } else {
        assert(q[0] == ps[0]);
        lemma_encode_pairs_push(ps.drop_first(), p);
        assert(ps.push(p).drop_first() =~= ps.drop_first().push(p));
        assert(encode_pairs(ps.push(p)) =~= encode_pairs(ps) + seq![0x26u8] + encode_pair(p));
    }
}

/// An encoded query is ASCII.
pub proof fn lemma_encoded_pairs_ascii(ps: Seq<(Seq<u8>, Seq<u8>)>)
    ensures
        is_ascii_bytes(encode_pairs(ps)),
    decreases ps.len(),
{
    if ps.len() > 0 {
        lemma_parse_encoded_pair(ps[0]);
        if ps.len() > 1 {
            lemma_encoded_pairs_ascii(ps.drop_first());
            let h = encode_pair(ps[0]);
            let t = encode_pairs(ps.drop_first());
            let e = encode_pairs(ps);
            assert forall|i: int| 0 <= i < e.len() implies e[i] < 0x80 by {
                if i < h.len() {
                    assert(e[i] == h[i]);
                } else if i > h.len() {
                    assert(e[i] == t[i - h.len() - 1]);
                }
            }
        }
    }
}

/// Parsing an encoded, non-empty sequence of pairs gives the pairs back.
proof fn lemma_parse_segments_encoded(ps: Seq<(Seq<u8>, Seq<u8>)>)
    requires
        ps.len() > 0,
    ensures
        parse_segments(encode_pairs(ps)) == ps,
    decreases ps.len(),
{
    let h = encode_pair(ps[0]);
    lemma_parse_encoded_pair(ps[0]);
    if ps.len() == 1 {
        lemma_find_byte(h, 0x26, h.len() as int);
        assert(parse_segments(h) =~= ps);
    } else {
        let t = encode_pairs(ps.drop_first());
        let e = encode_pairs(ps);
        lemma_parse_segments_encoded(ps.drop_first());
        assert forall|j: int| 0 <= j < h.len() implies e[j] != 0x26 by {
            assert(e[j] == h[j]);
        }
        lemma_find_byte(e, 0x26, h.len() as int);
        assert(e.subrange(0, h.len() as int) =~= h);
        assert(e.subrange(h.len() as int + 1, e.len() as int) =~= t);
        assert(parse_segments(e) =~= ps);
    }
}

/// Encoding a sequence of pairs as a query and parsing the query gives the
/// same pairs, in the same order: none lost, none added.
pub proof fn lemma_query_round_trip(ps: Seq<(Seq<u8>, Seq<u8>)>)
    ensures
        parse_query(encode_pairs(ps)) == ps,
{
    if ps.len() == 0 {
        assert(parse_query(encode_pairs(ps)) =~= ps);
    } else {
        lemma_parse_segments_encoded(ps);
        lemma_parse_encoded_pair(ps[0]);
        assert(encode_pairs(ps).len() > 0) by {
            if ps.len() > 1 {
                assert(encode_pairs(ps).len() >= encode_pair(ps[0]).len());
            }
            assert(encode_pair(ps[0]).len() >= 1);
        }
    }
}

// ----- executable encoding and parsing -----

/// The pairs of a vector of string pairs, as text.
pub open spec fn pairs_view(v: Seq<(String, String)>) -> Seq<(Seq<char>, Seq<char>)> {
    v.map_values(|p: (String, String)| (p.0@, p.1@))
}

/// The UTF-8 bytes of each key and value.
pub open spec fn utf8_pairs(ps: Seq<(Seq<char>, Seq<char>)>) -> Seq<(Seq<u8>, Seq<u8>)> {
    ps.map_values(|p: (Seq<char>, Seq<char>)| (encode_utf8(p.0), encode_utf8(p.1)))
}

/// The pairs of a vector of byte-vector pairs.
pub open spec fn byte_pairs_view(v: Seq<(Vec<u8>, Vec<u8>)>) -> Seq<(Seq<u8>, Seq<u8>)> {
    v.map_values(|p: (Vec<u8>, Vec<u8>)| (p.0@, p.1@))
}

/// The query that encodes a sequence of text pairs.
pub open spec fn query_text(ps: Seq<(Seq<char>, Seq<char>)>) -> Seq<char> {
    decode_utf8(encode_pairs(utf8_pairs(ps)))
}

fn hex_digit_of(n: u8) -> (r: u8)
    requires
        n < 16,
    ensures
        r == hex_digit(n),
{
    if n < 10 {
        0x30 + n
    } else {
        0x37 + n
    }
}

fn hex_value_of(d: u8) -> (r: Option<u8>)
    ensures
        r == hex_value(d),
{
    if 0x30 <= d && d <= 0x39 {
        Some(d - 0x30)
    } else if 0x41 <= d && d <= 0x46 {
        Some(d - 0x37)
    } else if 0x61 <= d && d <= 0x66 {
        Some(d - 0x57)
    } else {
        None
    }
}

fn push_encoded_byte(out: &mut Vec<u8>, b: u8)
    ensures
        final(out)@ == old(out)@ + encode_byte(b),
{
    let ghost start = out@;
    let unreserved = b == 0x2a || b == 0x2d || b == 0x2e || b == 0x5f || (0x30 <= b && b <= 0x39)
        || (0x41 <= b && b <= 0x5a) || (0x61 <= b && b <= 0x7a);
    if unreserved {
        out.push(b);
    } else if b == 0x20 {
        out.push(0x2b);
    } else {
        out.push(0x25);
        out.push(hex_digit_of(b / 16));
        out.push(hex_digit_of(b % 16));
    }
    assert(out@ =~= start + encode_byte(b));
}

/// Appends the encoding of `bytes` to `out`.
pub fn encode_component_into(out: &mut Vec<u8>, bytes: &[u8])
    ensures
        final(out)@ == old(out)@ + encode_component(bytes@),
{
    let ghost start = out@;
    let mut i: usize = 0;
    while i < bytes.len()
        invariant
            0 <= i <= bytes@.len(),
            out@ == start + encode_component(bytes@.subrange(0, i as int)),
        decreases bytes@.len() - i,
    {
        let b = bytes[i];
        proof {
            let pre = bytes@.subrange(0, i as int);
            lemma_encode_append(pre, seq![b]);
            assert(bytes@.subrange(0, i as int + 1) =~= pre + seq![b]);
            assert(seq![b].drop_first() =~= Seq::<u8>::empty());
            assert(seq![b][0] == b);
            assert(encode_component(Seq::<u8>::empty()) =~= Seq::<u8>::empty());
            assert(encode_component(seq![b]) =~= encode_byte(b));
        }
        push_encoded_byte(out, b);
        i += 1;
    }
    assert(bytes@.subrange(0, bytes@.len() as int) =~= bytes@);
}

/// The decoding of `s[start..end]`.
pub fn decode_range(s: &[u8], start: usize, end: usize) -> (r: Vec<u8>)
    requires
        start <= end <= s@.len(),
    ensures
        r@ == decode_component(s@.subrange(start as int, end as int)),
{
    let mut out: Vec<u8> = Vec::new();
    let mut i = start;
    while i < end
        invariant
            start <= i <= end <= s@.len(),
            out@ + decode_component(s@.subrange(i as int, end as int)) == decode_component(
                s@.subrange(start as int, end as int),
            ),
        decreases end - i,
    {
        let ghost t = s@.subrange(i as int, end as int);
        let ghost before = out@;
        let c = s[i];
        if c == 0x2b {
            out.push(0x20);
            i += 1;
            assert(t.drop_first() =~= s@.subrange(i as int, end as int));
            assert(out@ + decode_component(s@.subrange(i as int, end as int)) =~= before
                + decode_component(t));
        } else if c == 0x25 && end - i >= 3 && hex_value_of(s[i + 1]).is_some() && hex_value_of(
            s[i + 2],
        ).is_some() {
            let hi = hex_value_of(s[i + 1]).unwrap();
            let lo = hex_value_of(s[i + 2]).unwrap();
            out.push(hi * 16 + lo);
            i += 3;
            assert(t.subrange(3, t.len() as int) =~= s@.subrange(i as int, end as int));
            assert(out@ + decode_component(s@.subrange(i as int, end as int)) =~= before
                + decode_component(t));
        } else {
            out.push(c);
            i += 1;
            assert(t.drop_first() =~= s@.subrange(i as int, end as int));
            assert(out@ + decode_component(s@.subrange(i as int, end as int)) =~= before
                + decode_component(t));
        }
    }
    assert(out@ + decode_component(s@.subrange(i as int, end as int)) =~= out@);
    out
}

/// Encodes text pairs as a query string: `k1=v1&k2=v2...`, each key and
/// value form-encoded, in the order given.
pub fn encode_query(pairs: &Vec<(String, String)>) -> (r: String)
    ensures
        encode_utf8(r@) == encode_pairs(utf8_pairs(pairs_view(pairs@))),
        r@ == query_text(pairs_view(pairs@)),
{
    let mut out: Vec<u8> = Vec::new();
    let mut i: usize = 0;
    while i < pairs.len()
        invariant
            0 <= i <= pairs@.len(),
            out@ == encode_pairs(utf8_pairs(pairs_view(pairs@.subrange(0, i as int)))),
        decreases pairs@.len() - i,
    {
        let ghost done = utf8_pairs(pairs_view(pairs@.subrange(0, i as int)));
        let ghost before = out@;
        if i > 0 {
            out.push(0x26);
        }
        let key = pairs[i].0.as_str().as_bytes();
        let value = pairs[i].1.as_str().as_bytes();
        encode_component_into(&mut out, key);
        out.push(0x3d);
        encode_component_into(&mut out, value);
        proof {
            let p = (key@, value@);
            assert(utf8_pairs(pairs_view(pairs@.subrange(0, i + 1))) =~= done.push(p));
            lemma_encode_pairs_push(done, p);
            if i > 0 {
                assert(out@ =~= before + seq![0x26u8] + encode_pair(p));
            } else {
                assert(out@ =~= encode_pair(p));
            }
        }
        i += 1;
    }
    proof {
        assert(pairs@.subrange(0, pairs@.len() as int) =~= pairs@);
        lemma_encoded_pairs_ascii(utf8_pairs(pairs_view(pairs@)));
    }
    ascii_string(out)
}

fn parse_segment(s: &[u8], start: usize, end: usize) -> (r: (Vec<u8>, Vec<u8>))
    requires
        start <= end <= s@.len(),
    ensures
        (r.0@, r.1@) == parse_pair(s@.subrange(start as int, end as int)),
{
    let ghost seg = s@.subrange(start as int, end as int);
    let mut k = start;
    while k < end && s[k] != 0x3d
        invariant
            start <= k <= end <= s@.len(),
            forall|j: int| start <= j < k ==> s@[j] != 0x3d,
        decreases end - k,
    {
        k += 1;
    }
    proof {
        assert forall|j: int| 0 <= j < k - start implies seg[j] != 0x3d by {
            assert(seg[j] == s@[start + j]);
        }
        lemma_find_byte(seg, 0x3d, k - start);
    }
    if k < end {
        let key = decode_range(s, start, k);
        let value = decode_range(s, k + 1, end);
        assert(seg.subrange(0, k - start) =~= s@.subrange(start as int, k as int));
        assert(seg.subrange(k - start + 1, seg.len() as int) =~= s@.subrange(k + 1, end as int));
        (key, value)
    } else {
        (decode_range(s, start, end), Vec::new())
    }
}

/// Parses a query string into its decoded key and value bytes, one pair for
/// each `&`-separated segment, in order; the empty query has no pairs.
pub fn parse_query_bytes(query: &str) -> (r: Vec<(Vec<u8>, Vec<u8>)>)
    ensures
        byte_pairs_view(r@) == parse_query(encode_utf8(query@)),
{
    let s = query.as_bytes();
    let mut out: Vec<(Vec<u8>, Vec<u8>)> = Vec::new();
    if s.len() == 0 {
        assert(byte_pairs_view(out@) =~= parse_query(s@));
        return out;
    }
    let mut seg_start: usize = 0;
    let mut i: usize = 0;
    assert(s@.subrange(0, s@.len() as int) =~= s@);
    while i < s.len()
        invariant
            seg_start <= i <= s@.len(),
            s@.len() > 0,
            forall|j: int| seg_start <= j < i ==> s@[j] != 0x26,
            byte_pairs_view(out@) + parse_segments(s@.subrange(seg_start as int, s@.len() as int))
                == parse_segments(s@),
        decreases s@.len() - i,
    {
        if s[i] == 0x26 {
            let ghost t = s@.subrange(seg_start as int, s@.len() as int);
            let ghost before = byte_pairs_view(out@);
            proof {
                assert forall|j: int| 0 <= j < i - seg_start implies t[j] != 0x26 by {
                    assert(t[j] == s@[seg_start + j]);
                }
                lemma_find_byte(t, 0x26, i - seg_start);
                assert(t.subrange(0, i - seg_start) =~= s@.subrange(seg_start as int, i as int));
                assert(t.subrange(i - seg_start + 1, t.len() as int) =~= s@.subrange(
                    i + 1,
                    s@.len() as int,
                ));
            }
            let p = parse_segment(s, seg_start, i);
            out.push(p);
            seg_start = i + 1;
            assert(byte_pairs_view(out@) + parse_segments(
                s@.subrange(seg_start as int, s@.len() as int),
            ) =~= before + parse_segments(t));
        }
        i += 1;
    }
    let ghost t = s@.subrange(seg_start as int, s@.len() as int);
    let ghost before = byte_pairs_view(out@);
    proof {
        assert forall|j: int| 0 <= j < t.len() implies t[j] != 0x26 by {
            assert(t[j] == s@[seg_start + j]);
        }
        lemma_find_byte(t, 0x26, t.len() as int);
    }
    let p = parse_segment(s, seg_start, s.len());
    out.push(p);
    assert(byte_pairs_view(out@) =~= before + parse_segments(t));
    out
}

} // verus!
