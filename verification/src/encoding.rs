//! Standard base64 (RFC 4648 alphabet, `=` padding).

use base64::Engine;
use vstd::prelude::*;

verus! {

/// The symbol of the standard alphabet for a 6-bit value.
pub open spec fn b64_symbol(v: int) -> char {
    if v < 26 {
        (65 + v) as char
    } else if v < 52 {
        (97 + (v - 26)) as char
    } else if v < 62 {
        (48 + (v - 52)) as char
    } else if v == 62 {
        '+'
    } else {
        '/'
    }
}

/// The four symbols that encode the group starting at `d[0]` (up to three bytes).
pub open spec fn b64_quad(d: Seq<u8>) -> Seq<char>
    recommends
        d.len() > 0,
{
    let a = d[0] as int;
    let b = if d.len() > 1 { d[1] as int } else { 0 };
    let c = if d.len() > 2 { d[2] as int } else { 0 };
    seq![
        b64_symbol(a / 4),
        b64_symbol((a % 4) * 16 + b / 16),
        if d.len() > 1 { b64_symbol((b % 16) * 4 + c / 64) } else { '=' },
        if d.len() > 2 { b64_symbol(c % 64) } else { '=' },
    ]
}

/// Padded standard base64 encoding of `d`.
pub open spec fn b64_encode(d: Seq<u8>) -> Seq<char>
    decreases d.len(),
{
    if d.len() == 0 {
        Seq::empty()
    } else if d.len() <= 3 {
        b64_quad(d)
    } else {
        b64_quad(d) + b64_encode(d.skip(3))
    }
}

/// The canonical decoding of `s`: the bytes whose encoding is `s`, if any.
pub open spec fn b64_decode(s: Seq<char>) -> Option<Seq<u8>> {
    if exists|v: Seq<u8>| b64_encode(v) == s {
        Some(choose|v: Seq<u8>| b64_encode(v) == s)
    } else {
        None
    }
}

fn symbol(v: u32) -> (c: char)
    requires
        v < 64,
    ensures
        c == b64_symbol(v as int),
{
    if v < 26 {
        ((65 + v) as u8) as char
    } else if v < 52 {
        ((97 + (v - 26)) as u8) as char
    } else if v < 62 {
        ((48 + (v - 52)) as u8) as char
    } else if v == 62 {
        '+'
    } else {
        '/'
    }
}

/// `base64::engine::general_purpose::STANDARD.decode`. The STANDARD engine
/// requires canonical padding and rejects trailing bits, so it succeeds exactly
/// on the strings that are the padded encoding of some bytes, and gives those
/// bytes back. The error's detail (which byte, which kind) is dropped.
#[verifier::external_body]
pub(crate) fn standard_decode(s: &str) -> (r: Option<Vec<u8>>)
    ensures
        r matches Some(v) ==> b64_encode(v@) == s@,
        r is None ==> forall|v: Seq<u8>| #[trigger] b64_encode(v) != s@,
{
    base64::engine::general_purpose::STANDARD.decode(s).ok()
}

/// `base64::engine::general_purpose::STANDARD.encode`: the padded standard
/// base64 encoding of `data`.
#[verifier::external_body]
pub(crate) fn standard_encode(data: &[u8]) -> (r: String)
    ensures
        r@ == b64_encode(data@),
{
    base64::engine::general_purpose::STANDARD.encode(data)
}

/// Decodes with the STANDARD engine; `None` when `s` is no canonical encoding.
pub fn decode_standard(s: &str) -> (r: Option<Vec<u8>>)
    ensures
        match r {
            Some(v) => b64_decode(s@) == Some(v@),
            None => b64_decode(s@) is None,
        },
{
    let r = standard_decode(s);
    proof {
        if r is Some {
            lemma_b64_round_trip(r->0@);
        }
    }
    r
}

/// Encodes `bytes` in padded standard base64.
pub(crate) fn base64_encode_impl(bytes: &[u8]) -> (out: String)
    ensures
        out@ == b64_encode(bytes@),
{
    let mut output = String::new();
    let len = bytes.len();
    let mut i: usize = 0;
    proof {
        assert(bytes@.skip(0) =~= bytes@);
    }
    while i < len
        invariant
            len == bytes@.len(),
            i <= len,
            b64_encode(bytes@) == output@ + b64_encode(bytes@.skip(i as int)),
        decreases len - i,
    {
        let ghost rest = bytes@.skip(i as int);
        let first = bytes[i] as u32;
        let second: u32 = if len - i > 1 { bytes[i + 1] as u32 } else { 0 };
        let third: u32 = if len - i > 2 { bytes[i + 2] as u32 } else { 0 };
        assert(((first >> 2) & 0x3f) == first / 4 && first / 4 < 64) by (bit_vector)
            requires first < 256;
        assert((((first << 4) | (second >> 4)) & 0x3f) == (first % 4) * 16 + second / 16
            && (first % 4) * 16 + second / 16 < 64) by (bit_vector)
            requires first < 256, second < 256;
        assert((((second << 2) | (third >> 6)) & 0x3f) == (second % 16) * 4 + third / 64
            && (second % 16) * 4 + third / 64 < 64) by (bit_vector)
            requires second < 256, third < 256;
        assert((third & 0x3f) == third % 64) by (bit_vector)
            requires third < 256;
        let c1 = symbol((first >> 2) & 0x3f);
        let c2 = symbol(((first << 4) | (second >> 4)) & 0x3f);
        let c3 = if len - i > 1 { symbol(((second << 2) | (third >> 6)) & 0x3f) } else { '=' };
        let c4 = if len - i > 2 { symbol(third & 0x3f) } else { '=' };
        let ghost before = output@;
        crate::text::push_char(&mut output, c1);
        crate::text::push_char(&mut output, c2);
        crate::text::push_char(&mut output, c3);
        crate::text::push_char(&mut output, c4);
        proof {
            assert(output@ =~= before + b64_quad(rest));
            if len - i <= 3 {
                assert(bytes@.skip(len as int) =~= Seq::<u8>::empty());
            } else {
                assert(rest.skip(3) =~= bytes@.skip(i + 3));
            }
        }
        if len - i <= 3 {
            i = len;
        } else {
            i = i + 3;
        }
    }
    proof {
        assert(bytes@.skip(len as int) =~= Seq::<u8>::empty());
        assert(output@ + Seq::<char>::empty() =~= output@);
    }
    output
}


proof fn lemma_symbol_code(v: int)
    requires
        0 <= v < 64,
    ensures
        (b64_symbol(v) as int) == (if v < 26 {
            65 + v
        } else if v < 52 {
            97 + (v - 26)
        } else if v < 62 {
            48 + (v - 52)
        } else if v == 62 {
            43
        } else {
            47
        }),
{
}

proof fn lemma_symbol_injective(x: int, y: int)
    requires
        0 <= x < 64,
        0 <= y < 64,
        b64_symbol(x) == b64_symbol(y),
    ensures
        x == y,
{
    lemma_symbol_code(x);
    lemma_symbol_code(y);
}

proof fn lemma_symbol_not_pad(v: int)
    requires
        0 <= v < 64,
    ensures
        b64_symbol(v) != '=',
{
    lemma_symbol_code(v);
}

/// Two non-empty inputs whose first groups encode alike agree on the
/// bytes of that group and on whether the group is short.
proof fn lemma_quad_injective(a: Seq<u8>, b: Seq<u8>)
    requires
        a.len() > 0,
        b.len() > 0,
        b64_quad(a) == b64_quad(b),
    ensures
        (a.len() >= 3) == (b.len() >= 3),
        a.len() < 3 ==> a.len() == b.len(),
        forall|k: int| 0 <= k < 3 && k < a.len() ==> a[k] == b[k],
{
    let qa = b64_quad(a);
    let qb = b64_quad(b);
    let a0 = a[0] as int;
    let a1 = if a.len() > 1 { a[1] as int } else { 0 };
    let a2 = if a.len() > 2 { a[2] as int } else { 0 };
    let b0 = b[0] as int;
    let b1 = if b.len() > 1 { b[1] as int } else { 0 };
    let b2 = if b.len() > 2 { b[2] as int } else { 0 };
    assert(qa[0] == qb[0] && qa[1] == qb[1] && qa[2] == qb[2] && qa[3] == qb[3]);
    lemma_symbol_injective(a0 / 4, b0 / 4);
    lemma_symbol_injective((a0 % 4) * 16 + a1 / 16, (b0 % 4) * 16 + b1 / 16);
    if a.len() > 1 {
        lemma_symbol_not_pad((a1 % 16) * 4 + a2 / 64);
    }
    if b.len() > 1 {
        lemma_symbol_not_pad((b1 % 16) * 4 + b2 / 64);
    }
    if a.len() > 2 {
        lemma_symbol_not_pad(a2 % 64);
    }
    if b.len() > 2 {
        lemma_symbol_not_pad(b2 % 64);
    }
    if a.len() > 1 && b.len() > 1 {
        lemma_symbol_injective((a1 % 16) * 4 + a2 / 64, (b1 % 16) * 4 + b2 / 64);
    }
    if a.len() > 2 && b.len() > 2 {
        lemma_symbol_injective(a2 % 64, b2 % 64);
    }
    assert(a0 == b0);
    if a.len() > 1 {
        assert(a1 == b1);
    }
    if a.len() > 2 {
        assert(a2 == b2);
    }
}

proof fn lemma_encode_len(d: Seq<u8>)
    ensures
        d.len() == 0 <==> b64_encode(d).len() == 0,
        d.len() > 3 ==> b64_encode(d).len() > 4,
        0 < d.len() <= 3 ==> b64_encode(d).len() == 4,
        d.len() > 0 ==> b64_encode(d).subrange(0, 4) == b64_quad(d),
    decreases d.len(),
{
    if d.len() > 3 {
        lemma_encode_len(d.skip(3));
        assert(b64_encode(d).subrange(0, 4) =~= b64_quad(d));
    } else if d.len() > 0 {
        assert(b64_encode(d).subrange(0, 4) =~= b64_quad(d));
    }
}

/// Distinct byte sequences have distinct encodings.
pub proof fn lemma_b64_encode_injective(a: Seq<u8>, b: Seq<u8>)
    requires
        b64_encode(a) == b64_encode(b),
    ensures
        a == b,
    decreases a.len(),
{
    lemma_encode_len(a);
    lemma_encode_len(b);
    if a.len() == 0 || b.len() == 0 {
        assert(a.len() == 0 && b.len() == 0);
        assert(a =~= b);
    } else {
        lemma_quad_injective(a, b);
        if a.len() <= 3 {
            assert(a =~= b);
        } else {
            assert(b.len() > 3);
            assert(b64_encode(a).skip(4) =~= b64_encode(a.skip(3)));
            assert(b64_encode(b).skip(4) =~= b64_encode(b.skip(3)));
            lemma_b64_encode_injective(a.skip(3), b.skip(3));
            assert forall|k: int| 0 <= k < a.len() implies a[k] == b[k] by {
                if k >= 3 {
                    assert(a.skip(3)[k - 3] == b.skip(3)[k - 3]);
                }
            }
            assert(a =~= b);
        }
    }
}

/// Decoding gives back exactly what was encoded.
pub proof fn lemma_b64_round_trip(v: Seq<u8>)
    ensures
        b64_decode(b64_encode(v)) == Some(v),
{
    let s = b64_encode(v);
    assert(exists|w: Seq<u8>| b64_encode(w) == s);
    let w = choose|w: Seq<u8>| b64_encode(w) == s;
    lemma_b64_encode_injective(w, v);
}

} // verus!
