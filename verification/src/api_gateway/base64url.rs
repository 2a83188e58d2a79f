//! Base64 with the URL-safe alphabet and no padding (RFC 4648 §5).

use vstd::prelude::*;
use crate::netproto::extend_bytes;
use crate::text::string_from_chars;
use vstd::string::StringSliceAdditionalSpecFns;

verus! {

broadcast use vstd::string::group_string_axioms;

/// The URL-safe alphabet: `A-Z`, `a-z`, `0-9`, `-`, `_`.
pub open spec fn alphabet(i: int) -> u8 {
    if i < 26 {
        (65 + i) as u8
    } else if i < 52 {
        (97 + i - 26) as u8
    } else if i < 62 {
        (48 + i - 52) as u8
    } else if i == 62 {
        45u8
    } else {
        95u8
    }
}

/// The six-bit groups of a chunk `b0 b1 b2` (absent bytes read as zero).
pub open spec fn sextet0(b0: u8) -> int {
    b0 as int / 4
}

pub open spec fn sextet1(b0: u8, b1: u8) -> int {
    (b0 as int % 4) * 16 + b1 as int / 16
}

pub open spec fn sextet2(b1: u8, b2: u8) -> int {
    (b1 as int % 16) * 4 + b2 as int / 64
}

pub open spec fn sextet3(b2: u8) -> int {
    b2 as int % 64
}

/// Encoding of a byte sequence, as ASCII bytes: each chunk of three bytes
/// gives four symbols, a final chunk of two gives three, of one gives two.
pub open spec fn encode_spec(s: Seq<u8>) -> Seq<u8>
    decreases s.len(),
{
    if s.len() == 0 {
        seq![]
    } else if s.len() == 1 {
        seq![alphabet(sextet0(s[0])), alphabet(sextet1(s[0], 0))]
    } else if s.len() == 2 {
        seq![alphabet(sextet0(s[0])), alphabet(sextet1(s[0], s[1])), alphabet(sextet2(s[1], 0))]
    } else {
        seq![
            alphabet(sextet0(s[0])),
            alphabet(sextet1(s[0], s[1])),
            alphabet(sextet2(s[1], s[2])),
            alphabet(sextet3(s[2])),
        ] + encode_spec(s.skip(3))
    }
}

/// The characters of ASCII bytes.
pub open spec fn ascii_text(b: Seq<u8>) -> Seq<char> {
    b.map_values(|x: u8| x as char)
}

/// The value a symbol stands for when decoding: both the URL-safe and the
/// standard symbols for 62 and 63 are read; anything else reads as zero.
pub open spec fn symbol_value(c: u8) -> int {
    if 65 <= c <= 90 {
        c - 65
    } else if 97 <= c <= 122 {
        c - 97 + 26
    } else if 48 <= c <= 57 {
        c - 48 + 52
    } else if c == 43 || c == 45 {
        62
    } else if c == 47 || c == 95 {
        63
    } else {
        0
    }
}

/// The input completed with `=` to a multiple of four symbols where two or
/// three symbols are left over.
pub open spec fn padded(b: Seq<u8>) -> Seq<u8> {
    if b.len() % 4 == 2 {
        b + seq![61u8, 61u8]
    } else if b.len() % 4 == 3 {
        b + seq![61u8]
    } else {
        b
    }
}

/// The bytes one group of four symbols gives: always the first, the second
/// unless the third symbol is `=`, the third unless the fourth is `=`.
pub open spec fn quad_bytes(q0: u8, q1: u8, q2: u8, q3: u8) -> Seq<u8> {
    let v0 = symbol_value(q0);
    let v1 = symbol_value(q1);
    let v2 = symbol_value(q2);
    let v3 = symbol_value(q3);
    let d0 = (v0 * 4 + v1 / 16) as u8;
    let d1 = ((v1 % 16) * 16 + v2 / 4) as u8;
    let d2 = ((v2 % 4) * 64 + v3) as u8;
    seq![d0] + (if q2 != 61 {
        seq![d1]
    } else {
        seq![]
    }) + (if q3 != 61 {
        seq![d2]
    } else {
        seq![]
    })
}

/// Decoding of whole groups of four symbols; a shorter remainder is dropped.
pub open spec fn decode_quads(p: Seq<u8>) -> Seq<u8>
    decreases p.len(),
{
    if p.len() < 4 {
        seq![]
    } else {
        quad_bytes(p[0], p[1], p[2], p[3]) + decode_quads(p.skip(4))
    }
}

/// Decoding of the bytes of a text.
pub open spec fn decode_spec(b: Seq<u8>) -> Seq<u8> {
    decode_quads(padded(b))
}

fn alphabet_byte(i: u8) -> (r: u8)
    requires
        i < 64,
    ensures
        r == alphabet(i as int),
{
    if i < 26 {
        65 + i
    } else if i < 52 {
        97 + i - 26
    } else if i < 62 {
        48 + i - 52
    } else if i == 62 {
        45
    } else {
        95
    }
}

/// Encodes bytes as ASCII bytes.
pub fn encode_bytes(input: &[u8]) -> (r: Vec<u8>)
    ensures
        r@ == encode_spec(input@),
{
    let mut out: Vec<u8> = Vec::new();
    let mut i: usize = 0;
    let n = input.len();
    assert(input@.subrange(0, n as int) =~= input@);
    assert(out@ + encode_spec(input@) =~= encode_spec(input@));
    while i < n
        invariant
            i <= n == input@.len(),
            out@ + encode_spec(input@.subrange(i as int, n as int)) == encode_spec(input@),
        decreases n - i,
    {
        let rest = n - i;
        let b0 = input[i];
        let b1 = if rest > 1 {
            input[i + 1]
        } else {
            0
        };
        let b2 = if rest > 2 {
            input[i + 2]
        } else {
            0
        };
        let ghost tail = input@.subrange(i as int, n as int);
        out.push(alphabet_byte(b0 / 4));
        out.push(alphabet_byte((b0 % 4) * 16 + b1 / 16));
        if rest > 1 {
            out.push(alphabet_byte((b1 % 16) * 4 + b2 / 64));
        }
        if rest > 2 {
            out.push(alphabet_byte(b2 % 64));
            assert(tail.skip(3) =~= input@.subrange(i + 3, n as int));
            i = i + 3;
        } else {
            i = n;
        }
        proof {
            assert(input@.subrange(i as int, n as int).len() == 0 ==> encode_spec(
                input@.subrange(i as int, n as int),
            ) =~= seq![]);
        }
    }
    assert(input@.subrange(n as int, n as int) =~= seq![]);
    assert(out@ + seq![] =~= out@);
    out
}

/// The text of ASCII bytes.
pub fn ascii_string(bytes: &Vec<u8>) -> (r: String)
    ensures
        r@ == ascii_text(bytes@),
{
    let mut chars: Vec<char> = Vec::new();
    let mut i: usize = 0;
    while i < bytes.len()
        invariant
            i <= bytes@.len(),
            chars@ == ascii_text(bytes@.subrange(0, i as int)),
        decreases bytes@.len() - i,
    {
        chars.push(bytes[i] as char);
        i = i + 1;
        assert(chars@ =~= ascii_text(bytes@.subrange(0, i as int)));
    }
    assert(bytes@.subrange(0, bytes@.len() as int) =~= bytes@);
    string_from_chars(chars)
}

/// Encodes bytes as base64url text without padding.
pub fn base64url_encode(input: &[u8]) -> (r: String)
    ensures
        r@ == ascii_text(encode_spec(input@)),
{
    ascii_string(&encode_bytes(input))
}

fn symbol_value_of(c: u8) -> (r: u8)
    ensures
        r == symbol_value(c),
        r < 64,
{
    if 65 <= c && c <= 90 {
        c - 65
    } else if 97 <= c && c <= 122 {
        c - 97 + 26
    } else if 48 <= c && c <= 57 {
        c - 48 + 52
    } else if c == 43 || c == 45 {
        62
    } else if c == 47 || c == 95 {
        63
    } else {
        0
    }
}

/// Decodes base64url (or standard base64) symbols given as bytes.
pub fn decode_bytes(input: &[u8]) -> (r: Vec<u8>)
    ensures
        r@ == decode_spec(input@),
{
    let mut p: Vec<u8> = Vec::new();
    extend_bytes(&mut p, input);
    if input.len() % 4 == 2 {
        p.push(61);
        p.push(61);
    } else if input.len() % 4 == 3 {
        p.push(61);
    }
    assert(p@ =~= padded(input@));
    let mut out: Vec<u8> = Vec::new();
    let mut i: usize = 0;
    let n = p.len();
    assert(p@.subrange(0, n as int) =~= p@);
    assert(out@ + decode_quads(p@) =~= decode_quads(p@));
    while n - i >= 4
        invariant
            i <= n == p@.len(),
            out@ + decode_quads(p@.subrange(i as int, n as int)) == decode_quads(p@),
        decreases n - i,
    {
        let ghost tail = p@.subrange(i as int, n as int);
        let v0 = symbol_value_of(p[i]);
        let v1 = symbol_value_of(p[i + 1]);
        let v2 = symbol_value_of(p[i + 2]);
        let v3 = symbol_value_of(p[i + 3]);
        out.push(v0 * 4 + v1 / 16);
        if p[i + 2] != 61 {
            out.push((v1 % 16) * 16 + v2 / 4);
        }
        if p[i + 3] != 61 {
            out.push((v2 % 4) * 64 + v3);
        }
        assert(tail.skip(4) =~= p@.subrange(i + 4, n as int));
        assert(quad_bytes(tail[0], tail[1], tail[2], tail[3]) =~= quad_bytes(
            p@[i as int],
            p@[i + 1],
            p@[i + 2],
            p@[i + 3],
        ));
        i = i + 4;
    }
    assert(decode_quads(p@.subrange(i as int, n as int)) =~= seq![]);
    assert(out@ + seq![] =~= out@);
    out
}

/// Decodes base64url text; padding may be present or left out.
pub fn base64url_decode(input: &str) -> (r: Vec<u8>)
    ensures
        r@ == decode_spec(input.spec_bytes()),
{
    decode_bytes(input.as_bytes())
}


/// Bytes that encoding can produce: the URL-safe alphabet `A-Z`, `a-z`,
/// `0-9`, `-`, `_`.
pub open spec fn is_symbol(c: u8) -> bool {
    (65 <= c <= 90) || (97 <= c <= 122) || (48 <= c <= 57) || c == 45 || c == 95
}

proof fn lemma_alphabet(i: int)
    requires
        0 <= i < 64,
    ensures
        symbol_value(alphabet(i)) == i,
        is_symbol(alphabet(i)),
{
}

/// Every byte of an encoding is a symbol of the URL-safe alphabet, and its
/// length is four per full chunk plus two or three for a final partial
/// chunk: `ceil(4n / 3)` for `n` bytes, with no padding.
pub proof fn lemma_encode_shape(s: Seq<u8>)
    ensures
        forall|k: int| 0 <= k < encode_spec(s).len() ==> is_symbol(#[trigger] encode_spec(s)[k]),
        encode_spec(s).len() == (4 * s.len() + 2) / 3,
        encode_spec(s).len() % 4 == (if s.len() % 3 == 1 {
            2int
        } else if s.len() % 3 == 2 {
            3int
        } else {
            0int
        }),
    decreases s.len(),
{
    if s.len() == 0 {
    } else if s.len() == 1 {
        lemma_alphabet(sextet0(s[0]));
        lemma_alphabet(sextet1(s[0], 0));
    } else if s.len() == 2 {
        lemma_alphabet(sextet0(s[0]));
        lemma_alphabet(sextet1(s[0], s[1]));
        lemma_alphabet(sextet2(s[1], 0));
    } else {
        lemma_alphabet(sextet0(s[0]));
        lemma_alphabet(sextet1(s[0], s[1]));
        lemma_alphabet(sextet2(s[1], s[2]));
        lemma_alphabet(sextet3(s[2]));
        lemma_encode_shape(s.skip(3));
        let q = seq![
            alphabet(sextet0(s[0])),
            alphabet(sextet1(s[0], s[1])),
            alphabet(sextet2(s[1], s[2])),
            alphabet(sextet3(s[2])),
        ];
        let e = encode_spec(s.skip(3));
        assert(encode_spec(s) == q + e);
        assert forall|k: int| 0 <= k < (q + e).len() implies is_symbol(#[trigger] (q + e)[k]) by {
            if k >= 4 {
                assert((q + e)[k] == e[k - 4]);
            }
        }
    }
}

/// Decoding an encoding gives back the bytes.
pub proof fn lemma_decode_encode(s: Seq<u8>)
    ensures
        decode_spec(encode_spec(s)) == s,
    decreases s.len(),
{
    if s.len() == 0 {
        assert(decode_spec(encode_spec(s)) =~= s);
    } else if s.len() == 1 {
        let b0 = s[0];
        lemma_alphabet(sextet0(b0));
        lemma_alphabet(sextet1(b0, 0));
        let p = padded(encode_spec(s));
        assert(p.skip(4) =~= seq![]);
        assert(decode_quads(p.skip(4)) =~= seq![]);
        assert(decode_spec(encode_spec(s)) =~= s);
    } else if s.len() == 2 {
        lemma_alphabet(sextet0(s[0]));
        lemma_alphabet(sextet1(s[0], s[1]));
        lemma_alphabet(sextet2(s[1], 0));
        let p = padded(encode_spec(s));
        assert(p.skip(4) =~= seq![]);
        assert(decode_quads(p.skip(4)) =~= seq![]);
        assert(decode_spec(encode_spec(s)) =~= s);
    } else {
        lemma_alphabet(sextet0(s[0]));
        lemma_alphabet(sextet1(s[0], s[1]));
        lemma_alphabet(sextet2(s[1], s[2]));
        lemma_alphabet(sextet3(s[2]));
        let q = seq![
            alphabet(sextet0(s[0])),
            alphabet(sextet1(s[0], s[1])),
            alphabet(sextet2(s[1], s[2])),
            alphabet(sextet3(s[2])),
        ];
        let e = encode_spec(s.skip(3));
        assert(encode_spec(s) == q + e);
        assert(padded(q + e) =~= q + padded(e));
        let p = q + padded(e);
        assert(p.skip(4) =~= padded(e));
        lemma_decode_encode(s.skip(3));
        assert(quad_bytes(p[0], p[1], p[2], p[3]) =~= s.take(3));
        assert(decode_spec(encode_spec(s)) =~= s.take(3) + s.skip(3));
        assert(s.take(3) + s.skip(3) =~= s);
    }
}

/// Base64url decoding of what base64url encoding produced gives back the
/// encoded bytes.
pub proof fn law_base64url_roundtrip(data: Seq<u8>)
    ensures
        decode_spec(vstd::utf8::encode_utf8(ascii_text(encode_spec(data)))) == data,
{
    lemma_encode_shape(data);
    assert forall|k: int| 0 <= k < encode_spec(data).len() implies #[trigger] encode_spec(data)[k]
        < 128 by {
        assert(is_symbol(encode_spec(data)[k]));
    }
    lemma_ascii_text_bytes(encode_spec(data));
    lemma_decode_encode(data);
}

/// The UTF-8 encoding of the text of ASCII bytes is those bytes.
pub proof fn lemma_ascii_text_bytes(e: Seq<u8>)
    requires
        forall|k: int| 0 <= k < e.len() ==> #[trigger] e[k] < 128,
    ensures
        vstd::utf8::encode_utf8(ascii_text(e)) == e,
{
    let t = ascii_text(e);
    assert forall|k: int| 0 <= k < t.len() implies '\0' <= #[trigger] t[k] <= '\u{7f}' by {
        assert(e[k] < 128);
    }
    assert(vstd::utf8::is_ascii_chars(t));
    vstd::utf8::is_ascii_chars_encode_utf8(t);
    assert forall|k: int| 0 <= k < e.len() implies vstd::utf8::encode_utf8(t)[k] == e[k] by {
        assert(t[k] as u8 == vstd::utf8::encode_utf8(t)[k]);
    }
    assert(vstd::utf8::encode_utf8(t) =~= e);
}

} // verus!
