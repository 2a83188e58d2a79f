//! MAC address text: filtering hex digits, normalizing to colon form,
//! parsing to bytes.

use vstd::prelude::*;
use crate::text::{
    ascii_lower, ascii_upper, chars_of, hex_digit_value, hex_val, is_hex, is_hex_char,
    lower_ascii_char, upper_ascii_char,
};

verus! {

/// The hexadecimal digits of `s`, in order (everything else dropped).
pub open spec fn hex_digits(s: Seq<char>) -> Seq<char>
    decreases s.len(),
{
    if s.len() == 0 {
        Seq::empty()
    } else if is_hex_char(s.last()) {
        hex_digits(s.drop_last()).push(s.last())
    } else {
        hex_digits(s.drop_last())
    }
}

pub open spec fn lower_all(s: Seq<char>) -> Seq<char> {
    s.map_values(|c: char| ascii_lower(c))
}

pub open spec fn upper_all(s: Seq<char>) -> Seq<char> {
    s.map_values(|c: char| ascii_upper(c))
}

/// Twelve characters grouped in pairs separated by colons.
pub open spec fn colon_mac(h: Seq<char>) -> Seq<char> {
    seq![
        h[0], h[1], ':', h[2], h[3], ':', h[4], h[5], ':', h[6], h[7], ':', h[8], h[9], ':',
        h[10], h[11],
    ]
}

pub proof fn lemma_hex_digits_all_hex(s: Seq<char>)
    ensures
        forall|i: int| 0 <= i < hex_digits(s).len() ==> is_hex_char(#[trigger] hex_digits(s)[i]),
        hex_digits(s).len() <= s.len(),
    decreases s.len(),
{
    if s.len() > 0 {
        lemma_hex_digits_all_hex(s.drop_last());
    }
}

/// The hexadecimal digits of `s`.
pub fn hex_filter(s: &Vec<char>) -> (r: Vec<char>)
    ensures
        r@ == hex_digits(s@),
{
    let mut out: Vec<char> = Vec::new();
    let mut i: usize = 0;
    while i < s.len()
        invariant
            i <= s.len(),
            out@ == hex_digits(s@.take(i as int)),
        decreases s.len() - i,
    {
        assert(s@.take(i + 1).drop_last() =~= s@.take(i as int));
        assert(s@.take(i + 1).last() == s@[i as int]);
        if is_hex(s[i]) {
            out.push(s[i]);
        }
        i = i + 1;
    }
    assert(s@.take(s.len() as int) =~= s@);
    out
}

/// ASCII lower-casing of every character.
pub fn lower_chars(s: &Vec<char>) -> (r: Vec<char>)
    ensures
        r@ == lower_all(s@),
{
    let mut out: Vec<char> = Vec::new();
    let mut i: usize = 0;
    while i < s.len()
        invariant
            i <= s.len(),
            out@ == lower_all(s@.take(i as int)),
        decreases s.len() - i,
    {
        out.push(lower_ascii_char(s[i]));
        i = i + 1;
        assert(out@ =~= lower_all(s@.take(i as int)));
    }
    assert(s@.take(s.len() as int) =~= s@);
    out
}

/// ASCII upper-casing of every character.
pub fn upper_chars(s: &Vec<char>) -> (r: Vec<char>)
    ensures
        r@ == upper_all(s@),
{
    let mut out: Vec<char> = Vec::new();
    let mut i: usize = 0;
    while i < s.len()
        invariant
            i <= s.len(),
            out@ == upper_all(s@.take(i as int)),
        decreases s.len() - i,
    {
        out.push(upper_ascii_char(s[i]));
        i = i + 1;
        assert(out@ =~= upper_all(s@.take(i as int)));
    }
    assert(s@.take(s.len() as int) =~= s@);
    out
}

/// Twelve characters as `xx:xx:xx:xx:xx:xx`.
pub fn colon_join(h: &Vec<char>) -> (r: Vec<char>)
    requires
        h.len() == 12,
    ensures
        r@ == colon_mac(h@),
{
    let mut out: Vec<char> = Vec::new();
    out.push(h[0]);
    out.push(h[1]);
    out.push(':');
    out.push(h[2]);
    out.push(h[3]);
    out.push(':');
    out.push(h[4]);
    out.push(h[5]);
    out.push(':');
    out.push(h[6]);
    out.push(h[7]);
    out.push(':');
    out.push(h[8]);
    out.push(h[9]);
    out.push(':');
    out.push(h[10]);
    out.push(h[11]);
    assert(out@ =~= colon_mac(h@));
    out
}

/// Six bytes from twelve hex digits, two digits per byte, high nibble first.
pub open spec fn mac_bytes_of(h: Seq<char>) -> Seq<u8> {
    Seq::new(6, |i: int| (hex_val(h[2 * i]) * 16 + hex_val(h[2 * i + 1])) as u8)
}

/// What `parse_mac` gives: the hex digits of the text must number twelve.
pub open spec fn parse_mac_spec(s: Seq<char>) -> Option<Seq<u8>> {
    if hex_digits(s).len() == 12 {
        Some(mac_bytes_of(hex_digits(s)))
    } else {
        None
    }
}

/// Reads a MAC address written with any separators (or none).
pub fn parse_mac(mac: &str) -> (r: Option<[u8; 6]>)
    ensures
        match parse_mac_spec(mac@) {
            Some(b) => r matches Some(a) && a@ == b,
            None => r is None,
        },
{
    let chars = chars_of(mac);
    let clean = hex_filter(&chars);
    if clean.len() != 12 {
        return None;
    }
    proof {
        lemma_hex_digits_all_hex(mac@);
    }
    let mut bytes: [u8; 6] = [0u8; 6];
    let mut i: usize = 0;
    while i < 6
        invariant
            i <= 6,
            clean@ == hex_digits(mac@),
            clean.len() == 12,
            forall|k: int| 0 <= k < 12 ==> is_hex_char(#[trigger] clean@[k]),
            forall|k: int| 0 <= k < i ==> bytes@[k] == mac_bytes_of(clean@)[k],
        decreases 6 - i,
    {
        let hi = hex_digit_value(clean[2 * i]);
        let lo = hex_digit_value(clean[2 * i + 1]);
        bytes[i] = hi * 16 + lo;
        i = i + 1;
    }
    assert(bytes@ =~= mac_bytes_of(clean@));
    Some(bytes)
}

/// What `normalize_mac` gives: lower-case colon form when the text holds
/// exactly twelve hex digits.
pub open spec fn normalized_mac(s: Seq<char>) -> Option<Seq<char>> {
    if hex_digits(s).len() == 12 {
        Some(colon_mac(lower_all(hex_digits(s))))
    } else {
        None
    }
}

/// The hex digits of a MAC text, lower-cased and colon-separated, when there
/// are exactly twelve.
pub fn normalize_mac_chars(s: &Vec<char>) -> (r: Option<Vec<char>>)
    ensures
        match normalized_mac(s@) {
            Some(m) => r matches Some(v) && v@ == m,
            None => r is None,
        },
{
    let hex = hex_filter(s);
    if hex.len() != 12 {
        return None;
    }
    let low = lower_chars(&hex);
    Some(colon_join(&low))
}

proof fn lemma_hex_digits_append(a: Seq<char>, b: Seq<char>)
    ensures
        hex_digits(a + b) == hex_digits(a) + hex_digits(b),
    decreases b.len(),
{
    if b.len() == 0 {
        assert(a + b =~= a);
        assert(hex_digits(a) + hex_digits(b) =~= hex_digits(a));
    } else {
        assert((a + b).drop_last() =~= a + b.drop_last());
        lemma_hex_digits_append(a, b.drop_last());
        if is_hex_char(b.last()) {
            assert(hex_digits(a) + hex_digits(b) =~= (hex_digits(a) + hex_digits(b.drop_last())).push(b.last()));
        }
    }
}

proof fn lemma_lower_hex(c: char)
    requires
        is_hex_char(c),
    ensures
        is_hex_char(ascii_lower(c)),
        ascii_lower(ascii_lower(c)) == ascii_lower(c),
{
}

proof fn lemma_hex_pair(x: char, y: char)
    requires
        is_hex_char(x),
        is_hex_char(y),
    ensures
        hex_digits(seq![x, y]) == seq![x, y],
{
    let e = Seq::<char>::empty();
    assert(hex_digits(e) == e);
    assert(seq![x, y].drop_last() =~= seq![x]);
    assert(seq![x].drop_last() =~= e);
    assert(seq![x].last() == x);
    assert(seq![x, y].last() == y);
    assert(hex_digits(seq![x]) == hex_digits(e).push(x));
    assert(hex_digits(seq![x]) =~= seq![x]);
    assert(hex_digits(seq![x, y]) == hex_digits(seq![x]).push(y));
    assert(hex_digits(seq![x, y]) =~= seq![x, y]);
}

proof fn lemma_colon_digits()
    ensures
        hex_digits(seq![':']) == Seq::<char>::empty(),
{
    let e = Seq::<char>::empty();
    assert(hex_digits(e) == e);
    assert(seq![':'].drop_last() =~= e);
    assert(seq![':'].last() == ':');
    assert(!is_hex_char(':'));
}

/// Normalizing a normalized MAC gives it back: the colon form of twelve
/// lower-case hex digits (seventeen characters) is already normal.
pub proof fn law_normalize_mac_idempotent(s: Seq<char>)
    requires
        normalized_mac(s) is Some,
    ensures
        normalized_mac(s).unwrap().len() == 17,
        normalized_mac(normalized_mac(s).unwrap()) == normalized_mac(s),
{
    lemma_hex_digits_all_hex(s);
    let d = hex_digits(s);
    let h = lower_all(d);
    assert forall|i: int| 0 <= i < 12 implies is_hex_char(#[trigger] h[i]) && ascii_lower(h[i]) == h[i] by {
        lemma_lower_hex(d[i]);
    }
    let m = colon_mac(h);
    let c = seq![':'];
    let p0 = seq![h[0], h[1]];
    let p1 = seq![h[2], h[3]];
    let p2 = seq![h[4], h[5]];
    let p3 = seq![h[6], h[7]];
    let p4 = seq![h[8], h[9]];
    let p5 = seq![h[10], h[11]];
    assert(m =~= p0 + c + p1 + c + p2 + c + p3 + c + p4 + c + p5);
    lemma_hex_pair(h[0], h[1]);
    lemma_hex_pair(h[2], h[3]);
    lemma_hex_pair(h[4], h[5]);
    lemma_hex_pair(h[6], h[7]);
    lemma_hex_pair(h[8], h[9]);
    lemma_hex_pair(h[10], h[11]);
    lemma_colon_digits();
    lemma_hex_digits_append(p0, c);
    lemma_hex_digits_append(p0 + c, p1);
    lemma_hex_digits_append(p0 + c + p1, c);
    lemma_hex_digits_append(p0 + c + p1 + c, p2);
    lemma_hex_digits_append(p0 + c + p1 + c + p2, c);
    lemma_hex_digits_append(p0 + c + p1 + c + p2 + c, p3);
    lemma_hex_digits_append(p0 + c + p1 + c + p2 + c + p3, c);
    lemma_hex_digits_append(p0 + c + p1 + c + p2 + c + p3 + c, p4);
    lemma_hex_digits_append(p0 + c + p1 + c + p2 + c + p3 + c + p4, c);
    lemma_hex_digits_append(p0 + c + p1 + c + p2 + c + p3 + c + p4 + c, p5);
    assert(hex_digits(m) =~= h);
    assert(lower_all(h) =~= h);
}

} // verus!
