//! IPv4 addresses as four octets in network byte order: their 32-bit
//! value and their dotted-decimal text.

use vstd::prelude::*;
use crate::text::{all_digits, char_pos, chars_of, decimal, digits_value, find_char, is_digit_char, push_all, u64_decimal};

verus! {

/// The 32-bit value of an address (first octet most significant).
pub open spec fn ipv4_value(o: Seq<u8>) -> int {
    (o[0] as int) * 16777216 + (o[1] as int) * 65536 + (o[2] as int) * 256 + (o[3] as int)
}

/// The octets of a 32-bit address value.
pub open spec fn ipv4_octets(v: u32) -> Seq<u8> {
    seq![
        (v / 16777216) as u8,
        (v / 65536 % 256) as u8,
        (v / 256 % 256) as u8,
        (v % 256) as u8,
    ]
}

/// The value of four octets (what std `u32::from(Ipv4Addr)` gives).
pub fn octets_to_u32(o: [u8; 4]) -> (r: u32)
    ensures
        r == ipv4_value(o@),
{
    (o[0] as u32) * 16777216 + (o[1] as u32) * 65536 + (o[2] as u32) * 256 + (o[3] as u32)
}

/// The octets of a value (what std `Ipv4Addr::from(u32)` gives).
pub fn u32_to_octets(v: u32) -> (r: [u8; 4])
    ensures
        r@ == ipv4_octets(v),
        ipv4_value(r@) == v,
{
    let r: [u8; 4] = [(v / 16777216) as u8, (v / 65536 % 256) as u8, (v / 256 % 256) as u8, (v % 256) as u8];
    assert(r@ =~= ipv4_octets(v));
    r
}

/// Octets and values correspond one to one.
pub proof fn lemma_ipv4_octets_value(o: Seq<u8>)
    requires
        o.len() == 4,
    ensures
        0 <= ipv4_value(o) <= u32::MAX,
        ipv4_octets(ipv4_value(o) as u32) == o,
{
    let a = o[0] as int;
    let b = o[1] as int;
    let c = o[2] as int;
    let d = o[3] as int;
    let x = ipv4_value(o);
    assert(x / 16777216 == a) by (nonlinear_arith)
        requires
            x == a * 16777216 + b * 65536 + c * 256 + d,
            0 <= a < 256,
            0 <= b < 256,
            0 <= c < 256,
            0 <= d < 256,
    ;
    assert(x / 65536 % 256 == b) by (nonlinear_arith)
        requires
            x == a * 16777216 + b * 65536 + c * 256 + d,
            0 <= a < 256,
            0 <= b < 256,
            0 <= c < 256,
            0 <= d < 256,
    ;
    assert(x / 256 % 256 == c) by (nonlinear_arith)
        requires
            x == a * 16777216 + b * 65536 + c * 256 + d,
            0 <= a < 256,
            0 <= b < 256,
            0 <= c < 256,
            0 <= d < 256,
    ;
    assert(x % 256 == d) by (nonlinear_arith)
        requires
            x == a * 16777216 + b * 65536 + c * 256 + d,
            0 <= a < 256,
            0 <= b < 256,
            0 <= c < 256,
            0 <= d < 256,
    ;
    let v = x as u32;
    assert(ipv4_octets(v) =~= o);
}

/// Dotted-decimal text of an address (what `Display` for `Ipv4Addr` writes).
pub open spec fn ipv4_text(o: Seq<u8>) -> Seq<char> {
    decimal(o[0] as nat) + seq!['.'] + decimal(o[1] as nat) + seq!['.'] + decimal(o[2] as nat) + seq!['.']
        + decimal(o[3] as nat)
}

/// Dotted-decimal text of an address.
pub fn ipv4_string(o: [u8; 4]) -> (r: Vec<char>)
    ensures
        r@ == ipv4_text(o@),
{
    let mut out = u64_decimal(o[0] as u64);
    out.push('.');
    push_all(&mut out, &u64_decimal(o[1] as u64));
    out.push('.');
    push_all(&mut out, &u64_decimal(o[2] as u64));
    out.push('.');
    push_all(&mut out, &u64_decimal(o[3] as u64));
    out
}


/// A group of dotted-decimal text: one to three digits, no leading zero
/// unless the group is `0`, at most 255.
pub open spec fn octet_ok(g: Seq<char>) -> bool {
    &&& 1 <= g.len() <= 3
    &&& all_digits(g)
    &&& (g.len() == 1 || g[0] != '0')
    &&& digits_value(g) <= 255
}

/// The `k` groups of `s` from `start`: each ends at the next dot (the last
/// at the end of the text).
pub open spec fn parse_groups(s: Seq<char>, start: int, k: nat) -> Option<Seq<u8>>
    decreases k,
{
    let e = char_pos(s, '.', start);
    let g = s.subrange(start, e);
    if k == 0 || start < 0 || start > s.len() || !octet_ok(g) {
        None
    } else if k == 1 {
        if e == s.len() {
            Some(seq![digits_value(g) as u8])
        } else {
            None
        }
    } else if e >= s.len() {
        None
    } else {
        match parse_groups(s, e + 1, (k - 1) as nat) {
            Some(rest) => Some(seq![digits_value(g) as u8] + rest),
            None => None,
        }
    }
}

/// What std `Ipv4Addr::from_str` accepts: four dot-separated groups.
pub open spec fn parse_ipv4_spec(s: Seq<char>) -> Option<Seq<u8>> {
    parse_groups(s, 0, 4)
}

proof fn lemma_char_pos_bounds(s: Seq<char>, c: char, i: int)
    requires
        0 <= i <= s.len(),
    ensures
        i <= char_pos(s, c, i) <= s.len(),
        forall|k: int| i <= k < char_pos(s, c, i) ==> s[k] != c,
        char_pos(s, c, i) < s.len() ==> s[char_pos(s, c, i)] == c,
    decreases s.len() - i,
{
    if i < s.len() && s[i] != c {
        lemma_char_pos_bounds(s, c, i + 1);
    }
}

/// The value of a group when it is well-formed.
fn octet_value(s: &Vec<char>, from: usize, to: usize) -> (r: Option<u8>)
    requires
        from <= to <= s.len(),
    ensures
        octet_ok(s@.subrange(from as int, to as int)) ==> r == Some(
            digits_value(s@.subrange(from as int, to as int)) as u8,
        ),
        !octet_ok(s@.subrange(from as int, to as int)) ==> r is None,
{
    let ghost g = s@.subrange(from as int, to as int);
    let n = to - from;
    if n < 1 || n > 3 {
        return None;
    }
    if n > 1 && s[from] == '0' {
        return None;
    }
    let mut v: u32 = 0;
    let mut i = from;
    while i < to
        invariant
            from <= i <= to <= s.len(),
            to - from <= 3,
            g == s@.subrange(from as int, to as int),
            all_digits(s@.subrange(from as int, i as int)),
            v == digits_value(s@.subrange(from as int, i as int)),
            v < 1000,
            i - from <= 3,
        decreases to - i,
    {
        let c = s[i];
        if !('0' <= c && c <= '9') {
            assert(g[i - from] == c);
            return None;
        }
        let d = (c as u32) - ('0' as u32);
        let ghost before = s@.subrange(from as int, i as int);
        assert(s@.subrange(from as int, i + 1).drop_last() =~= before);
        assert(v * 10 + d < 10000) by (nonlinear_arith)
            requires
                v < 1000,
                d < 10,
        ;
        assert(i - from < 3);
        assert(v <= 99) by {
            lemma_digits_bound(before);
        }
        v = v * 10 + d;
        i = i + 1;
    }
    if v > 255 {
        return None;
    }
    Some(v as u8)
}

proof fn lemma_digits_bound(s: Seq<char>)
    requires
        all_digits(s),
        s.len() <= 2,
    ensures
        digits_value(s) <= 99,
        s.len() <= 1 ==> digits_value(s) <= 9,
    decreases s.len(),
{
    if s.len() > 0 {
        assert(all_digits(s.drop_last())) by {
            assert forall|i: int| 0 <= i < s.drop_last().len() implies is_digit_char(#[trigger] s.drop_last()[i]) by {
                assert(s.drop_last()[i] == s[i]);
            }
        }
        lemma_digits_bound(s.drop_last());
        assert(is_digit_char(s[s.len() - 1]));
        let a = digits_value(s.drop_last()) as int;
        let d = (s.last() as int) - ('0' as int);
        assert(s.len() == 1 ==> a == 0);
        assert(a * 10 + d <= 99) by (nonlinear_arith)
            requires
                0 <= a <= 9,
                0 <= d <= 9,
        ;
        assert(s.len() == 1 ==> a * 10 + d <= 9);
    }
}

fn parse_groups_exec(s: &Vec<char>, start: usize, k: usize) -> (r: Option<Vec<u8>>)
    requires
        start <= s.len(),
        1 <= k <= 4,
    ensures
        match parse_groups(s@, start as int, k as nat) {
            Some(o) => r matches Some(v) && v@ == o,
            None => r is None,
        },
    decreases k,
{
    let e = find_char(s, '.', start);
    let v = match octet_value(s, start, e) {
        Some(v) => v,
        None => {
            return None;
        },
    };
    if k == 1 {
        if e == s.len() {
            let mut out: Vec<u8> = Vec::new();
            out.push(v);
            assert(out@ =~= seq![v]);
            Some(out)
        } else {
            None
        }
    } else if e >= s.len() {
        None
    } else {
        match parse_groups_exec(s, e + 1, k - 1) {
            Some(rest) => {
                let mut out: Vec<u8> = Vec::new();
                out.push(v);
                let mut rest = rest;
                let ghost r0 = rest@;
                out.append(&mut rest);
                assert(out@ =~= seq![v] + r0);
                Some(out)
            },
            None => None,
        }
    }
}

/// Reads dotted-decimal IPv4 text as std `Ipv4Addr::from_str` does.
pub fn parse_ipv4(text: &str) -> (r: Option<[u8; 4]>)
    ensures
        match parse_ipv4_spec(text@) {
            Some(o) => r matches Some(a) && a@ == o,
            None => r is None,
        },
{
    let s = chars_of(text);
    match parse_groups_exec(&s, 0, 4) {
        Some(v) => {
            proof {
                lemma_groups_len(s@, 0, 4);
            }
            let a: [u8; 4] = [v[0], v[1], v[2], v[3]];
            assert(a@ =~= v@);
            Some(a)
        },
        None => None,
    }
}

proof fn lemma_groups_len(s: Seq<char>, start: int, k: nat)
    ensures
        parse_groups(s, start, k) matches Some(o) ==> o.len() == k,
    decreases k,
{
    if k > 1 {
        lemma_groups_len(s, char_pos(s, '.', start) + 1, (k - 1) as nat);
    }
}

} // verus!
