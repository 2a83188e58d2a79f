//! The kernel's routing and neighbour tables as text (`/proc/net/route`,
//! `/proc/net/arp`): the default gateway and the hardware address of a
//! neighbour.

use vstd::prelude::*;
use crate::ipv4::{ipv4_string, ipv4_text};
use crate::text::{
    char_pos, chars_of, find_char, hex_digit_value, hex_val, is_hex, is_hex_char, is_white,
    is_whitespace, lines_of, lines_vec, vec_slice,
};

verus! {

// ---------------------------------------------------------------------------
// Words
// ---------------------------------------------------------------------------

/// The first position at or after `i` whose character is (when `white`) or
/// is not (otherwise) white space; `s.len()` when none.
pub open spec fn white_pos(s: Seq<char>, i: int, white: bool) -> int
    decreases s.len() - i,
{
    if i < 0 || i >= s.len() {
        s.len() as int
    } else if is_white(s[i]) == white {
        i
    } else {
        white_pos(s, i + 1, white)
    }
}

pub proof fn lemma_white_pos(s: Seq<char>, i: int, white: bool)
    requires
        0 <= i <= s.len(),
    ensures
        i <= white_pos(s, i, white) <= s.len(),
        white_pos(s, i, white) < s.len() ==> is_white(s[white_pos(s, i, white)]) == white,
    decreases s.len() - i,
{
    if i < s.len() && is_white(s[i]) != white {
        lemma_white_pos(s, i + 1, white);
    }
}

/// The words of `s` from `i` on: maximal runs of non-white characters (std
/// `str::split_whitespace`).
pub open spec fn words_from(s: Seq<char>, i: int) -> Seq<Seq<char>>
    decreases s.len() - i,
{
    if i < 0 || i > s.len() {
        seq![]
    } else {
        let a = white_pos(s, i, false);
        if a >= s.len() {
            seq![]
        } else {
            let b = white_pos(s, a, true);
            proof {
                lemma_white_pos(s, i, false);
                lemma_white_pos(s, a, true);
            }
            seq![s.subrange(a, b)] + words_from(s, b)
        }
    }
}

pub open spec fn words(s: Seq<char>) -> Seq<Seq<char>> {
    words_from(s, 0)
}

fn find_white(s: &Vec<char>, from: usize, white: bool) -> (r: usize)
    requires
        from <= s.len(),
    ensures
        r == white_pos(s@, from as int, white),
        from <= r <= s.len(),
{
    let mut i = from;
    while i < s.len() && is_whitespace(s[i]) != white
        invariant
            from <= i <= s.len(),
            white_pos(s@, from as int, white) == white_pos(s@, i as int, white),
        decreases s.len() - i,
    {
        i = i + 1;
    }
    i
}

pub open spec fn views(v: Seq<Vec<char>>) -> Seq<Seq<char>> {
    v.map_values(|w: Vec<char>| w@)
}

/// The words of a line.
pub fn split_words(s: &Vec<char>) -> (r: Vec<Vec<char>>)
    ensures
        views(r@) == words(s@),
{
    let mut out: Vec<Vec<char>> = Vec::new();
    let mut i: usize = 0;
    assert(views(out@) + words_from(s@, 0) =~= words(s@));
    while i < s.len()
        invariant
            i <= s@.len(),
            views(out@) + words_from(s@, i as int) == words(s@),
        decreases s@.len() - i,
    {
        let a = find_white(s, i, false);
        if a >= s.len() {
            assert(words_from(s@, i as int) =~= seq![]);
            i = s.len();
        } else {
            let b = find_white(s, a, true);
            proof {
                lemma_white_pos(s@, a as int, true);
            }
            let ghost before = views(out@);
            out.push(vec_slice(s, a, b));
            assert(views(out@) =~= before.push(s@.subrange(a as int, b as int)));
            assert(views(out@) + words_from(s@, b as int) =~= before + words_from(s@, i as int));
            i = b;
        }
    }
    assert(words_from(s@, i as int) =~= seq![]);
    assert(views(out@) + seq![] =~= views(out@));
    out
}

// ---------------------------------------------------------------------------
// Hexadecimal numbers (std `from_str_radix(_, 16)`)
// ---------------------------------------------------------------------------

pub open spec fn all_hex(s: Seq<char>) -> bool {
    forall|i: int| 0 <= i < s.len() ==> is_hex_char(#[trigger] s[i])
}

pub open spec fn hex_value(s: Seq<char>) -> int
    decreases s.len(),
{
    if s.len() == 0 {
        0
    } else {
        hex_value(s.drop_last()) * 16 + hex_val(s.last())
    }
}

/// What `from_str_radix(s, 16)` gives for an unsigned type whose largest
/// value is `max`: an optional `+`, then at least one hex digit, the value
/// at most `max`.
pub open spec fn parse_hex_spec(s: Seq<char>, max: nat) -> Option<nat> {
    let d = if s.len() > 0 && s[0] == '+' {
        s.drop_first()
    } else {
        s
    };
    if d.len() == 0 || !all_hex(d) || hex_value(d) > max {
        None
    } else {
        Some(hex_value(d) as nat)
    }
}

/// The digits part of hexadecimal text (after an optional `+`).
pub open spec fn hex_digits_part(s: Seq<char>) -> Seq<char> {
    if s.len() > 0 && s[0] == '+' {
        s.drop_first()
    } else {
        s
    }
}

/// What a parse gives lies in range and is the value of the digits.
pub proof fn lemma_parse_hex(x: Seq<char>, max: nat)
    ensures
        parse_hex_spec(x, max) matches Some(v) ==> v <= max && v == hex_value(hex_digits_part(x)),
        parse_hex_spec(x, 255) == (match parse_hex_spec(x, u32::MAX as nat) {
            Some(v) => if v <= 255 {
                Some(v)
            } else {
                None
            },
            None => None,
        }),
{
    let d = hex_digits_part(x);
    if all_hex(d) {
        lemma_hex_nonneg(d);
    }
}

proof fn lemma_hex_step(s: Seq<char>, k: int)
    requires
        0 <= k < s.len(),
    ensures
        hex_value(s.take(k + 1)) == hex_value(s.take(k)) * 16 + hex_val(s[k]),
{
    assert(s.take(k + 1).drop_last() =~= s.take(k));
    assert(s.take(k + 1).last() == s[k]);
}

proof fn lemma_hex_nonneg(s: Seq<char>)
    requires
        all_hex(s),
    ensures
        hex_value(s) >= 0,
    decreases s.len(),
{
    if s.len() > 0 {
        assert(all_hex(s.drop_last())) by {
            assert forall|i: int| 0 <= i < s.drop_last().len() implies is_hex_char(#[trigger] s.drop_last()[i]) by {
                assert(s.drop_last()[i] == s[i]);
            }
        }
        lemma_hex_nonneg(s.drop_last());
        assert(is_hex_char(s[s.len() - 1]));
    }
}

proof fn lemma_hex_mono(s: Seq<char>, k: int)
    requires
        0 <= k <= s.len(),
        all_hex(s),
    ensures
        hex_value(s.take(k)) <= hex_value(s),
    decreases s.len() - k,
{
    if k < s.len() {
        lemma_hex_mono(s, k + 1);
        lemma_hex_step(s, k);
        assert(is_hex_char(s[k]));
        assert(all_hex(s.take(k))) by {
            assert forall|i: int| 0 <= i < s.take(k).len() implies is_hex_char(#[trigger] s.take(k)[i]) by {
                assert(s.take(k)[i] == s[i]);
            }
        }
        lemma_hex_nonneg(s.take(k));
        assert(hex_value(s.take(k)) * 16 >= hex_value(s.take(k))) by (nonlinear_arith)
            requires
                hex_value(s.take(k)) >= 0,
        ;
    } else {
        assert(s.take(k) =~= s);
    }
}

/// Parses hexadecimal text as `u32::from_str_radix(s, 16)` does.
pub fn parse_hex_u32(s: &Vec<char>) -> (r: Option<u32>)
    ensures
        match parse_hex_spec(s@, u32::MAX as nat) {
            Some(v) => r == Some(v as u32),
            None => r is None,
        },
{
    let start: usize = if s.len() > 0 && s[0] == '+' {
        1
    } else {
        0
    };
    let ghost d = if s@.len() > 0 && s@[0] == '+' {
        s@.drop_first()
    } else {
        s@
    };
    assert(d =~= s@.skip(start as int));
    if s.len() - start == 0 {
        return None;
    }
    let mut v: u64 = 0;
    let mut i = start;
    while i < s.len()
        invariant
            start <= i <= s.len(),
            d == s@.skip(start as int),
            d == (if s@.len() > 0 && s@[0] == '+' {
                s@.drop_first()
            } else {
                s@
            }),
            all_hex(d.take(i - start)),
            v == hex_value(d.take(i - start)),
            v <= u32::MAX,
        decreases s.len() - i,
    {
        let c = s[i];
        assert(d[i - start] == c);
        if !is_hex(c) {
            assert(!all_hex(d));
            assert(parse_hex_spec(s@, u32::MAX as nat) is None);
            return None;
        }
        proof {
            lemma_hex_step(d, i - start);
        }
        let nv = v * 16 + hex_digit_value(c) as u64;
        if nv > 0xffff_ffff {
            proof {
                assert(all_hex(d.take(i - start + 1))) by {
                    assert forall|k: int| 0 <= k < d.take(i - start + 1).len() implies is_hex_char(
                        #[trigger] d.take(i - start + 1)[k],
                    ) by {
                        if k < i - start {
                            assert(d.take(i - start + 1)[k] == d.take(i - start)[k]);
                        }
                    }
                }
                if all_hex(d) {
                    lemma_hex_mono(d, i - start + 1);
                    assert(hex_value(d) > u32::MAX);
                }
                assert(parse_hex_spec(s@, u32::MAX as nat) is None);
            }
            return None;
        }
        v = nv;
        i = i + 1;
        assert(all_hex(d.take(i - start))) by {
            assert forall|k: int| 0 <= k < d.take(i - start).len() implies is_hex_char(
                #[trigger] d.take(i - start)[k],
            ) by {
                if k < i - start - 1 {
                    assert(d.take(i - start)[k] == d.take(i - start - 1)[k]);
                }
            }
        }
    }
    assert(d.take(i - start) =~= d);
    Some(v as u32)
}

// ---------------------------------------------------------------------------
// The routing table
// ---------------------------------------------------------------------------

/// The octets of a little-endian 32-bit value as an address (the kernel
/// writes addresses in host order).
pub open spec fn le_octets(v: nat) -> Seq<u8> {
    seq![(v % 256) as u8, (v / 256 % 256) as u8, (v / 65536 % 256) as u8, (v / 16777216 % 256) as u8]
}

/// The default gateway in the rows `ls` of the routing table: the first row
/// with at least three fields whose destination (second field) is zero,
/// whose gateway (third field) is read; rows whose fields do not parse are
/// passed over.
pub open spec fn gateway_in_rows(ls: Seq<Seq<char>>) -> Option<Seq<u8>>
    decreases ls.len(),
{
    if ls.len() == 0 {
        None
    } else {
        let w = words(ls[0]);
        let rest = gateway_in_rows(ls.drop_first());
        if w.len() < 3 {
            rest
        } else {
            match parse_hex_spec(w[1], u32::MAX as nat) {
                Some(dest) => if dest == 0 {
                    match parse_hex_spec(w[2], u32::MAX as nat) {
                        Some(g) => Some(le_octets(g)),
                        None => rest,
                    }
                } else {
                    rest
                },
                None => rest,
            }
        }
    }
}

/// The default gateway in `/proc/net/route` text (its first line is a
/// header).
pub open spec fn default_gateway_spec(content: Seq<char>) -> Option<Seq<u8>> {
    let ls = lines_of(content);
    if ls.len() == 0 {
        None
    } else {
        gateway_in_rows(ls.drop_first())
    }
}

/// The default gateway that `/proc/net/route` text names.
pub fn default_gateway(content: &str) -> (r: Option<[u8; 4]>)
    ensures
        match default_gateway_spec(content@) {
            Some(o) => r matches Some(a) && a@ == o,
            None => r is None,
        },
{
    let lines = lines_vec(&chars_of(content));
    let ghost ls = lines@.map_values(|l: Vec<char>| l@);
    if lines.len() == 0 {
        return None;
    }
    let mut i: usize = 1;
    assert(ls.drop_first() =~= ls.skip(1));
    while i < lines.len()
        invariant
            1 <= i <= lines@.len() == ls.len(),
            ls == lines@.map_values(|l: Vec<char>| l@),
            ls == lines_of(content@),
            gateway_in_rows(ls.skip(i as int)) == default_gateway_spec(content@),
        decreases lines@.len() - i,
    {
        proof {
            assert(ls.skip(i as int).drop_first() =~= ls.skip(i + 1));
            assert(ls.skip(i as int)[0] == lines@[i as int]@);
        }
        let w = split_words(&lines[i]);
        let ghost ws = words(lines@[i as int]@);
        assert(ws == views(w@));
        if w.len() >= 3 {
            assert(ws[1] == w@[1]@ && ws[2] == w@[2]@);
            if let Some(dest) = parse_hex_u32(&w[1]) {
                if dest == 0 {
                    if let Some(g) = parse_hex_u32(&w[2]) {
                        let a: [u8; 4] = [(g % 256) as u8, (g / 256 % 256) as u8, (g / 65536 % 256) as u8, (g / 16777216 % 256) as u8];
                        assert(a@ =~= le_octets(g as nat));
                        proof {
                            lemma_parse_hex(ws[1], u32::MAX as nat);
                            lemma_parse_hex(ws[2], u32::MAX as nat);
                        }
                        assert(gateway_in_rows(ls.skip(i as int)) == Some(le_octets(g as nat)));
                        return Some(a);
                    }
                }
            }
        }
        i = i + 1;
    }
    assert(ls.skip(i as int) =~= seq![]);
    None
}

// ---------------------------------------------------------------------------
// The neighbour table
// ---------------------------------------------------------------------------

/// The pieces of `s` between occurrences of `c` (std `str::split`).
pub open spec fn split_char(s: Seq<char>, c: char) -> Seq<Seq<char>>
    decreases s.len(),
{
    let e = char_pos(s, c, 0);
    if e >= s.len() {
        seq![s]
    } else {
        proof {
            crate::text::lemma_char_pos_range(s, c, 0);
        }
        seq![s.take(e)] + split_char(s.skip(e + 1), c)
    }
}

/// The bytes of the pieces that parse as hexadecimal bytes, in order.
pub open spec fn hex_bytes(pieces: Seq<Seq<char>>) -> Seq<u8>
    decreases pieces.len(),
{
    if pieces.len() == 0 {
        seq![]
    } else {
        let rest = hex_bytes(pieces.drop_first());
        match parse_hex_spec(pieces[0], 255) {
            Some(b) => seq![b as u8] + rest,
            None => rest,
        }
    }
}

/// The hardware address of `ip` in the rows of the neighbour table: the
/// first row with at least four fields, the address text in the first and
/// a non-zero hardware address in the fourth whose colon-separated pieces
/// give exactly six bytes.
pub open spec fn mac_in_rows(ls: Seq<Seq<char>>, ip: Seq<char>) -> Option<Seq<u8>>
    decreases ls.len(),
{
    if ls.len() == 0 {
        None
    } else {
        let w = words(ls[0]);
        let rest = mac_in_rows(ls.drop_first(), ip);
        if w.len() >= 4 && w[0] == ip && w[3] != "00:00:00:00:00:00"@ && hex_bytes(split_char(w[3], ':')).len() == 6 {
            Some(hex_bytes(split_char(w[3], ':')))
        } else {
            rest
        }
    }
}

/// The hardware address that `/proc/net/arp` text gives for an address.
pub open spec fn arp_mac_spec(content: Seq<char>, ip: Seq<u8>) -> Option<Seq<u8>> {
    let ls = lines_of(content);
    if ls.len() == 0 {
        None
    } else {
        mac_in_rows(ls.drop_first(), ipv4_text(ip))
    }
}

fn split_colons(s: &Vec<char>) -> (r: Vec<Vec<char>>)
    ensures
        views(r@) == split_char(s@, ':'),
    decreases s@.len(),
{
    let e = find_char(s, ':', 0);
    if e >= s.len() {
        let mut out: Vec<Vec<char>> = Vec::new();
        out.push(vec_slice(s, 0, s.len()));
        assert(s@.subrange(0, s@.len() as int) =~= s@);
        assert(views(out@) =~= seq![s@]);
        out
    } else {
        let head = vec_slice(s, 0, e);
        let tail = vec_slice(s, e + 1, s.len());
        assert(head@ =~= s@.take(e as int));
        assert(tail@ =~= s@.skip(e + 1));
        let rest = split_colons(&tail);
        let mut out: Vec<Vec<char>> = Vec::new();
        out.push(head);
        let mut rest = rest;
        let ghost rv = views(rest@);
        out.append(&mut rest);
        assert(views(out@) =~= seq![s@.take(e as int)] + rv);
        out
    }
}

fn hex_bytes_of(pieces: &Vec<Vec<char>>) -> (r: Vec<u8>)
    ensures
        r@ == hex_bytes(views(pieces@)),
{
    let mut out: Vec<u8> = Vec::new();
    let mut i = pieces.len();
    let ghost p = views(pieces@);
    assert(p.skip(i as int) =~= seq![]);
    while i > 0
        invariant
            i <= pieces@.len(),
            p == views(pieces@),
            out@ == hex_bytes(p.skip(i as int)),
        decreases i,
    {
        i = i - 1;
        assert(p.skip(i as int).drop_first() =~= p.skip(i + 1));
        assert(p.skip(i as int)[0] == pieces@[i as int]@);
        proof {
            lemma_parse_hex(pieces@[i as int]@, 255);
            lemma_parse_hex(pieces@[i as int]@, u32::MAX as nat);
        }
        match parse_hex_u32(&pieces[i]) {
            Some(v) => {
                if v <= 255 {
                    let mut front: Vec<u8> = Vec::new();
                    front.push(v as u8);
                    let ghost old_out = out@;
                    front.append(&mut out);
                    out = front;
                    assert(out@ =~= seq![v as u8] + old_out);
                }
            },
            None => {},
        }
    }
    assert(p.skip(0) =~= p);
    out
}

/// The hardware address that `/proc/net/arp` text gives for an address.
pub fn arp_mac(content: &str, ip: [u8; 4]) -> (r: Option<[u8; 6]>)
    ensures
        match arp_mac_spec(content@, ip@) {
            Some(m) => r matches Some(a) && a@ == m,
            None => r is None,
        },
{
    let lines = lines_vec(&chars_of(content));
    let ghost ls = lines@.map_values(|l: Vec<char>| l@);
    if lines.len() == 0 {
        return None;
    }
    let ip_text = ipv4_string(ip);
    let zeros = chars_of("00:00:00:00:00:00");
    let mut i: usize = 1;
    assert(ls.drop_first() =~= ls.skip(1));
    while i < lines.len()
        invariant
            1 <= i <= lines@.len() == ls.len(),
            ls == lines@.map_values(|l: Vec<char>| l@),
            ls == lines_of(content@),
            ip_text@ == ipv4_text(ip@),
            zeros@ == "00:00:00:00:00:00"@,
            mac_in_rows(ls.skip(i as int), ipv4_text(ip@)) == arp_mac_spec(content@, ip@),
        decreases lines@.len() - i,
    {
        proof {
            assert(ls.skip(i as int).drop_first() =~= ls.skip(i + 1));
            assert(ls.skip(i as int)[0] == lines@[i as int]@);
        }
        let w = split_words(&lines[i]);
        if w.len() >= 4 && chars_eq(&w[0], &ip_text) && !chars_eq(&w[3], &zeros) {
            let bytes = hex_bytes_of(&split_colons(&w[3]));
            if bytes.len() == 6 {
                let a: [u8; 6] = [bytes[0], bytes[1], bytes[2], bytes[3], bytes[4], bytes[5]];
                assert(a@ =~= bytes@);
                return Some(a);
            }
        }
        i = i + 1;
    }
    assert(ls.skip(i as int) =~= seq![]);
    None
}

fn chars_eq(a: &Vec<char>, b: &Vec<char>) -> (r: bool)
    ensures
        r == (a@ == b@),
{
    if a.len() != b.len() {
        return false;
    }
    let mut i: usize = 0;
    while i < a.len()
        invariant
            i <= a@.len() == b@.len(),
            forall|k: int| 0 <= k < i ==> a@[k] == b@[k],
        decreases a@.len() - i,
    {
        if a[i] != b[i] {
            return false;
        }
        i = i + 1;
    }
    assert(a@ =~= b@);
    true
}

} // verus!
