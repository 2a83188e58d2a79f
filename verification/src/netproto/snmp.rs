//! SNMP v2c targets and values for switch port queries.

use vstd::prelude::*;
use vstd::string::StringSliceAdditionalSpecFns;
use crate::netproto::{extend_bytes, is_parse_error, slice_bytes, NetProtoError};
use crate::text::{chars_of, owned};

verus! {

/// An IP address, network byte order.
#[derive(Debug, Clone, Copy)]
pub enum IpAddress {
    V4([u8; 4]),
    V6([u8; 16]),
}

/// An IP address and a UDP port.
#[derive(Debug, Clone, Copy)]
pub struct SocketAddress {
    pub ip: IpAddress,
    pub port: u16,
}

/// An agent to query and the community string to query it with.
#[derive(Debug, Clone)]
pub struct SnmpTarget {
    pub address: SocketAddress,
    pub community: String,
}

/// A variable binding's value.
#[derive(Debug, Clone)]
pub enum SnmpValue {
    Integer(i64),
    OctetString(Vec<u8>),
    OidString(String),
    Null,
}

// ---------------------------------------------------------------------------
// BER encoding
// ---------------------------------------------------------------------------

/// `256^k`.
pub open spec fn pow256(k: nat) -> nat
    decreases k,
{
    if k == 0 {
        1
    } else {
        256 * pow256((k - 1) as nat)
    }
}

/// The big-endian bytes of a positive number, without leading zeros.
pub open spec fn be_bytes(n: nat) -> Seq<u8>
    decreases n,
{
    if n < 256 {
        seq![n as u8]
    } else {
        be_bytes(n / 256) + seq![(n % 256) as u8]
    }
}

/// A BER length: one byte below 128, else `0x80` plus the number of
/// length bytes, then the length in big-endian bytes.
pub open spec fn ber_len(n: nat) -> Seq<u8> {
    if n < 128 {
        seq![n as u8]
    } else {
        seq![(128 + be_bytes(n).len()) as u8] + be_bytes(n)
    }
}

/// A BER element: tag, length, content.
pub open spec fn tlv(tag: u8, content: Seq<u8>) -> Seq<u8> {
    seq![tag] + ber_len(content.len()) + content
}

/// The four big-endian bytes of a 32-bit two's-complement integer.
pub open spec fn i32_bytes(v: i32) -> Seq<u8> {
    let u = v as u32;
    seq![(u / 16777216) as u8, (u / 65536 % 256) as u8, (u / 256 % 256) as u8, (u % 256) as u8]
}

/// Two's-complement bytes with the redundant leading bytes dropped (a
/// `0x00` before a byte below `0x80`, or a `0xff` before one from `0x80`).
pub open spec fn minimal_int(b: Seq<u8>) -> Seq<u8>
    decreases b.len(),
{
    if b.len() >= 2 && ((b[0] == 0 && b[1] < 128) || (b[0] == 255 && b[1] >= 128)) {
        minimal_int(b.drop_first())
    } else {
        b
    }
}

/// A BER INTEGER.
pub open spec fn ber_integer(v: i32) -> Seq<u8> {
    tlv(2, minimal_int(i32_bytes(v)))
}

/// The leading base-128 digits of an OID sub-identifier, each with the
/// continuation bit set.
pub open spec fn b128_high(m: nat) -> Seq<u8>
    decreases m,
{
    if m == 0 {
        Seq::empty()
    } else {
        b128_high(m / 128) + seq![(128 + m % 128) as u8]
    }
}

/// An OID sub-identifier in base 128, most significant digit first.
pub open spec fn subid(n: nat) -> Seq<u8> {
    b128_high(n / 128) + seq![(n % 128) as u8]
}

/// The sub-identifiers of a sequence of arcs, one after the other.
pub open spec fn subids(arcs: Seq<nat>) -> Seq<u8>
    decreases arcs.len(),
{
    if arcs.len() == 0 {
        Seq::empty()
    } else {
        subids(arcs.drop_last()) + subid(arcs.last())
    }
}

/// The content of an OID: the first two arcs as `40 * a0 + a1`, then the
/// others.
pub open spec fn oid_content(arcs: Seq<nat>) -> Seq<u8> {
    subid(40 * arcs[0] + arcs[1]) + subids(arcs.skip(2))
}

/// An SNMPv2c GET-REQUEST message: version 1, the community, and a PDU with
/// the request id, error status and index 0, and one binding of the OID to
/// NULL.
pub open spec fn get_request_ber(community: Seq<u8>, arcs: Seq<nat>, request_id: i32) -> Seq<u8> {
    let varbind = tlv(0x30, tlv(0x06, oid_content(arcs)) + seq![0x05u8, 0x00u8]);
    let pdu = tlv(0xA0, ber_integer(request_id) + ber_integer(0) + ber_integer(0) + tlv(0x30, varbind));
    tlv(0x30, ber_integer(1) + tlv(0x04, community) + pdu)
}

// ---------------------------------------------------------------------------
// OID text
// ---------------------------------------------------------------------------

/// Reading state of a dotted OID: the arcs read, the current arc, whether
/// it has a digit, and whether the text is still well formed.
pub struct OidScan {
    pub arcs: Seq<nat>,
    pub cur: nat,
    pub digit: bool,
    pub ok: bool,
}

/// What one character does: a digit extends the current arc (which must
/// fit 32 bits), a dot after a digit ends it, anything else is an error.
pub open spec fn oid_step(st: OidScan, c: char) -> OidScan {
    if !st.ok {
        st
    } else if '0' <= c && c <= '9' {
        let v = st.cur * 10 + (c as u32 - '0' as u32);
        if v > u32::MAX {
            OidScan { ok: false, ..st }
        } else {
            OidScan { cur: v as nat, digit: true, ..st }
        }
    } else if c == '.' && st.digit {
        OidScan { arcs: st.arcs.push(st.cur), cur: 0, digit: false, ok: true }
    } else {
        OidScan { ok: false, ..st }
    }
}

pub open spec fn oid_scan(s: Seq<char>) -> OidScan
    decreases s.len(),
{
    if s.len() == 0 {
        OidScan { arcs: Seq::empty(), cur: 0, digit: false, ok: true }
    } else {
        oid_step(oid_scan(s.drop_last()), s.last())
    }
}

/// The arcs of a dotted-decimal OID: at least two, each fitting 32 bits,
/// the first at most 2 and, when it is below 2, the second below 40.
pub open spec fn oid_arcs(s: Seq<char>) -> Option<Seq<nat>> {
    let st = oid_scan(s);
    if st.ok && st.digit {
        let a = st.arcs.push(st.cur);
        if a.len() >= 2 && a[0] <= 2 && (a[0] < 2 ==> a[1] < 40) {
            Some(a)
        } else {
            None
        }
    } else {
        None
    }
}

proof fn lemma_pow256_8()
    ensures
        pow256(8) == 0x1_0000_0000_0000_0000,
{
    reveal_with_fuel(pow256, 9);
}

proof fn lemma_be_len(n: nat, k: nat)
    requires
        n < pow256(k),
        k >= 1,
    ensures
        be_bytes(n).len() <= k,
        be_bytes(n).len() >= 1,
    decreases n,
{
    if n >= 256 {
        assert(k >= 2) by {
            if k == 1 {
                reveal_with_fuel(pow256, 2);
            }
        }
        assert(n / 256 < pow256((k - 1) as nat)) by (nonlinear_arith)
            requires
                n < pow256(k),
                pow256(k) == 256 * pow256((k - 1) as nat),
        ;
        lemma_be_len(n / 256, (k - 1) as nat);
    }
}

fn be_bytes_exec(n: usize) -> (r: Vec<u8>)
    ensures
        r@ == be_bytes(n as nat),
    decreases n,
{
    if n < 256 {
        let mut v: Vec<u8> = Vec::new();
        v.push(n as u8);
        assert(v@ =~= be_bytes(n as nat));
        v
    } else {
        let mut v = be_bytes_exec(n / 256);
        v.push((n % 256) as u8);
        v
    }
}

fn push_ber_len(out: &mut Vec<u8>, n: usize)
    ensures
        final(out)@ == old(out)@ + ber_len(n as nat),
{
    if n < 128 {
        out.push(n as u8);
        assert(final(out)@ =~= old(out)@ + ber_len(n as nat));
    } else {
        let b = be_bytes_exec(n);
        proof {
            lemma_pow256_8();
            lemma_be_len(n as nat, 8);
        }
        out.push((128 + b.len()) as u8);
        extend_bytes(out, b.as_slice());
        assert(final(out)@ =~= old(out)@ + ber_len(n as nat));
    }
}

fn push_tlv(out: &mut Vec<u8>, tag: u8, content: &[u8])
    ensures
        final(out)@ == old(out)@ + tlv(tag, content@),
{
    out.push(tag);
    push_ber_len(out, content.len());
    extend_bytes(out, content);
    assert(final(out)@ =~= old(out)@ + tlv(tag, content@));
}

fn ber_integer_exec(v: i32) -> (r: Vec<u8>)
    ensures
        r@ == ber_integer(v),
{
    let u = v as u32;
    let mut b: Vec<u8> = Vec::new();
    b.push((u / 16777216) as u8);
    b.push((u / 65536 % 256) as u8);
    b.push((u / 256 % 256) as u8);
    b.push((u % 256) as u8);
    assert(b@ =~= i32_bytes(v));
    assert(b@.skip(0) =~= b@);
    let mut start: usize = 0;
    while start + 1 < b.len() && ((b[start] == 0 && b[start + 1] < 128) || (b[start] == 255 && b[start + 1] >= 128))
        invariant
            b@.len() == 4,
            start < 4,
            minimal_int(b@.skip(start as int)) == minimal_int(i32_bytes(v)),
        decreases 4 - start,
    {
        assert(b@.skip(start as int).drop_first() =~= b@.skip(start + 1));
        start = start + 1;
    }
    assert(minimal_int(b@.skip(start as int)) == b@.skip(start as int));
    let content = slice_bytes(b.as_slice(), start, 4 - start);
    assert(content@ =~= b@.skip(start as int));
    let mut out: Vec<u8> = Vec::new();
    push_tlv(&mut out, 2, content.as_slice());
    assert(out@ =~= ber_integer(v));
    out
}

fn push_b128_high(out: &mut Vec<u8>, m: u64)
    ensures
        final(out)@ == old(out)@ + b128_high(m as nat),
    decreases m,
{
    if m > 0 {
        push_b128_high(out, m / 128);
        out.push((128 + m % 128) as u8);
        assert(final(out)@ =~= old(out)@ + b128_high(m as nat));
    } else {
        assert(final(out)@ =~= old(out)@ + b128_high(m as nat));
    }
}

fn push_subid(out: &mut Vec<u8>, n: u64)
    ensures
        final(out)@ == old(out)@ + subid(n as nat),
{
    push_b128_high(out, n / 128);
    out.push((n % 128) as u8);
    assert(final(out)@ =~= old(out)@ + subid(n as nat));
}

pub open spec fn arcs_view(a: Seq<u32>) -> Seq<nat> {
    a.map_values(|x: u32| x as nat)
}

/// The arcs of a dotted OID, as `oid_arcs` says.
fn parse_oid(oid: &str) -> (r: Option<Vec<u32>>)
    ensures
        match oid_arcs(oid@) {
            Some(a) => r matches Some(v) && arcs_view(v@) == a,
            None => r is None,
        },
{
    let chars = chars_of(oid);
    let mut arcs: Vec<u32> = Vec::new();
    let mut cur: u64 = 0;
    let mut digit = false;
    let mut ok = true;
    let mut i: usize = 0;
    while i < chars.len()
        invariant
            i <= chars@.len(),
            chars@ == oid@,
            cur <= u32::MAX,
            ({
                let st = oid_scan(chars@.take(i as int));
                st.arcs == arcs_view(arcs@) && st.cur == cur && st.digit == digit && st.ok == ok
            }),
        decreases chars@.len() - i,
    {
        let c = chars[i];
        assert(chars@.take(i + 1).drop_last() =~= chars@.take(i as int));
        if ok {
            if '0' <= c && c <= '9' {
                let v: u64 = cur * 10 + ((c as u32) - ('0' as u32)) as u64;
                if v > 4294967295 {
                    ok = false;
                } else {
                    cur = v;
                    digit = true;
                }
            } else if c == '.' && digit {
                arcs.push(cur as u32);
                assert(arcs_view(arcs@) =~= oid_scan(chars@.take(i as int)).arcs.push(cur as nat));
                cur = 0;
                digit = false;
            } else {
                ok = false;
            }
        }
        i = i + 1;
    }
    assert(chars@.take(i as int) =~= oid@);
    if !(ok && digit) {
        return None;
    }
    arcs.push(cur as u32);
    assert(arcs_view(arcs@) =~= oid_scan(oid@).arcs.push(cur as nat));
    if arcs.len() >= 2 && arcs[0] <= 2 && (arcs[0] >= 2 || arcs[1] < 40) {
        Some(arcs)
    } else {
        None
    }
}

/// Encodes an SNMPv2c GET-REQUEST for one OID (given in dotted decimal)
/// as the raw UDP payload; a malformed OID is an error.
pub fn encode_get_request(community: &str, oid: &str, request_id: i32) -> (r: Result<
    Vec<u8>,
    NetProtoError,
>)
    ensures
        match oid_arcs(oid@) {
            Some(a) => r matches Ok(b) && b@ == get_request_ber(community.spec_bytes(), a, request_id),
            None => r matches Err(e) && is_parse_error(e, "invalid OID"@),
        },
{
    let arcs = match parse_oid(oid) {
        Some(a) => a,
        None => return Err(NetProtoError::Parse(owned("invalid OID"))),
    };
    let ghost a = arcs_view(arcs@);
    // The OID's content.
    let mut oid_bytes: Vec<u8> = Vec::new();
    push_subid(&mut oid_bytes, 40 * (arcs[0] as u64) + arcs[1] as u64);
    let mut i: usize = 2;
    while i < arcs.len()
        invariant
            2 <= i <= arcs@.len(),
            a == arcs_view(arcs@),
            oid_bytes@ == subid(40 * a[0] + a[1]) + subids(a.subrange(2, i as int)),
        decreases arcs@.len() - i,
    {
        assert(a.subrange(2, i + 1).drop_last() =~= a.subrange(2, i as int));
        push_subid(&mut oid_bytes, arcs[i] as u64);
        i = i + 1;
        assert(oid_bytes@ =~= subid(40 * a[0] + a[1]) + subids(a.subrange(2, i as int)));
    }
    assert(a.subrange(2, i as int) =~= a.skip(2));
    // The variable binding.
    let mut vb_content: Vec<u8> = Vec::new();
    push_tlv(&mut vb_content, 0x06, oid_bytes.as_slice());
    vb_content.push(0x05);
    vb_content.push(0x00);
    let mut varbind: Vec<u8> = Vec::new();
    push_tlv(&mut varbind, 0x30, vb_content.as_slice());
    // The PDU.
    let mut pdu_content: Vec<u8> = ber_integer_exec(request_id);
    let zero = ber_integer_exec(0);
    extend_bytes(&mut pdu_content, zero.as_slice());
    extend_bytes(&mut pdu_content, zero.as_slice());
    push_tlv(&mut pdu_content, 0x30, varbind.as_slice());
    // The message.
    let mut msg_content: Vec<u8> = ber_integer_exec(1);
    push_tlv(&mut msg_content, 0x04, community.as_bytes());
    push_tlv(&mut msg_content, 0xA0, pdu_content.as_slice());
    let mut out: Vec<u8> = Vec::new();
    push_tlv(&mut out, 0x30, msg_content.as_slice());
    proof {
        assert(vb_content@ =~= tlv(0x06, oid_content(a)) + seq![0x05u8, 0x00u8]);
    }
    Ok(out)
}

} // verus!
