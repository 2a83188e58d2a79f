//! RADIUS packets (RFC 2865/2866) and the MAC-authentication decisions made
//! on them.

use vstd::prelude::*;
use vstd::string::StringSliceAdditionalSpecFns;
use crate::mac::{normalize_mac_chars, normalized_mac};
use crate::text::{str_eq, utf8_string, chars_of, decimal, parse_u16, parse_u16_spec, string_from_chars, u64_decimal};

verus! {

// RADIUS codes
pub const CODE_ACCESS_REQUEST: u8 = 1;
pub const CODE_ACCESS_ACCEPT: u8 = 2;
pub const CODE_ACCESS_REJECT: u8 = 3;
pub const CODE_ACCOUNTING_REQUEST: u8 = 4;
pub const CODE_ACCOUNTING_RESPONSE: u8 = 5;

// RADIUS attribute types
pub const ATTR_USER_NAME: u8 = 1;
pub const ATTR_USER_PASSWORD: u8 = 2;
pub const ATTR_NAS_IP: u8 = 4;
pub const ATTR_NAS_PORT: u8 = 5;
pub const ATTR_REPLY_MESSAGE: u8 = 18;
/// MAC address of the client, as the switch reports it.
pub const ATTR_CALLING_STATION_ID: u8 = 31;
pub const ATTR_EAP_MESSAGE: u8 = 79;
/// Tunnel attributes for VLAN assignment (RFC 2868).
pub const ATTR_TUNNEL_TYPE: u8 = 64;
pub const ATTR_TUNNEL_MEDIUM_TYPE: u8 = 65;
pub const ATTR_TUNNEL_PRIVATE_GROUP_ID: u8 = 81;

/// One attribute: its type and raw value.
pub struct RadiusAttribute {
    pub attr_type: u8,
    pub value: Vec<u8>,
}

/// A RADIUS packet.
pub struct RadiusPacket {
    pub code: u8,
    pub identifier: u8,
    pub authenticator: [u8; 16],
    pub attributes: Vec<RadiusAttribute>,
}

/// Why a buffer is not a RADIUS packet.
#[derive(Debug, PartialEq, Eq, Structural)]
pub enum RadiusError {
    /// Fewer than 20 bytes (the header); holds the buffer's length.
    TooShort(usize),
    /// The header's length field exceeds the buffer.
    Truncated,
}

/// An attribute as a value: (type, value bytes).
pub type AttrV = (u8, Seq<u8>);

impl View for RadiusAttribute {
    type V = AttrV;

    open spec fn view(&self) -> AttrV {
        (self.attr_type, self.value@)
    }
}

/// A packet as a value.
pub struct PacketV {
    pub code: u8,
    pub identifier: u8,
    pub authenticator: Seq<u8>,
    pub attributes: Seq<AttrV>,
}

impl View for RadiusPacket {
    type V = PacketV;

    open spec fn view(&self) -> PacketV {
        PacketV {
            code: self.code,
            identifier: self.identifier,
            authenticator: self.authenticator@,
            attributes: self.attributes@.map_values(|a: RadiusAttribute| a@),
        }
    }
}

// ---------------------------------------------------------------------------
// Wire format
// ---------------------------------------------------------------------------

/// The bytes of one attribute: type, total length (value + 2, as a byte), value.
pub open spec fn attr_bytes(a: AttrV) -> Seq<u8> {
    seq![a.0, (a.1.len() + 2) as u8] + a.1
}

/// The bytes of a list of attributes, in order.
pub open spec fn attrs_bytes(s: Seq<AttrV>) -> Seq<u8>
    decreases s.len(),
{
    if s.len() == 0 {
        Seq::empty()
    } else {
        attr_bytes(s[0]) + attrs_bytes(s.drop_first())
    }
}

/// Big-endian bytes of a 16-bit number.
pub open spec fn be16(n: int) -> Seq<u8> {
    seq![(n / 256) as u8, (n % 256) as u8]
}

/// The encoding of a packet: code, identifier, total length (big-endian,
/// taken modulo 2^16, as the 16-bit length field holds it), authenticator,
/// attributes.
pub open spec fn encode_spec(p: PacketV) -> Seq<u8> {
    let body = attrs_bytes(p.attributes);
    seq![p.code, p.identifier] + be16(((20 + body.len()) % 65536) as int) + p.authenticator + body
}

/// Attributes read from `buf` between `pos` and `end`: each is a type byte,
/// a length byte `l` (at least 2, not past `end`) and `l - 2` value bytes;
/// reading stops at the first one that does not fit.
pub open spec fn parse_attrs(buf: Seq<u8>, pos: int, end: int) -> Seq<AttrV>
    decreases end - pos,
{
    if pos + 2 <= end {
        let t = buf[pos];
        let l = buf[pos + 1] as int;
        if l < 2 || pos + l > end {
            Seq::empty()
        } else {
            seq![(t, buf.subrange(pos + 2, pos + l))] + parse_attrs(buf, pos + l, end)
        }
    } else {
        Seq::empty()
    }
}

/// The length field of a header.
pub open spec fn length_field(buf: Seq<u8>) -> int {
    (buf[2] as int) * 256 + (buf[3] as int)
}

/// What `RadiusPacket::parse` gives for a buffer.
pub open spec fn parse_spec(buf: Seq<u8>) -> Result<PacketV, RadiusError> {
    if buf.len() < 20 {
        Err(RadiusError::TooShort(buf.len() as usize))
    } else if buf.len() < length_field(buf) {
        Err(RadiusError::Truncated)
    } else {
        Ok(
            PacketV {
                code: buf[0],
                identifier: buf[1],
                authenticator: buf.subrange(4, 20),
                attributes: parse_attrs(buf, 20, length_field(buf)),
            },
        )
    }
}

/// Attribute values fit the one-byte length field.
pub open spec fn attrs_fit(s: Seq<AttrV>) -> bool {
    forall|i: int| 0 <= i < s.len() ==> #[trigger] s[i].1.len() <= 253
}

/// Every attribute's value fits its length byte and the whole packet fits the
/// 16-bit length field.
pub open spec fn encodable(p: PacketV) -> bool {
    &&& attrs_fit(p.attributes)
    &&& 20 + attrs_bytes(p.attributes).len() <= 65535
    &&& p.authenticator.len() == 16
}

proof fn lemma_attrs_bytes_push(s: Seq<AttrV>, a: AttrV)
    ensures
        attrs_bytes(s.push(a)) == attrs_bytes(s) + attr_bytes(a),
    decreases s.len(),
{
    if s.len() == 0 {
        assert(s.push(a).drop_first() =~= Seq::<AttrV>::empty());
        assert(attrs_bytes(s.push(a)) =~= attr_bytes(a) + attrs_bytes(Seq::<AttrV>::empty()));
        assert(attrs_bytes(s) + attr_bytes(a) =~= attr_bytes(a));
    } else {
        assert(s.push(a).drop_first() =~= s.drop_first().push(a));
        lemma_attrs_bytes_push(s.drop_first(), a);
        assert(attrs_bytes(s.push(a)) =~= attr_bytes(s[0]) + (attrs_bytes(s.drop_first())
            + attr_bytes(a)));
    }
}

proof fn lemma_attrs_bytes_len(s: Seq<AttrV>)
    ensures
        attrs_bytes(s).len() >= 2 * s.len(),
    decreases s.len(),
{
    if s.len() > 0 {
        lemma_attrs_bytes_len(s.drop_first());
    }
}

/// Reading back the bytes of a list of fitting attributes gives the list.
proof fn lemma_parse_attrs_bytes(buf: Seq<u8>, pos: int, s: Seq<AttrV>)
    requires
        0 <= pos,
        pos + attrs_bytes(s).len() <= buf.len(),
        buf.subrange(pos, pos + attrs_bytes(s).len()) == attrs_bytes(s),
        attrs_fit(s),
    ensures
        parse_attrs(buf, pos, pos + attrs_bytes(s).len()) == s,
    decreases s.len(),
{
    let end = pos + attrs_bytes(s).len();
    if s.len() == 0 {
        assert(parse_attrs(buf, pos, end) =~= s);
    } else {
        let a = s[0];
        let rest = s.drop_first();
        let ab = attr_bytes(a);
        let rb = attrs_bytes(rest);
        assert(s[0].1.len() <= 253);
        assert(attrs_bytes(s) == ab + rb);
        assert(buf[pos] == attrs_bytes(s)[0]);
        assert(buf[pos + 1] == attrs_bytes(s)[1]);
        assert(ab.len() == a.1.len() + 2);
        assert((a.1.len() + 2) as u8 as int == a.1.len() + 2);
        assert(buf.subrange(pos + 2, pos + ab.len()) =~= a.1) by {
            assert forall|k: int| 0 <= k < a.1.len() implies buf.subrange(
                pos + 2,
                pos + ab.len(),
            )[k] == a.1[k] by {
                assert(buf[pos + 2 + k] == buf.subrange(pos, end)[2 + k]);
                assert(attrs_bytes(s)[2 + k] == ab[2 + k]);
            }
        }
        assert forall|i: int| 0 <= i < rest.len() implies #[trigger] rest[i].1.len() <= 253 by {
            assert(rest[i] == s[i + 1]);
        }
        assert(buf.subrange(pos + ab.len(), pos + ab.len() + rb.len()) =~= rb) by {
            assert forall|k: int| 0 <= k < rb.len() implies buf.subrange(
                pos + ab.len(),
                pos + ab.len() + rb.len(),
            )[k] == rb[k] by {
                assert(buf[pos + ab.len() + k] == buf.subrange(pos, end)[ab.len() + k]);
                assert(attrs_bytes(s)[ab.len() + k] == rb[k]);
            }
        }
        lemma_parse_attrs_bytes(buf, pos + ab.len(), rest);
        assert(parse_attrs(buf, pos, end) =~= seq![a] + rest);
        assert(seq![a] + rest =~= s);
    }
}

/// A packet whose attributes fit reads back from its encoding unchanged.
pub proof fn law_encode_then_parse(p: PacketV)
    requires
        encodable(p),
    ensures
        parse_spec(encode_spec(p)) == Ok::<PacketV, RadiusError>(p),
{
    let body = attrs_bytes(p.attributes);
    let e = encode_spec(p);
    let n = 20 + body.len();
    assert(e.len() == n);
    assert(e[2] == (n / 256) as u8);
    assert(e[3] == (n % 256) as u8);
    assert(length_field(e) == n);
    assert(e.subrange(4, 20) =~= p.authenticator);
    assert(e.subrange(20, (20 + body.len()) as int) =~= body);
    lemma_parse_attrs_bytes(e, 20, p.attributes);
    let q = parse_spec(e).unwrap();
    assert(q.attributes == p.attributes);
    assert(q.authenticator == p.authenticator);
}

// ---------------------------------------------------------------------------
// Codec
// ---------------------------------------------------------------------------

fn copy_range(buf: &[u8], from: usize, to: usize) -> (r: Vec<u8>)
    requires
        from <= to <= buf@.len(),
    ensures
        r@ == buf@.subrange(from as int, to as int),
{
    let mut v: Vec<u8> = Vec::new();
    let mut i = from;
    while i < to
        invariant
            from <= i <= to <= buf@.len(),
            v@ == buf@.subrange(from as int, i as int),
        decreases to - i,
    {
        v.push(buf[i]);
        i = i + 1;
        assert(v@ =~= buf@.subrange(from as int, i as int));
    }
    v
}

fn append_bytes(dst: &mut Vec<u8>, src: &[u8])
    ensures
        final(dst)@ == old(dst)@ + src@,
{
    let ghost start = dst@;
    let mut i: usize = 0;
    while i < src.len()
        invariant
            i <= src@.len(),
            dst@ == start + src@.subrange(0, i as int),
        decreases src@.len() - i,
    {
        dst.push(src[i]);
        i = i + 1;
        assert(dst@ =~= start + src@.subrange(0, i as int));
    }
    assert(src@.subrange(0, src@.len() as int) =~= src@);
}

impl RadiusPacket {
    /// Decodes a packet from a datagram.
    pub fn parse(buf: &[u8]) -> (r: Result<RadiusPacket, RadiusError>)
        ensures
            match (r, parse_spec(buf@)) {
                (Ok(p), Ok(q)) => p@ == q,
                (Err(e), Err(f)) => e == f,
                _ => false,
            },
    {
        if buf.len() < 20 {
            return Err(RadiusError::TooShort(buf.len()));
        }
        let code = buf[0];
        let identifier = buf[1];
        let length = (buf[2] as usize) * 256 + (buf[3] as usize);
        if buf.len() < length {
            return Err(RadiusError::Truncated);
        }
        let authenticator: [u8; 16] = [
            buf[4],
            buf[5],
            buf[6],
            buf[7],
            buf[8],
            buf[9],
            buf[10],
            buf[11],
            buf[12],
            buf[13],
            buf[14],
            buf[15],
            buf[16],
            buf[17],
            buf[18],
            buf[19],
        ];
        assert(authenticator@ =~= buf@.subrange(4, 20));
        let ghost end = length as int;
        let mut attributes: Vec<RadiusAttribute> = Vec::new();
        let mut pos: usize = 20;
        let mut done = false;
        while !done && pos + 2 <= length
            invariant
                length <= buf@.len(),
                length <= 65535,
                end == length,
                20 <= pos <= 65535,
                done ==> parse_attrs(buf@, pos as int, end) =~= Seq::<AttrV>::empty(),
                attributes@.map_values(|a: RadiusAttribute| a@) + parse_attrs(buf@, pos as int, end)
                    == parse_attrs(buf@, 20, end),
            decreases length - pos + (if done { 0int } else { 1int }),
        {
            let attr_type = buf[pos];
            let attr_len = buf[pos + 1] as usize;
            if attr_len < 2 || pos + attr_len > length {
                done = true;
                continue;
            }
            let value = copy_range(buf, pos + 2, pos + attr_len);
            let ghost before = attributes@.map_values(|a: RadiusAttribute| a@);
            let a = RadiusAttribute { attr_type, value };
            let ghost av = a@;
            attributes.push(a);
            assert(attributes@.map_values(|a: RadiusAttribute| a@) =~= before.push(av));
            assert(parse_attrs(buf@, pos as int, end) == seq![av] + parse_attrs(
                buf@,
                pos + attr_len,
                end,
            ));
            assert(before.push(av) + parse_attrs(buf@, pos + attr_len, end) =~= before + (seq![av]
                + parse_attrs(buf@, pos + attr_len, end)));
            pos = pos + attr_len;
        }
        assert(parse_attrs(buf@, pos as int, end) =~= Seq::<AttrV>::empty());
        assert(attributes@.map_values(|a: RadiusAttribute| a@) =~= parse_attrs(buf@, 20, end));
        Ok(RadiusPacket { code, identifier, authenticator, attributes })
    }

    /// Encodes the packet (the length field is taken modulo 2^16).
    pub fn encode(&self) -> (r: Vec<u8>)
        requires
            20 + attrs_bytes(self@.attributes).len() <= usize::MAX,
        ensures
            r@ == encode_spec(self@),
    {
        let ghost attrs = self@.attributes;
        let mut attrs_buf: Vec<u8> = Vec::new();
        let mut i: usize = 0;
        while i < self.attributes.len()
            invariant
                i <= self.attributes.len(),
                attrs == self@.attributes,
                attrs.len() == self.attributes.len(),
                20 + attrs_bytes(attrs).len() <= usize::MAX,
                attrs_buf@ == attrs_bytes(attrs.take(i as int)),
            decreases self.attributes.len() - i,
        {
            let attr = &self.attributes[i];
            proof {
                lemma_attrs_bytes_push(attrs.take(i as int), attrs[i as int]);
                assert(attrs.take(i as int).push(attrs[i as int]) =~= attrs.take(i + 1));
                lemma_attrs_bytes_prefix(attrs, i as int + 1);
            }
            attrs_buf.push(attr.attr_type);
            attrs_buf.push((attr.value.len() + 2) as u8);
            append_bytes(&mut attrs_buf, attr.value.as_slice());
            assert(attrs_buf@ =~= attrs_bytes(attrs.take(i as int)) + attr_bytes(attrs[i as int]));
            i = i + 1;
        }
        assert(attrs.take(i as int) =~= attrs);
        let total = 20 + attrs_buf.len();
        let length = (total % 65536) as u16;
        let mut buf: Vec<u8> = Vec::new();
        buf.push(self.code);
        buf.push(self.identifier);
        buf.push((length / 256) as u8);
        buf.push((length % 256) as u8);
        append_bytes(&mut buf, self.authenticator.as_slice());
        append_bytes(&mut buf, attrs_buf.as_slice());
        assert(buf@ =~= encode_spec(self@));
        buf
    }

    /// The value of the first attribute of the given type.
    pub fn get_attr(&self, attr_type: u8) -> (r: Option<&[u8]>)
        ensures
            match first_attr(self@.attributes, attr_type) {
                Some(v) => r matches Some(s) && s@ == v,
                None => r is None,
            },
    {
        let mut i: usize = 0;
        while i < self.attributes.len()
            invariant
                i <= self.attributes.len(),
                forall|k: int| 0 <= k < i ==> self@.attributes[k].0 != attr_type,
            decreases self.attributes.len() - i,
        {
            if self.attributes[i].attr_type == attr_type {
                proof {
                    lemma_first_attr_at(self@.attributes, attr_type, i as int);
                }
                return Some(self.attributes[i].value.as_slice());
            }
            i = i + 1;
        }
        proof {
            lemma_first_attr_none(self@.attributes, attr_type);
        }
        None
    }
}

proof fn lemma_attrs_bytes_prefix(s: Seq<AttrV>, i: int)
    requires
        0 <= i <= s.len(),
    ensures
        attrs_bytes(s.take(i)).len() <= attrs_bytes(s).len(),
    decreases s.len() - i,
{
    if i < s.len() {
        lemma_attrs_bytes_prefix(s, i + 1);
        lemma_attrs_bytes_push(s.take(i), s[i]);
        assert(s.take(i).push(s[i]) =~= s.take(i + 1));
    } else {
        assert(s.take(i) =~= s);
    }
}

/// The value of the first attribute of type `t`.
pub open spec fn first_attr(attrs: Seq<AttrV>, t: u8) -> Option<Seq<u8>>
    decreases attrs.len(),
{
    if attrs.len() == 0 {
        None
    } else if attrs[0].0 == t {
        Some(attrs[0].1)
    } else {
        first_attr(attrs.drop_first(), t)
    }
}

proof fn lemma_first_attr_at(attrs: Seq<AttrV>, t: u8, i: int)
    requires
        0 <= i < attrs.len(),
        attrs[i].0 == t,
        forall|k: int| 0 <= k < i ==> attrs[k].0 != t,
    ensures
        first_attr(attrs, t) == Some(attrs[i].1),
    decreases i,
{
    if i > 0 {
        lemma_first_attr_at(attrs.drop_first(), t, i - 1);
    }
}

proof fn lemma_first_attr_none(attrs: Seq<AttrV>, t: u8)
    requires
        forall|k: int| 0 <= k < attrs.len() ==> attrs[k].0 != t,
    ensures
        first_attr(attrs, t) is None,
    decreases attrs.len(),
{
    if attrs.len() > 0 {
        lemma_first_attr_none(attrs.drop_first(), t);
    }
}


// ---------------------------------------------------------------------------
// Authenticators and PAP (MD5)
// ---------------------------------------------------------------------------

/// What `md5::compute` returns for some bytes: their MD5 digest.
pub uninterp spec fn md5_of(data: Seq<u8>) -> Seq<u8>;

/// `md5::compute`: the MD5 digest of the bytes, which depends on them alone.
#[verifier::external_body]
fn md5_digest(data: &[u8]) -> (r: [u8; 16])
    ensures
        r@ == md5_of(data@),
{
    md5::compute(data).0
}

/// The response packet bytes with the Response Authenticator of RFC 2865 §3:
/// MD5 over the packet carrying the request authenticator, followed by the
/// shared secret, put in the authenticator field.
pub open spec fn response_auth_spec(e: Seq<u8>, request_auth: Seq<u8>, secret: Seq<u8>) -> Seq<u8> {
    let rest = e.subrange(20, e.len() as int);
    e.subrange(0, 4) + md5_of(e.subrange(0, 4) + request_auth + rest + secret) + rest
}

/// Characters of a text as its UTF-8 bytes.
fn utf8_bytes(s: &str) -> (r: Vec<u8>)
    ensures
        r@ == s.spec_bytes(),
{
    let b = s.as_bytes();
    let mut v: Vec<u8> = Vec::new();
    append_bytes(&mut v, b);
    assert(v@ =~= b@);
    v
}

impl RadiusPacket {
    /// Encodes the packet with its Response Authenticator computed from the
    /// request's authenticator and the shared secret.
    pub fn encode_with_response_auth(&self, request_auth: &[u8; 16], secret: &[u8]) -> (r: Vec<u8>)
        requires
            20 + attrs_bytes(self@.attributes).len() + secret@.len() <= usize::MAX,
        ensures
            r@ == response_auth_spec(encode_spec(self@), request_auth@, secret@),
            r@.len() == encode_spec(self@).len(),
            r@.subrange(4, 20) == md5_of(
                encode_spec(self@).subrange(0, 4) + request_auth@ + encode_spec(self@).subrange(
                    20,
                    encode_spec(self@).len() as int,
                ) + secret@,
            ),
    {
        let buf = self.encode();
        assert(buf@.len() >= 20);
        let head = copy_range(buf.as_slice(), 0, 4);
        let rest = copy_range(buf.as_slice(), 20, buf.len());
        let mut input: Vec<u8> = Vec::new();
        append_bytes(&mut input, head.as_slice());
        append_bytes(&mut input, request_auth.as_slice());
        append_bytes(&mut input, rest.as_slice());
        append_bytes(&mut input, secret);
        let hash = md5_digest(input.as_slice());
        let mut out: Vec<u8> = Vec::new();
        append_bytes(&mut out, head.as_slice());
        append_bytes(&mut out, hash.as_slice());
        append_bytes(&mut out, rest.as_slice());
        assert(out@.subrange(4, 20) =~= hash@);
        out
    }
}

/// Byte-wise XOR of a chunk with the leading bytes of a digest.
pub open spec fn xor_with(chunk: Seq<u8>, hash: Seq<u8>) -> Seq<u8> {
    Seq::new(chunk.len(), |k: int| chunk[k] ^ hash[k])
}

/// PAP password decryption (RFC 2865 §5.2) of `enc` with 16-byte blocks, each
/// XORed with MD5(secret + previous cipher block), the first with the
/// request authenticator.
pub open spec fn pap_plain(enc: Seq<u8>, secret: Seq<u8>, prev: Seq<u8>) -> Seq<u8>
    decreases enc.len(),
{
    if enc.len() == 0 {
        Seq::empty()
    } else {
        let n = if enc.len() < 16 {
            enc.len() as int
        } else {
            16
        };
        let chunk = enc.subrange(0, n);
        xor_with(chunk, md5_of(secret + prev)) + pap_plain(
            enc.subrange(n, enc.len() as int),
            secret,
            chunk,
        )
    }
}

/// `s` without its trailing zero bytes.
pub open spec fn strip_zeros(s: Seq<u8>) -> Seq<u8>
    decreases s.len(),
{
    if s.len() > 0 && s.last() == 0 {
        strip_zeros(s.drop_last())
    } else {
        s
    }
}

/// PAP password encryption (RFC 2865 §5.2) of a (padded) password: each
/// block of 16 bytes (a shorter last one as it is) XORed with MD5(secret +
/// the previous cipher block), the first with MD5(secret + the request
/// authenticator).
pub open spec fn pap_cipher(p: Seq<u8>, secret: Seq<u8>, prev: Seq<u8>) -> Seq<u8>
    decreases p.len(),
{
    if p.len() == 0 {
        Seq::empty()
    } else {
        let n = if p.len() < 16 {
            p.len() as int
        } else {
            16
        };
        let c = xor_with(p.subrange(0, n), md5_of(secret + prev));
        c + pap_cipher(p.subrange(n, p.len() as int), secret, c)
    }
}

/// A password padded with zero bytes to a multiple of 16 (16 when empty).
pub open spec fn pap_padded(p: Seq<u8>) -> Seq<u8> {
    let pad = if p.len() > 0 && p.len() % 16 == 0 {
        0int
    } else {
        16 - p.len() % 16
    };
    p + Seq::new(pad as nat, |i: int| 0u8)
}

proof fn lemma_xor_twice(x: Seq<u8>, h: Seq<u8>)
    ensures
        xor_with(xor_with(x, h), h) == x,
{
    assert forall|k: int| 0 <= k < x.len() implies #[trigger] xor_with(xor_with(x, h), h)[k] == x[k] by {
        let a = x[k];
        let b = h[k];
        assert((a ^ b) ^ b == a) by (bit_vector);
    }
    assert(xor_with(xor_with(x, h), h) =~= x);
}

proof fn lemma_pap_cipher_len(p: Seq<u8>, secret: Seq<u8>, prev: Seq<u8>)
    ensures
        pap_cipher(p, secret, prev).len() == p.len(),
    decreases p.len(),
{
    if p.len() > 0 {
        let n = if p.len() < 16 {
            p.len() as int
        } else {
            16
        };
        let c = xor_with(p.subrange(0, n), md5_of(secret + prev));
        lemma_pap_cipher_len(p.subrange(n, p.len() as int), secret, c);
    }
}

/// Decryption undoes PAP encryption: for every password (of any length),
/// secret and request authenticator, decrypting the encryption chained on
/// the cipher blocks gives the password back.
pub proof fn law_pap_decrypt_encrypt(p: Seq<u8>, secret: Seq<u8>, auth: Seq<u8>)
    ensures
        pap_plain(pap_cipher(p, secret, auth), secret, auth) == p,
    decreases p.len(),
{
    if p.len() > 0 {
        let n = if p.len() < 16 {
            p.len() as int
        } else {
            16
        };
        let h = md5_of(secret + auth);
        let c = xor_with(p.subrange(0, n), h);
        let rest = p.subrange(n, p.len() as int);
        let e = pap_cipher(p, secret, auth);
        lemma_pap_cipher_len(rest, secret, c);
        assert(e == c + pap_cipher(rest, secret, c));
        assert(e.subrange(0, n) =~= c);
        assert(e.subrange(n, e.len() as int) =~= pap_cipher(rest, secret, c));
        law_pap_decrypt_encrypt(rest, secret, c);
        lemma_xor_twice(p.subrange(0, n), h);
        assert(pap_plain(e, secret, auth) == xor_with(c, h) + pap_plain(pap_cipher(rest, secret, c), secret, c));
        assert(p.subrange(0, n) + rest =~= p);
    }
}

proof fn lemma_strip_zeros_padding(p: Seq<u8>, k: nat)
    requires
        p.len() == 0 || p.last() != 0,
    ensures
        strip_zeros(p + Seq::new(k, |i: int| 0u8)) == p,
    decreases k,
{
    let z = Seq::new(k, |i: int| 0u8);
    if k == 0 {
        assert(p + z =~= p);
        if p.len() > 0 {
            assert(strip_zeros(p) == p);
        }
    } else {
        let z1 = Seq::new((k - 1) as nat, |i: int| 0u8);
        assert((p + z).drop_last() =~= p + z1);
        assert((p + z).last() == 0);
        lemma_strip_zeros_padding(p, (k - 1) as nat);
    }
}

/// The admin login: the password the client typed (one that does not end in
/// a zero byte), padded and encrypted as RFC 2865 §5.2 says, decrypts and
/// unpads to exactly that password.
pub proof fn law_pap_password_roundtrip(p: Seq<u8>, secret: Seq<u8>, auth: Seq<u8>)
    requires
        p.len() == 0 || p.last() != 0,
    ensures
        strip_zeros(pap_plain(pap_cipher(pap_padded(p), secret, auth), secret, auth)) == p,
{
    law_pap_decrypt_encrypt(pap_padded(p), secret, auth);
    let pad = if p.len() > 0 && p.len() % 16 == 0 {
        0int
    } else {
        16 - p.len() % 16
    };
    lemma_strip_zeros_padding(p, pad as nat);
}

/// Decrypts a PAP User-Password and drops the zero padding.
pub fn decrypt_pap_password(encrypted: &[u8], secret: &[u8], authenticator: &[u8; 16]) -> (r: Vec<u8>)
    requires
        secret@.len() + 16 <= usize::MAX,
    ensures
        r@ == strip_zeros(pap_plain(encrypted@, secret@, authenticator@)),
{
    let ghost whole = pap_plain(encrypted@, secret@, authenticator@);
    let mut result: Vec<u8> = Vec::new();
    let mut prev: Vec<u8> = Vec::new();
    append_bytes(&mut prev, authenticator.as_slice());
    let mut pos: usize = 0;
    assert(prev@ =~= authenticator@);
    assert(encrypted@.subrange(0, encrypted@.len() as int) =~= encrypted@);
    assert(result@ + whole =~= whole);
    while pos < encrypted.len()
        invariant
            pos <= encrypted@.len(),
            secret@.len() + 16 <= usize::MAX,
            prev@.len() <= 16,
            result@ + pap_plain(encrypted@.subrange(pos as int, encrypted@.len() as int), secret@, prev@)
                == whole,
        decreases encrypted@.len() - pos,
    {
        let ghost tail = encrypted@.subrange(pos as int, encrypted@.len() as int);
        let end = if encrypted.len() - pos < 16 {
            encrypted.len()
        } else {
            pos + 16
        };
        let chunk = copy_range(encrypted, pos, end);
        assert(chunk@ =~= tail.subrange(0, (end - pos) as int));
        let mut input: Vec<u8> = Vec::new();
        append_bytes(&mut input, secret);
        append_bytes(&mut input, prev.as_slice());
        let hash = md5_digest(input.as_slice());
        let ghost before = result@;
        let mut k: usize = 0;
        while k < chunk.len()
            invariant
                k <= chunk@.len() <= 16,
                result@ == before + xor_with(chunk@, hash@).subrange(0, k as int),
            decreases chunk@.len() - k,
        {
            result.push(chunk[k] ^ hash[k]);
            k = k + 1;
            assert(result@ =~= before + xor_with(chunk@, hash@).subrange(0, k as int));
        }
        assert(xor_with(chunk@, hash@).subrange(0, k as int) =~= xor_with(chunk@, hash@));
        assert(tail.subrange((end - pos) as int, tail.len() as int) =~= encrypted@.subrange(
            end as int,
            encrypted@.len() as int,
        ));
        assert(result@ + pap_plain(encrypted@.subrange(end as int, encrypted@.len() as int), secret@, chunk@)
            =~= before + pap_plain(tail, secret@, prev@));
        prev = chunk;
        pos = end;
    }
    assert(encrypted@.subrange(pos as int, encrypted@.len() as int) =~= Seq::<u8>::empty());
    assert(result@ =~= whole);
    while result.len() > 0 && result[result.len() - 1] == 0
        invariant
            strip_zeros(result@) == strip_zeros(whole),
        decreases result.len(),
    {
        let ghost before = result@;
        result.pop();
        assert(result@ =~= before.drop_last());
    }
    result
}

// ---------------------------------------------------------------------------
// Replies
// ---------------------------------------------------------------------------

/// Tunnel attributes (RFC 2868) that assign a VLAN: Tunnel-Type = VLAN (13),
/// Tunnel-Medium-Type = 802 (6), Tunnel-Private-Group-ID = the VLAN number in
/// decimal; each value starts with a zero tag byte, and the two type values
/// are three octets long.
pub open spec fn vlan_attrs_spec(vlan_id: u16) -> Seq<AttrV> {
    seq![
        (ATTR_TUNNEL_TYPE, seq![0u8, 0u8, 0u8, 13u8]),
        (ATTR_TUNNEL_MEDIUM_TYPE, seq![0u8, 0u8, 0u8, 6u8]),
        (ATTR_TUNNEL_PRIVATE_GROUP_ID, seq![0u8] + decimal(vlan_id as nat).map_values(|c: char| c as u8)),
    ]
}

pub proof fn lemma_decimal_ascii(n: nat)
    ensures
        forall|i: int| 0 <= i < decimal(n).len() ==> '0' <= #[trigger] decimal(n)[i] <= '9',
        decimal(n).len() >= 1,
    decreases n,
{
    if n >= 10 {
        lemma_decimal_ascii(n / 10);
    }
}

/// The VLAN assignment attributes for a VLAN.
pub fn vlan_attributes(vlan_id: u16) -> (r: Vec<RadiusAttribute>)
    ensures
        r@.map_values(|a: RadiusAttribute| a@) == vlan_attrs_spec(vlan_id),
{
    let mut tunnel_type: Vec<u8> = Vec::new();
    tunnel_type.push(0);
    tunnel_type.push(0);
    tunnel_type.push(0);
    tunnel_type.push(13);
    let mut medium_type: Vec<u8> = Vec::new();
    medium_type.push(0);
    medium_type.push(0);
    medium_type.push(0);
    medium_type.push(6);
    assert(tunnel_type@ =~= seq![0u8, 0u8, 0u8, 13u8]);
    assert(medium_type@ =~= seq![0u8, 0u8, 0u8, 6u8]);
    let digits = u64_decimal(vlan_id as u64);
    proof {
        lemma_decimal_ascii(vlan_id as nat);
    }
    let mut group_id: Vec<u8> = Vec::new();
    group_id.push(0);
    let mut i: usize = 0;
    while i < digits.len()
        invariant
            i <= digits@.len(),
            digits@ == decimal(vlan_id as nat),
            forall|k: int| 0 <= k < digits@.len() ==> '0' <= #[trigger] digits@[k] <= '9',
            group_id@ == seq![0u8] + digits@.subrange(0, i as int).map_values(|c: char| c as u8),
        decreases digits@.len() - i,
    {
        let c = digits[i];
        group_id.push(c as u8);
        i = i + 1;
        assert(group_id@ =~= seq![0u8] + digits@.subrange(0, i as int).map_values(|c: char| c as u8));
    }
    assert(digits@.subrange(0, i as int) =~= digits@);
    let mut v: Vec<RadiusAttribute> = Vec::new();
    v.push(RadiusAttribute { attr_type: ATTR_TUNNEL_TYPE, value: tunnel_type });
    v.push(RadiusAttribute { attr_type: ATTR_TUNNEL_MEDIUM_TYPE, value: medium_type });
    v.push(RadiusAttribute { attr_type: ATTR_TUNNEL_PRIVATE_GROUP_ID, value: group_id });
    assert(v@.map_values(|a: RadiusAttribute| a@) =~= vlan_attrs_spec(vlan_id));
    v
}

/// The reply to an Access-Request: Accept or Reject with the request's
/// identifier and authenticator, a Reply-Message, and the VLAN attributes
/// when accepting with a VLAN.
pub open spec fn response_spec(req: PacketV, accept: bool, vlan: Option<u16>, message: Seq<u8>) -> PacketV {
    PacketV {
        code: if accept {
            CODE_ACCESS_ACCEPT
        } else {
            CODE_ACCESS_REJECT
        },
        identifier: req.identifier,
        authenticator: req.authenticator,
        attributes: seq![(ATTR_REPLY_MESSAGE, message)] + (if accept && vlan is Some {
            vlan_attrs_spec(vlan.unwrap())
        } else {
            Seq::empty()
        }),
    }
}

/// Builds the reply to an Access-Request.
pub fn build_response(req: &RadiusPacket, accept: bool, vlan: Option<u16>, message: &str) -> (r: RadiusPacket)
    ensures
        r@ == response_spec(req@, accept, vlan, message.spec_bytes()),
{
    let code = if accept {
        CODE_ACCESS_ACCEPT
    } else {
        CODE_ACCESS_REJECT
    };
    let mut attributes: Vec<RadiusAttribute> = Vec::new();
    attributes.push(RadiusAttribute { attr_type: ATTR_REPLY_MESSAGE, value: utf8_bytes(message) });
    let ghost first = attributes@.map_values(|a: RadiusAttribute| a@);
    if accept {
        if let Some(v) = vlan {
            let extra = vlan_attributes(v);
            let mut i: usize = 0;
            let mut extra = extra;
            let ghost ev = extra@.map_values(|a: RadiusAttribute| a@);
            let mut taken: Vec<RadiusAttribute> = Vec::new();
            while extra.len() > 0
                invariant
                    ev == vlan_attrs_spec(v),
                    taken@.map_values(|a: RadiusAttribute| a@) + extra@.map_values(|a: RadiusAttribute| a@) == ev,
                decreases extra.len(),
            {
                let a = extra.remove(0);
                let ghost av = a@;
                let ghost tv = taken@.map_values(|a: RadiusAttribute| a@);
                taken.push(a);
                assert(taken@.map_values(|a: RadiusAttribute| a@) =~= tv.push(av));
                assert(tv.push(av) + extra@.map_values(|a: RadiusAttribute| a@) =~= ev);
            }
            assert(taken@.map_values(|a: RadiusAttribute| a@) =~= ev);
            attributes.append(&mut taken);
        }
    }
    let r = RadiusPacket { code, identifier: req.identifier, authenticator: req.authenticator, attributes };
    assert(r@.attributes =~= response_spec(req@, accept, vlan, message.spec_bytes()).attributes);
    r
}

/// The reply on the accounting port: an Accounting-Response with the
/// request's identifier and authenticator and no attributes, for an
/// Accounting-Request; nothing for any other code.
pub fn accounting_reply(pkt: &RadiusPacket) -> (r: Option<RadiusPacket>)
    ensures
        pkt.code == CODE_ACCOUNTING_REQUEST <==> r is Some,
        r matches Some(p) ==> p@ == (PacketV {
            code: CODE_ACCOUNTING_RESPONSE,
            identifier: pkt.identifier,
            authenticator: pkt@.authenticator,
            attributes: Seq::empty(),
        }),
{
    if pkt.code == CODE_ACCOUNTING_REQUEST {
        let p = RadiusPacket {
            code: CODE_ACCOUNTING_RESPONSE,
            identifier: pkt.identifier,
            authenticator: pkt.authenticator,
            attributes: Vec::new(),
        };
        assert(p@.attributes =~= Seq::<AttrV>::empty());
        Some(p)
    } else {
        None
    }
}

// ---------------------------------------------------------------------------
// MAC authentication decisions
// ---------------------------------------------------------------------------

/// What `String::from_utf8_lossy` returns for some bytes: the UTF-8 decoding
/// with each invalid sequence replaced by U+FFFD.
pub uninterp spec fn utf8_lossy(b: Seq<u8>) -> Seq<char>;

/// `String::from_utf8_lossy`: on well-formed UTF-8 it is the plain decoding.
#[verifier::external_body]
fn lossy_text(bytes: &[u8]) -> (r: String)
    ensures
        r@ == utf8_lossy(bytes@),
        vstd::utf8::valid_utf8(bytes@) ==> r@ == vstd::utf8::decode_utf8(bytes@),
{
    String::from_utf8_lossy(bytes).into_owned()
}

/// A MAC text normalized to lower-case colon form (`aa:bb:cc:dd:ee:ff`)
/// when it holds exactly twelve hex digits.
pub fn normalize_mac(raw: &str) -> (r: Option<String>)
    ensures
        match normalized_mac(raw@) {
            Some(m) => r matches Some(s) && s@ == m,
            None => r is None,
        },
{
    let cs = chars_of(raw);
    match normalize_mac_chars(&cs) {
        Some(v) => Some(string_from_chars(v)),
        None => None,
    }
}

/// The text of the first attribute of a type, when it is well-formed UTF-8.
pub open spec fn attr_text(p: PacketV, t: u8) -> Option<Seq<char>> {
    match first_attr(p.attributes, t) {
        Some(v) => if vstd::utf8::valid_utf8(v) {
            Some(vstd::utf8::decode_utf8(v))
        } else {
            None
        },
        None => None,
    }
}

fn attr_string(pkt: &RadiusPacket, t: u8) -> (r: Option<String>)
    ensures
        match attr_text(pkt@, t) {
            Some(x) => r matches Some(s) && s@ == x,
            None => r is None,
        },
{
    match pkt.get_attr(t) {
        Some(b) => {
            let mut v: Vec<u8> = Vec::new();
            append_bytes(&mut v, b);
            assert(v@ =~= b@);
            utf8_string(v)
        },
        None => None,
    }
}

/// The MAC text of an Access-Request: Calling-Station-Id, else User-Name
/// (MAC authentication bypass), else empty.
pub open spec fn request_mac_spec(p: PacketV) -> Seq<char> {
    match attr_text(p, ATTR_CALLING_STATION_ID) {
        Some(t) => t,
        None => match attr_text(p, ATTR_USER_NAME) {
            Some(u) => u,
            None => Seq::empty(),
        },
    }
}

pub fn request_mac_text(pkt: &RadiusPacket) -> (r: String)
    ensures
        r@ == request_mac_spec(pkt@),
{
    match attr_string(pkt, ATTR_CALLING_STATION_ID) {
        Some(t) => t,
        None => match attr_string(pkt, ATTR_USER_NAME) {
            Some(u) => u,
            None => String::new(),
        },
    }
}

/// Settings that the access decision reads from the environment.
pub struct RadiusEnv {
    /// Administrator account accepted by the PAP fallback.
    pub admin_user: String,
    pub admin_pass: String,
    /// VLAN offered to unknown endpoints (text, parsed as a `u16`).
    pub unknown_vlan: Option<String>,
    /// VLAN assigned to allowed endpoints.
    pub allow_vlan: Option<String>,
    /// VLAN assigned to quarantined endpoints (99 when unset or unparsable).
    pub quarantine_vlan: Option<String>,
}

/// A text setting parsed as a VLAN number.
pub open spec fn vlan_setting(v: Option<String>) -> Option<u16> {
    match v {
        Some(s) => parse_u16_spec(s@),
        None => None,
    }
}

fn parse_vlan_setting(v: &Option<String>) -> (r: Option<u16>)
    ensures
        r == vlan_setting(*v),
{
    match v {
        Some(s) => parse_u16(s.as_str()),
        None => None,
    }
}

/// First step of handling an Access-Request.
pub enum AccessPlan {
    /// The request names no MAC: answer it with this PAP reply.
    Reply(RadiusPacket),
    /// Look the endpoint with this normalized MAC up, then decide.
    LookUp(String),
}

/// Whether the PAP fallback accepts: a User-Password is present, the user
/// name is the administrator's and the decrypted password, decoded leniently,
/// is the administrator's password.
pub open spec fn pap_accepts(p: PacketV, secret: Seq<u8>, env_user: Seq<char>, env_pass: Seq<char>) -> bool {
    let user = match attr_text(p, ATTR_USER_NAME) {
        Some(u) => u,
        None => Seq::empty(),
    };
    match first_attr(p.attributes, ATTR_USER_PASSWORD) {
        Some(enc) => user == env_user && utf8_lossy(strip_zeros(pap_plain(enc, secret, p.authenticator)))
            == env_pass,
        None => false,
    }
}

/// Decides the first step of an Access-Request: look the endpoint up by its
/// MAC, or answer with PAP against the administrator account.
pub fn plan_access_request(pkt: &RadiusPacket, secret: &[u8], env: &RadiusEnv) -> (r: AccessPlan)
    requires
        secret@.len() + 16 <= usize::MAX,
    ensures
        match normalized_mac(request_mac_spec(pkt@)) {
            Some(m) => r matches AccessPlan::LookUp(s) && s@ == m,
            None => r matches AccessPlan::Reply(reply) && reply@ == response_spec(
                pkt@,
                pap_accepts(pkt@, secret@, env.admin_user@, env.admin_pass@),
                None,
                "PAP authentication".spec_bytes(),
            ),
        },
{
    let raw = request_mac_text(pkt);
    match normalize_mac(raw.as_str()) {
        Some(m) => AccessPlan::LookUp(m),
        None => {
            let username = match attr_string(pkt, ATTR_USER_NAME) {
                Some(u) => u,
                None => String::new(),
            };
            let authenticated = match pkt.get_attr(ATTR_USER_PASSWORD) {
                Some(enc) => {
                    let pw = decrypt_pap_password(enc, secret, &pkt.authenticator);
                    let pw_str = lossy_text(pw.as_slice());
                    username == env.admin_user && pw_str == env.admin_pass
                },
                None => false,
            };
            AccessPlan::Reply(build_response(pkt, authenticated, None, "PAP authentication"))
        },
    }
}

/// Failing closed: a request without a User-Password never passes PAP, and
/// every refusal carries its Reply-Message and nothing else (no VLAN).
pub proof fn law_fail_closed(p: PacketV, secret: Seq<u8>, env_user: Seq<char>, env_pass: Seq<char>, vlan: Option<u16>, msg: Seq<u8>)
    ensures
        first_attr(p.attributes, ATTR_USER_PASSWORD) is None ==> !pap_accepts(p, secret, env_user, env_pass),
        response_spec(p, false, vlan, msg).code == CODE_ACCESS_REJECT,
        response_spec(p, false, vlan, msg).attributes == seq![(ATTR_REPLY_MESSAGE, msg)],
{
    assert(response_spec(p, false, vlan, msg).attributes =~= seq![(ATTR_REPLY_MESSAGE, msg)]);
}

/// What looking the endpoint up gave.
pub enum EndpointLookup {
    /// Found, with its id and access status.
    Found { id: String, status: String },
    /// No endpoint has this MAC.
    NotFound,
    /// The lookup failed.
    Failed,
}

/// The accept flag, VLAN and reply message for an endpoint's status:
/// allowed endpoints are accepted (with the configured VLAN, if any),
/// quarantined ones are accepted into the quarantine VLAN (99 by default),
/// all others rejected.
pub open spec fn status_decision(status: Seq<char>, env_allow: Option<String>, env_quarantine: Option<String>) -> (bool, Option<u16>, Seq<char>) {
    if status == "allowed"@ {
        (true, vlan_setting(env_allow), "Access granted"@)
    } else if status == "quarantined"@ {
        (
            true,
            Some(
                match vlan_setting(env_quarantine) {
                    Some(v) => v,
                    None => 99u16,
                },
            ),
            "Quarantine VLAN assigned"@,
        )
    } else {
        (false, None, "Access denied"@)
    }
}

/// The outcome of an Access-Request after the lookup.
pub struct AccessOutcome {
    pub response: RadiusPacket,
    pub accept: bool,
    pub vlan: Option<u16>,
    /// Audit event to record, if any.
    pub audit_event: Option<&'static str>,
    /// The endpoint id that the audit record and the bus event carry.
    pub endpoint_id: Option<String>,
    /// Whether an authentication event is published on the bus.
    pub publish: bool,
}

/// Decides the reply once the endpoint lookup is done.
pub fn decide_after_lookup(pkt: &RadiusPacket, lookup: &EndpointLookup, env: &RadiusEnv) -> (r: AccessOutcome)
    ensures
        match lookup {
            EndpointLookup::Found { id, status } => {
                let d = status_decision(status@, env.allow_vlan, env.quarantine_vlan);
                &&& r.accept == d.0
                &&& r.vlan == d.1
                &&& r.response@ == response_spec(pkt@, d.0, d.1, vstd::utf8::encode_utf8(d.2))
                &&& r.audit_event matches Some(e) && e@ == (if d.0 {
                    "radius_auth_success"@
                } else {
                    "radius_auth_failure"@
                })
                &&& r.endpoint_id == Some(*id)
                &&& r.publish
            },
            EndpointLookup::NotFound => {
                &&& !r.accept
                &&& r.vlan == vlan_setting(env.unknown_vlan)
                &&& r.response@ == response_spec(pkt@, false, r.vlan, "Unknown endpoint".spec_bytes())
                &&& r.audit_event matches Some(e) && e@ == "radius_unknown_endpoint"@
                &&& r.endpoint_id is None
                &&& !r.publish
            },
            EndpointLookup::Failed => {
                &&& !r.accept
                &&& r.vlan is None
                &&& r.response@ == response_spec(pkt@, false, None, "Internal error".spec_bytes())
                &&& r.audit_event is None
                &&& r.endpoint_id is None
                &&& !r.publish
            },
        },
{
    match lookup {
        EndpointLookup::Found { id, status } => {
            let allowed = "allowed";
            let quarantined = "quarantined";
            let st = status.as_str();
            let (accept, vlan, msg): (bool, Option<u16>, &'static str) = if str_eq(st, allowed) {
                (true, parse_vlan_setting(&env.allow_vlan), "Access granted")
            } else if str_eq(st, quarantined) {
                let v: u16 = match parse_vlan_setting(&env.quarantine_vlan) {
                    Some(v) => v,
                    None => 99,
                };
                (true, Some(v), "Quarantine VLAN assigned")
            } else {
                (false, None, "Access denied")
            };
            let response = build_response(pkt, accept, vlan, msg);
            let event: &'static str = if accept {
                "radius_auth_success"
            } else {
                "radius_auth_failure"
            };
            AccessOutcome {
                response,
                accept,
                vlan,
                audit_event: Some(event),
                endpoint_id: Some(id.clone()),
                publish: true,
            }
        },
        EndpointLookup::NotFound => {
            let vlan = parse_vlan_setting(&env.unknown_vlan);
            AccessOutcome {
                response: build_response(pkt, false, vlan, "Unknown endpoint"),
                accept: false,
                vlan,
                audit_event: Some("radius_unknown_endpoint"),
                endpoint_id: None,
                publish: false,
            }
        },
        EndpointLookup::Failed => AccessOutcome {
            response: build_response(pkt, false, None, "Internal error"),
            accept: false,
            vlan: None,
            audit_event: None,
            endpoint_id: None,
            publish: false,
        },
    }
}
} // verus!
