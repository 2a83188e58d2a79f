//! Bearer tokens in the three-part `header.claims.signature` form, each
//! part base64url-encoded, signed with a keyed 64-bit hash.
//!
//! The clock and the parsing of the claims JSON stay with the caller:
//! `create_token` takes the current time, `check_token` hands back the
//! claims bytes once the signature matches, and `accept_claims` decides on
//! the parsed expiry.

use std::collections::hash_map::DefaultHasher;
use std::hash::Hasher;
use vstd::prelude::*;
use vstd::std_specs::hash::DefaultHasherAdditionalSpecFns;
use vstd::string::StringSliceAdditionalSpecFns;
use crate::api_gateway::base64url::{
    ascii_string, ascii_text, decode_bytes, decode_spec, encode_bytes, encode_spec, is_symbol,
    lemma_decode_encode, lemma_encode_shape,
};
use crate::netproto::{extend_bytes, slice_bytes};
use crate::text::{bytes_eq, decimal, hex_char_lower, push_all, push_str, string_from_chars, u64_decimal};

verus! {

broadcast use vstd::string::group_string_axioms;

/// How long a token stays valid, in seconds.
pub const TOKEN_LIFETIME_SECS: u64 = 86400;

/// Why a token was refused.
#[derive(Debug, Clone, Copy, PartialEq, Eq, Structural)]
pub enum TokenError {
    /// The token does not have three dot-separated parts.
    InvalidFormat,
    /// The signature does not match the header and claims.
    InvalidSignature,
    /// The claims could not be read.
    MalformedClaims,
    /// The token's expiry lies before the current time.
    Expired,
}

impl TokenError {
    /// The message that goes with the error.
    pub fn message(&self) -> (r: String)
        ensures
            r@ == token_error_text(*self),
    {
        match self {
            TokenError::InvalidFormat => crate::text::owned("invalid token format"),
            TokenError::InvalidSignature => crate::text::owned("invalid token signature"),
            TokenError::MalformedClaims => crate::text::owned("invalid token claims"),
            TokenError::Expired => crate::text::owned("token expired"),
        }
    }
}

pub open spec fn token_error_text(e: TokenError) -> Seq<char> {
    match e {
        TokenError::InvalidFormat => "invalid token format"@,
        TokenError::InvalidSignature => "invalid token signature"@,
        TokenError::MalformedClaims => "invalid token claims"@,
        TokenError::Expired => "token expired"@,
    }
}

// ---------------------------------------------------------------------------
// The keyed hash
// ---------------------------------------------------------------------------

/// The `k` low bytes of `v`, least significant first.
pub open spec fn le_bytes(v: nat, k: nat) -> Seq<u8>
    decreases k,
{
    if k == 0 {
        seq![]
    } else {
        seq![(v % 256) as u8] + le_bytes(v / 256, (k - 1) as nat)
    }
}

/// The eight little-endian bytes of a 64-bit value.
pub open spec fn le8(v: u64) -> Seq<u8> {
    le_bytes(v as nat, 8)
}

fn u64_le_bytes(v: u64) -> (r: Vec<u8>)
    ensures
        r@ == le8(v),
{
    let mut out: Vec<u8> = Vec::new();
    let mut cur: u64 = v;
    let mut i: usize = 0;
    assert(out@ + le_bytes(cur as nat, 8) =~= le8(v));
    while i < 8
        invariant
            i <= 8,
            out@ + le_bytes(cur as nat, (8 - i) as nat) == le8(v),
        decreases 8 - i,
    {
        let ghost before = out@;
        out.push((cur % 256) as u8);
        assert(le_bytes(cur as nat, (8 - i) as nat) == seq![(cur % 256) as u8] + le_bytes(
            (cur / 256) as nat,
            (8 - i - 1) as nat,
        ));
        assert(out@ + le_bytes((cur / 256) as nat, (8 - i - 1) as nat) =~= before + le_bytes(
            cur as nat,
            (8 - i) as nat,
        ));
        cur = cur / 256;
        i = i + 1;
    }
    assert(out@ + le_bytes(cur as nat, 0) =~= out@);
    out
}

/// The 32-byte signature tag of a 64-bit hash: its little-endian bytes,
/// four times over.
pub open spec fn tag_of(h: u64) -> Seq<u8> {
    le8(h) + le8(h) + le8(h) + le8(h)
}

/// The writes made into the hasher for a key and data: each slice preceded
/// by its length as eight little-endian bytes. On a 64-bit little-endian
/// machine this is what `Hash` for a byte slice writes; elsewhere `Hash`
/// writes a native-width, native-order length, and this code still writes
/// eight little-endian bytes, so its tags are the same on every machine.
pub open spec fn digest_writes(key: Seq<u8>, data: Seq<u8>) -> Seq<Seq<u8>> {
    seq![le8(key.len() as u64), key, le8(data.len() as u64), data]
}

/// The signature tag of `data` under `key`.
pub open spec fn keyed_digest(key: Seq<u8>, data: Seq<u8>) -> Seq<u8> {
    tag_of(DefaultHasher::spec_finish(digest_writes(key, data)))
}

/// Signature tag of `data` under `key`: std's `DefaultHasher` over the key
/// and the data, its 64-bit result repeated to 32 bytes. It is not an
/// HMAC; tokens signed with it are only checked by this same code.
pub fn hmac_sha256(key: &[u8], data: &[u8]) -> (r: Vec<u8>)
    ensures
        r@ == keyed_digest(key@, data@),
{
    let mut hasher = DefaultHasher::new();
    let key_len = u64_le_bytes(key.len() as u64);
    hasher.write(key_len.as_slice());
    hasher.write(key);
    let data_len = u64_le_bytes(data.len() as u64);
    hasher.write(data_len.as_slice());
    hasher.write(data);
    assert(hasher@ =~= digest_writes(key@, data@));
    let h = hasher.finish();
    let one = u64_le_bytes(h);
    let mut out: Vec<u8> = Vec::new();
    extend_bytes(&mut out, one.as_slice());
    extend_bytes(&mut out, one.as_slice());
    extend_bytes(&mut out, one.as_slice());
    extend_bytes(&mut out, one.as_slice());
    assert(out@ =~= tag_of(h));
    out
}

// ---------------------------------------------------------------------------
// Claims
// ---------------------------------------------------------------------------

/// How serde_json writes one character inside a string literal: `"` and
/// `\` escaped with a backslash, backspace, form feed, line feed, carriage
/// return and tab as `\b \f \n \r \t`, other characters below U+0020 as
/// `\u00` and two lower-case hex digits, everything else as it is.
pub open spec fn json_escape_char(c: char) -> Seq<char> {
    let n = c as u32;
    if c == '"' {
        seq!['\\', '"']
    } else if c == '\\' {
        seq!['\\', '\\']
    } else if n == 8 {
        seq!['\\', 'b']
    } else if n == 9 {
        seq!['\\', 't']
    } else if n == 10 {
        seq!['\\', 'n']
    } else if n == 12 {
        seq!['\\', 'f']
    } else if n == 13 {
        seq!['\\', 'r']
    } else if n < 32 {
        seq!['\\', 'u', '0', '0', hex_char_lower(n as int / 16), hex_char_lower(n as int % 16)]
    } else {
        seq![c]
    }
}

/// The characters of a string, each written as `json_escape_char` says.
pub open spec fn json_escaped(s: Seq<char>) -> Seq<char>
    decreases s.len(),
{
    if s.len() == 0 {
        Seq::empty()
    } else {
        json_escaped(s.drop_last()) + json_escape_char(s.last())
    }
}

/// What `serde_json::to_string` gives for a string: its JSON string
/// literal, the escaped characters between double quotes.
pub open spec fn json_string_literal(s: Seq<char>) -> Seq<char> {
    seq!['"'] + json_escaped(s) + seq!['"']
}

/// `serde_json::to_string` on a string slice. Its documentation names two
/// ways serialization can fail (a failing `Serialize` impl, a map with
/// non-string keys); neither applies to a string, so the error arm is
/// unreachable.
#[verifier::external_body]
fn json_quote(s: &str) -> (r: String)
    ensures
        r@ == json_string_literal(s@),
{
    match serde_json::to_string(s) {
        Ok(q) => q,
        Err(_) => String::new(),
    }
}

/// The claims of a token for `sub` expiring at `exp`, as compact JSON.
pub open spec fn claims_text(sub: Seq<char>, exp: nat) -> Seq<char> {
    "{\"sub\":"@ + json_string_literal(sub) + ",\"exp\":"@ + decimal(exp) + "}"@
}

/// The claims JSON for a subject and an expiry time.
pub fn claims_json(sub: &str, exp: u64) -> (r: String)
    ensures
        r@ == claims_text(sub@, exp as nat),
{
    let mut out: Vec<char> = Vec::new();
    push_str(&mut out, "{\"sub\":");
    let q = json_quote(sub);
    push_str(&mut out, q.as_str());
    push_str(&mut out, ",\"exp\":");
    let d = u64_decimal(exp);
    push_all(&mut out, &d);
    push_str(&mut out, "}");
    string_from_chars(out)
}

// ---------------------------------------------------------------------------
// Tokens
// ---------------------------------------------------------------------------

/// The fixed token header.
pub open spec fn header_text() -> Seq<char> {
    "{\"alg\":\"HS256\",\"typ\":\"JWT\"}"@
}

/// The signed part of a token: encoded header, a dot, encoded claims.
pub open spec fn signed_part(claims: Seq<u8>) -> Seq<u8> {
    encode_spec(vstd::utf8::encode_utf8(header_text())) + seq![46u8] + encode_spec(claims)
}

/// The bytes of the token carrying `claims`, signed under `secret`.
pub open spec fn token_bytes(secret: Seq<u8>, claims: Seq<u8>) -> Seq<u8> {
    signed_part(claims) + seq![46u8] + encode_spec(keyed_digest(secret, signed_part(claims)))
}

/// Signs claims bytes into a token.
pub fn sign_claims(secret: &[u8], claims: &[u8]) -> (r: String)
    ensures
        r@ == ascii_text(token_bytes(secret@, claims@)),
{
    let header: &str = "{\"alg\":\"HS256\",\"typ\":\"JWT\"}";
    let mut message = encode_bytes(header.as_bytes());
    message.push(46);
    let payload = encode_bytes(claims);
    extend_bytes(&mut message, payload.as_slice());
    assert(message@ =~= signed_part(claims@));
    let sig = encode_bytes(hmac_sha256(secret, message.as_slice()).as_slice());
    let mut token = message;
    token.push(46);
    extend_bytes(&mut token, sig.as_slice());
    ascii_string(&token)
}

/// Creates the token for `username`, valid for a day from `now` (seconds
/// since the Unix epoch).
pub fn create_token(secret: &[u8], username: &str, now: u64) -> (r: String)
    requires
        now + TOKEN_LIFETIME_SECS <= u64::MAX,
    ensures
        r@ == ascii_text(
            token_bytes(
                secret@,
                vstd::utf8::encode_utf8(claims_text(username@, (now + TOKEN_LIFETIME_SECS) as nat)),
            ),
        ),
{
    let claims = claims_json(username, now + TOKEN_LIFETIME_SECS);
    sign_claims(secret, claims.as_str().as_bytes())
}

/// The position of the first dot in `s` at or after `i`; `s.len()` when
/// there is none.
pub open spec fn dot_from(s: Seq<u8>, i: int) -> int
    decreases s.len() - i,
{
    if i < 0 || i >= s.len() {
        s.len() as int
    } else if s[i] == 46 {
        i
    } else {
        dot_from(s, i + 1)
    }
}

/// What checking a token gives: its three parts are split at the first two
/// dots (the last part keeps any further dots); the signature must equal
/// the tag of everything before the second dot; the claims bytes are then
/// the decoded middle part.
pub open spec fn token_check(secret: Seq<u8>, t: Seq<u8>) -> Result<Seq<u8>, TokenError> {
    let i1 = dot_from(t, 0);
    let i2 = dot_from(t, i1 + 1);
    if i1 >= t.len() || i2 >= t.len() {
        Err(TokenError::InvalidFormat)
    } else if keyed_digest(secret, t.subrange(0, i2)) != decode_spec(t.subrange(i2 + 1, t.len() as int)) {
        Err(TokenError::InvalidSignature)
    } else {
        Ok(decode_spec(t.subrange(i1 + 1, i2)))
    }
}

fn find_dot(s: &[u8], from: usize) -> (r: usize)
    requires
        from <= s.len(),
    ensures
        r == dot_from(s@, from as int),
        from <= r <= s.len(),
{
    let mut i = from;
    while i < s.len() && s[i] != 46
        invariant
            from <= i <= s.len(),
            dot_from(s@, from as int) == dot_from(s@, i as int),
        decreases s.len() - i,
    {
        i = i + 1;
    }
    i
}

/// Checks a token's form and signature and gives back its claims bytes.
pub fn check_token(secret: &[u8], token: &str) -> (r: Result<Vec<u8>, TokenError>)
    ensures
        match token_check(secret@, token.spec_bytes()) {
            Ok(c) => r matches Ok(v) && v@ == c,
            Err(e) => r == Err::<Vec<u8>, TokenError>(e),
        },
{
    let t = token.as_bytes();
    let n = t.len();
    let i1 = find_dot(t, 0);
    if i1 >= n {
        return Err(TokenError::InvalidFormat);
    }
    let i2 = find_dot(t, i1 + 1);
    if i2 >= n {
        return Err(TokenError::InvalidFormat);
    }
    let message = slice_bytes(t, 0, i2);
    let expected = hmac_sha256(secret, message.as_slice());
    let sig_text = slice_bytes(t, i2 + 1, n - i2 - 1);
    let provided = decode_bytes(sig_text.as_slice());
    if !bytes_eq(expected.as_slice(), provided.as_slice()) {
        return Err(TokenError::InvalidSignature);
    }
    let claims_text = slice_bytes(t, i1 + 1, i2 - i1 - 1);
    Ok(decode_bytes(claims_text.as_slice()))
}

/// Accepts parsed claims unless they expired before `now`.
pub fn accept_claims(sub: String, exp: u64, now: u64) -> (r: Result<String, TokenError>)
    ensures
        exp < now ==> r == Err::<String, TokenError>(TokenError::Expired),
        exp >= now ==> (r matches Ok(s) && s@ == sub@),
{
    if exp < now {
        Err(TokenError::Expired)
    } else {
        Ok(sub)
    }
}


proof fn lemma_dot_from(s: Seq<u8>, i: int, j: int)
    requires
        0 <= i <= j < s.len(),
        s[j] == 46,
        forall|k: int| i <= k < j ==> s[k] != 46,
    ensures
        dot_from(s, i) == j,
    decreases j - i,
{
    if i < j {
        lemma_dot_from(s, i + 1, j);
    }
}

/// Checking the token that signing made for some claims, under the same
/// secret, gives back those claims.
pub proof fn law_token_roundtrip(secret: Seq<u8>, claims: Seq<u8>)
    ensures
        token_check(secret, vstd::utf8::encode_utf8(ascii_text(token_bytes(secret, claims))))
            == Ok::<Seq<u8>, TokenError>(claims),
{
    let h = encode_spec(vstd::utf8::encode_utf8(header_text()));
    let c = encode_spec(claims);
    let m = signed_part(claims);
    let g = encode_spec(keyed_digest(secret, m));
    let t = token_bytes(secret, claims);
    lemma_encode_shape(vstd::utf8::encode_utf8(header_text()));
    lemma_encode_shape(claims);
    lemma_encode_shape(keyed_digest(secret, m));
    assert(m == h + seq![46u8] + c);
    assert(t == m + seq![46u8] + g);
    assert forall|k: int| 0 <= k < t.len() implies #[trigger] t[k] < 128 by {
        if k < h.len() {
            assert(t[k] == h[k] && is_symbol(h[k]));
        } else if k == h.len() {
        } else if k < m.len() {
            assert(t[k] == c[k - h.len() - 1] && is_symbol(c[k - h.len() - 1]));
        } else if k == m.len() {
        } else {
            assert(t[k] == g[k - m.len() - 1] && is_symbol(g[k - m.len() - 1]));
        }
    }
    crate::api_gateway::base64url::lemma_ascii_text_bytes(t);
    assert forall|k: int| 0 <= k < h.len() implies t[k] != 46 by {
        assert(t[k] == h[k] && is_symbol(h[k]));
    }
    lemma_dot_from(t, 0, h.len() as int);
    assert forall|k: int| h.len() + 1 <= k < m.len() implies t[k] != 46 by {
        assert(t[k] == c[k - h.len() - 1] && is_symbol(c[k - h.len() - 1]));
    }
    lemma_dot_from(t, h.len() as int + 1, m.len() as int);
    assert(t.subrange(0, m.len() as int) =~= m);
    assert(t.subrange(m.len() as int + 1, t.len() as int) =~= g);
    assert(t.subrange(h.len() as int + 1, m.len() as int) =~= c);
    lemma_decode_encode(keyed_digest(secret, m));
    lemma_decode_encode(claims);
}

} // verus!
