use nac::api_gateway::access::{admin_login_ok, bearer_token};
use nac::api_gateway::base64url::{base64url_decode, base64url_encode};
use nac::api_gateway::token::{
    accept_claims, check_token, claims_json, create_token, hmac_sha256, sign_claims, TokenError,
};

fn verify_token(secret: &[u8], token: &str, now: u64) -> Result<String, TokenError> {
    let claims = check_token(secret, token)?;
    let v: serde_json::Value = serde_json::from_slice(&claims).map_err(|_| TokenError::MalformedClaims)?;
    let sub = v.get("sub").and_then(|s| s.as_str()).ok_or(TokenError::MalformedClaims)?;
    let exp = v.get("exp").and_then(|e| e.as_u64()).ok_or(TokenError::MalformedClaims)?;
    accept_claims(sub.to_string(), exp, now)
}

const NOW: u64 = 1_700_000_000;

#[test]
fn test_token_roundtrip() {
    let secret = b"test-secret-key-min-32-characters";
    let token = create_token(secret, "admin", NOW);
    let sub = verify_token(secret, &token, NOW).unwrap();
    assert_eq!(sub, "admin");
}

#[test]
fn test_invalid_token_rejected() {
    let secret = b"test-secret-key-min-32-characters";
    assert!(verify_token(secret, "invalid.token.here", NOW).is_err());
}

#[test]
fn test_wrong_secret_rejected() {
    let secret1 = b"secret-one-min-32-characters-xxx";
    let secret2 = b"secret-two-min-32-characters-xxx";
    let token = create_token(secret1, "admin", NOW);
    assert!(verify_token(secret2, &token, NOW).is_err());
}

#[test]
fn expired_token_rejected() {
    let secret = b"k";
    let token = create_token(secret, "admin", NOW);
    assert_eq!(verify_token(secret, &token, NOW + 86400), Ok("admin".to_string()));
    assert_eq!(verify_token(secret, &token, NOW + 86401), Err(TokenError::Expired));
}

#[test]
fn token_has_three_parts_and_known_header() {
    let token = create_token(b"k", "bob", 0);
    let parts: Vec<&str> = token.split('.').collect();
    assert_eq!(parts.len(), 3);
    assert_eq!(parts[0], "eyJhbGciOiJIUzI1NiIsInR5cCI6IkpXVCJ9");
    assert_eq!(base64url_decode(parts[1]), br#"{"sub":"bob","exp":86400}"#.to_vec());
}

#[test]
fn malformed_tokens() {
    assert_eq!(check_token(b"k", "no-dots"), Err(TokenError::InvalidFormat));
    assert_eq!(check_token(b"k", "one.dot"), Err(TokenError::InvalidFormat));
    assert_eq!(check_token(b"k", "a.b.c"), Err(TokenError::InvalidSignature));
    assert_eq!(TokenError::InvalidFormat.message(), "invalid token format");
    assert_eq!(TokenError::Expired.message(), "token expired");
}

#[test]
fn signed_claims_come_back() {
    let token = sign_claims(b"secret", b"payload bytes");
    assert_eq!(check_token(b"secret", &token).unwrap(), b"payload bytes".to_vec());
}

#[test]
fn claims_json_escapes_the_subject() {
    assert_eq!(claims_json("a\"b", 5), r#"{"sub":"a\"b","exp":5}"#);
}

#[test]
fn keyed_digest_depends_on_key_and_data() {
    let a = hmac_sha256(b"key", b"data");
    assert_eq!(a.len(), 32);
    assert_eq!(&a[0..8], &a[8..16]);
    assert_eq!(a, hmac_sha256(b"key", b"data"));
    assert_ne!(a, hmac_sha256(b"key2", b"data"));
    assert_ne!(a, hmac_sha256(b"key", b"data2"));
}

#[test]
fn base64url_examples() {
    assert_eq!(base64url_encode(b""), "");
    assert_eq!(base64url_encode(b"f"), "Zg");
    assert_eq!(base64url_encode(b"fo"), "Zm8");
    assert_eq!(base64url_encode(b"foo"), "Zm9v");
    assert_eq!(base64url_encode(&[0xfb, 0xff]), "-_8");
    assert_eq!(base64url_decode("-_8"), vec![0xfb, 0xff]);
    assert_eq!(base64url_decode("+/8="), vec![0xfb, 0xff]);
    assert_eq!(base64url_decode("Zm9vYg"), b"foob".to_vec());
}

#[test]
fn base64url_roundtrip_all_lengths() {
    let data: Vec<u8> = (0u8..=255).collect();
    for n in 0..data.len() {
        let text = base64url_encode(&data[..n]);
        assert_eq!(base64url_decode(&text), data[..n].to_vec());
    }
}

#[test]
fn admin_login() {
    assert!(admin_login_ok("admin", "changeme", None, None));
    assert!(!admin_login_ok("admin", "wrong", None, None));
    assert!(admin_login_ok("root", "pw", Some("root"), Some("pw")));
    assert!(!admin_login_ok("admin", "changeme", Some("root"), None));
}

#[test]
fn bearer_header() {
    assert_eq!(bearer_token("Bearer abc.def"), Some("abc.def".to_string()));
    assert_eq!(bearer_token("bearer abc"), None);
    assert_eq!(bearer_token("Basic xyz"), None);
}

#[test]
fn claims_json_escapes_controls() {
    assert_eq!(claims_json("x\\y\n\t\u{1}é", 0), "{\"sub\":\"x\\\\y\\n\\t\\u0001é\",\"exp\":0}");
}
