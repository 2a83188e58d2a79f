use nac::aaa::radius::{
    accounting_reply, build_response, decide_after_lookup, decrypt_pap_password, normalize_mac,
    plan_access_request, vlan_attributes, AccessPlan, EndpointLookup, RadiusAttribute, RadiusEnv,
    RadiusError, RadiusPacket, ATTR_CALLING_STATION_ID, ATTR_REPLY_MESSAGE, ATTR_TUNNEL_MEDIUM_TYPE,
    ATTR_TUNNEL_PRIVATE_GROUP_ID, ATTR_TUNNEL_TYPE, ATTR_USER_NAME, ATTR_USER_PASSWORD,
    CODE_ACCESS_ACCEPT, CODE_ACCESS_REJECT, CODE_ACCESS_REQUEST, CODE_ACCOUNTING_REQUEST,
    CODE_ACCOUNTING_RESPONSE,
};

fn make_access_request(username: &str) -> RadiusPacket {
    RadiusPacket {
        code: CODE_ACCESS_REQUEST,
        identifier: 1,
        authenticator: [0u8; 16],
        attributes: vec![RadiusAttribute { attr_type: ATTR_USER_NAME, value: username.as_bytes().to_vec() }],
    }
}

fn env() -> RadiusEnv {
    RadiusEnv {
        admin_user: "admin".into(),
        admin_pass: "secret1".into(),
        unknown_vlan: None,
        allow_vlan: Some("20".into()),
        quarantine_vlan: None,
    }
}

fn pap_encrypt(password: &[u8], secret: &[u8], auth: &[u8; 16]) -> Vec<u8> {
    let mut padded = password.to_vec();
    while padded.len() % 16 != 0 || padded.is_empty() {
        padded.push(0);
    }
    let mut out = Vec::new();
    let mut prev: Vec<u8> = auth.to_vec();
    for chunk in padded.chunks(16) {
        let mut input = secret.to_vec();
        input.extend_from_slice(&prev);
        let digest = md5::compute(&input);
        let block: Vec<u8> = chunk.iter().zip(digest.0.iter()).map(|(a, b)| a ^ b).collect();
        out.extend_from_slice(&block);
        prev = block;
    }
    out
}

#[test]
fn test_packet_encode_parse_roundtrip() {
    let pkt = make_access_request("alice");
    let encoded = pkt.encode();
    let parsed = RadiusPacket::parse(&encoded).unwrap();
    assert_eq!(parsed.code, CODE_ACCESS_REQUEST);
    assert_eq!(parsed.identifier, 1);
    assert_eq!(parsed.get_attr(ATTR_USER_NAME), Some(b"alice".as_slice()));
}

#[test]
fn test_normalize_mac() {
    assert_eq!(normalize_mac("AA-BB-CC-DD-EE-FF"), Some("aa:bb:cc:dd:ee:ff".to_string()));
    assert_eq!(normalize_mac("aabbccddeeff"), Some("aa:bb:cc:dd:ee:ff".to_string()));
    assert_eq!(normalize_mac("AA:BB:CC:DD:EE:FF"), Some("aa:bb:cc:dd:ee:ff".to_string()));
    assert_eq!(normalize_mac("invalid"), None);
}

#[test]
fn test_vlan_attributes() {
    let attrs = vlan_attributes(100);
    assert_eq!(attrs.len(), 3);
    assert_eq!(attrs[0].attr_type, ATTR_TUNNEL_TYPE);
    assert_eq!(attrs[1].attr_type, ATTR_TUNNEL_MEDIUM_TYPE);
    assert_eq!(attrs[2].attr_type, ATTR_TUNNEL_PRIVATE_GROUP_ID);
}

#[test]
fn test_packet_too_short() {
    assert!(RadiusPacket::parse(&[0u8; 5]).is_err());
}

#[test]
fn test_response_auth_included() {
    let pkt = make_access_request("test");
    let secret = b"sharedsecret";
    let request_auth = [1u8; 16];
    let encoded = pkt.encode_with_response_auth(&request_auth, secret);
    let auth: &[u8] = &encoded[4..20];
    assert_ne!(auth, &[0u8; 16]);
}

#[test]
fn response_auth_is_md5_of_packet_and_secret() {
    let pkt = make_access_request("test");
    let secret = b"sharedsecret";
    let request_auth = [7u8; 16];
    let encoded = pkt.encode_with_response_auth(&request_auth, secret);
    let mut input = encoded.clone();
    input[4..20].copy_from_slice(&request_auth);
    input.extend_from_slice(secret);
    assert_eq!(&encoded[4..20], &md5::compute(&input).0[..]);
}

#[test]
fn parse_errors() {
    match RadiusPacket::parse(&[0u8; 5]) {
        Err(e) => assert_eq!(e, RadiusError::TooShort(5)),
        Ok(_) => panic!("expected an error"),
    }
    let mut buf = make_access_request("bob").encode();
    buf[3] = 200;
    assert!(RadiusPacket::parse(&buf).is_err());
}

#[test]
fn vlan_attribute_values() {
    let attrs = vlan_attributes(100);
    assert_eq!(attrs[0].value, vec![0, 0, 0, 13]);
    assert_eq!(attrs[1].value, vec![0, 0, 0, 6]);
    assert_eq!(attrs[2].value, b"\x00100".to_vec());
}

#[test]
fn pap_password_decrypts() {
    let secret = b"s3cr3t";
    let auth = [9u8; 16];
    let enc = pap_encrypt(b"hunter2", secret, &auth);
    assert_eq!(decrypt_pap_password(&enc, secret, &auth), b"hunter2".to_vec());
}

#[test]
fn pap_admin_login_is_accepted() {
    let secret = b"radsecret";
    let auth = [3u8; 16];
    let mut pkt = make_access_request("admin");
    pkt.authenticator = auth;
    pkt.attributes.push(RadiusAttribute { attr_type: ATTR_USER_PASSWORD, value: pap_encrypt(b"secret1", secret, &auth) });
    match plan_access_request(&pkt, secret, &env()) {
        AccessPlan::Reply(r) => assert_eq!(r.code, CODE_ACCESS_ACCEPT),
        AccessPlan::LookUp(_) => panic!("expected a reply"),
    }
    let mut bad = make_access_request("admin");
    bad.authenticator = auth;
    bad.attributes.push(RadiusAttribute { attr_type: ATTR_USER_PASSWORD, value: pap_encrypt(b"wrong", secret, &auth) });
    match plan_access_request(&bad, secret, &env()) {
        AccessPlan::Reply(r) => assert_eq!(r.code, CODE_ACCESS_REJECT),
        AccessPlan::LookUp(_) => panic!("expected a reply"),
    }
}

#[test]
fn mab_request_looks_up_the_mac() {
    let mut pkt = make_access_request("x");
    pkt.attributes.push(RadiusAttribute { attr_type: ATTR_CALLING_STATION_ID, value: b"AA-BB-CC-00-11-22".to_vec() });
    match plan_access_request(&pkt, b"s", &env()) {
        AccessPlan::LookUp(m) => assert_eq!(m, "aa:bb:cc:00:11:22"),
        AccessPlan::Reply(_) => panic!("expected a lookup"),
    }
}

#[test]
fn lookup_outcomes() {
    let pkt = make_access_request("x");
    let allowed = decide_after_lookup(&pkt, &EndpointLookup::Found { id: "e1".into(), status: "allowed".into() }, &env());
    assert!(allowed.accept);
    assert_eq!(allowed.vlan, Some(20));
    assert_eq!(allowed.response.code, CODE_ACCESS_ACCEPT);
    assert!(allowed.publish);
    let quarantined =
        decide_after_lookup(&pkt, &EndpointLookup::Found { id: "e1".into(), status: "quarantined".into() }, &env());
    assert!(quarantined.accept);
    assert_eq!(quarantined.vlan, Some(99));
    let denied = decide_after_lookup(&pkt, &EndpointLookup::Found { id: "e1".into(), status: "denied".into() }, &env());
    assert!(!denied.accept);
    assert_eq!(denied.response.code, CODE_ACCESS_REJECT);
    let unknown = decide_after_lookup(&pkt, &EndpointLookup::NotFound, &env());
    assert!(!unknown.accept);
    assert_eq!(unknown.audit_event, Some("radius_unknown_endpoint"));
    let failed = decide_after_lookup(&pkt, &EndpointLookup::Failed, &env());
    assert!(!failed.accept);
    assert_eq!(failed.audit_event, None);
}

#[test]
fn build_response_carries_message_and_vlan() {
    let pkt = make_access_request("x");
    let r = build_response(&pkt, true, Some(30), "ok");
    assert_eq!(r.code, CODE_ACCESS_ACCEPT);
    assert_eq!(r.identifier, pkt.identifier);
    assert_eq!(r.get_attr(ATTR_REPLY_MESSAGE), Some(b"ok".as_slice()));
    assert_eq!(r.get_attr(ATTR_TUNNEL_PRIVATE_GROUP_ID), Some(b"\x0030".as_slice()));
}

#[test]
fn accounting_requests_get_a_response() {
    let mut pkt = make_access_request("x");
    pkt.code = CODE_ACCOUNTING_REQUEST;
    assert_eq!(accounting_reply(&pkt).unwrap().code, CODE_ACCOUNTING_RESPONSE);
    let other = make_access_request("x");
    assert!(accounting_reply(&other).is_none());
}

#[test]
fn normalize_mac_is_idempotent() {
    for raw in ["AA-BB-CC-DD-EE-FF", "0011.2233.4455", "a1b2c3d4e5f6"] {
        let once = normalize_mac(raw).unwrap();
        assert_eq!(once.len(), 17);
        assert_eq!(normalize_mac(&once), Some(once.clone()));
    }
}
