use nac::fingerprint::{identify, os_from_ttl, Confidence, FingerprintSignals};

#[test]
fn test_user_agent_windows() {
    let signals = FingerprintSignals {
        user_agent: Some("Mozilla/5.0 (Windows NT 10.0; Win64; x64)".into()),
        ..Default::default()
    };
    let fp = identify(&signals).unwrap();
    assert_eq!(fp.os_family.as_deref(), Some("Windows"));
    assert_eq!(fp.confidence, Confidence::High);
}

#[test]
fn test_user_agent_ios() {
    let signals = FingerprintSignals {
        user_agent: Some("Mozilla/5.0 (iPhone; CPU iPhone OS 16_0)".into()),
        ..Default::default()
    };
    let fp = identify(&signals).unwrap();
    assert_eq!(fp.os_family.as_deref(), Some("iOS"));
    assert_eq!(fp.device_type.as_deref(), Some("Mobile"));
}

#[test]
fn test_windows_ttl() {
    assert_eq!(os_from_ttl(128), Some("Windows"));
    assert_eq!(os_from_ttl(120), Some("Windows"));
}

#[test]
fn test_linux_ttl() {
    assert_eq!(os_from_ttl(64), Some("Linux"));
    assert_eq!(os_from_ttl(60), Some("Linux"));
}

#[test]
fn test_cisco_ttl() {
    assert_eq!(os_from_ttl(255), Some("Network Equipment"));
    assert_eq!(os_from_ttl(250), Some("Network Equipment"));
}

#[test]
fn test_unknown_ttl() {
    assert_eq!(os_from_ttl(1), None);
    assert_eq!(os_from_ttl(32), None);
}

#[test]
fn ttl_range_edges() {
    assert_eq!(os_from_ttl(65), None);
    assert_eq!(os_from_ttl(49), Some("Linux"));
    assert_eq!(os_from_ttl(48), None);
    assert_eq!(os_from_ttl(113), Some("Windows"));
    assert_eq!(os_from_ttl(129), None);
    assert_eq!(os_from_ttl(239), Some("Unix"));
    assert_eq!(os_from_ttl(240), Some("Network Equipment"));
}

#[test]
fn no_signals_gives_low_confidence() {
    let signals = FingerprintSignals::default();
    let fp = identify(&signals).unwrap();
    assert_eq!(fp.confidence, Confidence::Low);
    assert!(fp.os_family.is_none());
}

#[test]
fn oui_lookup_is_case_insensitive() {
    let signals = FingerprintSignals { oui: Some("acde48".into()), ..Default::default() };
    let fp = identify(&signals).unwrap();
    assert_eq!(fp.vendor.as_deref(), Some("Apple"));
    assert_eq!(fp.os_family.as_deref(), Some("iOS/macOS"));
    assert_eq!(fp.confidence, Confidence::Medium);
}

#[test]
fn windows_prl_is_recognized() {
    let signals = FingerprintSignals {
        dhcp_prl: Some(vec![1, 3, 6, 15, 31, 33, 43, 44, 46, 47, 119, 121, 249, 252]),
        ..Default::default()
    };
    let fp = identify(&signals).unwrap();
    assert_eq!(fp.os_family.as_deref(), Some("Windows"));
    assert_eq!(fp.confidence, Confidence::High);
}
