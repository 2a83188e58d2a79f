use nac::aaa::portal::{
    denied_html, landing_shows_blocked, login_failure_event, login_html, login_mac, login_redirect,
    login_outcome, login_success_event, portal_claims, probe_reply, PortalReply, Probe,
};
use nac::agent_gateway::{
    report_token,
    agent_action, legacy_device_id_to_mac, normalize_mac, posture_report, registration_claims,
    registration_endpoint,
};
use nac::auth::{check_local_password, hash_password, ldap_step, LdapAction, LdapEvent, LdapReply, AuthError, DirectoryEntry, LdapClient, UserIdentity};

#[test]
fn probes_follow_endpoint_status() {
    assert_eq!(probe_reply(Probe::Ncsi, Some("denied")), PortalReply::Redirect("/blocked".into()));
    assert_eq!(probe_reply(Probe::Generate204, Some("quarantined")), PortalReply::Redirect("/".into()));
    assert_eq!(probe_reply(Probe::Ncsi, Some("allowed")), PortalReply::Text("Microsoft NCSI\r\n".into()));
    assert_eq!(probe_reply(Probe::Generate204, None), PortalReply::NoContent);
    assert_eq!(probe_reply(Probe::CatchAll, Some("unknown")), PortalReply::NoContent);
    match probe_reply(Probe::HotspotDetect, None) {
        PortalReply::Html(h) => assert!(h.contains("<BODY>Success</BODY>")),
        _ => panic!("expected html"),
    }
    assert!(landing_shows_blocked(Some("denied")));
    assert!(!landing_shows_blocked(Some("quarantined")));
}

#[test]
fn portal_pages() {
    let page = login_html("aa:bb:cc:dd:ee:ff");
    assert!(page.contains("value=\"aa:bb:cc:dd:ee:ff\""));
    assert!(!page.contains("{{MAC}}"));
    let denied = denied_html(Some("invalid_credentials"));
    assert!(denied.contains("사유: invalid_credentials"));
    assert!(denied_html(None).contains("알 수 없는 오류"));
}

#[test]
fn login_flow_values() {
    assert_eq!(login_mac(Some("m1"), Some("d")), Some("m1".to_string()));
    assert_eq!(login_mac(Some(""), Some("d")), Some("d".to_string()));
    assert_eq!(login_mac(None, None), None);
    let id = UserIdentity { username: "alice".into(), display_name: None, email: None, groups: vec!["staff".into()] };
    let claims = portal_claims(&id, 1000);
    assert_eq!(claims.exp, 4600);
    assert_eq!(claims.groups, vec!["staff".to_string()]);
    let ok = login_success_event(&Some("s1".into()), &None, "mac", &id);
    assert!(ok.success);
    assert_eq!(ok.username.as_deref(), Some("alice"));
    let bad = login_failure_event(&None, &Some("e1".into()), "mac");
    assert!(!bad.success);
    assert_eq!(bad.reason.as_deref(), Some("invalid_credentials"));
    assert_eq!(login_redirect(true, true), "/success");
    assert_eq!(login_redirect(true, false), "/denied?reason=internal_error");
    assert_eq!(login_redirect(false, true), "/denied?reason=invalid_credentials");
}

#[test]
fn agent_registration() {
    assert_eq!(normalize_mac(" AA-BB-CC-DD-EE-FF "), Some("aa:bb:cc:dd:ee:ff".to_string()));
    assert_eq!(normalize_mac("   "), None);
    assert_eq!(legacy_device_id_to_mac("1b4e28ba-2fa1-11d2-883f-0016d3cca427"), "1b:4e:28:ba:2f:a1");
    assert_eq!(legacy_device_id_to_mac("xyz"), "00:00:00:00:00:00");
    let ep = registration_endpoint("1b4e28ba-2fa1-11d2", "", "", "Linux", "6.1", Some("10.0.0.9".into()));
    assert_eq!(ep.mac_address, "1b:4e:28:ba:2f:a1");
    assert_eq!(ep.hostname, None);
    assert_eq!(ep.os_family.as_deref(), Some("Linux"));
    assert_eq!(ep.agent_id.as_deref(), Some("1b4e28ba-2fa1-11d2"));
    let claims = registration_claims("dev-1", 10);
    assert_eq!(claims.exp, 86410);
    assert_eq!(claims.iat, 10);
    let report = posture_report("dev-1", vec![], vec![], true, false, false, 5);
    assert!(report.usb_enabled);
    assert_eq!(report.os, "");
}

#[test]
fn agent_actions() {
    assert_eq!(agent_action(Some("denied")), "Deny");
    assert_eq!(agent_action(Some("quarantined")), "Quarantine");
    assert_eq!(agent_action(Some("allowed")), "Allow");
    assert_eq!(agent_action(None), "Allow");
}

#[test]
fn directory_rules() {
    assert_eq!(LdapClient::extract_cn_from_dn("CN=group1,OU=Groups,DC=corp,DC=local"), "group1");
    assert_eq!(LdapClient::extract_cn_from_dn(" cn=ops ,DC=x"), "ops");
    assert_eq!(LdapClient::extract_cn_from_dn("OU=Groups,DC=corp"), "OU=Groups,DC=corp");
    let client = LdapClient::new(
        "ldap://dc".into(),
        "cn=svc".into(),
        "pw".into(),
        "dc=corp".into(),
        "(&(uid={})(objectClass=person))".into(),
    );
    assert_eq!(client.user_search_filter("bob"), "(&(uid=bob)(objectClass=person))");
    assert_eq!(LdapClient::check_password_given(""), Err(AuthError::InvalidCredentials));
    assert!(LdapClient::check_password_given("x").is_ok());
    assert_eq!(LdapClient::user_entry("bob", vec![]).err(), Some(AuthError::UserNotFound("bob".into())));
    let entry = DirectoryEntry {
        dn: "uid=bob,dc=corp".into(),
        display_name: vec![],
        cn: vec!["Bob B".into()],
        mail: vec!["bob@corp".into()],
        member_of: vec!["CN=admins,OU=G".into(), "CN=users,OU=G".into()],
    };
    let id = LdapClient::identity_from_entry("bob", &entry);
    assert_eq!(id.display_name.as_deref(), Some("Bob B"));
    assert_eq!(id.email.as_deref(), Some("bob@corp"));
    assert_eq!(id.groups, vec!["admins".to_string(), "users".to_string()]);
    assert_eq!(AuthError::UserNotFound("bob".into()).message(), "user not found: bob");
}

#[test]
fn local_password_hash_and_check() {
    let h = hash_password("s3cret", "c2FsdHNhbHRzYWx0").unwrap();
    assert!(h.starts_with("$argon2id$"));
    let id = check_local_password("alice", "s3cret", &h, "admin").unwrap();
    assert_eq!(id.username, "alice");
    assert_eq!(id.groups, vec!["admin".to_string()]);
    assert!(id.display_name.is_none() && id.email.is_none());
    assert_eq!(check_local_password("alice", "wrong", &h, "admin").unwrap_err(), AuthError::InvalidCredentials);
    assert!(matches!(check_local_password("alice", "s3cret", "not a hash", "admin"), Err(AuthError::Internal(_))));
    assert!(matches!(hash_password("x", "!"), Err(AuthError::Internal(_))));
}

#[test]
fn login_outcome_by_result() {
    let id = UserIdentity { username: "bob".into(), display_name: None, email: None, groups: vec!["g".into()] };
    let sid = Some("s1".to_string());
    let ok = login_outcome(&sid, &None, "aa:bb", &Ok(id.clone()), true);
    assert_eq!(ok.redirect, "/success");
    let e = ok.event.unwrap();
    assert!(e.success);
    assert_eq!(e.username.as_deref(), Some("bob"));
    assert_eq!(e.groups, vec!["g".to_string()]);
    assert_eq!(e.session_id, sid);
    let unsigned = login_outcome(&sid, &None, "aa:bb", &Ok(id), false);
    assert_eq!(unsigned.redirect, "/denied?reason=internal_error");
    assert!(unsigned.event.is_none());
    let bad = login_outcome(&None, &None, "aa:bb", &Err(AuthError::InvalidCredentials), true);
    assert_eq!(bad.redirect, "/denied?reason=invalid_credentials");
    let f = bad.event.unwrap();
    assert!(!f.success);
    assert_eq!(f.reason.as_deref(), Some("invalid_credentials"));
    assert_eq!(f.mac_address, "aa:bb");
}

#[test]
fn ldap_conversation_steps() {
    let c = LdapClient::new(
        "ldap://dir".into(),
        "cn=svc".into(),
        "pw".into(),
        "dc=corp".into(),
        "(uid={})".into(),
    );
    assert!(matches!(ldap_step(&c, "bob", "", LdapEvent::Start), LdapAction::Finish(Err(AuthError::InvalidCredentials))));
    assert!(matches!(ldap_step(&c, "bob", "x", LdapEvent::Start), LdapAction::Connect(u) if u == "ldap://dir"));
    match ldap_step(&c, "bob", "x", LdapEvent::Connected(Err("refused".into()))) {
        LdapAction::Finish(Err(AuthError::Ldap(m))) => assert_eq!(m, "connect failed: refused"),
        _ => panic!("expected a directory error"),
    }
    assert!(matches!(ldap_step(&c, "bob", "x", LdapEvent::Connected(Ok(()))),
        LdapAction::BindService { dn, password } if dn == "cn=svc" && password == "pw"));
    assert!(matches!(ldap_step(&c, "bob", "x", LdapEvent::ServiceBound(LdapReply::Done)),
        LdapAction::Search { base, filter } if base == "dc=corp" && filter == "(uid=bob)"));
    assert!(matches!(ldap_step(&c, "bob", "x", LdapEvent::Searched(LdapReply::Done, vec![])),
        LdapAction::Finish(Err(AuthError::UserNotFound(u))) if u == "bob"));
    let entry = DirectoryEntry {
        dn: "uid=bob,dc=corp".into(),
        display_name: vec![],
        cn: vec!["Bob".into()],
        mail: vec![],
        member_of: vec!["CN=staff,OU=Groups".into()],
    };
    assert!(matches!(ldap_step(&c, "bob", "x", LdapEvent::Searched(LdapReply::Done, vec![entry.clone()])),
        LdapAction::BindUser(e) if e.dn == "uid=bob,dc=corp"));
    assert!(matches!(ldap_step(&c, "bob", "x", LdapEvent::UserBound(entry.clone(), LdapReply::Refused("49".into()))),
        LdapAction::Finish(Err(AuthError::InvalidCredentials))));
    match ldap_step(&c, "bob", "x", LdapEvent::UserBound(entry, LdapReply::Done)) {
        LdapAction::Finish(Ok(id)) => {
            assert_eq!(id.display_name.as_deref(), Some("Bob"));
            assert_eq!(id.groups, vec!["staff".to_string()]);
        }
        _ => panic!("expected an identity"),
    }
}

#[test]
fn report_token_needs_bearer() {
    assert_eq!(report_token(Some("Bearer abc")), Ok("abc".to_string()));
    assert_eq!(report_token(Some("abc")), Err("missing authorization token"));
    assert_eq!(report_token(None), Err("missing authorization token"));
}
