use nac::policy_engine::evaluator::{evaluate, matches_condition};
use nac::policy_engine::rule::{Condition, PolicyRule};
use nac::policy_engine::{PolicyContext, PolicyDecision};

fn make_ctx(os: &str, groups: &[&str]) -> PolicyContext {
    PolicyContext {
        mac_address: "AA:BB:CC:DD:EE:FF".into(),
        os_family: Some(os.into()),
        groups: groups.iter().map(|s| s.to_string()).collect(),
        is_compliant: Some(true),
        ..Default::default()
    }
}

#[test]
fn test_os_family_match() {
    let mut rules = vec![PolicyRule {
        name: "allow-windows".into(),
        priority: 10,
        condition: Condition::OsFamily { value: "Windows".into() },
        decision: PolicyDecision::Allow,
    }];
    let ctx = make_ctx("Windows", &[]);
    let decision = evaluate(&mut rules, &ctx).unwrap();
    assert_eq!(decision, PolicyDecision::Allow);
}

#[test]
fn test_no_match_returns_deny() {
    let mut rules = vec![PolicyRule {
        name: "allow-windows".into(),
        priority: 10,
        condition: Condition::OsFamily { value: "Windows".into() },
        decision: PolicyDecision::Allow,
    }];
    let ctx = make_ctx("Linux", &[]);
    let decision = evaluate(&mut rules, &ctx).unwrap();
    assert!(matches!(decision, PolicyDecision::Deny { .. }));
}

#[test]
fn test_group_match() {
    let mut rules = vec![PolicyRule {
        name: "quarantine-guests".into(),
        priority: 5,
        condition: Condition::UserGroup { groups: vec!["guests".into()] },
        decision: PolicyDecision::Quarantine { vlan: 99, reason: "guest".into() },
    }];
    let ctx = make_ctx("Windows", &["guests"]);
    let decision = evaluate(&mut rules, &ctx).unwrap();
    assert!(matches!(decision, PolicyDecision::Quarantine { .. }));
}

#[test]
fn test_mac_list_match() {
    let mut rules = vec![PolicyRule {
        name: "mac-bypass".into(),
        priority: 1,
        condition: Condition::MacList { macs: vec!["AA:BB:CC:DD:EE:FF".into()] },
        decision: PolicyDecision::Allow,
    }];
    let ctx = PolicyContext { mac_address: "AA:BB:CC:DD:EE:FF".into(), ..Default::default() };
    let decision = evaluate(&mut rules, &ctx).unwrap();
    assert_eq!(decision, PolicyDecision::Allow);
}

#[test]
fn test_mac_list_no_match() {
    let mut rules = vec![PolicyRule {
        name: "mac-bypass".into(),
        priority: 1,
        condition: Condition::MacList { macs: vec!["AA:BB:CC:DD:EE:FF".into()] },
        decision: PolicyDecision::Allow,
    }];
    let ctx = PolicyContext { mac_address: "11:22:33:44:55:66".into(), ..Default::default() };
    let decision = evaluate(&mut rules, &ctx).unwrap();
    assert!(matches!(decision, PolicyDecision::Deny { .. }));
}

#[test]
fn test_compliant_condition() {
    let mut rules = vec![PolicyRule {
        name: "require-compliance".into(),
        priority: 10,
        condition: Condition::Compliant { required: true },
        decision: PolicyDecision::Allow,
    }];
    let ctx = PolicyContext {
        mac_address: "AA:BB:CC:DD:EE:FF".into(),
        is_compliant: Some(true),
        ..Default::default()
    };
    let decision = evaluate(&mut rules, &ctx).unwrap();
    assert_eq!(decision, PolicyDecision::Allow);

    let ctx2 = PolicyContext {
        mac_address: "AA:BB:CC:DD:EE:FF".into(),
        is_compliant: Some(false),
        ..Default::default()
    };
    let decision2 = evaluate(&mut rules, &ctx2).unwrap();
    assert!(matches!(decision2, PolicyDecision::Deny { .. }));
}

#[test]
fn test_priority_ordering() {
    let mut rules = vec![
        PolicyRule {
            name: "low-priority-deny".into(),
            priority: 100,
            condition: Condition::And { conditions: vec![] },
            decision: PolicyDecision::Deny { reason: "low".into() },
        },
        PolicyRule {
            name: "high-priority-allow".into(),
            priority: 1,
            condition: Condition::And { conditions: vec![] },
            decision: PolicyDecision::Allow,
        },
    ];
    let ctx = PolicyContext { mac_address: "AA:BB:CC:DD:EE:FF".into(), ..Default::default() };
    let decision = evaluate(&mut rules, &ctx).unwrap();
    assert_eq!(decision, PolicyDecision::Allow);
}

#[test]
fn rules_are_left_sorted_stably() {
    let mut rules = vec![
        PolicyRule {
            name: "b".into(),
            priority: 5,
            condition: Condition::HasMissingPatches,
            decision: PolicyDecision::Allow,
        },
        PolicyRule {
            name: "a".into(),
            priority: 1,
            condition: Condition::UsbEnabled,
            decision: PolicyDecision::Allow,
        },
        PolicyRule {
            name: "c".into(),
            priority: 5,
            condition: Condition::BluetoothEnabled,
            decision: PolicyDecision::Allow,
        },
    ];
    let ctx = PolicyContext::default();
    let _ = evaluate(&mut rules, &ctx).unwrap();
    let names: Vec<&str> = rules.iter().map(|r| r.name.as_str()).collect();
    assert_eq!(names, vec!["a", "b", "c"]);
}

#[test]
fn no_rule_gives_default_deny_reason() {
    let mut rules: Vec<PolicyRule> = vec![];
    let decision = evaluate(&mut rules, &PolicyContext::default()).unwrap();
    assert_eq!(decision, PolicyDecision::Deny { reason: "no matching policy rule".into() });
}

#[test]
fn composite_conditions() {
    let ctx = make_ctx("Windows", &["staff"]);
    let or = Condition::Or {
        conditions: vec![
            Condition::OsFamily { value: "Linux".into() },
            Condition::UserGroup { groups: vec!["staff".into()] },
        ],
    };
    assert!(matches_condition(&or, &ctx));
    let not = Condition::Not { condition: Box::new(Condition::OsFamily { value: "Windows".into() }) };
    assert!(!matches_condition(&not, &ctx));
    let empty_or = Condition::Or { conditions: vec![] };
    assert!(!matches_condition(&empty_or, &ctx));
}
