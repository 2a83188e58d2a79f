use nac::enforcement::runner::{command_at, plan_next, PlanAction, PlanPos};
use nac::enforcement::firewall::FwCommand;
use nac::enforcement::commands::{
    conclude_allow, conclude_command,
    finish_allow, firewall_ip, is_allow_action, map_action, needs_route_lookup, parse_mac, plan_command,
    record_enforcement, EnforcementCommand, NacAction, QuarantineTable,
};
use nac::enforcement::firewall::{
    command_outcome, ipt_mac, nft_mac, nft_ruleset_text, Backend, FwStep, IptablesEnforcer, OnFailure,
};
use nac::enforcement::frames::{craft_na_spoof, poison_frames, restore_frames, GatewayLock, Ipv6Blocker};
use nac::enforcement::snmp_port::{admin_status_oid, SnmpPortController, SwitchPort};
use nac::enforcement::tables::{arp_mac, default_gateway};
use nac::ipv4::parse_ipv4;

#[test]
fn test_gateway_lock_creation() {
    let lock = GatewayLock::new("eth0".to_string(), [192, 168, 1, 1], [0xAA, 0xBB, 0xCC, 0xDD, 0xEE, 0xFF]);
    assert_eq!(lock.gateway_ip, [192, 168, 1, 1]);
}

#[test]
fn gateway_announcement_frame() {
    let lock = GatewayLock::new("eth0".to_string(), [192, 168, 1, 1], [0xAA, 0xBB, 0xCC, 0xDD, 0xEE, 0xFF]);
    let f = lock.announce_frame();
    assert_eq!(f.len(), 42);
    assert_eq!(&f[0..6], &[0xff; 6]);
    assert_eq!(&f[28..32], &[192, 168, 1, 1]);
    assert_eq!(&f[38..42], &[192, 168, 1, 1]);
}

fn fe80_1() -> [u8; 16] {
    [0xfe, 0x80, 0, 0, 0, 0, 0, 0, 0, 0, 0, 0, 0, 0, 0, 1]
}

#[test]
fn test_craft_na_spoof_length() {
    let mac = [0xAA, 0xBB, 0xCC, 0xDD, 0xEE, 0xFF];
    let frame = craft_na_spoof(mac, fe80_1());
    assert_eq!(frame.len(), 86);
    assert_eq!(&frame[12..14], &[0x86, 0xDD]);
    assert_eq!(frame[54], 136);
}

#[test]
fn test_craft_na_spoof_override_flag() {
    let mac = [0x11, 0x22, 0x33, 0x44, 0x55, 0x66];
    let ipv6 = [0x20, 0x01, 0x0d, 0xb8, 0, 0, 0, 0, 0, 0, 0, 0, 0, 0, 0, 1];
    let frame = craft_na_spoof(mac, ipv6);
    assert_eq!(frame[58], 0x20);
}

#[test]
fn ipv6_blocker_frame() {
    let b = Ipv6Blocker::new("eth0".to_string(), [1, 2, 3, 4, 5, 6]);
    let f = b.block_frame(fe80_1());
    assert_eq!(&f[6..12], &[1, 2, 3, 4, 5, 6]);
    assert_eq!(&f[80..86], &[1, 2, 3, 4, 5, 6]);
    assert_eq!(&f[22..38], &fe80_1());
}

#[test]
fn test_switch_port_creation() {
    let port = SwitchPort { switch_ip: "192.168.1.254".to_string(), community: "private".to_string(), port_index: 10 };
    assert_eq!(port.port_index, 10);
}

#[test]
fn test_snmp_stub_does_not_panic() {
    let ctrl = SnmpPortController;
    let port = SwitchPort { switch_ip: "192.168.1.254".to_string(), community: "private".to_string(), port_index: 5 };
    assert!(ctrl.shutdown_port(&port).is_ok());
    assert!(ctrl.enable_port(&port).is_ok());
    assert_eq!(admin_status_oid(&port), "1.3.6.1.2.1.2.2.1.7.5");
}

#[test]
fn action_words() {
    assert!(is_allow_action("allowed"));
    assert!(is_allow_action("allow"));
    assert!(!is_allow_action("Allow"));
    assert_eq!(map_action("denied"), NacAction::Block);
    assert_eq!(map_action("block"), NacAction::Block);
    assert_eq!(map_action("blocked"), NacAction::Block);
    assert_eq!(map_action("quarantined"), NacAction::Quarantine);
    assert_eq!(map_action("anything"), NacAction::Quarantine);
}

#[test]
fn enforcement_mac_parsing() {
    assert_eq!(parse_mac("aa-bb-cc-dd-ee-ff"), Some([0xaa, 0xbb, 0xcc, 0xdd, 0xee, 0xff]));
    assert_eq!(parse_mac("aabb.ccdd.eeff"), Some([0xaa, 0xbb, 0xcc, 0xdd, 0xee, 0xff]));
    assert_eq!(parse_mac("aa:bb"), None);
}

#[test]
fn ipv4_text_parsing() {
    assert_eq!(parse_ipv4("192.168.1.10"), Some([192, 168, 1, 10]));
    assert_eq!(parse_ipv4("0.0.0.0"), Some([0, 0, 0, 0]));
    assert_eq!(parse_ipv4("256.1.1.1"), None);
    assert_eq!(parse_ipv4("01.1.1.1"), None);
    assert_eq!(parse_ipv4("1.1.1"), None);
    assert_eq!(parse_ipv4("1.1.1.1.1"), None);
    assert_eq!(parse_ipv4(""), None);
    assert_eq!(parse_ipv4("1.1.1.1 "), None);
}

#[test]
fn mac_forms_for_firewalls() {
    assert_eq!(nft_mac("AA-BB-CC-DD-EE-FF"), "aa:bb:cc:dd:ee:ff");
    assert_eq!(ipt_mac("aabbccddeeff"), "AA:BB:CC:DD:EE:FF");
    assert_eq!(nft_mac("XYZ"), "xyz");
    assert_eq!(ipt_mac("xyz"), "XYZ");
}

fn args(step: &FwStep) -> Vec<String> {
    match step {
        FwStep::Run(c, _) => c.args.clone(),
        FwStep::UnlessOk(c, _) => c.args.clone(),
        FwStep::RepeatWhileOk(c) => c.args.clone(),
    }
}

#[test]
fn nft_block_plan() {
    let fw = IptablesEnforcer::new(true, true);
    assert_eq!(fw.backend(), Backend::Nft);
    let plan = fw.block("AA:BB:CC:DD:EE:FF", Some("10.0.0.5"));
    assert_eq!(plan.len(), 4);
    assert_eq!(args(&plan[0]), vec!["delete", "element", "inet", "nac_filter", "quarantined_macs", "{ aa:bb:cc:dd:ee:ff }"]);
    assert_eq!(args(&plan[1]), vec!["add", "element", "inet", "nac_filter", "blocked_macs", "{ aa:bb:cc:dd:ee:ff }"]);
    match &plan[1] {
        FwStep::Run(_, f) => assert_eq!(*f, OnFailure::Fail),
        _ => panic!("expected a run step"),
    }
    match &plan[3] {
        FwStep::Run(c, f) => {
            assert_eq!(*f, OnFailure::Warn);
            assert_eq!(c.args[4], "blocked_ips");
        }
        _ => panic!("expected a run step"),
    }
    assert_eq!(fw.block("AA:BB:CC:DD:EE:FF", Some("0.0.0.0")).len(), 2);
    assert_eq!(fw.block("AA:BB:CC:DD:EE:FF", None).len(), 2);
}

#[test]
fn iptables_plans() {
    let fw = IptablesEnforcer::new(false, true);
    assert_eq!(fw.backend(), Backend::IptablesLegacy);
    let plan = fw.quarantine("aa:bb:cc:dd:ee:ff", None);
    assert_eq!(plan.len(), 2);
    assert_eq!(args(&plan[0]), vec!["-D", "NAC_BLOCK", "-m", "mac", "--mac-source", "AA:BB:CC:DD:EE:FF", "-j", "DROP"]);
    match &plan[1] {
        FwStep::UnlessOk(probe, then) => {
            assert_eq!(probe.args[0], "-C");
            assert_eq!(then.len(), 3);
            assert_eq!(then[2].args[0], "-A");
            assert_eq!(then[0].error_prefix, "iptables-legacy -I NAC_QUARANTINE -m mac --mac-source AA:BB:CC:DD:EE:FF -p udp --dport 53 -j RETURN");
        }
        _ => panic!("expected a conditional step"),
    }
    assert_eq!(fw.allow("aa:bb:cc:dd:ee:ff", None).len(), 4);
    assert_eq!(fw.setup_chains(&[]).len(), 5);
    assert!(fw.remove_ip("1.2.3.4").is_empty());
}

#[test]
fn unavailable_backend_does_nothing() {
    let fw = IptablesEnforcer::new(false, false);
    assert!(fw.block("aa", None).is_empty());
    assert!(fw.allow("aa", None).is_empty());
    assert!(fw.setup_chains(&["10.0.0.1"]).is_empty());
}

#[test]
fn nft_setup_and_ruleset() {
    let fw = IptablesEnforcer::new(true, false);
    let plan = fw.setup_chains(&["10.0.0.1", "10.0.0.2"]);
    assert_eq!(plan.len(), 2);
    let text = nft_ruleset_text(&["10.0.0.1", "10.0.0.2"]);
    assert!(text.contains("add element inet nac_filter management_ips { 10.0.0.1, 10.0.0.2 }\n"));
    assert!(text.contains("ip saddr @management_ips tcp dport 22 accept"));
    assert!(text.starts_with("add table inet nac_filter\n"));
    assert!(text.ends_with("add rule ip nac_filter_nat nac_postrouting masquerade\n"));
    let open = nft_ruleset_text(&[]);
    assert!(!open.contains("add element inet nac_filter management_ips"));
    assert!(open.contains("add rule inet nac_filter nac_input tcp dport 22 accept\n"));
}

#[test]
fn command_outcomes() {
    let fw = IptablesEnforcer::new(true, false);
    let plan = fw.block("aa:bb:cc:dd:ee:ff", None);
    let add = match &plan[1] {
        FwStep::Run(c, _) => c.clone(),
        _ => panic!("expected a run step"),
    };
    assert!(command_outcome(&add, true, "").is_ok());
    assert!(command_outcome(&add, false, "Error: File EXISTS").is_ok());
    assert_eq!(
        command_outcome(&add, false, "  Error: no such table \n"),
        Err("nft add element blocked_macs aa:bb:cc:dd:ee:ff: Error: no such table".to_string())
    );
    let del = match &plan[0] {
        FwStep::Run(c, _) => c.clone(),
        _ => panic!("expected a run step"),
    };
    assert!(command_outcome(&del, false, "Error: Could not process rule").is_ok());
}

fn cmd(mac: &str, ip: &str, action: &str, gw: &str) -> EnforcementCommand {
    EnforcementCommand {
        mac_address: mac.into(),
        ip_address: ip.into(),
        action: action.into(),
        gateway_ip: gw.into(),
        gateway_mac: None,
        vlan_id: None,
    }
}

#[test]
fn command_plan_and_table() {
    let fw = IptablesEnforcer::new(true, false);
    let mut table = QuarantineTable::new();
    let c = cmd("AA:BB:CC:DD:EE:01", "10.0.0.5", "quarantined", "10.0.0.1");
    assert!(!needs_route_lookup(&c));
    let plan = plan_command(&table, &fw, &c, None);
    assert_eq!(plan.action, NacAction::Quarantine);
    assert!(plan.stale_ip.is_empty());
    let target = plan.arp.unwrap();
    assert_eq!(target.victim_ip, [10, 0, 0, 5]);
    assert_eq!(target.gateway_ip, [10, 0, 0, 1]);
    record_enforcement(&mut table, &c, &target, plan.action);
    assert_eq!(table.get("aa:bb:cc:dd:ee:01").unwrap().victim_ip, [10, 0, 0, 5]);
    assert_eq!(table.macs(), vec!["aa:bb:cc:dd:ee:01".to_string()]);
    assert_eq!(table.entries().len(), 1);

    let moved = cmd("AA:BB:CC:DD:EE:01", "10.0.0.9", "denied", "");
    assert!(needs_route_lookup(&moved));
    let plan2 = plan_command(&table, &fw, &moved, Some([10, 0, 0, 254]));
    assert_eq!(plan2.action, NacAction::Block);
    assert_eq!(plan2.stale_ip.len(), 2);
    assert_eq!(args(&plan2.stale_ip[0])[5], "{ 10.0.0.5 }");
    assert_eq!(plan2.arp.unwrap().gateway_ip, [10, 0, 0, 254]);

    let allow = cmd("AA:BB:CC:DD:EE:01", "", "allowed", "");
    let restore = finish_allow(&mut table, &allow).unwrap();
    assert!(restore.had_state);
    assert_eq!(restore.victim_ip, [10, 0, 0, 5]);
    assert_eq!(restore.gateway_ip, Some([10, 0, 0, 1]));
    assert!(table.get("aa:bb:cc:dd:ee:01").is_none());
    assert!(finish_allow(&mut table, &allow).is_none());
}

#[test]
fn command_without_address_skips_arp() {
    let fw = IptablesEnforcer::new(true, false);
    let table = QuarantineTable::new();
    let plan = plan_command(&table, &fw, &cmd("aa:bb:cc:dd:ee:ff", "0.0.0.0", "block", ""), Some([1, 1, 1, 1]));
    assert!(plan.arp.is_none());
    assert_eq!(plan.firewall.len(), 2);
    assert_eq!(firewall_ip("0.0.0.0"), None);
    assert_eq!(firewall_ip("10.1.1.1"), Some("10.1.1.1"));
}

#[test]
fn poison_and_restore_frames() {
    let me = [0xee; 6];
    let frames = poison_frames(me, [10, 0, 0, 5], [0xaa; 6], [10, 0, 0, 1], None);
    assert_eq!(frames.len(), 2);
    assert_eq!(&frames[0][0..6], &[0xaa; 6]);
    assert_eq!(&frames[0][22..28], &me);
    assert_eq!(&frames[0][28..32], &[10, 0, 0, 1]);
    assert_eq!(&frames[1][0..6], &[0xff; 6]);
    assert_eq!(&frames[1][28..32], &[10, 0, 0, 5]);
    let restore = restore_frames([10, 0, 0, 5], [0xaa; 6], [10, 0, 0, 1], [0xbb; 6]);
    assert_eq!(restore.len(), 3);
    assert_eq!(&restore[0][22..28], &[0xbb; 6]);
    assert_eq!(&restore[1][22..28], &[0xaa; 6]);
    assert_eq!(&restore[2][0..6], &[0xff; 6]);
}

#[test]
fn routing_table_default_gateway() {
    let route = "Iface\tDestination\tGateway \tFlags\tRefCnt\tUse\tMetric\tMask\n\
                 eth0\t0001A8C0\t00000000\t0001\t0\t0\t0\t00FFFFFF\n\
                 eth0\t00000000\t0101A8C0\t0003\t0\t0\t100\t00000000\n";
    assert_eq!(default_gateway(route), Some([192, 168, 1, 1]));
    assert_eq!(default_gateway("Iface\tDestination\tGateway\n"), None);
    assert_eq!(default_gateway("header\neth0\tZZ\t0101A8C0\neth1\t0\t+FE01000A\n"), Some([10, 0, 1, 254]));
}

#[test]
fn neighbour_table_lookup() {
    let arp = "IP address       HW type     Flags       HW address            Mask     Device\n\
               192.168.1.9      0x1         0x0         00:00:00:00:00:00     *        eth0\n\
               192.168.1.1      0x1         0x2         aa:bb:cc:dd:ee:ff     *        eth0\n";
    assert_eq!(arp_mac(arp, [192, 168, 1, 1]), Some([0xaa, 0xbb, 0xcc, 0xdd, 0xee, 0xff]));
    assert_eq!(arp_mac(arp, [192, 168, 1, 9]), None);
    assert_eq!(arp_mac(arp, [10, 0, 0, 1]), None);
}

fn fw_cmd(prefix: &str, tolerate: &[&str]) -> FwCommand {
    FwCommand {
        program: "nft".into(),
        args: vec![],
        stdin: None,
        tolerate: tolerate.iter().map(|t| t.to_string()).collect(),
        error_prefix: prefix.into(),
    }
}

fn done(a: PlanAction) -> Option<Result<(), String>> {
    match a {
        PlanAction::Done(r) => Some(r),
        _ => None,
    }
}

#[test]
fn plan_runner_steps() {
    let steps = vec![
        FwStep::Run(fw_cmd("a", &["exists"]), OnFailure::Fail),
        FwStep::Run(fw_cmd("b", &[]), OnFailure::Warn),
        FwStep::UnlessOk(fw_cmd("probe", &[]), vec![fw_cmd("c1", &[]), fw_cmd("c2", &[])]),
        FwStep::RepeatWhileOk(fw_cmd("d", &[])),
    ];
    assert!(matches!(plan_next(&steps, PlanPos::Step(0), true, ""), PlanAction::Run(PlanPos::Ran(0))));
    assert_eq!(command_at(&steps, PlanPos::Ran(0)).unwrap().error_prefix, "a");
    // A tolerated failure goes on; another one ends the plan.
    assert!(matches!(plan_next(&steps, PlanPos::Ran(0), false, "File EXISTS"), PlanAction::Run(PlanPos::Ran(1))));
    assert_eq!(done(plan_next(&steps, PlanPos::Ran(0), false, " boom \n")), Some(Err("a: boom".to_string())));
    // A warned failure continues at the next step.
    match plan_next(&steps, PlanPos::Ran(1), false, "x") {
        PlanAction::Warn(m, PlanPos::Step(2)) => assert_eq!(m, "b: x"),
        _ => panic!("expected a warning"),
    }
    // A failed probe runs the fallback commands in order.
    assert!(matches!(plan_next(&steps, PlanPos::Probed(2), false, ""), PlanAction::Run(PlanPos::Fallback(2, 0))));
    assert_eq!(command_at(&steps, PlanPos::Fallback(2, 1)).unwrap().error_prefix, "c2");
    assert!(matches!(plan_next(&steps, PlanPos::Fallback(2, 0), true, ""), PlanAction::Run(PlanPos::Fallback(2, 1))));
    assert!(matches!(plan_next(&steps, PlanPos::Fallback(2, 1), true, ""), PlanAction::Run(PlanPos::Repeated(3))));
    assert!(matches!(plan_next(&steps, PlanPos::Probed(2), true, ""), PlanAction::Run(PlanPos::Repeated(3))));
    // Repeat until it fails, then the plan is over.
    assert!(matches!(plan_next(&steps, PlanPos::Repeated(3), true, ""), PlanAction::Run(PlanPos::Repeated(3))));
    assert_eq!(done(plan_next(&steps, PlanPos::Repeated(3), false, "")), Some(Ok(())));
    assert!(command_at(&steps, PlanPos::Step(0)).is_none());
}

#[test]
fn conclude_changes_table_only_on_success() {
    let fw = IptablesEnforcer::new(true, false);
    let mut table = QuarantineTable::new();
    let c = cmd("AA:BB:CC:DD:EE:01", "10.0.0.5", "block", "10.0.0.1");
    let plan = plan_command(&table, &fw, &c, None);
    assert_eq!(conclude_command(&mut table, &c, &plan, Err("fw".into()), None), Err("fw".to_string()));
    assert!(table.get("aa:bb:cc:dd:ee:01").is_none());
    assert_eq!(conclude_command(&mut table, &c, &plan, Ok(()), Some(Err("send".into()))), Err("send".to_string()));
    assert!(table.get("aa:bb:cc:dd:ee:01").is_none());
    assert_eq!(conclude_command(&mut table, &c, &plan, Ok(()), None), Ok(()));
    assert_eq!(table.get("aa:bb:cc:dd:ee:01").unwrap().action, NacAction::Block);
    let allow = cmd("AA:BB:CC:DD:EE:01", "", "allow", "");
    assert!(conclude_allow(&mut table, &allow, Err("fw".into())).is_err());
    assert!(table.get("aa:bb:cc:dd:ee:01").is_some());
    let t = conclude_allow(&mut table, &allow, Ok(())).unwrap().unwrap();
    assert!(t.had_state);
    assert!(table.get("aa:bb:cc:dd:ee:01").is_none());
}

#[test]
fn nft_management_rules_precede_input_drops() {
    for ips in [vec![], vec!["10.0.0.2"]] {
        let text = nft_ruleset_text(&ips);
        let accept = text.find("tcp dport 22 accept").unwrap();
        let drop_mac = text.find("nac_input ether saddr @blocked_macs drop").unwrap();
        let drop_ip = text.find("nac_input ip saddr @blocked_ips drop").unwrap();
        assert!(accept < drop_mac && accept < drop_ip);
        assert!(text.find("tcp dport 8001 accept").unwrap() < drop_mac);
    }
}

#[test]
fn ipt_quarantine_returns_before_drop() {
    let plan = IptablesEnforcer::new(false, true).quarantine("aa:bb:cc:dd:ee:ff", None);
    let last = plan.last().unwrap();
    match last {
        FwStep::UnlessOk(probe, cmds) => {
            assert_eq!(probe.args[0], "-C");
            assert_eq!(cmds[0].args[0], "-I");
            assert!(cmds[0].args.contains(&"53".to_string()));
            assert_eq!(cmds[1].args[0], "-I");
            assert!(cmds[1].args.contains(&"8080".to_string()));
            assert_eq!(cmds[2].args[0], "-A");
            assert_eq!(cmds[2].args.last().unwrap(), "DROP");
        }
        _ => panic!("expected the guarded insertion"),
    }
}
