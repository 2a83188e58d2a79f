//! Firewall plans for enforcement. With nftables, endpoints are kept in
//! sets (blocked and quarantined MACs and IPs) under fixed rules, so a
//! decision only adds or deletes set elements; with iptables-legacy, rules
//! matching the MAC are inserted into or deleted from two chains.
//!
//! The enforcer does not run commands itself: each operation gives the
//! steps to run, in order, and `command_outcome` says what a command's
//! exit status and error output mean.

use vstd::prelude::*;
use crate::mac::{colon_join, colon_mac, hex_digits, hex_filter, lower_all, lower_chars, upper_all, upper_chars};
use crate::text::{
    chars_of, contains_seq, occurs_at, owned, push_all, push_str, str_contains, str_eq, string_from_chars,
    to_lower, to_upper, trim_chars, trim_seq, unicode_lower, unicode_upper,
};

verus! {

pub const NFT_TABLE: &'static str = "nac_filter";
pub const SET_BLOCK: &'static str = "blocked_macs";
pub const SET_QUARANTINE: &'static str = "quarantined_macs";
pub const SET_BLOCK_IP: &'static str = "blocked_ips";
pub const SET_QUARANTINE_IP: &'static str = "quarantined_ips";
pub const CAPTIVE_PORT: &'static str = "8080";
pub const CHAIN_BLOCK: &'static str = "NAC_BLOCK";
pub const CHAIN_QUARANTINE: &'static str = "NAC_QUARANTINE";

/// The start of the nftables ruleset, before the management lines.
pub const NFT_RULES_HEAD: &'static str = r#"add table inet nac_filter
add set inet nac_filter blocked_macs { type ether_addr; }
add set inet nac_filter quarantined_macs { type ether_addr; }
add set inet nac_filter blocked_ips { type ipv4_addr; }
add set inet nac_filter quarantined_ips { type ipv4_addr; }
add set inet nac_filter management_ips { type ipv4_addr; }
add chain inet nac_filter nac_prerouting { type nat hook prerouting priority dstnat; }
flush chain inet nac_filter nac_prerouting
add rule inet nac_filter nac_prerouting ether saddr @blocked_macs udp dport 53 redirect to :5353
add rule inet nac_filter nac_prerouting ether saddr @blocked_macs tcp dport 53 redirect to :5353
add rule inet nac_filter nac_prerouting ether saddr @quarantined_macs udp dport 53 redirect to :5353
add rule inet nac_filter nac_prerouting ether saddr @quarantined_macs tcp dport 53 redirect to :5353
add rule inet nac_filter nac_prerouting ip saddr @blocked_ips udp dport 53 redirect to :5353
add rule inet nac_filter nac_prerouting ip saddr @blocked_ips tcp dport 53 redirect to :5353
add rule inet nac_filter nac_prerouting ip saddr @quarantined_ips udp dport 53 redirect to :5353
add rule inet nac_filter nac_prerouting ip saddr @quarantined_ips tcp dport 53 redirect to :5353
add rule inet nac_filter nac_prerouting ether saddr @blocked_macs tcp dport 80 redirect to :8080
add rule inet nac_filter nac_prerouting ether saddr @quarantined_macs tcp dport 80 redirect to :8080
add rule inet nac_filter nac_prerouting ip saddr @blocked_ips tcp dport 80 redirect to :8080
add rule inet nac_filter nac_prerouting ip saddr @quarantined_ips tcp dport 80 redirect to :8080
add chain inet nac_filter nac_forward { type filter hook forward priority -100; policy accept; }
flush chain inet nac_filter nac_forward
add rule inet nac_filter nac_forward ether saddr @blocked_macs drop
add rule inet nac_filter nac_forward ether saddr @quarantined_macs drop
add rule inet nac_filter nac_forward ip saddr @blocked_ips drop
add rule inet nac_filter nac_forward ip saddr @quarantined_ips drop
add chain inet nac_filter nac_input { type filter hook input priority -100; policy accept; }
flush chain inet nac_filter nac_input
add rule inet nac_filter nac_input ct state established,related accept
"#;

/// The rest of the nftables ruleset, after the management lines.
pub const NFT_RULES_TAIL: &'static str = r#"add rule inet nac_filter nac_input udp dport 5353 accept
add rule inet nac_filter nac_input tcp dport 5353 accept
add rule inet nac_filter nac_input ether saddr @blocked_macs tcp dport 8080 accept
add rule inet nac_filter nac_input ether saddr @quarantined_macs tcp dport 8080 accept
add rule inet nac_filter nac_input ip saddr @blocked_ips tcp dport 8080 accept
add rule inet nac_filter nac_input ip saddr @quarantined_ips tcp dport 8080 accept
add rule inet nac_filter nac_input ether saddr @blocked_macs drop
add rule inet nac_filter nac_input ip saddr @blocked_ips drop
add table ip nac_filter_nat
add chain ip nac_filter_nat nac_postrouting { type nat hook postrouting priority srcnat; }
flush chain ip nac_filter_nat nac_postrouting
add rule ip nac_filter_nat nac_postrouting masquerade
"#;

/// The firewall tool in use.
#[derive(Debug, Clone, Copy, PartialEq, Eq, Structural)]
pub enum Backend {
    Nft,
    IptablesLegacy,
    Unavailable,
}

/// How a failing step is treated.
#[derive(Debug, Clone, Copy, PartialEq, Eq, Structural)]
pub enum OnFailure {
    /// The failure is ignored.
    Ignore,
    /// The failure is reported and the plan goes on.
    Warn,
    /// The failure ends the plan with its error.
    Fail,
}

/// A command to run.
#[derive(Debug, Clone)]
pub struct FwCommand {
    pub program: String,
    pub args: Vec<String>,
    /// Text written to the command's standard input.
    pub stdin: Option<String>,
    /// Phrases that, found in the lower-cased error output of a failed run,
    /// make the failure harmless.
    pub tolerate: Vec<String>,
    /// The start of the error message for a failed run.
    pub error_prefix: String,
}

/// One step of a plan.
#[derive(Debug, Clone)]
pub enum FwStep {
    /// Run a command.
    Run(FwCommand, OnFailure),
    /// Run the probe; when it does not succeed, run the commands in order,
    /// the first failure ending the plan.
    UnlessOk(FwCommand, Vec<FwCommand>),
    /// Run the command again and again until it does not succeed.
    RepeatWhileOk(FwCommand),
}

/// A command as values.
#[verifier::ext_equal]
pub struct CmdV {
    pub program: Seq<char>,
    pub args: Seq<Seq<char>>,
    pub stdin: Option<Seq<char>>,
    pub tolerate: Seq<Seq<char>>,
    pub error_prefix: Seq<char>,
}

/// A step as values.
#[verifier::ext_equal]
pub enum StepV {
    Run(CmdV, OnFailure),
    UnlessOk(CmdV, Seq<CmdV>),
    RepeatWhileOk(CmdV),
}

pub open spec fn strings_view(v: Seq<String>) -> Seq<Seq<char>> {
    v.map_values(|s: String| s@)
}

pub open spec fn opt_chars(o: Option<String>) -> Option<Seq<char>> {
    match o {
        Some(s) => Some(s@),
        None => None,
    }
}

pub open spec fn cmd_view(c: FwCommand) -> CmdV {
    CmdV {
        program: c.program@,
        args: strings_view(c.args@),
        stdin: opt_chars(c.stdin),
        tolerate: strings_view(c.tolerate@),
        error_prefix: c.error_prefix@,
    }
}

pub open spec fn cmds_view(v: Seq<FwCommand>) -> Seq<CmdV> {
    v.map_values(|c: FwCommand| cmd_view(c))
}

pub open spec fn step_view(s: FwStep) -> StepV {
    match s {
        FwStep::Run(c, f) => StepV::Run(cmd_view(c), f),
        FwStep::UnlessOk(p, t) => StepV::UnlessOk(cmd_view(p), cmds_view(t@)),
        FwStep::RepeatWhileOk(c) => StepV::RepeatWhileOk(cmd_view(c)),
    }
}

pub open spec fn steps_view(v: Seq<FwStep>) -> Seq<StepV> {
    v.map_values(|s: FwStep| step_view(s))
}

/// Parts joined with a separator.
pub open spec fn join_with(parts: Seq<Seq<char>>, sep: Seq<char>) -> Seq<char>
    decreases parts.len(),
{
    if parts.len() == 0 {
        seq![]
    } else if parts.len() == 1 {
        parts[0]
    } else {
        join_with(parts.drop_last(), sep) + sep + parts.last()
    }
}

// ---------------------------------------------------------------------------
// Commands
// ---------------------------------------------------------------------------

/// An `nft add element` command for one element of a set; an error saying
/// the element already exists is harmless.
pub open spec fn nft_add_cmd(set: Seq<char>, elem: Seq<char>) -> CmdV {
    CmdV {
        program: "nft"@,
        args: seq!["add"@, "element"@, "inet"@, NFT_TABLE@, set, "{ "@ + elem + " }"@],
        stdin: None,
        tolerate: seq!["exists"@],
        error_prefix: "nft add element "@ + set + " "@ + elem,
    }
}

/// An `nft delete element` command; errors saying the element was not
/// there are harmless.
pub open spec fn nft_del_cmd(set: Seq<char>, elem: Seq<char>) -> CmdV {
    CmdV {
        program: "nft"@,
        args: seq!["delete"@, "element"@, "inet"@, NFT_TABLE@, set, "{ "@ + elem + " }"@],
        stdin: None,
        tolerate: seq!["could not"@, "no element"@],
        error_prefix: "nft delete element "@ + set + " "@ + elem,
    }
}

/// An `iptables-legacy` command.
pub open spec fn ipt_cmd(args: Seq<Seq<char>>) -> CmdV {
    CmdV {
        program: "iptables-legacy"@,
        args: args,
        stdin: None,
        tolerate: seq![],
        error_prefix: "iptables-legacy "@ + join_with(args, " "@),
    }
}

fn text(s: &str) -> (r: String)
    ensures
        r@ == s@,
{
    owned(s)
}

fn concat3(a: &str, b: &str, c: &str) -> (r: String)
    ensures
        r@ == a@ + b@ + c@,
{
    let mut v: Vec<char> = Vec::new();
    push_str(&mut v, a);
    push_str(&mut v, b);
    push_str(&mut v, c);
    string_from_chars(v)
}

fn push_arg(v: &mut Vec<String>, a: &str)
    ensures
        strings_view(final(v)@) == strings_view(old(v)@).push(a@),
{
    v.push(owned(a));
    assert(strings_view(v@) =~= strings_view(old(v)@).push(a@));
}

fn push_string(v: &mut Vec<String>, a: String)
    ensures
        strings_view(final(v)@) == strings_view(old(v)@).push(a@),
{
    let ghost x = a@;
    v.push(a);
    assert(strings_view(v@) =~= strings_view(old(v)@).push(x));
}

fn join_args(args: &Vec<String>, sep: &str) -> (r: String)
    ensures
        r@ == join_with(strings_view(args@), sep@),
{
    let mut out: Vec<char> = Vec::new();
    let mut i: usize = 0;
    while i < args.len()
        invariant
            i <= args@.len(),
            out@ == join_with(strings_view(args@).take(i as int), sep@),
        decreases args@.len() - i,
    {
        let ghost before = strings_view(args@).take(i as int);
        if i > 0 {
            push_str(&mut out, sep);
        }
        push_str(&mut out, args[i].as_str());
        proof {
            let next = strings_view(args@).take(i + 1);
            assert(next.drop_last() =~= before);
            assert(next.last() == args@[i as int]@);
        }
        i = i + 1;
    }
    assert(strings_view(args@).take(args@.len() as int) =~= strings_view(args@));
    string_from_chars(out)
}

fn nft_add_elem_cmd(set: &str, elem: &str) -> (r: FwCommand)
    ensures
        cmd_view(r) == nft_add_cmd(set@, elem@),
{
    let mut args: Vec<String> = Vec::new();
    push_arg(&mut args, "add");
    push_arg(&mut args, "element");
    push_arg(&mut args, "inet");
    push_arg(&mut args, NFT_TABLE);
    push_arg(&mut args, set);
    push_string(&mut args, concat3("{ ", elem, " }"));
    let mut tolerate: Vec<String> = Vec::new();
    push_arg(&mut tolerate, "exists");
    let mut prefix: Vec<char> = Vec::new();
    push_str(&mut prefix, "nft add element ");
    push_str(&mut prefix, set);
    push_str(&mut prefix, " ");
    push_str(&mut prefix, elem);
    let r = FwCommand {
        program: text("nft"),
        args,
        stdin: None,
        tolerate,
        error_prefix: string_from_chars(prefix),
    };
    assert(strings_view(r.args@) =~= seq!["add"@, "element"@, "inet"@, NFT_TABLE@, set@, "{ "@ + elem@ + " }"@]);
    assert(strings_view(r.tolerate@) =~= seq!["exists"@]);
    r
}

fn nft_del_elem_cmd(set: &str, elem: &str) -> (r: FwCommand)
    ensures
        cmd_view(r) == nft_del_cmd(set@, elem@),
{
    let mut args: Vec<String> = Vec::new();
    push_arg(&mut args, "delete");
    push_arg(&mut args, "element");
    push_arg(&mut args, "inet");
    push_arg(&mut args, NFT_TABLE);
    push_arg(&mut args, set);
    push_string(&mut args, concat3("{ ", elem, " }"));
    let mut tolerate: Vec<String> = Vec::new();
    push_arg(&mut tolerate, "could not");
    push_arg(&mut tolerate, "no element");
    let mut prefix: Vec<char> = Vec::new();
    push_str(&mut prefix, "nft delete element ");
    push_str(&mut prefix, set);
    push_str(&mut prefix, " ");
    push_str(&mut prefix, elem);
    let r = FwCommand {
        program: text("nft"),
        args,
        stdin: None,
        tolerate,
        error_prefix: string_from_chars(prefix),
    };
    assert(strings_view(r.args@) =~= seq!["delete"@, "element"@, "inet"@, NFT_TABLE@, set@, "{ "@ + elem@ + " }"@]);
    assert(strings_view(r.tolerate@) =~= seq!["could not"@, "no element"@]);
    r
}

fn ipt_command(args: Vec<String>) -> (r: FwCommand)
    ensures
        cmd_view(r) == ipt_cmd(strings_view(args@)),
{
    let joined = join_args(&args, " ");
    let mut prefix: Vec<char> = Vec::new();
    push_str(&mut prefix, "iptables-legacy ");
    push_str(&mut prefix, joined.as_str());
    let r = FwCommand {
        program: text("iptables-legacy"),
        args,
        stdin: None,
        tolerate: Vec::new(),
        error_prefix: string_from_chars(prefix),
    };
    assert(strings_view(r.tolerate@) =~= seq![]);
    r
}

// ---------------------------------------------------------------------------
// What a command's result means
// ---------------------------------------------------------------------------

/// Whether some phrase occurs in `hay`.
pub open spec fn any_occurs(hay: Seq<char>, phrases: Seq<Seq<char>>) -> bool {
    exists|i: int| 0 <= i < phrases.len() && contains_seq(hay, #[trigger] phrases[i])
}

/// The outcome of running a command: success, or a failure whose
/// lower-cased error output holds a tolerated phrase, is fine; any other
/// failure is an error made of the prefix, `": "` and the trimmed error
/// output.
pub open spec fn outcome_spec(c: CmdV, success: bool, stderr: Seq<char>) -> Result<(), Seq<char>> {
    if success || any_occurs(unicode_lower(stderr), c.tolerate) {
        Ok(())
    } else {
        Err(c.error_prefix + ": "@ + trim_seq(stderr))
    }
}

/// What a command's exit status and error output mean.
pub fn command_outcome(cmd: &FwCommand, success: bool, stderr: &str) -> (r: Result<(), String>)
    ensures
        match outcome_spec(cmd_view(*cmd), success, stderr@) {
            Ok(()) => r is Ok,
            Err(m) => r matches Err(s) && s@ == m,
        },
{
    if success {
        return Ok(());
    }
    let low = to_lower(stderr);
    let mut i: usize = 0;
    while i < cmd.tolerate.len()
        invariant
            i <= cmd.tolerate@.len(),
            low@ == unicode_lower(stderr@),
            !success,
            forall|k: int| 0 <= k < i ==> !contains_seq(low@, #[trigger] strings_view(cmd.tolerate@)[k]),
        decreases cmd.tolerate@.len() - i,
    {
        assert(strings_view(cmd.tolerate@)[i as int] == cmd.tolerate@[i as int]@);
        if str_contains(low.as_str(), cmd.tolerate[i].as_str()) {
            assert(low@ == unicode_lower(stderr@));
            assert(0 <= i < strings_view(cmd.tolerate@).len() && contains_seq(
                unicode_lower(stderr@),
                strings_view(cmd.tolerate@)[i as int],
            ));
            assert(any_occurs(unicode_lower(stderr@), strings_view(cmd.tolerate@)));
            return Ok(());
        }
        i = i + 1;
    }
    let trimmed = trim_chars(&chars_of(stderr));
    let mut msg: Vec<char> = Vec::new();
    push_str(&mut msg, cmd.error_prefix.as_str());
    push_str(&mut msg, ": ");
    push_all(&mut msg, &trimmed);
    Err(string_from_chars(msg))
}

// ---------------------------------------------------------------------------
// MAC forms
// ---------------------------------------------------------------------------

/// The MAC as nftables sets hold it: lower-case colon form when the text
/// has twelve hex digits, else the text lower-cased.
pub open spec fn nft_mac_spec(mac: Seq<char>) -> Seq<char> {
    if hex_digits(mac).len() == 12 {
        colon_mac(lower_all(hex_digits(mac)))
    } else {
        unicode_lower(mac)
    }
}

/// The MAC as iptables matches it: upper-case colon form when the text has
/// twelve hex digits, else the text upper-cased.
pub open spec fn ipt_mac_spec(mac: Seq<char>) -> Seq<char> {
    if hex_digits(mac).len() == 12 {
        colon_mac(upper_all(hex_digits(mac)))
    } else {
        unicode_upper(mac)
    }
}

pub fn nft_mac(mac: &str) -> (r: String)
    ensures
        r@ == nft_mac_spec(mac@),
{
    let clean = hex_filter(&chars_of(mac));
    if clean.len() == 12 {
        string_from_chars(colon_join(&lower_chars(&clean)))
    } else {
        to_lower(mac)
    }
}

pub fn ipt_mac(mac: &str) -> (r: String)
    ensures
        r@ == ipt_mac_spec(mac@),
{
    let clean = hex_filter(&chars_of(mac));
    if clean.len() == 12 {
        string_from_chars(colon_join(&upper_chars(&clean)))
    } else {
        to_upper(mac)
    }
}


pub open spec fn strs_view(v: Seq<&str>) -> Seq<Seq<char>> {
    v.map_values(|s: &str| s@)
}

fn args_from(parts: &[&str]) -> (r: Vec<String>)
    ensures
        strings_view(r@) == strs_view(parts@),
{
    let mut out: Vec<String> = Vec::new();
    let mut i: usize = 0;
    while i < parts.len()
        invariant
            i <= parts@.len(),
            strings_view(out@) == strs_view(parts@).take(i as int),
        decreases parts@.len() - i,
    {
        push_arg(&mut out, parts[i]);
        i = i + 1;
        assert(strs_view(parts@).take(i as int) =~= strs_view(parts@).take(i - 1).push(parts@[i - 1]@));
    }
    assert(strs_view(parts@).take(parts@.len() as int) =~= strs_view(parts@));
    out
}

// ---------------------------------------------------------------------------
// Plans
// ---------------------------------------------------------------------------

/// An address worth putting into an address set: present, non-empty and
/// not `0.0.0.0`.
pub open spec fn usable_ip(ip: Option<Seq<char>>) -> bool {
    ip matches Some(s) && s.len() > 0 && s != "0.0.0.0"@
}

pub open spec fn opt_str(o: Option<&str>) -> Option<Seq<char>> {
    match o {
        Some(s) => Some(s@),
        None => None,
    }
}

/// Moves a MAC (and a usable address) into the sets of `add_to`, out of
/// those of `del_from`: failing to add the MAC fails the plan, failing to
/// add the address is only reported.
pub open spec fn nft_move_plan(
    del_from: Seq<char>,
    add_to: Seq<char>,
    del_from_ip: Seq<char>,
    add_to_ip: Seq<char>,
    mac: Seq<char>,
    ip: Option<Seq<char>>,
) -> Seq<StepV> {
    let m = nft_mac_spec(mac);
    seq![StepV::Run(nft_del_cmd(del_from, m), OnFailure::Ignore), StepV::Run(nft_add_cmd(add_to, m), OnFailure::Fail)]
        + if usable_ip(ip) {
        seq![
            StepV::Run(nft_del_cmd(del_from_ip, ip->0), OnFailure::Ignore),
            StepV::Run(nft_add_cmd(add_to_ip, ip->0), OnFailure::Warn),
        ]
    } else {
        seq![]
    }
}

pub open spec fn mac_match(m: Seq<char>) -> Seq<Seq<char>> {
    seq!["-m"@, "mac"@, "--mac-source"@, m]
}

pub open spec fn drop_rule(m: Seq<char>) -> Seq<Seq<char>> {
    mac_match(m) + seq!["-j"@, "DROP"@]
}

pub open spec fn dns_rule(m: Seq<char>) -> Seq<Seq<char>> {
    mac_match(m) + seq!["-p"@, "udp"@, "--dport"@, "53"@, "-j"@, "RETURN"@]
}

pub open spec fn portal_rule(m: Seq<char>) -> Seq<Seq<char>> {
    mac_match(m) + seq!["-p"@, "tcp"@, "--dport"@, CAPTIVE_PORT@, "-j"@, "RETURN"@]
}

pub open spec fn ipt_remove_block_plan(m: Seq<char>) -> Seq<StepV> {
    seq![StepV::RepeatWhileOk(ipt_cmd(seq!["-D"@, CHAIN_BLOCK@] + drop_rule(m)))]
}

pub open spec fn ipt_remove_quarantine_plan(m: Seq<char>) -> Seq<StepV> {
    seq![
        StepV::RepeatWhileOk(ipt_cmd(seq!["-D"@, CHAIN_QUARANTINE@] + dns_rule(m))),
        StepV::RepeatWhileOk(ipt_cmd(seq!["-D"@, CHAIN_QUARANTINE@] + portal_rule(m))),
        StepV::RepeatWhileOk(ipt_cmd(seq!["-D"@, CHAIN_QUARANTINE@] + drop_rule(m))),
    ]
}

pub open spec fn ipt_block_plan(mac: Seq<char>) -> Seq<StepV> {
    let m = ipt_mac_spec(mac);
    ipt_remove_quarantine_plan(m) + seq![
        StepV::UnlessOk(
            ipt_cmd(seq!["-C"@, CHAIN_BLOCK@] + drop_rule(m)),
            seq![ipt_cmd(seq!["-I"@, CHAIN_BLOCK@] + drop_rule(m))],
        ),
    ]
}

pub open spec fn ipt_quarantine_plan(mac: Seq<char>) -> Seq<StepV> {
    let m = ipt_mac_spec(mac);
    ipt_remove_block_plan(m) + seq![
        StepV::UnlessOk(
            ipt_cmd(seq!["-C"@, CHAIN_QUARANTINE@] + drop_rule(m)),
            seq![
                ipt_cmd(seq!["-I"@, CHAIN_QUARANTINE@] + dns_rule(m)),
                ipt_cmd(seq!["-I"@, CHAIN_QUARANTINE@] + portal_rule(m)),
                ipt_cmd(seq!["-A"@, CHAIN_QUARANTINE@] + drop_rule(m)),
            ],
        ),
    ]
}

pub open spec fn ipt_allow_plan(mac: Seq<char>) -> Seq<StepV> {
    let m = ipt_mac_spec(mac);
    ipt_remove_block_plan(m) + ipt_remove_quarantine_plan(m)
}

pub open spec fn ensure_jump(parent: Seq<char>, chain: Seq<char>) -> StepV {
    StepV::UnlessOk(
        ipt_cmd(seq!["-C"@, parent, "-j"@, chain]),
        seq![ipt_cmd(seq!["-I"@, parent, "1"@, "-j"@, chain])],
    )
}

pub open spec fn ensure_chain(chain: Seq<char>) -> StepV {
    StepV::UnlessOk(ipt_cmd(seq!["-L"@, chain, "-n"@]), seq![ipt_cmd(seq!["-N"@, chain])])
}

pub open spec fn ipt_setup_plan() -> Seq<StepV> {
    seq![
        ensure_chain(CHAIN_BLOCK@),
        ensure_chain(CHAIN_QUARANTINE@),
        ensure_jump("FORWARD"@, CHAIN_BLOCK@),
        ensure_jump("FORWARD"@, CHAIN_QUARANTINE@),
        ensure_jump("INPUT"@, CHAIN_BLOCK@),
    ]
}

/// The management-address element line (none when no address is given).
pub open spec fn mgmt_elems(ips: Seq<Seq<char>>) -> Seq<char> {
    if ips.len() == 0 {
        seq![]
    } else {
        "add element inet nac_filter management_ips { "@ + join_with(ips, ", "@) + " }\n"@
    }
}

/// The management port rules: open to all without management addresses,
/// else only to them.
pub open spec fn mgmt_rules(ips: Seq<Seq<char>>) -> Seq<char> {
    if ips.len() == 0 {
        OPEN_MGMT_RULES@
    } else {
        RESTRICTED_MGMT_RULES@
    }
}

/// The whole nftables ruleset.
pub open spec fn nft_ruleset(ips: Seq<Seq<char>>) -> Seq<char> {
    NFT_RULES_HEAD@ + mgmt_elems(ips) + mgmt_rules(ips) + NFT_RULES_TAIL@
}

pub open spec fn sysctl_forward_cmd() -> CmdV {
    CmdV {
        program: "sysctl"@,
        args: seq!["-w"@, "net.ipv4.ip_forward=1"@],
        stdin: None,
        tolerate: seq![],
        error_prefix: "sysctl -w net.ipv4.ip_forward=1"@,
    }
}

pub open spec fn nft_load_cmd(ruleset: Seq<char>) -> CmdV {
    CmdV {
        program: "nft"@,
        args: seq!["-f"@, "-"@],
        stdin: Some(ruleset),
        tolerate: seq![],
        error_prefix: "nft setup failed"@,
    }
}

/// Turning forwarding on (whatever comes of it), then loading the ruleset
/// atomically.
pub open spec fn nft_setup_plan(ips: Seq<Seq<char>>) -> Seq<StepV> {
    seq![
        StepV::Run(sysctl_forward_cmd(), OnFailure::Ignore),
        StepV::Run(nft_load_cmd(nft_ruleset(ips)), OnFailure::Fail),
    ]
}

/// Management port rules open to every address.
pub const OPEN_MGMT_RULES: &'static str = "add rule inet nac_filter nac_input tcp dport 22 accept\nadd rule inet nac_filter nac_input tcp dport 3000 accept\nadd rule inet nac_filter nac_input tcp dport 8000 accept\nadd rule inet nac_filter nac_input tcp dport 8001 accept\n";

/// Management port rules open only to the management addresses.
pub const RESTRICTED_MGMT_RULES: &'static str = "add rule inet nac_filter nac_input ip saddr @management_ips tcp dport 22 accept\nadd rule inet nac_filter nac_input ip saddr @management_ips tcp dport 3000 accept\nadd rule inet nac_filter nac_input ip saddr @management_ips tcp dport 8000 accept\nadd rule inet nac_filter nac_input ip saddr @management_ips tcp dport 8001 accept\n";

fn run_step(c: FwCommand, f: OnFailure) -> (r: FwStep)
    ensures
        step_view(r) == StepV::Run(cmd_view(c), f),
{
    FwStep::Run(c, f)
}

fn push_step(v: &mut Vec<FwStep>, s: FwStep)
    ensures
        steps_view(final(v)@) == steps_view(old(v)@).push(step_view(s)),
{
    let ghost x = step_view(s);
    v.push(s);
    assert(steps_view(v@) =~= steps_view(old(v)@).push(x));
}

fn push_cmd(v: &mut Vec<FwCommand>, c: FwCommand)
    ensures
        cmds_view(final(v)@) == cmds_view(old(v)@).push(cmd_view(c)),
{
    let ghost x = cmd_view(c);
    v.push(c);
    assert(cmds_view(v@) =~= cmds_view(old(v)@).push(x));
}

fn ipt(parts: &[&str]) -> (r: FwCommand)
    ensures
        cmd_view(r) == ipt_cmd(strs_view(parts@)),
{
    ipt_command(args_from(parts))
}

fn nft_move(
    del_from: &str,
    add_to: &str,
    del_from_ip: &str,
    add_to_ip: &str,
    mac: &str,
    ip: Option<&str>,
) -> (r: Vec<FwStep>)
    ensures
        steps_view(r@) == nft_move_plan(del_from@, add_to@, del_from_ip@, add_to_ip@, mac@, opt_str(ip)),
{
    let m = nft_mac(mac);
    let mut plan: Vec<FwStep> = Vec::new();
    push_step(&mut plan, run_step(nft_del_elem_cmd(del_from, m.as_str()), OnFailure::Ignore));
    push_step(&mut plan, run_step(nft_add_elem_cmd(add_to, m.as_str()), OnFailure::Fail));
    if let Some(a) = usable(ip) {
        push_step(&mut plan, run_step(nft_del_elem_cmd(del_from_ip, a), OnFailure::Ignore));
        push_step(&mut plan, run_step(nft_add_elem_cmd(add_to_ip, a), OnFailure::Warn));
    }
    let ghost tail: Seq<StepV> = if usable_ip(opt_str(ip)) {
        seq![
            StepV::Run(nft_del_cmd(del_from_ip@, ip->0@), OnFailure::Ignore),
            StepV::Run(nft_add_cmd(add_to_ip@, ip->0@), OnFailure::Warn),
        ]
    } else {
        seq![]
    };
    assert(steps_view(plan@) =~= seq![
        StepV::Run(nft_del_cmd(del_from@, m@), OnFailure::Ignore),
        StepV::Run(nft_add_cmd(add_to@, m@), OnFailure::Fail),
    ] + tail);
    plan
}

/// The address when it is usable.
fn usable<'a>(ip: Option<&'a str>) -> (r: Option<&'a str>)
    ensures
        usable_ip(opt_str(ip)) ==> r == ip,
        !usable_ip(opt_str(ip)) ==> r is None,
{
    match ip {
        Some(s) => if s.is_empty() || str_eq(s, "0.0.0.0") {
            None
        } else {
            Some(s)
        },
        None => None,
    }
}

/// Enforces decisions with the firewall tool found at start-up.
#[derive(Debug, Clone, Copy)]
pub struct IptablesEnforcer {
    backend: Backend,
}

/// The probes run at start-up, in order: `nft --version`, then
/// `iptables-legacy -L -n`.
pub fn backend_probes() -> (r: (FwCommand, FwCommand))
    ensures
        cmd_view(r.0).program == "nft"@,
        cmd_view(r.0).args == seq!["--version"@],
        cmd_view(r.1) == ipt_cmd(seq!["-L"@, "-n"@]),
{
    let mut args: Vec<String> = Vec::new();
    push_arg(&mut args, "--version");
    let nft = FwCommand {
        program: text("nft"),
        args,
        stdin: None,
        tolerate: Vec::new(),
        error_prefix: text("nft --version"),
    };
    let probe_args = ["-L", "-n"];
    assert(strs_view(probe_args@) =~= seq!["-L"@, "-n"@]);
    let probe = ipt(&probe_args);
    assert(cmd_view(probe) =~~= ipt_cmd(seq!["-L"@, "-n"@]));
    (nft, probe)
}

impl IptablesEnforcer {
    pub closed spec fn backend_spec(&self) -> Backend {
        self.backend
    }

    /// Picks nftables when `nft --version` succeeded, else iptables-legacy
    /// when `iptables-legacy -L -n` did, else nothing (enforcement off).
    pub fn new(nft_available: bool, iptables_legacy_available: bool) -> (r: Self)
        ensures
            r.backend_spec() == (if nft_available {
                Backend::Nft
            } else if iptables_legacy_available {
                Backend::IptablesLegacy
            } else {
                Backend::Unavailable
            }),
    {
        let backend = if nft_available {
            Backend::Nft
        } else if iptables_legacy_available {
            Backend::IptablesLegacy
        } else {
            Backend::Unavailable
        };
        IptablesEnforcer { backend }
    }

    pub fn backend(&self) -> (r: Backend)
        ensures
            r == self.backend_spec(),
    {
        self.backend
    }

    /// The start-up plan: the nftables ruleset (SSH and the admin ports
    /// open only to `management_ips` when any are given), or the
    /// iptables-legacy chains and jumps.
    pub fn setup_chains(&self, management_ips: &[&str]) -> (r: Vec<FwStep>)
        ensures
            steps_view(r@) == match self.backend_spec() {
                Backend::Nft => nft_setup_plan(strs_view(management_ips@)),
                Backend::IptablesLegacy => ipt_setup_plan(),
                Backend::Unavailable => seq![],
            },
    {
        match self.backend {
            Backend::Nft => setup_nft(management_ips),
            Backend::IptablesLegacy => setup_ipt_legacy(),
            Backend::Unavailable => {
                let r: Vec<FwStep> = Vec::new();
                assert(steps_view(r@) =~= seq![]);
                r
            },
        }
    }

    /// The plan that blocks an endpoint (denied).
    pub fn block(&self, mac: &str, ip: Option<&str>) -> (r: Vec<FwStep>)
        ensures
            steps_view(r@) == block_plan(self.backend_spec(), mac@, opt_str(ip)),
    {
        match self.backend {
            Backend::Nft => nft_move(SET_QUARANTINE, SET_BLOCK, SET_QUARANTINE_IP, SET_BLOCK_IP, mac, ip),
            Backend::IptablesLegacy => ipt_block(mac),
            Backend::Unavailable => {
                let r: Vec<FwStep> = Vec::new();
                assert(steps_view(r@) =~= seq![]);
                r
            },
        }
    }

    /// The plan that quarantines an endpoint: only DNS and the captive
    /// portal stay reachable.
    pub fn quarantine(&self, mac: &str, ip: Option<&str>) -> (r: Vec<FwStep>)
        ensures
            steps_view(r@) == quarantine_plan(self.backend_spec(), mac@, opt_str(ip)),
    {
        match self.backend {
            Backend::Nft => nft_move(SET_BLOCK, SET_QUARANTINE, SET_BLOCK_IP, SET_QUARANTINE_IP, mac, ip),
            Backend::IptablesLegacy => ipt_quarantine(mac),
            Backend::Unavailable => {
                let r: Vec<FwStep> = Vec::new();
                assert(steps_view(r@) =~= seq![]);
                r
            },
        }
    }

    /// The plan that takes an address out of both address sets (after an
    /// endpoint changed address); nothing without nftables.
    pub fn remove_ip(&self, ip: &str) -> (r: Vec<FwStep>)
        ensures
            steps_view(r@) == remove_ip_plan(self.backend_spec(), ip@),
    {
        let mut plan: Vec<FwStep> = Vec::new();
        if let Backend::Nft = self.backend {
            push_step(&mut plan, run_step(nft_del_elem_cmd(SET_BLOCK_IP, ip), OnFailure::Ignore));
            push_step(&mut plan, run_step(nft_del_elem_cmd(SET_QUARANTINE_IP, ip), OnFailure::Ignore));
        }
        assert(self.backend_spec() != Backend::Nft ==> steps_view(plan@) =~= seq![]);
        plan
    }

    /// The plan that lifts every restriction on an endpoint (allowed).
    pub fn allow(&self, mac: &str, ip: Option<&str>) -> (r: Vec<FwStep>)
        ensures
            steps_view(r@) == allow_plan(self.backend_spec(), mac@, opt_str(ip)),
    {
        match self.backend {
            Backend::Nft => {
                let m = nft_mac(mac);
                let mut plan: Vec<FwStep> = Vec::new();
                push_step(&mut plan, run_step(nft_del_elem_cmd(SET_BLOCK, m.as_str()), OnFailure::Ignore));
                push_step(&mut plan, run_step(nft_del_elem_cmd(SET_QUARANTINE, m.as_str()), OnFailure::Ignore));
                if let Some(a) = usable(ip) {
                    push_step(&mut plan, run_step(nft_del_elem_cmd(SET_BLOCK_IP, a), OnFailure::Ignore));
                    push_step(&mut plan, run_step(nft_del_elem_cmd(SET_QUARANTINE_IP, a), OnFailure::Ignore));
                }
                let ghost tail: Seq<StepV> = if usable_ip(opt_str(ip)) {
                    seq![
                        StepV::Run(nft_del_cmd(SET_BLOCK_IP@, ip->0@), OnFailure::Ignore),
                        StepV::Run(nft_del_cmd(SET_QUARANTINE_IP@, ip->0@), OnFailure::Ignore),
                    ]
                } else {
                    seq![]
                };
                assert(steps_view(plan@) =~= seq![
                    StepV::Run(nft_del_cmd(SET_BLOCK@, m@), OnFailure::Ignore),
                    StepV::Run(nft_del_cmd(SET_QUARANTINE@, m@), OnFailure::Ignore),
                ] + tail);
                plan
            },
            Backend::IptablesLegacy => ipt_allow(mac),
            Backend::Unavailable => {
                let r: Vec<FwStep> = Vec::new();
                assert(steps_view(r@) =~= seq![]);
                r
            },
        }
    }
}

/// The plan that blocks an endpoint.
pub open spec fn block_plan(b: Backend, mac: Seq<char>, ip: Option<Seq<char>>) -> Seq<StepV> {
    match b {
        Backend::Nft => nft_move_plan(SET_QUARANTINE@, SET_BLOCK@, SET_QUARANTINE_IP@, SET_BLOCK_IP@, mac, ip),
        Backend::IptablesLegacy => ipt_block_plan(mac),
        Backend::Unavailable => seq![],
    }
}

/// The plan that quarantines an endpoint.
pub open spec fn quarantine_plan(b: Backend, mac: Seq<char>, ip: Option<Seq<char>>) -> Seq<StepV> {
    match b {
        Backend::Nft => nft_move_plan(SET_BLOCK@, SET_QUARANTINE@, SET_BLOCK_IP@, SET_QUARANTINE_IP@, mac, ip),
        Backend::IptablesLegacy => ipt_quarantine_plan(mac),
        Backend::Unavailable => seq![],
    }
}

/// The plan that allows an endpoint.
pub open spec fn allow_plan(b: Backend, mac: Seq<char>, ip: Option<Seq<char>>) -> Seq<StepV> {
    match b {
        Backend::Nft => nft_allow_plan(mac, ip),
        Backend::IptablesLegacy => ipt_allow_plan(mac),
        Backend::Unavailable => seq![],
    }
}

/// The plan that takes an address out of both address sets.
pub open spec fn remove_ip_plan(b: Backend, ip: Seq<char>) -> Seq<StepV> {
    match b {
        Backend::Nft => seq![
            StepV::Run(nft_del_cmd(SET_BLOCK_IP@, ip), OnFailure::Ignore),
            StepV::Run(nft_del_cmd(SET_QUARANTINE_IP@, ip), OnFailure::Ignore),
        ],
        _ => seq![],
    }
}

/// Allowing with nftables: the MAC out of both MAC sets, a usable address
/// out of both address sets, failures ignored.
pub open spec fn nft_allow_plan(mac: Seq<char>, ip: Option<Seq<char>>) -> Seq<StepV> {
    let m = nft_mac_spec(mac);
    seq![
        StepV::Run(nft_del_cmd(SET_BLOCK@, m), OnFailure::Ignore),
        StepV::Run(nft_del_cmd(SET_QUARANTINE@, m), OnFailure::Ignore),
    ] + if usable_ip(ip) {
        seq![
            StepV::Run(nft_del_cmd(SET_BLOCK_IP@, ip->0), OnFailure::Ignore),
            StepV::Run(nft_del_cmd(SET_QUARANTINE_IP@, ip->0), OnFailure::Ignore),
        ]
    } else {
        seq![]
    }
}

fn join_strs(parts: &[&str], sep: &str) -> (r: Vec<char>)
    ensures
        r@ == join_with(strs_view(parts@), sep@),
{
    let mut out: Vec<char> = Vec::new();
    let mut i: usize = 0;
    while i < parts.len()
        invariant
            i <= parts@.len(),
            out@ == join_with(strs_view(parts@).take(i as int), sep@),
        decreases parts@.len() - i,
    {
        let ghost before = strs_view(parts@).take(i as int);
        if i > 0 {
            push_str(&mut out, sep);
        }
        push_str(&mut out, parts[i]);
        proof {
            let next = strs_view(parts@).take(i + 1);
            assert(next.drop_last() =~= before);
        }
        i = i + 1;
    }
    assert(strs_view(parts@).take(parts@.len() as int) =~= strs_view(parts@));
    out
}

/// The nftables ruleset for the given management addresses.
pub fn nft_ruleset_text(management_ips: &[&str]) -> (r: String)
    ensures
        r@ == nft_ruleset(strs_view(management_ips@)),
{
    let mut out: Vec<char> = Vec::new();
    push_str(&mut out, NFT_RULES_HEAD);
    if management_ips.len() > 0 {
        push_str(&mut out, "add element inet nac_filter management_ips { ");
        push_all(&mut out, &join_strs(management_ips, ", "));
        push_str(&mut out, " }\n");
        push_str(&mut out, RESTRICTED_MGMT_RULES);
    } else {
        push_str(&mut out, OPEN_MGMT_RULES);
    }
    push_str(&mut out, NFT_RULES_TAIL);
    string_from_chars(out)
}

fn setup_nft(management_ips: &[&str]) -> (r: Vec<FwStep>)
    ensures
        steps_view(r@) == nft_setup_plan(strs_view(management_ips@)),
{
    let sysctl = FwCommand {
        program: text("sysctl"),
        args: args_from(&["-w", "net.ipv4.ip_forward=1"]),
        stdin: None,
        tolerate: Vec::new(),
        error_prefix: text("sysctl -w net.ipv4.ip_forward=1"),
    };
    let load = FwCommand {
        program: text("nft"),
        args: args_from(&["-f", "-"]),
        stdin: Some(nft_ruleset_text(management_ips)),
        tolerate: Vec::new(),
        error_prefix: text("nft setup failed"),
    };
    assert(strings_view(sysctl.tolerate@) =~= seq![]);
    assert(strings_view(load.tolerate@) =~= seq![]);
    let mut plan: Vec<FwStep> = Vec::new();
    push_step(&mut plan, run_step(sysctl, OnFailure::Ignore));
    push_step(&mut plan, run_step(load, OnFailure::Fail));
    assert(steps_view(plan@) =~~= nft_setup_plan(strs_view(management_ips@)));
    plan
}

fn unless_ok(probe: FwCommand, then: Vec<FwCommand>) -> (r: FwStep)
    ensures
        step_view(r) == StepV::UnlessOk(cmd_view(probe), cmds_view(then@)),
{
    FwStep::UnlessOk(probe, then)
}

fn one_cmd(c: FwCommand) -> (r: Vec<FwCommand>)
    ensures
        cmds_view(r@) == seq![cmd_view(c)],
{
    let mut v: Vec<FwCommand> = Vec::new();
    push_cmd(&mut v, c);
    assert(cmds_view(v@) =~= seq![cmd_view(c)]);
    v
}

/// Creates the chains that are missing and hooks them in.
pub fn setup_ipt_legacy() -> (r: Vec<FwStep>)
    ensures
        steps_view(r@) == ipt_setup_plan(),
{
    let mut plan: Vec<FwStep> = Vec::new();
    push_step(&mut plan, ipt_ensure_chain(CHAIN_BLOCK));
    push_step(&mut plan, ipt_ensure_chain(CHAIN_QUARANTINE));
    push_step(&mut plan, ipt_ensure_jump("FORWARD", CHAIN_BLOCK));
    push_step(&mut plan, ipt_ensure_jump("FORWARD", CHAIN_QUARANTINE));
    push_step(&mut plan, ipt_ensure_jump("INPUT", CHAIN_BLOCK));
    assert(steps_view(plan@) =~~= ipt_setup_plan());
    plan
}

/// Creates a chain unless it exists.
fn ipt_ensure_chain(chain: &str) -> (r: FwStep)
    ensures
        step_view(r) == ensure_chain(chain@),
{
    let probe_args = ["-L", chain, "-n"];
    assert(strs_view(probe_args@) =~= seq!["-L"@, chain@, "-n"@]);
    let probe = ipt(&probe_args);
    let create_args = ["-N", chain];
    assert(strs_view(create_args@) =~= seq!["-N"@, chain@]);
    let create = ipt(&create_args);
    let r = unless_ok(probe, one_cmd(create));
    assert(step_view(r) =~~= ensure_chain(chain@));
    r
}

/// Inserts a jump from `parent` to `chain` unless there is one.
pub fn ipt_ensure_jump(parent: &str, chain: &str) -> (r: FwStep)
    ensures
        step_view(r) == ensure_jump(parent@, chain@),
{
    let pa = ["-C", parent, "-j", chain];
    assert(strs_view(pa@) =~= seq!["-C"@, parent@, "-j"@, chain@]);
    let probe = ipt(&pa);
    let ia = ["-I", parent, "1", "-j", chain];
    assert(strs_view(ia@) =~= seq!["-I"@, parent@, "1"@, "-j"@, chain@]);
    let insert = ipt(&ia);
    assert(cmd_view(probe) =~~= ipt_cmd(seq!["-C"@, parent@, "-j"@, chain@]));
    let r = unless_ok(probe, one_cmd(insert));
    assert(step_view(r) =~~= ensure_jump(parent@, chain@));
    r
}

/// Deletes every block rule for an iptables-form MAC.
pub fn ipt_remove_block(m: &str) -> (r: Vec<FwStep>)
    ensures
        steps_view(r@) == ipt_remove_block_plan(m@),
{
    let mut plan: Vec<FwStep> = Vec::new();
    let c_args = ["-D", CHAIN_BLOCK, "-m", "mac", "--mac-source", m, "-j", "DROP"];
    assert(strs_view(c_args@) =~= seq!["-D"@, CHAIN_BLOCK@] + drop_rule(m@));
    let c = ipt(&c_args);
    assert(cmd_view(c) =~~= ipt_cmd(seq!["-D"@, CHAIN_BLOCK@] + drop_rule(m@)));
    push_step(&mut plan, FwStep::RepeatWhileOk(c));
    assert(steps_view(plan@) =~~= ipt_remove_block_plan(m@));
    plan
}

/// Deletes every quarantine rule for an iptables-form MAC.
pub fn ipt_remove_quarantine(m: &str) -> (r: Vec<FwStep>)
    ensures
        steps_view(r@) == ipt_remove_quarantine_plan(m@),
{
    let mut plan: Vec<FwStep> = Vec::new();
    let a_args = ["-D", CHAIN_QUARANTINE, "-m", "mac", "--mac-source", m, "-p", "udp", "--dport", "53", "-j", "RETURN"];
    assert(strs_view(a_args@) =~= seq!["-D"@, CHAIN_QUARANTINE@] + dns_rule(m@));
    let a = ipt(&a_args);
    assert(cmd_view(a) =~~= ipt_cmd(seq!["-D"@, CHAIN_QUARANTINE@] + dns_rule(m@)));
    let b_args = ["-D", CHAIN_QUARANTINE, "-m", "mac", "--mac-source", m, "-p", "tcp", "--dport", CAPTIVE_PORT, "-j", "RETURN"];
    assert(strs_view(b_args@) =~= seq!["-D"@, CHAIN_QUARANTINE@] + portal_rule(m@));
    let b = ipt(&b_args);
    assert(cmd_view(b) =~~= ipt_cmd(seq!["-D"@, CHAIN_QUARANTINE@] + portal_rule(m@)));
    let c_args = ["-D", CHAIN_QUARANTINE, "-m", "mac", "--mac-source", m, "-j", "DROP"];
    assert(strs_view(c_args@) =~= seq!["-D"@, CHAIN_QUARANTINE@] + drop_rule(m@));
    let c = ipt(&c_args);
    assert(cmd_view(c) =~~= ipt_cmd(seq!["-D"@, CHAIN_QUARANTINE@] + drop_rule(m@)));
    push_step(&mut plan, FwStep::RepeatWhileOk(a));
    push_step(&mut plan, FwStep::RepeatWhileOk(b));
    push_step(&mut plan, FwStep::RepeatWhileOk(c));
    assert(steps_view(plan@) =~~= ipt_remove_quarantine_plan(m@));
    plan
}

fn append_steps(dst: &mut Vec<FwStep>, src: Vec<FwStep>)
    ensures
        steps_view(final(dst)@) == steps_view(old(dst)@) + steps_view(src@),
{
    let mut src = src;
    let ghost s0 = steps_view(src@);
    dst.append(&mut src);
    assert(steps_view(dst@) =~= steps_view(old(dst)@) + s0);
}

/// Blocks a MAC with iptables-legacy.
pub fn ipt_block(mac: &str) -> (r: Vec<FwStep>)
    ensures
        steps_view(r@) == ipt_block_plan(mac@),
{
    let m = ipt_mac(mac);
    let ms = m.as_str();
    let mut plan = ipt_remove_quarantine(ms);
    let probe_args = ["-C", CHAIN_BLOCK, "-m", "mac", "--mac-source", ms, "-j", "DROP"];
    assert(strs_view(probe_args@) =~= seq!["-C"@, CHAIN_BLOCK@] + drop_rule(m@));
    let probe = ipt(&probe_args);
    assert(cmd_view(probe) =~~= ipt_cmd(seq!["-C"@, CHAIN_BLOCK@] + drop_rule(m@)));
    let insert_args = ["-I", CHAIN_BLOCK, "-m", "mac", "--mac-source", ms, "-j", "DROP"];
    assert(strs_view(insert_args@) =~= seq!["-I"@, CHAIN_BLOCK@] + drop_rule(m@));
    let insert = ipt(&insert_args);
    assert(cmd_view(insert) =~~= ipt_cmd(seq!["-I"@, CHAIN_BLOCK@] + drop_rule(m@)));
    push_step(&mut plan, unless_ok(probe, one_cmd(insert)));
    assert(steps_view(plan@) =~~= ipt_block_plan(mac@));
    plan
}

/// Quarantines a MAC with iptables-legacy.
pub fn ipt_quarantine(mac: &str) -> (r: Vec<FwStep>)
    ensures
        steps_view(r@) == ipt_quarantine_plan(mac@),
{
    let m = ipt_mac(mac);
    let ms = m.as_str();
    let mut plan = ipt_remove_block(ms);
    let probe_args = ["-C", CHAIN_QUARANTINE, "-m", "mac", "--mac-source", ms, "-j", "DROP"];
    assert(strs_view(probe_args@) =~= seq!["-C"@, CHAIN_QUARANTINE@] + drop_rule(m@));
    let probe = ipt(&probe_args);
    assert(cmd_view(probe) =~~= ipt_cmd(seq!["-C"@, CHAIN_QUARANTINE@] + drop_rule(m@)));
    let a_args = ["-I", CHAIN_QUARANTINE, "-m", "mac", "--mac-source", ms, "-p", "udp", "--dport", "53", "-j", "RETURN"];
    assert(strs_view(a_args@) =~= seq!["-I"@, CHAIN_QUARANTINE@] + dns_rule(m@));
    let a = ipt(&a_args);
    assert(cmd_view(a) =~~= ipt_cmd(seq!["-I"@, CHAIN_QUARANTINE@] + dns_rule(m@)));
    let b_args = ["-I", CHAIN_QUARANTINE, "-m", "mac", "--mac-source", ms, "-p", "tcp", "--dport", CAPTIVE_PORT, "-j", "RETURN"];
    assert(strs_view(b_args@) =~= seq!["-I"@, CHAIN_QUARANTINE@] + portal_rule(m@));
    let b = ipt(&b_args);
    assert(cmd_view(b) =~~= ipt_cmd(seq!["-I"@, CHAIN_QUARANTINE@] + portal_rule(m@)));
    let c_args = ["-A", CHAIN_QUARANTINE, "-m", "mac", "--mac-source", ms, "-j", "DROP"];
    assert(strs_view(c_args@) =~= seq!["-A"@, CHAIN_QUARANTINE@] + drop_rule(m@));
    let c = ipt(&c_args);
    assert(cmd_view(c) =~~= ipt_cmd(seq!["-A"@, CHAIN_QUARANTINE@] + drop_rule(m@)));
    let mut then: Vec<FwCommand> = Vec::new();
    push_cmd(&mut then, a);
    push_cmd(&mut then, b);
    push_cmd(&mut then, c);
    push_step(&mut plan, unless_ok(probe, then));
    assert(steps_view(plan@) =~~= ipt_quarantine_plan(mac@));
    plan
}

/// Lifts every iptables-legacy rule for a MAC.
pub fn ipt_allow(mac: &str) -> (r: Vec<FwStep>)
    ensures
        steps_view(r@) == ipt_allow_plan(mac@),
{
    let m = ipt_mac(mac);
    let mut plan = ipt_remove_block(m.as_str());
    append_steps(&mut plan, ipt_remove_quarantine(m.as_str()));
    plan
}


// ---------------------------------------------------------------------------
// What nftables plans do to the sets
// ---------------------------------------------------------------------------

/// The effect of one step on the sets (set name to element texts), when
/// the command takes effect: `nft add element` adds, `nft delete element`
/// removes; every other step leaves the sets alone.
pub open spec fn nft_effect(st: Map<Seq<char>, Set<Seq<char>>>, step: StepV) -> Map<Seq<char>, Set<Seq<char>>> {
    match step {
        StepV::Run(c, _) => if c.program == "nft"@ && c.args.len() == 6 && c.args[1] == "element"@
            && c.args[3] == NFT_TABLE@ {
            let set = c.args[4];
            let elem = c.args[5];
            let cur = if st.contains_key(set) {
                st[set]
            } else {
                Set::empty()
            };
            if c.args[0] == "add"@ {
                st.insert(set, cur.insert(elem))
            } else if c.args[0] == "delete"@ {
                st.insert(set, cur.remove(elem))
            } else {
                st
            }
        } else {
            st
        },
        _ => st,
    }
}

/// The sets after a plan whose commands all take effect.
pub open spec fn nft_apply(st: Map<Seq<char>, Set<Seq<char>>>, steps: Seq<StepV>) -> Map<Seq<char>, Set<Seq<char>>>
    decreases steps.len(),
{
    if steps.len() == 0 {
        st
    } else {
        nft_apply(nft_effect(st, steps[0]), steps.drop_first())
    }
}

pub open spec fn in_set(st: Map<Seq<char>, Set<Seq<char>>>, set: Seq<char>, elem: Seq<char>) -> bool {
    st.contains_key(set) && st[set].contains(elem)
}

/// The element text of a set member.
pub open spec fn elem_text(e: Seq<char>) -> Seq<char> {
    "{ "@ + e + " }"@
}

proof fn lemma_apply_two(st: Map<Seq<char>, Set<Seq<char>>>, a: StepV, b: StepV)
    ensures
        nft_apply(st, seq![a, b]) == nft_effect(nft_effect(st, a), b),
{
    let s1 = nft_effect(st, a);
    let s2 = nft_effect(s1, b);
    assert(seq![a, b].drop_first() =~= seq![b]);
    assert(seq![b].drop_first() =~= Seq::<StepV>::empty());
    assert(nft_apply(s2, Seq::<StepV>::empty()) == s2);
    assert(nft_apply(s1, seq![b]) == nft_apply(s2, Seq::<StepV>::empty()));
    assert(nft_apply(st, seq![a, b]) == nft_apply(s1, seq![b]));
}

proof fn lemma_apply_concat(st: Map<Seq<char>, Set<Seq<char>>>, x: Seq<StepV>, y: Seq<StepV>)
    ensures
        nft_apply(st, x + y) == nft_apply(nft_apply(st, x), y),
    decreases x.len(),
{
    if x.len() == 0 {
        assert(x + y =~= y);
    } else {
        assert((x + y).drop_first() =~= x.drop_first() + y);
        lemma_apply_concat(nft_effect(st, x[0]), x.drop_first(), y);
    }
}

proof fn lemma_set_names()
    ensures
        SET_BLOCK@ != SET_QUARANTINE@,
        SET_BLOCK_IP@ != SET_QUARANTINE_IP@,
        SET_BLOCK@ != SET_BLOCK_IP@,
        SET_BLOCK@ != SET_QUARANTINE_IP@,
        SET_QUARANTINE@ != SET_BLOCK_IP@,
        SET_QUARANTINE@ != SET_QUARANTINE_IP@,
        "add"@ != "delete"@,
        "nft"@.len() == 3,
{
    reveal_strlit("blocked_macs");
    reveal_strlit("quarantined_macs");
    reveal_strlit("blocked_ips");
    reveal_strlit("quarantined_ips");
    reveal_strlit("add");
    reveal_strlit("delete");
    reveal_strlit("nft");
    assert(SET_BLOCK@[0] != SET_QUARANTINE@[0]);
    assert(SET_BLOCK_IP@[0] != SET_QUARANTINE_IP@[0]);
    assert(SET_BLOCK@.len() != SET_BLOCK_IP@.len());
    assert(SET_BLOCK@[0] != SET_QUARANTINE_IP@[0]);
    assert(SET_QUARANTINE@[0] != SET_BLOCK_IP@[0]);
    assert(SET_QUARANTINE@.len() != SET_QUARANTINE_IP@.len());
    assert("add"@.len() != "delete"@.len());
}

/// With nftables, moving an endpoint (block or quarantine) leaves its MAC
/// in the target MAC set and out of the other one, and a usable address
/// likewise in the target address set only, whatever the sets held.
pub proof fn law_nft_move(
    st: Map<Seq<char>, Set<Seq<char>>>,
    block: bool,
    mac: Seq<char>,
    ip: Option<Seq<char>>,
)
    ensures
        ({
            let plan = if block {
                block_plan(Backend::Nft, mac, ip)
            } else {
                quarantine_plan(Backend::Nft, mac, ip)
            };
            let after = nft_apply(st, plan);
            let (to, from, to_ip, from_ip) = if block {
                (SET_BLOCK@, SET_QUARANTINE@, SET_BLOCK_IP@, SET_QUARANTINE_IP@)
            } else {
                (SET_QUARANTINE@, SET_BLOCK@, SET_QUARANTINE_IP@, SET_BLOCK_IP@)
            };
            &&& in_set(after, to, elem_text(nft_mac_spec(mac)))
            &&& !in_set(after, from, elem_text(nft_mac_spec(mac)))
            &&& usable_ip(ip) ==> in_set(after, to_ip, elem_text(ip->0)) && !in_set(
                after,
                from_ip,
                elem_text(ip->0),
            )
        }),
{
    lemma_set_names();
    let m = nft_mac_spec(mac);
    let (to, from, to_ip, from_ip) = if block {
        (SET_BLOCK@, SET_QUARANTINE@, SET_BLOCK_IP@, SET_QUARANTINE_IP@)
    } else {
        (SET_QUARANTINE@, SET_BLOCK@, SET_QUARANTINE_IP@, SET_BLOCK_IP@)
    };
    let head = seq![StepV::Run(nft_del_cmd(from, m), OnFailure::Ignore), StepV::Run(nft_add_cmd(to, m), OnFailure::Fail)];
    let tail = if usable_ip(ip) {
        seq![
            StepV::Run(nft_del_cmd(from_ip, ip->0), OnFailure::Ignore),
            StepV::Run(nft_add_cmd(to_ip, ip->0), OnFailure::Warn),
        ]
    } else {
        seq![]
    };
    let plan = if block {
        block_plan(Backend::Nft, mac, ip)
    } else {
        quarantine_plan(Backend::Nft, mac, ip)
    };
    assert(plan == head + tail);
    lemma_apply_concat(st, head, tail);
    lemma_apply_two(st, head[0], head[1]);
    let mid = nft_apply(st, head);
    assert(in_set(mid, to, elem_text(m)));
    assert(!in_set(mid, from, elem_text(m)));
    if usable_ip(ip) {
        lemma_apply_two(mid, tail[0], tail[1]);
    } else {
        assert(nft_apply(mid, tail) == mid);
    }
}

/// With nftables, allowing an endpoint leaves its MAC in neither MAC set
/// and a usable address in neither address set, whatever the sets held.
pub proof fn law_nft_allow(st: Map<Seq<char>, Set<Seq<char>>>, mac: Seq<char>, ip: Option<Seq<char>>)
    ensures
        ({
            let after = nft_apply(st, allow_plan(Backend::Nft, mac, ip));
            &&& !in_set(after, SET_BLOCK@, elem_text(nft_mac_spec(mac)))
            &&& !in_set(after, SET_QUARANTINE@, elem_text(nft_mac_spec(mac)))
            &&& usable_ip(ip) ==> !in_set(after, SET_BLOCK_IP@, elem_text(ip->0)) && !in_set(
                after,
                SET_QUARANTINE_IP@,
                elem_text(ip->0),
            )
        }),
{
    lemma_set_names();
    let m = nft_mac_spec(mac);
    let head = seq![
        StepV::Run(nft_del_cmd(SET_BLOCK@, m), OnFailure::Ignore),
        StepV::Run(nft_del_cmd(SET_QUARANTINE@, m), OnFailure::Ignore),
    ];
    let tail = if usable_ip(ip) {
        seq![
            StepV::Run(nft_del_cmd(SET_BLOCK_IP@, ip->0), OnFailure::Ignore),
            StepV::Run(nft_del_cmd(SET_QUARANTINE_IP@, ip->0), OnFailure::Ignore),
        ]
    } else {
        seq![]
    };
    assert(allow_plan(Backend::Nft, mac, ip) == head + tail);
    lemma_apply_concat(st, head, tail);
    lemma_apply_two(st, head[0], head[1]);
    let mid = nft_apply(st, head);
    if usable_ip(ip) {
        lemma_apply_two(mid, tail[0], tail[1]);
    } else {
        assert(nft_apply(mid, tail) == mid);
    }
}



/// The management accept rules, one per port (22, 3000, 8000, 8001): for any
/// source without management addresses, else only from them.
pub open spec fn mgmt_accept_lines(ips: Seq<Seq<char>>) -> Seq<Seq<char>> {
    if ips.len() == 0 {
        seq![
            "add rule inet nac_filter nac_input tcp dport 22 accept"@,
            "add rule inet nac_filter nac_input tcp dport 3000 accept"@,
            "add rule inet nac_filter nac_input tcp dport 8000 accept"@,
            "add rule inet nac_filter nac_input tcp dport 8001 accept"@,
        ]
    } else {
        seq![
            "add rule inet nac_filter nac_input ip saddr @management_ips tcp dport 22 accept"@,
            "add rule inet nac_filter nac_input ip saddr @management_ips tcp dport 3000 accept"@,
            "add rule inet nac_filter nac_input ip saddr @management_ips tcp dport 8000 accept"@,
            "add rule inet nac_filter nac_input ip saddr @management_ips tcp dport 8001 accept"@,
        ]
    }
}

/// Where each management accept rule starts within the management rules.
pub open spec fn mgmt_accept_offsets(ips: Seq<Seq<char>>) -> Seq<int> {
    if ips.len() == 0 {
        seq![0int, 55int, 112int, 169int]
    } else {
        seq![0int, 80int, 162int, 244int]
    }
}

/// The drop rules of the input chain.
pub open spec fn input_drop_lines() -> Seq<Seq<char>> {
    seq![
        "add rule inet nac_filter nac_input ether saddr @blocked_macs drop"@,
        "add rule inet nac_filter nac_input ip saddr @blocked_ips drop"@,
    ]
}

proof fn lemma_mgmt_lines(ips: Seq<Seq<char>>)
    ensures
        forall|i: int| 0 <= i < 4 ==> #[trigger] mgmt_rules(ips).subrange(
            mgmt_accept_offsets(ips)[i],
            mgmt_accept_offsets(ips)[i] + mgmt_accept_lines(ips)[i].len(),
        ) == mgmt_accept_lines(ips)[i],
        forall|i: int| 0 <= i < 4 ==> 0 <= #[trigger] mgmt_accept_offsets(ips)[i] && mgmt_accept_offsets(ips)[i]
            + mgmt_accept_lines(ips)[i].len() <= mgmt_rules(ips).len(),
{
    reveal_strlit("add rule inet nac_filter nac_input tcp dport 22 accept");
    reveal_strlit("add rule inet nac_filter nac_input tcp dport 3000 accept");
    reveal_strlit("add rule inet nac_filter nac_input tcp dport 8000 accept");
    reveal_strlit("add rule inet nac_filter nac_input tcp dport 8001 accept");
    reveal_strlit("add rule inet nac_filter nac_input ip saddr @management_ips tcp dport 22 accept");
    reveal_strlit("add rule inet nac_filter nac_input ip saddr @management_ips tcp dport 3000 accept");
    reveal_strlit("add rule inet nac_filter nac_input ip saddr @management_ips tcp dport 8000 accept");
    reveal_strlit("add rule inet nac_filter nac_input ip saddr @management_ips tcp dport 8001 accept");
    reveal_strlit("add rule inet nac_filter nac_input tcp dport 22 accept\nadd rule inet nac_filter nac_input tcp dport 3000 accept\nadd rule inet nac_filter nac_input tcp dport 8000 accept\nadd rule inet nac_filter nac_input tcp dport 8001 accept\n");
    reveal_strlit("add rule inet nac_filter nac_input ip saddr @management_ips tcp dport 22 accept\nadd rule inet nac_filter nac_input ip saddr @management_ips tcp dport 3000 accept\nadd rule inet nac_filter nac_input ip saddr @management_ips tcp dport 8000 accept\nadd rule inet nac_filter nac_input ip saddr @management_ips tcp dport 8001 accept\n");
    assert(OPEN_MGMT_RULES@.len() == 226);
    assert(RESTRICTED_MGMT_RULES@.len() == 326);
    if ips.len() == 0 {
        assert(OPEN_MGMT_RULES@.subrange(0, 54) =~= "add rule inet nac_filter nac_input tcp dport 22 accept"@);
        assert(OPEN_MGMT_RULES@.subrange(55, 111) =~= "add rule inet nac_filter nac_input tcp dport 3000 accept"@);
        assert(OPEN_MGMT_RULES@.subrange(112, 168) =~= "add rule inet nac_filter nac_input tcp dport 8000 accept"@);
        assert(OPEN_MGMT_RULES@.subrange(169, 225) =~= "add rule inet nac_filter nac_input tcp dport 8001 accept"@);
    } else {
        assert(RESTRICTED_MGMT_RULES@.subrange(0, 79) =~= "add rule inet nac_filter nac_input ip saddr @management_ips tcp dport 22 accept"@);
        assert(RESTRICTED_MGMT_RULES@.subrange(80, 161) =~= "add rule inet nac_filter nac_input ip saddr @management_ips tcp dport 3000 accept"@);
        assert(RESTRICTED_MGMT_RULES@.subrange(162, 243) =~= "add rule inet nac_filter nac_input ip saddr @management_ips tcp dport 8000 accept"@);
        assert(RESTRICTED_MGMT_RULES@.subrange(244, 325) =~= "add rule inet nac_filter nac_input ip saddr @management_ips tcp dport 8001 accept"@);
    }
    assert forall|i: int| 0 <= i < 4 implies #[trigger] mgmt_rules(ips).subrange(
        mgmt_accept_offsets(ips)[i],
        mgmt_accept_offsets(ips)[i] + mgmt_accept_lines(ips)[i].len(),
    ) == mgmt_accept_lines(ips)[i] by {
        if i == 0 {} else if i == 1 {} else if i == 2 {} else {}
    }
    assert forall|i: int| 0 <= i < 4 implies 0 <= #[trigger] mgmt_accept_offsets(ips)[i] && mgmt_accept_offsets(ips)[i]
        + mgmt_accept_lines(ips)[i].len() <= mgmt_rules(ips).len() by {
        if i == 0 {} else if i == 1 {} else if i == 2 {} else {}
    }
}

proof fn lemma_tail_drop_lines()
    ensures
        NFT_RULES_TAIL@.subrange(446, 511) == input_drop_lines()[0],
        NFT_RULES_TAIL@.subrange(512, 573) == input_drop_lines()[1],
{
    reveal_strlit("add rule inet nac_filter nac_input ether saddr @blocked_macs drop");
    reveal_strlit("add rule inet nac_filter nac_input ip saddr @blocked_ips drop");
    reveal_strlit(r#"add rule inet nac_filter nac_input udp dport 5353 accept
add rule inet nac_filter nac_input tcp dport 5353 accept
add rule inet nac_filter nac_input ether saddr @blocked_macs tcp dport 8080 accept
add rule inet nac_filter nac_input ether saddr @quarantined_macs tcp dport 8080 accept
add rule inet nac_filter nac_input ip saddr @blocked_ips tcp dport 8080 accept
add rule inet nac_filter nac_input ip saddr @quarantined_ips tcp dport 8080 accept
add rule inet nac_filter nac_input ether saddr @blocked_macs drop
add rule inet nac_filter nac_input ip saddr @blocked_ips drop
add table ip nac_filter_nat
add chain ip nac_filter_nat nac_postrouting { type nat hook postrouting priority srcnat; }
flush chain ip nac_filter_nat nac_postrouting
add rule ip nac_filter_nat nac_postrouting masquerade
"#);
    assert(NFT_RULES_TAIL@.subrange(446, 511) =~= input_drop_lines()[0]);
    assert(NFT_RULES_TAIL@.subrange(512, 573) =~= input_drop_lines()[1]);
}

/// In the ruleset, the management rules (with their accept rule for each
/// management port) stand in one block, and the input chain's drop rules
/// follow that block, in the part of the ruleset after it.
pub proof fn law_nft_mgmt_before_input_drops(ips: Seq<Seq<char>>)
    ensures
        ({
            let r = nft_ruleset(ips);
            let p = (NFT_RULES_HEAD@.len() + mgmt_elems(ips).len()) as int;
            let t = p + mgmt_rules(ips).len() as int;
            &&& r.subrange(p, t) == mgmt_rules(ips)
            &&& forall|i: int| 0 <= i < 4 ==> #[trigger] occurs_at(r, mgmt_accept_lines(ips)[i], p + mgmt_accept_offsets(ips)[i])
                && p + mgmt_accept_offsets(ips)[i] + mgmt_accept_lines(ips)[i].len() <= t
            &&& occurs_at(r, input_drop_lines()[0], t + 446)
            &&& occurs_at(r, input_drop_lines()[1], t + 512)
        }),
{
    let r = nft_ruleset(ips);
    let pre = NFT_RULES_HEAD@ + mgmt_elems(ips);
    let p = pre.len() as int;
    let m = mgmt_rules(ips);
    let t = p + m.len() as int;
    assert(r == pre + m + NFT_RULES_TAIL@);
    assert(r.subrange(p, t) =~= m);
    lemma_mgmt_lines(ips);
    lemma_tail_drop_lines();
    reveal_strlit(r#"add rule inet nac_filter nac_input udp dport 5353 accept
add rule inet nac_filter nac_input tcp dport 5353 accept
add rule inet nac_filter nac_input ether saddr @blocked_macs tcp dport 8080 accept
add rule inet nac_filter nac_input ether saddr @quarantined_macs tcp dport 8080 accept
add rule inet nac_filter nac_input ip saddr @blocked_ips tcp dport 8080 accept
add rule inet nac_filter nac_input ip saddr @quarantined_ips tcp dport 8080 accept
add rule inet nac_filter nac_input ether saddr @blocked_macs drop
add rule inet nac_filter nac_input ip saddr @blocked_ips drop
add table ip nac_filter_nat
add chain ip nac_filter_nat nac_postrouting { type nat hook postrouting priority srcnat; }
flush chain ip nac_filter_nat nac_postrouting
add rule ip nac_filter_nat nac_postrouting masquerade
"#);
    assert forall|i: int| 0 <= i < 4 implies #[trigger] occurs_at(r, mgmt_accept_lines(ips)[i], p + mgmt_accept_offsets(ips)[i])
        && p + mgmt_accept_offsets(ips)[i] + mgmt_accept_lines(ips)[i].len() <= t by {
        let o = mgmt_accept_offsets(ips)[i];
        let l = mgmt_accept_lines(ips)[i];
        assert(m.subrange(o, o + l.len()) == l);
        assert(o + l.len() <= m.len());
        assert(r.subrange(p + o, p + o + l.len()) =~= m.subrange(o, o + l.len()));
    }
    assert(NFT_RULES_TAIL@.len() >= 573);
    assert(r.subrange(t + 446, t + 511) =~= NFT_RULES_TAIL@.subrange(446, 511));
    assert(r.subrange(t + 512, t + 573) =~= NFT_RULES_TAIL@.subrange(512, 573));
}

} // verus!
