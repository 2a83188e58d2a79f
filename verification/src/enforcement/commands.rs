//! Enforcement commands: what an action word means, the table of
//! endpoints under ARP enforcement, and the plan for a command.

use vstd::prelude::*;
use crate::enforcement::firewall::{block_plan, opt_str, quarantine_plan, remove_ip_plan, steps_view, usable_ip, FwStep, IptablesEnforcer};
use crate::ipv4::{ipv4_text, ipv4_string, parse_ipv4, parse_ipv4_spec};
use crate::mac::parse_mac_spec;
use crate::text::{owned, str_eq, string_from_chars, to_lower, unicode_lower};

verus! {

/// Subject on which enforcement commands arrive.
pub const SUBJECT: &'static str = "nac.commands.enforcement";

/// An enforcement command.
#[derive(Debug, Clone)]
pub struct EnforcementCommand {
    pub mac_address: String,
    pub ip_address: String,
    /// `allowed`/`allow`, `denied`/`block`/`blocked`, or
    /// `quarantined`/`quarantine`.
    pub action: String,
    pub gateway_ip: String,
    pub gateway_mac: Option<String>,
    pub vlan_id: Option<u16>,
}

/// What is enforced on an endpoint that is not allowed.
#[derive(Debug, Clone, Copy, PartialEq, Eq, Structural)]
pub enum NacAction {
    Block,
    Quarantine,
}

/// An endpoint under ARP enforcement.
#[derive(Debug, Clone, Copy)]
pub struct QuarantineEntry {
    /// Network byte order.
    pub victim_ip: [u8; 4],
    pub victim_mac: [u8; 6],
    /// Network byte order.
    pub gateway_ip: [u8; 4],
    pub action: NacAction,
}

/// An entry as values.
pub struct EntryV {
    pub victim_ip: Seq<u8>,
    pub victim_mac: Seq<u8>,
    pub gateway_ip: Seq<u8>,
    pub action: NacAction,
}

pub open spec fn entry_view(e: QuarantineEntry) -> EntryV {
    EntryV { victim_ip: e.victim_ip@, victim_mac: e.victim_mac@, gateway_ip: e.gateway_ip@, action: e.action }
}

/// Whether an action word means the endpoint is allowed.
pub open spec fn is_allow_spec(action: Seq<char>) -> bool {
    action == "allowed"@ || action == "allow"@
}

pub fn is_allow_action(action: &str) -> (r: bool)
    ensures
        r == is_allow_spec(action@),
{
    str_eq(action, "allowed") || str_eq(action, "allow")
}

/// The action a (non-allow) word asks for; an unknown word quarantines,
/// the safe default.
pub open spec fn map_action_spec(action: Seq<char>) -> NacAction {
    if action == "denied"@ || action == "block"@ || action == "blocked"@ {
        NacAction::Block
    } else {
        NacAction::Quarantine
    }
}

pub fn map_action(action: &str) -> (r: NacAction)
    ensures
        r == map_action_spec(action@),
{
    if str_eq(action, "denied") || str_eq(action, "block") || str_eq(action, "blocked") {
        NacAction::Block
    } else {
        NacAction::Quarantine
    }
}

/// Reads a MAC written with any separators.
pub fn parse_mac(mac: &str) -> (r: Option<[u8; 6]>)
    ensures
        match parse_mac_spec(mac@) {
            Some(b) => r matches Some(a) && a@ == b,
            None => r is None,
        },
{
    crate::mac::parse_mac(mac)
}

/// The address given to the firewall: none when empty or `0.0.0.0`.
pub fn firewall_ip(ip: &str) -> (r: Option<&str>)
    ensures
        opt_str(r) == fw_ip(ip@),
        r matches Some(s) ==> s == ip,
{
    if ip.is_empty() || str_eq(ip, "0.0.0.0") {
        None
    } else {
        Some(ip)
    }
}

// ---------------------------------------------------------------------------
// The table of endpoints under ARP enforcement
// ---------------------------------------------------------------------------

/// The map a list of entries with distinct keys stands for.
pub open spec fn table_map(e: Seq<(String, QuarantineEntry)>) -> Map<Seq<char>, EntryV>
    decreases e.len(),
{
    if e.len() == 0 {
        Map::empty()
    } else {
        table_map(e.drop_last()).insert(e.last().0@, entry_view(e.last().1))
    }
}

/// Endpoints under ARP enforcement, keyed by lower-cased MAC text; they are
/// poisoned again periodically. Kept as a list of (key, entry) pairs in which
/// no key occurs twice (see `wf`) and viewed as a `Map`: std's hash map,
/// keyed by text, has no specification that Verus can reason with.
pub struct QuarantineTable {
    entries: Vec<(String, QuarantineEntry)>,
}

proof fn lemma_table_contains(e: Seq<(String, QuarantineEntry)>, k: Seq<char>)
    ensures
        table_map(e).contains_key(k) <==> exists|i: int| 0 <= i < e.len() && #[trigger] e[i].0@ == k,
    decreases e.len(),
{
    if e.len() > 0 {
        lemma_table_contains(e.drop_last(), k);
        if table_map(e.drop_last()).contains_key(k) {
            let i = choose|i: int| 0 <= i < e.drop_last().len() && #[trigger] e.drop_last()[i].0@ == k;
            assert(e[i].0@ == k);
        }
        if exists|i: int| 0 <= i < e.len() && #[trigger] e[i].0@ == k {
            let i = choose|i: int| 0 <= i < e.len() && #[trigger] e[i].0@ == k;
            if i < e.len() - 1 {
                assert(e.drop_last()[i].0@ == k);
            }
        }
    }
}

proof fn lemma_table_value(e: Seq<(String, QuarantineEntry)>, i: int)
    requires
        0 <= i < e.len(),
        forall|a: int, b: int| 0 <= a < b < e.len() ==> #[trigger] e[a].0@ != #[trigger] e[b].0@,
    ensures
        table_map(e).contains_key(e[i].0@),
        table_map(e)[e[i].0@] == entry_view(e[i].1),
    decreases e.len(),
{
    if i < e.len() - 1 {
        assert(e.drop_last()[i] == e[i]);
        lemma_table_value(e.drop_last(), i);
        assert(e[i].0@ != e.last().0@);
    }
}

proof fn lemma_table_remove(e: Seq<(String, QuarantineEntry)>, i: int)
    requires
        0 <= i < e.len(),
        forall|a: int, b: int| 0 <= a < b < e.len() ==> #[trigger] e[a].0@ != #[trigger] e[b].0@,
    ensures
        table_map(e.remove(i)) == table_map(e).remove(e[i].0@),
    decreases e.len(),
{
    let k = e[i].0@;
    if i == e.len() - 1 {
        assert(e.remove(i) =~= e.drop_last());
        lemma_table_contains(e.drop_last(), k);
        assert(!table_map(e.drop_last()).contains_key(k));
        assert(table_map(e.drop_last()) =~= table_map(e).remove(k));
    } else {
        lemma_table_remove(e.drop_last(), i);
        assert(e.remove(i).drop_last() =~= e.drop_last().remove(i));
        assert(e.remove(i).last() == e.last());
        assert(e.last().0@ != k);
        assert(table_map(e.remove(i)) =~= table_map(e).remove(k));
    }
}

impl QuarantineTable {
    pub closed spec fn view(&self) -> Map<Seq<char>, EntryV> {
        table_map(self.entries@)
    }

    /// The keys, in the order entries are listed.
    pub closed spec fn keys(&self) -> Seq<Seq<char>> {
        self.entries@.map_values(|e: (String, QuarantineEntry)| e.0@)
    }

    /// No key occurs twice.
    pub closed spec fn wf(&self) -> bool {
        forall|a: int, b: int|
            0 <= a < b < self.entries@.len() ==> #[trigger] self.entries@[a].0@ != #[trigger] self.entries@[b].0@
    }

    pub fn new() -> (r: Self)
        ensures
            r.wf(),
            r.view() == Map::<Seq<char>, EntryV>::empty(),
    {
        QuarantineTable { entries: Vec::new() }
    }

    fn position(&self, key: &str) -> (r: Option<usize>)
        requires
            self.wf(),
        ensures
            r matches Some(i) ==> i < self.entries@.len() && self.entries@[i as int].0@ == key@,
            r is None ==> !self.view().contains_key(key@),
    {
        let mut i: usize = 0;
        while i < self.entries.len()
            invariant
                i <= self.entries@.len(),
                forall|j: int| 0 <= j < i ==> #[trigger] self.entries@[j].0@ != key@,
            decreases self.entries@.len() - i,
        {
            if str_eq(self.entries[i].0.as_str(), key) {
                return Some(i);
            }
            i = i + 1;
        }
        proof {
            lemma_table_contains(self.entries@, key@);
        }
        None
    }

    /// The entry under a key.
    pub fn get(&self, key: &str) -> (r: Option<QuarantineEntry>)
        requires
            self.wf(),
        ensures
            r matches Some(e) ==> self.view().contains_key(key@) && self.view()[key@] == entry_view(e),
            r is None ==> !self.view().contains_key(key@),
    {
        match self.position(key) {
            Some(i) => {
                proof {
                    lemma_table_value(self.entries@, i as int);
                }
                Some(self.entries[i].1)
            },
            None => None,
        }
    }

    /// Takes the entry under a key out.
    pub fn remove(&mut self, key: &str) -> (r: Option<QuarantineEntry>)
        requires
            old(self).wf(),
        ensures
            final(self).wf(),
            final(self).view() == old(self).view().remove(key@),
            r matches Some(e) ==> old(self).view().contains_key(key@) && old(self).view()[key@] == entry_view(e),
            r is None ==> !old(self).view().contains_key(key@),
    {
        match self.position(key) {
            Some(i) => {
                proof {
                    lemma_table_value(self.entries@, i as int);
                    lemma_table_remove(self.entries@, i as int);
                }
                let ghost before = self.entries@;
                let (_, e) = self.entries.remove(i);
                assert(self.entries@ == before.remove(i as int));
                assert forall|a: int, b: int|
                    0 <= a < b < self.entries@.len() implies #[trigger] self.entries@[a].0@
                    != #[trigger] self.entries@[b].0@ by {
                    let a0 = if a < i { a } else { a + 1 };
                    let b0 = if b < i { b } else { b + 1 };
                    assert(self.entries@[a] == before[a0]);
                    assert(self.entries@[b] == before[b0]);
                }
                Some(e)
            },
            None => {
                assert(old(self).view().remove(key@) =~= old(self).view());
                None
            },
        }
    }

    /// Sets the entry under a key.
    pub fn insert(&mut self, key: String, entry: QuarantineEntry)
        requires
            old(self).wf(),
        ensures
            final(self).wf(),
            final(self).view() == old(self).view().insert(key@, entry_view(entry)),
    {
        let _ = self.remove(key.as_str());
        let ghost before = self.entries@;
        let ghost k = key@;
        proof {
            lemma_table_contains(before, k);
        }
        self.entries.push((key, entry));
        assert(self.entries@.drop_last() =~= before);
        assert forall|a: int, b: int|
            0 <= a < b < self.entries@.len() implies #[trigger] self.entries@[a].0@
            != #[trigger] self.entries@[b].0@ by {
            if b == before.len() {
                assert(before[a].0@ != k);
            } else {
                assert(self.entries@[a] == before[a] && self.entries@[b] == before[b]);
            }
        }
    }

    /// All entries, for periodic re-poisoning.
    pub fn entries(&self) -> (r: Vec<QuarantineEntry>)
        requires
            self.wf(),
        ensures
            r@.len() == self.keys().len(),
            forall|i: int| 0 <= i < r@.len() ==> self.view().contains_key(#[trigger] self.keys()[i])
                && self.view()[self.keys()[i]] == entry_view(r@[i]),
            forall|k: Seq<char>| #[trigger] self.view().contains_key(k) ==> exists|i: int|
                0 <= i < r@.len() && self.keys()[i] == k && self.view()[k] == entry_view(#[trigger] r@[i]),
    {
        let mut out: Vec<QuarantineEntry> = Vec::new();
        let mut i: usize = 0;
        while i < self.entries.len()
            invariant
                self.wf(),
                i <= self.entries@.len(),
                out@.len() == i,
                forall|j: int| 0 <= j < i ==> #[trigger] out@[j] == self.entries@[j].1,
            decreases self.entries@.len() - i,
        {
            out.push(self.entries[i].1);
            i = i + 1;
        }
        assert forall|j: int| 0 <= j < out@.len() implies self.view().contains_key(#[trigger] self.keys()[j])
            && self.view()[self.keys()[j]] == entry_view(out@[j]) by {
            lemma_table_value(self.entries@, j);
        }
        assert forall|k: Seq<char>| #[trigger] self.view().contains_key(k) implies exists|j: int|
            0 <= j < out@.len() && self.keys()[j] == k && self.view()[k] == entry_view(#[trigger] out@[j]) by {
            lemma_table_contains(self.entries@, k);
            let j = choose|j: int| 0 <= j < self.entries@.len() && #[trigger] self.entries@[j].0@ == k;
            lemma_table_value(self.entries@, j);
            assert(self.keys()[j] == k);
        }
        out
    }

    /// The keys, in the order `entries` lists the entries, for periodic
    /// reinforcement of the firewall rules.
    pub fn macs(&self) -> (r: Vec<String>)
        ensures
            r@.len() == self.keys().len(),
            forall|i: int| 0 <= i < r@.len() ==> #[trigger] r@[i]@ == self.keys()[i],
    {
        let mut out: Vec<String> = Vec::new();
        let mut i: usize = 0;
        while i < self.entries.len()
            invariant
                i <= self.entries@.len(),
                out@.len() == i,
                forall|j: int| 0 <= j < i ==> #[trigger] out@[j]@ == self.entries@[j].0@,
            decreases self.entries@.len() - i,
        {
            out.push(owned(self.entries[i].0.as_str()));
            i = i + 1;
        }
        out
    }
}

// ---------------------------------------------------------------------------
// Plans
// ---------------------------------------------------------------------------

/// Where ARP enforcement is aimed.
#[derive(Debug, Clone, Copy)]
pub struct ArpTarget {
    pub victim_ip: [u8; 4],
    pub victim_mac: [u8; 6],
    pub gateway_ip: [u8; 4],
}

/// The plan for a block or quarantine command.
#[derive(Debug)]
pub struct CommandPlan {
    pub action: NacAction,
    /// Steps that take an address the endpoint left out of the address
    /// sets; their failures are ignored.
    pub stale_ip: Vec<FwStep>,
    /// Firewall steps for the action.
    pub firewall: Vec<FwStep>,
    /// Where ARP enforcement goes, when the command allows it.
    pub arp: Option<ArpTarget>,
}

/// The table key of a MAC text.
pub open spec fn table_key(mac: Seq<char>) -> Seq<char> {
    unicode_lower(mac)
}

/// Whether the gateway has to be found in the routing table: the command
/// names none (or `0.0.0.0`).
pub open spec fn needs_route_lookup_spec(cmd: EnforcementCommand) -> bool {
    !usable_ip(Some(cmd.gateway_ip@))
}

pub fn needs_route_lookup(cmd: &EnforcementCommand) -> (r: bool)
    ensures
        r == needs_route_lookup_spec(*cmd),
{
    firewall_ip(cmd.gateway_ip.as_str()).is_none()
}

/// The ARP target of a command: its address and MAC must parse, and the
/// gateway is the command's (when it names one and it parses) or else the
/// default route's.
pub open spec fn arp_target_spec(cmd: EnforcementCommand, default_gateway: Option<[u8; 4]>) -> Option<(Seq<u8>, Seq<u8>, Seq<u8>)> {
    if !usable_ip(Some(cmd.ip_address@)) {
        None
    } else {
        match (parse_ipv4_spec(cmd.ip_address@), parse_mac_spec(cmd.mac_address@)) {
            (Some(ip), Some(mac)) => {
                let gw: Option<Seq<u8>> = if usable_ip(Some(cmd.gateway_ip@)) {
                    parse_ipv4_spec(cmd.gateway_ip@)
                } else {
                    match default_gateway {
                        Some(g) => Some(g@),
                        None => None,
                    }
                };
                match gw {
                    Some(g) => Some((ip, mac, g)),
                    None => None,
                }
            },
            _ => None,
        }
    }
}

pub open spec fn target_view(t: Option<ArpTarget>) -> Option<(Seq<u8>, Seq<u8>, Seq<u8>)> {
    match t {
        Some(a) => Some((a.victim_ip@, a.victim_mac@, a.gateway_ip@)),
        None => None,
    }
}

fn arp_target(cmd: &EnforcementCommand, default_gateway: Option<[u8; 4]>) -> (r: Option<ArpTarget>)
    ensures
        target_view(r) == arp_target_spec(*cmd, default_gateway),
{
    if firewall_ip(cmd.ip_address.as_str()).is_none() {
        return None;
    }
    let victim_ip = match parse_ipv4(cmd.ip_address.as_str()) {
        Some(ip) => ip,
        None => {
            return None;
        },
    };
    let victim_mac = match parse_mac(cmd.mac_address.as_str()) {
        Some(m) => m,
        None => {
            return None;
        },
    };
    let gateway = if firewall_ip(cmd.gateway_ip.as_str()).is_some() {
        parse_ipv4(cmd.gateway_ip.as_str())
    } else {
        default_gateway
    };
    match gateway {
        Some(g) => Some(ArpTarget { victim_ip, victim_mac, gateway_ip: g }),
        None => None,
    }
}

/// The address the endpoint had, when the command moves it to another one.
pub open spec fn stale_ip_spec(table: Map<Seq<char>, EntryV>, cmd: EnforcementCommand) -> Option<Seq<u8>> {
    let key = table_key(cmd.mac_address@);
    if usable_ip(Some(cmd.ip_address@)) && table.contains_key(key) {
        match parse_ipv4_spec(cmd.ip_address@) {
            Some(new_ip) => if table[key].victim_ip != new_ip {
                Some(table[key].victim_ip)
            } else {
                None
            },
            None => None,
        }
    } else {
        None
    }
}

/// The plan for a block or quarantine command: clear the endpoint's old
/// address if it moved, apply the firewall action, and aim ARP enforcement
/// when the command's addresses allow it. `default_gateway` is only read
/// when the command names no gateway.
pub fn plan_command(
    table: &QuarantineTable,
    enforcer: &IptablesEnforcer,
    cmd: &EnforcementCommand,
    default_gateway: Option<[u8; 4]>,
) -> (r: CommandPlan)
    requires
        table.wf(),
    ensures
        r.action == map_action_spec(cmd.action@),
        steps_view(r.stale_ip@) == (match stale_ip_spec(table.view(), *cmd) {
            Some(old) => remove_ip_plan(enforcer.backend_spec(), ipv4_text(old)),
            None => seq![],
        }),
        steps_view(r.firewall@) == (if map_action_spec(cmd.action@) == NacAction::Block {
            block_plan(enforcer.backend_spec(), cmd.mac_address@, fw_ip(cmd.ip_address@))
        } else {
            quarantine_plan(enforcer.backend_spec(), cmd.mac_address@, fw_ip(cmd.ip_address@))
        }),
        target_view(r.arp) == arp_target_spec(*cmd, default_gateway),
{
    let action = map_action(cmd.action.as_str());
    let key = to_lower(cmd.mac_address.as_str());
    let mut stale: Vec<FwStep> = Vec::new();
    if firewall_ip(cmd.ip_address.as_str()).is_some() {
        if let Some(old) = table.get(key.as_str()) {
            if let Some(new_ip) = parse_ipv4(cmd.ip_address.as_str()) {
                let o = old.victim_ip;
                if !(o[0] == new_ip[0] && o[1] == new_ip[1] && o[2] == new_ip[2] && o[3] == new_ip[3]) {
                    let old_text = string_from_chars(ipv4_string(old.victim_ip));
                    stale = enforcer.remove_ip(old_text.as_str());
                } else {
                    assert(o@ =~= new_ip@);
                }
            }
        }
    }
    proof {
        if let Some(o) = stale_ip_spec(table.view(), *cmd) {
            assert(stale_ip_spec(table.view(), *cmd) == Some(o));
        }
    }
    let ip_opt = firewall_ip(cmd.ip_address.as_str());
    let firewall = match action {
        NacAction::Block => enforcer.block(cmd.mac_address.as_str(), ip_opt),
        NacAction::Quarantine => enforcer.quarantine(cmd.mac_address.as_str(), ip_opt),
    };
    CommandPlan { action, stale_ip: stale, firewall, arp: arp_target(cmd, default_gateway) }
}

/// Records an endpoint after ARP enforcement was aimed at it (whether or
/// not frames could be sent), under its lower-cased MAC.
pub fn record_enforcement(table: &mut QuarantineTable, cmd: &EnforcementCommand, target: &ArpTarget, action: NacAction)
    requires
        old(table).wf(),
    ensures
        final(table).wf(),
        final(table).view() == old(table).view().insert(
            table_key(cmd.mac_address@),
            EntryV {
                victim_ip: target.victim_ip@,
                victim_mac: target.victim_mac@,
                gateway_ip: target.gateway_ip@,
                action: action,
            },
        ),
{
    let key = to_lower(cmd.mac_address.as_str());
    let entry = QuarantineEntry {
        victim_ip: target.victim_ip,
        victim_mac: target.victim_mac,
        gateway_ip: target.gateway_ip,
        action,
    };
    table.insert(key, entry);
}

/// The end of a block or quarantine command, given how its firewall steps
/// went and, when the plan aims ARP enforcement, how sending the frames
/// went (`None` when there was no sender). A failure is returned and leaves
/// the table as it was; otherwise the endpoint is recorded when the plan
/// aims ARP enforcement, and the table is unchanged when it does not.
pub fn conclude_command(
    table: &mut QuarantineTable,
    cmd: &EnforcementCommand,
    plan: &CommandPlan,
    firewall: Result<(), String>,
    sent: Option<Result<(), String>>,
) -> (r: Result<(), String>)
    requires
        old(table).wf(),
    ensures
        final(table).wf(),
        match firewall {
            Err(e) => r matches Err(m) && m@ == e@ && final(table).view() == old(table).view(),
            Ok(()) => match plan.arp {
                None => r is Ok && final(table).view() == old(table).view(),
                Some(t) => match sent {
                    Some(Err(e)) => r matches Err(m) && m@ == e@ && final(table).view() == old(table).view(),
                    _ => r is Ok && final(table).view() == old(table).view().insert(
                        table_key(cmd.mac_address@),
                        EntryV {
                            victim_ip: t.victim_ip@,
                            victim_mac: t.victim_mac@,
                            gateway_ip: t.gateway_ip@,
                            action: plan.action,
                        },
                    ),
                },
            },
        },
{
    match firewall {
        Err(e) => Err(e),
        Ok(()) => match plan.arp {
            None => Ok(()),
            Some(t) => match sent {
                Some(Err(e)) => Err(e),
                _ => {
                    record_enforcement(table, cmd, &t, plan.action);
                    Ok(())
                },
            },
        },
    }
}

/// Where ARP restoration goes for an allowed endpoint; a missing gateway
/// is to be found in the routing table (or taken as `0.0.0.0`).
#[derive(Debug, Clone, Copy)]
pub struct RestoreTarget {
    pub victim_ip: [u8; 4],
    pub victim_mac: [u8; 6],
    pub gateway_ip: Option<[u8; 4]>,
    /// Whether the endpoint was in the table.
    pub had_state: bool,
}

/// The restore target of an allow command: the table entry's addresses when
/// there is one, else the command's (both must parse).
pub open spec fn restore_spec(entry: Option<EntryV>, cmd: EnforcementCommand) -> Option<(Seq<u8>, Seq<u8>, Option<Seq<u8>>)> {
    let mac = match entry {
        Some(e) => Some(e.victim_mac),
        None => parse_mac_spec(cmd.mac_address@),
    };
    let ip = match entry {
        Some(e) => Some(e.victim_ip),
        None => parse_ipv4_spec(cmd.ip_address@),
    };
    match (ip, mac) {
        (Some(i), Some(m)) => Some((i, m, match entry {
            Some(e) => Some(e.gateway_ip),
            None => None,
        })),
        _ => None,
    }
}

pub open spec fn restore_view(t: Option<RestoreTarget>) -> Option<(Seq<u8>, Seq<u8>, Option<Seq<u8>>)> {
    match t {
        Some(r) => Some((r.victim_ip@, r.victim_mac@, match r.gateway_ip {
            Some(g) => Some(g@),
            None => None,
        })),
        None => None,
    }
}

/// After the firewall allowed an endpoint: takes it out of the table and
/// says where ARP restoration goes, if anywhere.
pub fn finish_allow(table: &mut QuarantineTable, cmd: &EnforcementCommand) -> (r: Option<RestoreTarget>)
    requires
        old(table).wf(),
    ensures
        final(table).wf(),
        final(table).view() == old(table).view().remove(table_key(cmd.mac_address@)),
        restore_view(r) == restore_spec(
            (if old(table).view().contains_key(table_key(cmd.mac_address@)) {
                Some(old(table).view()[table_key(cmd.mac_address@)])
            } else {
                None
            }),
            *cmd,
        ),
        r matches Some(t) ==> t.had_state == old(table).view().contains_key(table_key(cmd.mac_address@)),
{
    let key = to_lower(cmd.mac_address.as_str());
    let entry = table.remove(key.as_str());
    let had_state = entry.is_some();
    let victim_mac = match entry {
        Some(e) => Some(e.victim_mac),
        None => parse_mac(cmd.mac_address.as_str()),
    };
    let victim_ip = match entry {
        Some(e) => Some(e.victim_ip),
        None => parse_ipv4(cmd.ip_address.as_str()),
    };
    match (victim_ip, victim_mac) {
        (Some(ip), Some(mac)) => Some(
            RestoreTarget {
                victim_ip: ip,
                victim_mac: mac,
                gateway_ip: match entry {
                    Some(e) => Some(e.gateway_ip),
                    None => None,
                },
                had_state,
            },
        ),
        _ => None,
    }
}

/// The allow command after its firewall steps: a firewall failure is
/// returned and leaves the table as it was; otherwise the endpoint leaves
/// the table (whatever happens to the frames sent afterwards) and the
/// restore target is given as `finish_allow` says.
pub fn conclude_allow(table: &mut QuarantineTable, cmd: &EnforcementCommand, firewall: Result<(), String>) -> (r: Result<
    Option<RestoreTarget>,
    String,
>)
    requires
        old(table).wf(),
    ensures
        final(table).wf(),
        match firewall {
            Err(e) => r matches Err(m) && m@ == e@ && final(table).view() == old(table).view(),
            Ok(()) => r matches Ok(t) && final(table).view() == old(table).view().remove(table_key(cmd.mac_address@))
                && restore_view(t) == restore_spec(
                (if old(table).view().contains_key(table_key(cmd.mac_address@)) {
                    Some(old(table).view()[table_key(cmd.mac_address@)])
                } else {
                    None
                }),
                *cmd,
            ) && (t matches Some(x) ==> x.had_state == old(table).view().contains_key(table_key(cmd.mac_address@))),
        },
{
    match firewall {
        Err(e) => Err(e),
        Ok(()) => Ok(finish_allow(table, cmd)),
    }
}

/// The gateway's hardware address named by an allow command, when it
/// parses; otherwise it is looked up in the ARP cache.
pub fn command_gateway_mac(cmd: &EnforcementCommand) -> (r: Option<[u8; 6]>)
    ensures
        match cmd.gateway_mac {
            Some(m) => match parse_mac_spec(m@) {
                Some(b) => r matches Some(a) && a@ == b,
                None => r is None,
            },
            None => r is None,
        },
{
    match &cmd.gateway_mac {
        Some(m) => parse_mac(m.as_str()),
        None => None,
    }
}

/// The gateway used when re-poisoning an entry: the current default route's
/// when known, else the one recorded.
pub fn repoison_gateway(current: Option<[u8; 4]>, entry: &QuarantineEntry) -> (r: [u8; 4])
    ensures
        r == (match current {
            Some(g) => g,
            None => entry.gateway_ip,
        }),
{
    match current {
        Some(g) => g,
        None => entry.gateway_ip,
    }
}

/// Allowing an endpoint whose enforcement was recorded takes it off the
/// table and aims restoration at the recorded addresses, whatever the
/// allow command itself carries.
pub proof fn law_record_then_allow(
    t: Map<Seq<char>, EntryV>,
    enforced: EnforcementCommand,
    target: ArpTarget,
    action: NacAction,
    allow: EnforcementCommand,
)
    requires
        allow.mac_address@ == enforced.mac_address@,
    ensures
        ({
            let recorded = t.insert(
                table_key(enforced.mac_address@),
                EntryV {
                    victim_ip: target.victim_ip@,
                    victim_mac: target.victim_mac@,
                    gateway_ip: target.gateway_ip@,
                    action: action,
                },
            );
            let key = table_key(allow.mac_address@);
            &&& !recorded.remove(key).contains_key(key)
            &&& restore_spec(
                (if recorded.contains_key(key) {
                    Some(recorded[key])
                } else {
                    None
                }),
                allow,
            ) == Some((target.victim_ip@, target.victim_mac@, Some(target.gateway_ip@)))
        }),
{
}

/// The address text given to the firewall.
pub open spec fn fw_ip(ip: Seq<char>) -> Option<Seq<char>> {
    if usable_ip(Some(ip)) {
        Some(ip)
    } else {
        None
    }
}

} // verus!
