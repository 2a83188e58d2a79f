//! What iptables-legacy plans do to the chains, in a model where a chain is
//! a list of rules (each the arguments after the chain name):
//! `-C` succeeds when the chain holds the rule, `-D` removes its first copy
//! (failing when there is none), `-I` puts it at the head, `-A` at the end.
//! Repeating a `-D` until it fails removes every copy.

use vstd::prelude::*;
use crate::enforcement::firewall::{
    dns_rule, drop_rule, ipt_cmd, ipt_mac_spec, ipt_quarantine_plan, ipt_remove_block_plan,
    ipt_remove_quarantine_plan, portal_rule, CmdV, StepV, CAPTIVE_PORT, CHAIN_BLOCK, CHAIN_QUARANTINE,
};

verus! {

/// A rule: its arguments after the chain name.
pub type Rule = Seq<Seq<char>>;

/// Chains by name.
pub type Chains = Map<Seq<char>, Seq<Rule>>;

pub open spec fn chain_of(st: Chains, ch: Seq<char>) -> Seq<Rule> {
    if st.contains_key(ch) {
        st[ch]
    } else {
        Seq::empty()
    }
}

/// A list without any copy of `x`, the rest in order.
pub open spec fn without(s: Seq<Rule>, x: Rule) -> Seq<Rule>
    decreases s.len(),
{
    if s.len() == 0 {
        Seq::empty()
    } else if s.last() == x {
        without(s.drop_last(), x)
    } else {
        without(s.drop_last(), x).push(s.last())
    }
}

pub open spec fn is_ipt(c: CmdV) -> bool {
    c.program == "iptables-legacy"@ && c.args.len() >= 2
}

/// Whether a command succeeds: `-C` and `-D` when the chain holds the rule,
/// every other command always.
pub open spec fn ipt_ok(st: Chains, c: CmdV) -> bool {
    if is_ipt(c) && (c.args[0] == "-C"@ || c.args[0] == "-D"@) {
        chain_of(st, c.args[1]).contains(c.args.skip(2))
    } else {
        true
    }
}

/// What a command does to the chains.
pub open spec fn ipt_effect(st: Chains, c: CmdV) -> Chains {
    if is_ipt(c) {
        let ch = c.args[1];
        let rule = c.args.skip(2);
        let cur = chain_of(st, ch);
        if c.args[0] == "-D"@ && cur.contains(rule) {
            st.insert(ch, cur.remove(cur.index_of(rule)))
        } else if c.args[0] == "-I"@ {
            st.insert(ch, seq![rule] + cur)
        } else if c.args[0] == "-A"@ {
            st.insert(ch, cur.push(rule))
        } else {
            st
        }
    } else {
        st
    }
}

/// Repeating a command while it succeeds: for `-D`, every copy of the rule
/// goes; other commands are left alone.
pub open spec fn ipt_repeat(st: Chains, c: CmdV) -> Chains {
    if is_ipt(c) && c.args[0] == "-D"@ {
        st.insert(c.args[1], without(chain_of(st, c.args[1]), c.args.skip(2)))
    } else {
        st
    }
}

pub open spec fn ipt_run_all(st: Chains, cmds: Seq<CmdV>) -> Chains
    decreases cmds.len(),
{
    if cmds.len() == 0 {
        st
    } else {
        ipt_run_all(ipt_effect(st, cmds[0]), cmds.drop_first())
    }
}

/// What a step does: a command runs; an `UnlessOk` runs its commands when
/// its probe fails; a `RepeatWhileOk` repeats.
pub open spec fn ipt_step(st: Chains, s: StepV) -> Chains {
    match s {
        StepV::Run(c, _) => ipt_effect(st, c),
        StepV::UnlessOk(p, cmds) => if ipt_ok(st, p) {
            st
        } else {
            ipt_run_all(st, cmds)
        },
        StepV::RepeatWhileOk(c) => ipt_repeat(st, c),
    }
}

/// The chains after a plan.
pub open spec fn ipt_apply(st: Chains, steps: Seq<StepV>) -> Chains
    decreases steps.len(),
{
    if steps.len() == 0 {
        st
    } else {
        ipt_apply(ipt_step(st, steps[0]), steps.drop_first())
    }
}

pub proof fn lemma_without(s: Seq<Rule>, x: Rule)
    ensures
        !without(s, x).contains(x),
        forall|y: Rule| #[trigger] without(s, x).contains(y) <==> (s.contains(y) && y != x),
        !s.contains(x) ==> without(s, x) == s,
    decreases s.len(),
{
    if s.len() > 0 {
        lemma_without(s.drop_last(), x);
        let w = without(s.drop_last(), x);
        assert forall|y: Rule| #[trigger] without(s, x).contains(y) <==> (s.contains(y) && y != x) by {
            let l = s.last();
            if s.contains(y) && y != x {
                let i = choose|i: int| 0 <= i < s.len() && s[i] == y;
                if i < s.len() - 1 {
                    assert(s.drop_last()[i] == y);
                    assert(s.drop_last().contains(y));
                    assert(w.contains(y));
                    let k = choose|k: int| 0 <= k < w.len() && w[k] == y;
                    if l != x {
                        assert(w.push(l)[k] == y);
                    }
                } else {
                    assert(l == y);
                    assert(w.push(l)[w.len() as int] == y);
                }
            }
            if without(s, x).contains(y) {
                let k = choose|k: int| 0 <= k < without(s, x).len() && without(s, x)[k] == y;
                if l != x && k == w.len() {
                    assert(y == l);
                    assert(s[s.len() - 1] == y);
                } else {
                    if l != x {
                        assert(w.push(l)[k] == w[k]);
                    }
                    assert(w[k] == y);
                    assert(w.contains(y));
                    let i = choose|i: int| 0 <= i < s.drop_last().len() && s.drop_last()[i] == y;
                    assert(s[i] == y);
                }
            }
        }
        if !s.contains(x) {
            assert(!s.drop_last().contains(x)) by {
                if s.drop_last().contains(x) {
                    let i = choose|i: int| 0 <= i < s.drop_last().len() && s.drop_last()[i] == x;
                    assert(s[i] == x);
                }
            }
            assert(s.last() != x) by {
                assert(s[s.len() - 1] == s.last());
            }
            assert(w.push(s.last()) =~= s);
        }
    }
}

proof fn lemma_names()
    ensures
        CHAIN_BLOCK@ != CHAIN_QUARANTINE@,
        "-D"@ != "-C"@,
        "-D"@ != "-I"@,
        "-D"@ != "-A"@,
        "-C"@ != "-I"@,
        "-C"@ != "-A"@,
        "-I"@ != "-A"@,
        "iptables-legacy"@.len() == 15,
        "udp"@ != "tcp"@,
        "53"@ != CAPTIVE_PORT@,
{
    reveal_strlit("NAC_BLOCK");
    reveal_strlit("NAC_QUARANTINE");
    reveal_strlit("-D");
    reveal_strlit("-C");
    reveal_strlit("-I");
    reveal_strlit("-A");
    reveal_strlit("iptables-legacy");
    reveal_strlit("udp");
    reveal_strlit("tcp");
    reveal_strlit("53");
    reveal_strlit("8080");
    assert(CHAIN_BLOCK@.len() != CHAIN_QUARANTINE@.len());
    assert("-D"@[1] != "-C"@[1]);
    assert("-D"@[1] != "-I"@[1]);
    assert("-D"@[1] != "-A"@[1]);
    assert("-C"@[1] != "-I"@[1]);
    assert("-C"@[1] != "-A"@[1]);
    assert("-I"@[1] != "-A"@[1]);
    assert("udp"@[0] != "tcp"@[0]);
    assert("53"@.len() != CAPTIVE_PORT@.len());
}

proof fn lemma_rules_distinct(m: Seq<char>)
    ensures
        dns_rule(m) != drop_rule(m),
        portal_rule(m) != drop_rule(m),
        dns_rule(m) != portal_rule(m),
{
    lemma_names();
    assert(dns_rule(m).len() != drop_rule(m).len());
    assert(portal_rule(m).len() != drop_rule(m).len());
    assert(dns_rule(m)[5] != portal_rule(m)[5]);
}

proof fn lemma_ipt_cmd(op: Seq<char>, ch: Seq<char>, rule: Rule)
    ensures
        is_ipt(ipt_cmd(seq![op, ch] + rule)),
        ipt_cmd(seq![op, ch] + rule).args[0] == op,
        ipt_cmd(seq![op, ch] + rule).args[1] == ch,
        ipt_cmd(seq![op, ch] + rule).args.skip(2) == rule,
{
    lemma_names();
    assert((seq![op, ch] + rule).skip(2) =~= rule);
}

proof fn lemma_apply_two(st: Chains, a: StepV, b: StepV)
    ensures
        ipt_apply(st, seq![a, b]) == ipt_step(ipt_step(st, a), b),
{
    let s1 = ipt_step(st, a);
    let s2 = ipt_step(s1, b);
    assert(seq![a, b].drop_first() =~= seq![b]);
    assert(seq![b].drop_first() =~= Seq::<StepV>::empty());
    assert(ipt_apply(s2, Seq::<StepV>::empty()) == s2);
    assert(ipt_apply(s1, seq![b]) == ipt_apply(s2, Seq::<StepV>::empty()));
}

proof fn lemma_apply_three(st: Chains, a: StepV, b: StepV, c: StepV)
    ensures
        ipt_apply(st, seq![a, b, c]) == ipt_step(ipt_step(ipt_step(st, a), b), c),
{
    assert(seq![a, b, c].drop_first() =~= seq![b, c]);
    lemma_apply_two(ipt_step(st, a), b, c);
}

proof fn lemma_run_three(st: Chains, a: CmdV, b: CmdV, c: CmdV)
    ensures
        ipt_run_all(st, seq![a, b, c]) == ipt_effect(ipt_effect(ipt_effect(st, a), b), c),
{
    let s1 = ipt_effect(st, a);
    let s2 = ipt_effect(s1, b);
    let s3 = ipt_effect(s2, c);
    assert(seq![a, b, c].drop_first() =~= seq![b, c]);
    assert(seq![b, c].drop_first() =~= seq![c]);
    assert(seq![c].drop_first() =~= Seq::<CmdV>::empty());
    assert(ipt_run_all(s3, Seq::<CmdV>::empty()) == s3);
    assert(ipt_run_all(s2, seq![c]) == s3);
    assert(ipt_run_all(s1, seq![b, c]) == s3);
}

/// Quarantining a MAC with iptables-legacy: afterwards no block rule for it
/// remains and its quarantine DROP is in place. When the DROP was not there
/// yet, the two RETURN rules (DNS and the portal) are put at the head of the
/// chain and the DROP at its end, so both RETURNs come before the DROP.
/// Quarantining again changes nothing.
pub proof fn law_ipt_quarantine(st: Chains, mac: Seq<char>)
    ensures
        ({
            let m = ipt_mac_spec(mac);
            let after = ipt_apply(st, ipt_quarantine_plan(mac));
            &&& !chain_of(after, CHAIN_BLOCK@).contains(drop_rule(m))
            &&& chain_of(after, CHAIN_QUARANTINE@).contains(drop_rule(m))
            &&& !chain_of(st, CHAIN_QUARANTINE@).contains(drop_rule(m)) ==> chain_of(after, CHAIN_QUARANTINE@)
                == seq![portal_rule(m), dns_rule(m)] + chain_of(st, CHAIN_QUARANTINE@) + seq![drop_rule(m)]
            &&& ipt_apply(after, ipt_quarantine_plan(mac)) == after
        }),
{
    lemma_names();
    let m = ipt_mac_spec(mac);
    let q = CHAIN_QUARANTINE@;
    let b = CHAIN_BLOCK@;
    let del = ipt_cmd(seq!["-D"@, b] + drop_rule(m));
    let probe = ipt_cmd(seq!["-C"@, q] + drop_rule(m));
    let i_dns = ipt_cmd(seq!["-I"@, q] + dns_rule(m));
    let i_portal = ipt_cmd(seq!["-I"@, q] + portal_rule(m));
    let a_drop = ipt_cmd(seq!["-A"@, q] + drop_rule(m));
    lemma_ipt_cmd("-D"@, b, drop_rule(m));
    lemma_ipt_cmd("-C"@, q, drop_rule(m));
    lemma_ipt_cmd("-I"@, q, dns_rule(m));
    lemma_ipt_cmd("-I"@, q, portal_rule(m));
    lemma_ipt_cmd("-A"@, q, drop_rule(m));
    let s0 = StepV::RepeatWhileOk(del);
    let s1 = StepV::UnlessOk(probe, seq![i_dns, i_portal, a_drop]);
    assert(ipt_quarantine_plan(mac) =~= seq![s0, s1]);
    let plan = seq![s0, s1];

    let st1 = ipt_step(st, s0);
    lemma_without(chain_of(st, b), drop_rule(m));
    assert(st1 == st.insert(b, without(chain_of(st, b), drop_rule(m))));
    assert(chain_of(st1, q) == chain_of(st, q));
    let qc = chain_of(st, q);
    lemma_run_three(st1, i_dns, i_portal, a_drop);
    let after = ipt_step(st1, s1);
    lemma_apply_two(st, s0, s1);
    assert(ipt_apply(st, plan) == after);
    assert(chain_of(after, b) == chain_of(st1, b));
    if !qc.contains(drop_rule(m)) {
        assert(!ipt_ok(st1, probe));
        let t1 = ipt_effect(st1, i_dns);
        let t2 = ipt_effect(t1, i_portal);
        let t3 = ipt_effect(t2, a_drop);
        assert(chain_of(t1, q) == seq![dns_rule(m)] + qc);
        assert(chain_of(t2, q) == seq![portal_rule(m)] + (seq![dns_rule(m)] + qc));
        assert(chain_of(t3, q) == (seq![portal_rule(m)] + (seq![dns_rule(m)] + qc)).push(drop_rule(m)));
        assert(chain_of(after, q) =~= seq![portal_rule(m), dns_rule(m)] + qc + seq![drop_rule(m)]);
        let n = chain_of(after, q).len() - 1;
        assert(chain_of(after, q)[n] == drop_rule(m));
        assert(chain_of(t3, b) == chain_of(st1, b));
    }
    assert(chain_of(after, q).contains(drop_rule(m))) by {
        if qc.contains(drop_rule(m)) {
            assert(after == st1);
        } else {
            let n = chain_of(after, q).len() - 1;
            assert(chain_of(after, q)[n] == drop_rule(m));
        }
    }
    // Running the plan again.
    let r1 = ipt_step(after, s0);
    lemma_without(chain_of(after, b), drop_rule(m));
    assert(after.contains_key(b));
    assert(r1 =~= after);
    assert(ipt_ok(r1, probe));
    lemma_apply_two(after, s0, s1);
}

/// Taking a MAC out of quarantine: afterwards no copy of its DNS RETURN,
/// portal RETURN or DROP remains in the quarantine chain; every other rule of
/// that chain stays, and every other chain is as it was. Nothing fails when
/// none of them was there.
pub proof fn law_ipt_remove_quarantine(st: Chains, m: Seq<char>)
    ensures
        ({
            let after = ipt_apply(st, ipt_remove_quarantine_plan(m));
            let q = chain_of(after, CHAIN_QUARANTINE@);
            &&& !q.contains(dns_rule(m))
            &&& !q.contains(portal_rule(m))
            &&& !q.contains(drop_rule(m))
            &&& forall|y: Rule|
                y != dns_rule(m) && y != portal_rule(m) && y != drop_rule(m) ==> (#[trigger] q.contains(y)
                    <==> chain_of(st, CHAIN_QUARANTINE@).contains(y))
            &&& forall|ch: Seq<char>| ch != CHAIN_QUARANTINE@ ==> #[trigger] chain_of(after, ch) == chain_of(st, ch)
        }),
{
    lemma_names();
    let q = CHAIN_QUARANTINE@;
    let d1 = ipt_cmd(seq!["-D"@, q] + dns_rule(m));
    let d2 = ipt_cmd(seq!["-D"@, q] + portal_rule(m));
    let d3 = ipt_cmd(seq!["-D"@, q] + drop_rule(m));
    lemma_ipt_cmd("-D"@, q, dns_rule(m));
    lemma_ipt_cmd("-D"@, q, portal_rule(m));
    lemma_ipt_cmd("-D"@, q, drop_rule(m));
    let s0 = StepV::RepeatWhileOk(d1);
    let s1 = StepV::RepeatWhileOk(d2);
    let s2 = StepV::RepeatWhileOk(d3);
    assert(ipt_remove_quarantine_plan(m) =~= seq![s0, s1, s2]);
    lemma_apply_three(st, s0, s1, s2);
    let c0 = chain_of(st, q);
    let c1 = without(c0, dns_rule(m));
    let c2 = without(c1, portal_rule(m));
    let c3 = without(c2, drop_rule(m));
    lemma_without(c0, dns_rule(m));
    lemma_without(c1, portal_rule(m));
    lemma_without(c2, drop_rule(m));
    let after = ipt_apply(st, ipt_remove_quarantine_plan(m));
    assert(chain_of(after, q) == c3);
    assert forall|ch: Seq<char>| ch != q implies #[trigger] chain_of(after, ch) == chain_of(st, ch) by {}
}

/// Unblocking a MAC with iptables-legacy leaves no copy of its block DROP.
pub proof fn law_ipt_remove_block(st: Chains, m: Seq<char>)
    ensures
        !chain_of(ipt_apply(st, ipt_remove_block_plan(m)), CHAIN_BLOCK@).contains(drop_rule(m)),
{
    lemma_names();
    let b = CHAIN_BLOCK@;
    let d = ipt_cmd(seq!["-D"@, b] + drop_rule(m));
    lemma_ipt_cmd("-D"@, b, drop_rule(m));
    let s0 = StepV::RepeatWhileOk(d);
    assert(ipt_remove_block_plan(m) =~= seq![s0]);
    assert(seq![s0].drop_first() =~= Seq::<StepV>::empty());
    lemma_without(chain_of(st, b), drop_rule(m));
    assert(ipt_apply(ipt_step(st, s0), Seq::<StepV>::empty()) == ipt_step(st, s0));
}

} // verus!
