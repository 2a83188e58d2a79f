//! Matching a context against an ordered list of rules.

use vstd::prelude::*;
use crate::policy_engine::rule::{Condition, PolicyRule};
use crate::policy_engine::{DecisionV, PolicyContext, PolicyDecision, PolicyError};
use crate::text::{to_upper, unicode_upper};

verus! {

/// Some group of `xs` is also in `ys`.
pub open spec fn shares_group(xs: Seq<String>, ys: Seq<String>) -> bool {
    exists|i: int, j: int| 0 <= i < xs.len() && 0 <= j < ys.len() && #[trigger] xs[i]@ == #[trigger] ys[j]@
}

/// Some MAC of the list equals `mac` after Unicode upper-casing both.
pub open spec fn mac_listed(macs: Seq<String>, mac: Seq<char>) -> bool {
    exists|i: int| 0 <= i < macs.len() && unicode_upper(#[trigger] macs[i]@) == unicode_upper(mac)
}

/// Whether a condition holds of a context. Conditions about posture data
/// (OS version, software, patches, USB, Bluetooth, folder sharing) never hold
/// here: the context carries no posture data.
pub open spec fn holds(c: Condition, ctx: PolicyContext) -> bool
    decreases c,
{
    match c {
        Condition::OsFamily { value } => ctx.os_family matches Some(o) && o@ == value@,
        Condition::UserGroup { groups } => shares_group(groups@, ctx.groups@),
        Condition::Compliant { required } => ctx.is_compliant == Some(required),
        Condition::DeviceType { value } => ctx.device_type matches Some(d) && d@ == value@,
        Condition::And { conditions } => all_hold(conditions@, ctx),
        Condition::Or { conditions } => any_holds(conditions@, ctx),
        Condition::Not { condition } => !holds(*condition, ctx),
        Condition::MacList { macs } => mac_listed(macs@, ctx.mac_address@),
        Condition::MacBlacklist { macs } => mac_listed(macs@, ctx.mac_address@),
        _ => false,
    }
}

/// Every condition of the list holds.
pub open spec fn all_hold(s: Seq<Condition>, ctx: PolicyContext) -> bool
    decreases s,
{
    if s.len() == 0 {
        true
    } else {
        holds(s[0], ctx) && all_hold(s.drop_first(), ctx)
    }
}

/// Some condition of the list holds.
pub open spec fn any_holds(s: Seq<Condition>, ctx: PolicyContext) -> bool
    decreases s,
{
    if s.len() == 0 {
        false
    } else {
        holds(s[0], ctx) || any_holds(s.drop_first(), ctx)
    }
}


proof fn lemma_all_hold(s: Seq<Condition>, ctx: PolicyContext)
    ensures
        all_hold(s, ctx) <==> forall|k: int| 0 <= k < s.len() ==> holds(#[trigger] s[k], ctx),
    decreases s.len(),
{
    if s.len() > 0 {
        lemma_all_hold(s.drop_first(), ctx);
        if forall|k: int| 0 <= k < s.len() ==> holds(#[trigger] s[k], ctx) {
            assert forall|k: int| 0 <= k < s.drop_first().len() implies holds(
                #[trigger] s.drop_first()[k],
                ctx,
            ) by {
                assert(s.drop_first()[k] == s[k + 1]);
            }
        }
        if all_hold(s, ctx) {
            assert forall|k: int| 0 <= k < s.len() implies holds(#[trigger] s[k], ctx) by {
                if k > 0 {
                    assert(s[k] == s.drop_first()[k - 1]);
                }
            }
        }
    }
}

proof fn lemma_any_holds(s: Seq<Condition>, ctx: PolicyContext)
    ensures
        any_holds(s, ctx) <==> exists|k: int| 0 <= k < s.len() && holds(#[trigger] s[k], ctx),
    decreases s.len(),
{
    if s.len() > 0 {
        lemma_any_holds(s.drop_first(), ctx);
        if exists|k: int| 0 <= k < s.len() && holds(#[trigger] s[k], ctx) {
            let k = choose|k: int| 0 <= k < s.len() && holds(#[trigger] s[k], ctx);
            if k > 0 {
                assert(s.drop_first()[k - 1] == s[k]);
            }
        }
        if any_holds(s, ctx) && !holds(s[0], ctx) {
            let k = choose|k: int| 0 <= k < s.drop_first().len() && holds(#[trigger] s.drop_first()[k], ctx);
            assert(s[k + 1] == s.drop_first()[k]);
        }
    }
}

/// Whether some group of `groups` is one of the context's groups.
fn any_group_shared(groups: &Vec<String>, ctx_groups: &Vec<String>) -> (r: bool)
    ensures
        r == shares_group(groups@, ctx_groups@),
{
    let mut i: usize = 0;
    while i < groups.len()
        invariant
            i <= groups.len(),
            forall|a: int, b: int| 0 <= a < i && 0 <= b < ctx_groups@.len() ==> groups@[a]@ != ctx_groups@[b]@,
        decreases groups.len() - i,
    {
        let mut j: usize = 0;
        while j < ctx_groups.len()
            invariant
                i < groups.len(),
                j <= ctx_groups.len(),
                forall|a: int, b: int| 0 <= a < i && 0 <= b < ctx_groups@.len() ==> groups@[a]@ != ctx_groups@[b]@,
                forall|b: int| 0 <= b < j ==> groups@[i as int]@ != ctx_groups@[b]@,
            decreases ctx_groups.len() - j,
        {
            if groups[i] == ctx_groups[j] {
                assert(groups@[i as int]@ == ctx_groups@[j as int]@);
                return true;
            }
            j = j + 1;
        }
        i = i + 1;
    }
    false
}

/// Whether some listed MAC equals the context's MAC after upper-casing.
fn mac_in_list(macs: &Vec<String>, mac: &String) -> (r: bool)
    ensures
        r == mac_listed(macs@, mac@),
{
    let target = to_upper(mac.as_str());
    let mut i: usize = 0;
    while i < macs.len()
        invariant
            i <= macs.len(),
            target@ == unicode_upper(mac@),
            forall|k: int| 0 <= k < i ==> unicode_upper(#[trigger] macs@[k]@) != unicode_upper(mac@),
        decreases macs.len() - i,
    {
        let m = to_upper(macs[i].as_str());
        if m == target {
            return true;
        }
        i = i + 1;
    }
    false
}

fn text_is(opt: &Option<String>, value: &String) -> (r: bool)
    ensures
        r == (*opt matches Some(o) && o@ == value@),
{
    match opt {
        Some(o) => *o == *value,
        None => false,
    }
}

/// Evaluates a condition against a context.
#[verifier::loop_isolation(false)]
pub fn matches_condition(condition: &Condition, ctx: &PolicyContext) -> (r: bool)
    ensures
        r == holds(*condition, *ctx),
    decreases condition,
{
    match condition {
        Condition::OsFamily { value } => text_is(&ctx.os_family, value),
        Condition::UserGroup { groups } => any_group_shared(groups, &ctx.groups),
        Condition::Compliant { required } => match ctx.is_compliant {
            Some(c) => c == *required,
            None => false,
        },
        Condition::DeviceType { value } => text_is(&ctx.device_type, value),
        Condition::And { conditions } => {
            proof {
                lemma_all_hold(conditions@, *ctx);
            }
            let mut i: usize = 0;
            while i < conditions.len()
                invariant
                    i <= conditions.len(),
                    forall|k: int| 0 <= k < i ==> holds(#[trigger] conditions@[k], *ctx),
                decreases conditions.len() - i,
            {
                proof {
                    assert(decreases_to!(*condition => *conditions));
                    assert(decreases_to!(*conditions => conditions@));
                    assert(decreases_to!(conditions@ => conditions@[i as int]));
                }
                if !matches_condition(&conditions[i], ctx) {
                    return false;
                }
                i = i + 1;
            }
            true
        },
        Condition::Or { conditions } => {
            proof {
                lemma_any_holds(conditions@, *ctx);
            }
            let mut i: usize = 0;
            while i < conditions.len()
                invariant
                    i <= conditions.len(),
                    forall|k: int| 0 <= k < i ==> !holds(#[trigger] conditions@[k], *ctx),
                decreases conditions.len() - i,
            {
                proof {
                    assert(decreases_to!(*condition => *conditions));
                    assert(decreases_to!(*conditions => conditions@));
                    assert(decreases_to!(conditions@ => conditions@[i as int]));
                }
                if matches_condition(&conditions[i], ctx) {
                    return true;
                }
                i = i + 1;
            }
            false
        },
        Condition::Not { condition: inner } => !matches_condition(inner, ctx),
        Condition::MacList { macs } => mac_in_list(macs, &ctx.mac_address),
        Condition::MacBlacklist { macs } => mac_in_list(macs, &ctx.mac_address),
        Condition::OsVersionBelow { .. } => false,
        Condition::OsVersionAtLeast { .. } => false,
        Condition::SoftwareInstalled { .. } => false,
        Condition::SoftwareNotInstalled { .. } => false,
        Condition::HasMissingPatches => false,
        Condition::UsbEnabled => false,
        Condition::BluetoothEnabled => false,
        Condition::FolderSharingEnabled => false,
    }
}

// ---------------------------------------------------------------------------
// Priority order
// ---------------------------------------------------------------------------

/// Inserts a rule before the first rule of strictly greater priority value.
pub open spec fn insert_at(s: Seq<PolicyRule>, x: PolicyRule) -> Seq<PolicyRule>
    decreases s.len(),
{
    if s.len() == 0 {
        seq![x]
    } else if s[0].priority > x.priority {
        seq![x] + s
    } else {
        seq![s[0]] + insert_at(s.drop_first(), x)
    }
}

/// The rules in ascending priority order, rules of equal priority keeping
/// their relative order (a stable sort by priority).
pub open spec fn by_priority(s: Seq<PolicyRule>) -> Seq<PolicyRule>
    decreases s.len(),
{
    if s.len() == 0 {
        Seq::empty()
    } else {
        insert_at(by_priority(s.drop_last()), s.last())
    }
}

/// The decision of the first rule whose condition holds.
pub open spec fn first_match(s: Seq<PolicyRule>, ctx: PolicyContext) -> Option<DecisionV>
    decreases s.len(),
{
    if s.len() == 0 {
        None
    } else if holds(s[0].condition, ctx) {
        Some(s[0].decision@)
    } else {
        first_match(s.drop_first(), ctx)
    }
}

/// What evaluation decides: the first matching rule's decision, else a
/// denial for want of a matching rule.
pub open spec fn evaluate_spec(rules: Seq<PolicyRule>, ctx: PolicyContext) -> DecisionV {
    match first_match(by_priority(rules), ctx) {
        Some(d) => d,
        None => DecisionV::Deny { reason: "no matching policy rule"@ },
    }
}

pub open spec fn sorted_by_priority(s: Seq<PolicyRule>) -> bool {
    forall|i: int, j: int| 0 <= i < j < s.len() ==> s[i].priority <= s[j].priority
}

/// The rules of a given priority, in order.
pub open spec fn with_priority(s: Seq<PolicyRule>, p: i32) -> Seq<PolicyRule>
    decreases s.len(),
{
    if s.len() == 0 {
        Seq::empty()
    } else if s[0].priority == p {
        seq![s[0]] + with_priority(s.drop_first(), p)
    } else {
        with_priority(s.drop_first(), p)
    }
}

/// `insert_at` places the rule at the first index whose rule has a greater
/// priority value.
proof fn lemma_insert_at_index(s: Seq<PolicyRule>, x: PolicyRule, j: int)
    requires
        0 <= j <= s.len(),
        forall|k: int| 0 <= k < j ==> s[k].priority <= x.priority,
        j < s.len() ==> s[j].priority > x.priority,
    ensures
        insert_at(s, x) == s.insert(j, x),
    decreases s.len(),
{
    if s.len() == 0 {
        assert(s.insert(j, x) =~= seq![x]);
    } else if s[0].priority > x.priority {
        assert(j == 0);
        assert(s.insert(0, x) =~= seq![x] + s);
    } else {
        assert(j > 0);
        let t = s.drop_first();
        assert forall|k: int| 0 <= k < j - 1 implies t[k].priority <= x.priority by {
            assert(t[k] == s[k + 1]);
        }
        if j - 1 < t.len() {
            assert(t[j - 1] == s[j]);
        }
        lemma_insert_at_index(t, x, j - 1);
        assert(seq![s[0]] + t.insert(j - 1, x) =~= s.insert(j, x));
    }
}

/// Inserting into a sorted list keeps it sorted.
proof fn lemma_insert_sorted(s: Seq<PolicyRule>, x: PolicyRule, j: int)
    requires
        sorted_by_priority(s),
        0 <= j <= s.len(),
        forall|k: int| 0 <= k < j ==> s[k].priority <= x.priority,
        forall|k: int| j <= k < s.len() ==> s[k].priority > x.priority,
    ensures
        sorted_by_priority(s.insert(j, x)),
{
    s.insert_ensures(j, x);
    let t = s.insert(j, x);
    assert forall|a: int, b: int| 0 <= a < b < t.len() implies t[a].priority <= t[b].priority by {
        if a < j {
            if b < j {
            } else if b == j {
            } else {
                assert(t[b] == s[b - 1]);
            }
        } else if a == j {
            assert(t[b] == s[b - 1]);
        } else {
            assert(t[a] == s[a - 1]);
            assert(t[b] == s[b - 1]);
        }
    }
}

/// The index where `insert_at` puts a rule into a sorted list.
proof fn lemma_insert_point(s: Seq<PolicyRule>, x: PolicyRule) -> (j: int)
    requires
        sorted_by_priority(s),
    ensures
        0 <= j <= s.len(),
        forall|k: int| 0 <= k < j ==> s[k].priority <= x.priority,
        forall|k: int| j <= k < s.len() ==> s[k].priority > x.priority,
        insert_at(s, x) == s.insert(j, x),
    decreases s.len(),
{
    if s.len() == 0 {
        lemma_insert_at_index(s, x, 0);
        0
    } else if s[0].priority > x.priority {
        assert forall|k: int| 0 <= k < s.len() implies s[k].priority > x.priority by {
            if k > 0 {
                assert(s[0].priority <= s[k].priority);
            }
        }
        lemma_insert_at_index(s, x, 0);
        0
    } else {
        let t = s.drop_first();
        assert(sorted_by_priority(t)) by {
            assert forall|a: int, b: int| 0 <= a < b < t.len() implies t[a].priority <= t[b].priority by {
                assert(t[a] == s[a + 1]);
                assert(t[b] == s[b + 1]);
            }
        }
        let jt = lemma_insert_point(t, x);
        let j = jt + 1;
        assert forall|k: int| 0 <= k < j implies s[k].priority <= x.priority by {
            if k > 0 {
                assert(s[k] == t[k - 1]);
            }
        }
        assert forall|k: int| j <= k < s.len() implies s[k].priority > x.priority by {
            assert(s[k] == t[k - 1]);
        }
        lemma_insert_at_index(s, x, j);
        j
    }
}

/// The priority order is sorted.
pub proof fn law_by_priority_sorted(s: Seq<PolicyRule>)
    ensures
        sorted_by_priority(by_priority(s)),
        by_priority(s).len() == s.len(),
    decreases s.len(),
{
    if s.len() > 0 {
        law_by_priority_sorted(s.drop_last());
        let inner = by_priority(s.drop_last());
        let j = lemma_insert_point(inner, s.last());
        lemma_insert_sorted(inner, s.last(), j);
    }
}

proof fn lemma_with_priority_push(s: Seq<PolicyRule>, y: PolicyRule, p: i32)
    ensures
        with_priority(s.push(y), p) == with_priority(s, p) + (if y.priority == p {
            seq![y]
        } else {
            Seq::empty()
        }),
    decreases s.len(),
{
    if s.len() == 0 {
        assert(s.push(y).drop_first() =~= Seq::<PolicyRule>::empty());
        assert(with_priority(Seq::<PolicyRule>::empty(), p) == Seq::<PolicyRule>::empty());
        assert(s.push(y)[0] == y);
        assert(with_priority(s.push(y), p) =~= with_priority(s, p) + (if y.priority == p {
            seq![y]
        } else {
            Seq::empty()
        }));
    } else {
        assert(s.push(y).drop_first() =~= s.drop_first().push(y));
        lemma_with_priority_push(s.drop_first(), y, p);
        assert(with_priority(s.push(y), p) =~= with_priority(s, p) + (if y.priority == p {
            seq![y]
        } else {
            Seq::empty()
        }));
    }
}

proof fn lemma_with_priority_none(s: Seq<PolicyRule>, p: i32)
    requires
        forall|k: int| 0 <= k < s.len() ==> s[k].priority != p,
    ensures
        with_priority(s, p) == Seq::<PolicyRule>::empty(),
    decreases s.len(),
{
    if s.len() > 0 {
        assert forall|k: int| 0 <= k < s.drop_first().len() implies s.drop_first()[k].priority != p by {
            assert(s.drop_first()[k] == s[k + 1]);
        }
        lemma_with_priority_none(s.drop_first(), p);
    }
}

proof fn lemma_with_priority_insert(s: Seq<PolicyRule>, x: PolicyRule, p: i32)
    requires
        sorted_by_priority(s),
    ensures
        with_priority(insert_at(s, x), p) == with_priority(s, p) + (if x.priority == p {
            seq![x]
        } else {
            Seq::empty()
        }),
    decreases s.len(),
{
    let tail_x = if x.priority == p {
        seq![x]
    } else {
        Seq::<PolicyRule>::empty()
    };
    if s.len() == 0 {
        assert(insert_at(s, x) == seq![x]);
        assert(seq![x].drop_first() =~= Seq::<PolicyRule>::empty());
        assert(with_priority(Seq::<PolicyRule>::empty(), p) == Seq::<PolicyRule>::empty());
        assert(seq![x][0] == x);
        assert(with_priority(seq![x], p) =~= tail_x);
        assert(with_priority(s, p) + tail_x =~= tail_x);
    } else if s[0].priority > x.priority {
        assert(insert_at(s, x) == seq![x] + s);
        assert((seq![x] + s).drop_first() =~= s);
        if x.priority == p {
            assert forall|k: int| 0 <= k < s.len() implies s[k].priority != p by {
                if k > 0 {
                    assert(s[0].priority <= s[k].priority);
                }
            }
            lemma_with_priority_none(s, p);
            assert(with_priority(seq![x] + s, p) =~= seq![x] + with_priority(s, p));
            assert(with_priority(s, p) + tail_x =~= seq![x]);
        } else {
            assert(with_priority(seq![x] + s, p) == with_priority(s, p));
            assert(with_priority(s, p) + tail_x =~= with_priority(s, p));
        }
    } else {
        let t = s.drop_first();
        assert(sorted_by_priority(t)) by {
            assert forall|a: int, b: int| 0 <= a < b < t.len() implies t[a].priority <= t[b].priority by {
                assert(t[a] == s[a + 1]);
                assert(t[b] == s[b + 1]);
            }
        }
        lemma_with_priority_insert(t, x, p);
        let r = insert_at(t, x);
        assert(insert_at(s, x) == seq![s[0]] + r);
        assert((seq![s[0]] + r).drop_first() =~= r);
        if s[0].priority == p {
            assert(with_priority(seq![s[0]] + r, p) =~= seq![s[0]] + with_priority(r, p));
            assert(with_priority(s, p) =~= seq![s[0]] + with_priority(t, p));
            assert(seq![s[0]] + (with_priority(t, p) + tail_x) =~= (seq![s[0]] + with_priority(t, p))
                + tail_x);
        } else {
            assert(with_priority(seq![s[0]] + r, p) == with_priority(r, p));
            assert(with_priority(s, p) == with_priority(t, p));
        }
    }
}

/// Rules of equal priority keep their relative order.
pub proof fn law_by_priority_stable(s: Seq<PolicyRule>, p: i32)
    ensures
        with_priority(by_priority(s), p) == with_priority(s, p),
    decreases s.len(),
{
    if s.len() > 0 {
        let init = s.drop_last();
        law_by_priority_stable(init, p);
        law_by_priority_sorted(init);
        lemma_with_priority_insert(by_priority(init), s.last(), p);
        assert(init.push(s.last()) =~= s);
        lemma_with_priority_push(init, s.last(), p);
    }
}

/// The priority order holds exactly the given rules.
pub proof fn law_by_priority_permutes(s: Seq<PolicyRule>)
    ensures
        by_priority(s).to_multiset() == s.to_multiset(),
    decreases s.len(),
{
    broadcast use vstd::seq_lib::group_to_multiset_ensures;

    if s.len() > 0 {
        let init = s.drop_last();
        let x = s.last();
        law_by_priority_permutes(init);
        law_by_priority_sorted(init);
        let inner = by_priority(init);
        let j = lemma_insert_point(inner, x);
        let ins = inner.insert(j, x);
        inner.insert_ensures(j, x);
        assert(ins.remove(j) =~= inner);
        assert(ins.contains(x)) by {
            assert(ins[j] == x);
        }
        assert(ins.to_multiset().remove(x) == inner.to_multiset());
        assert(ins.to_multiset().count(x) > 0);
        assert(ins.to_multiset() =~= ins.to_multiset().remove(x).insert(x));
        assert(init.push(x) =~= s);
        assert(s.to_multiset() == init.to_multiset().insert(x));
    }
}

// ---------------------------------------------------------------------------
// Evaluation
// ---------------------------------------------------------------------------

/// Inserts a rule before the first rule of greater priority value.
fn insert_rule(out: &mut Vec<PolicyRule>, x: PolicyRule)
    requires
        sorted_by_priority(old(out)@),
    ensures
        final(out)@ == insert_at(old(out)@, x),
{
    let mut j: usize = 0;
    while j < out.len() && out[j].priority <= x.priority
        invariant
            j <= out.len(),
            forall|k: int| 0 <= k < j ==> out@[k].priority <= x.priority,
        decreases out.len() - j,
    {
        j = j + 1;
    }
    proof {
        lemma_insert_at_index(out@, x, j as int);
    }
    out.insert(j, x);
}

/// Evaluates rules against a context: the rules are first put in ascending
/// priority order (stably, in place), then the decision of the first rule
/// whose condition holds is returned; when none holds, a denial.
pub fn evaluate(rules: &mut Vec<PolicyRule>, ctx: &PolicyContext) -> (r: Result<PolicyDecision, PolicyError>)
    ensures
        final(rules)@ == by_priority(old(rules)@),
        r matches Ok(d) && d@ == evaluate_spec(old(rules)@, *ctx),
{
    let ghost original = rules@;
    let total = rules.len();
    let mut sorted: Vec<PolicyRule> = Vec::new();
    let mut n: usize = 0;
    while rules.len() > 0
        invariant
            n <= original.len(),
            original.len() == total,
            rules@ == original.subrange(n as int, original.len() as int),
            sorted@ == by_priority(original.take(n as int)),
        decreases rules.len(),
    {
        proof {
            law_by_priority_sorted(original.take(n as int));
        }
        let x = rules.remove(0);
        assert(original.take(n + 1).drop_last() =~= original.take(n as int));
        assert(original.take(n + 1).last() == x);
        insert_rule(&mut sorted, x);
        n = n + 1;
        assert(rules@ =~= original.subrange(n as int, original.len() as int));
    }
    assert(original.take(n as int) =~= original);
    *rules = sorted;
    let ghost ordered = rules@;
    assert(ordered.subrange(0, ordered.len() as int) =~= ordered);
    let mut i: usize = 0;
    while i < rules.len()
        invariant
            i <= rules.len(),
            rules@ == ordered,
            original == old(rules)@,
            ordered == by_priority(original),
            first_match(ordered, *ctx) == first_match(ordered.subrange(i as int, ordered.len() as int), *ctx),
        decreases rules.len() - i,
    {
        let ghost rest = ordered.subrange(i as int, ordered.len() as int);
        assert(rest.drop_first() =~= ordered.subrange(i + 1, ordered.len() as int));
        if matches_condition(&rules[i].condition, ctx) {
            return Ok(rules[i].decision.duplicate());
        }
        i = i + 1;
    }
    assert(ordered.subrange(i as int, ordered.len() as int) =~= Seq::<PolicyRule>::empty());
    let reason = crate::text::string_from_chars(crate::text::chars_of("no matching policy rule"));
    Ok(PolicyDecision::Deny { reason })
}
// ---------------------------------------------------------------------------
// Laws of matching and evaluation
// ---------------------------------------------------------------------------

/// What each kind of condition asks of a context: the OS family or device
/// type is exactly the value; compliance is exactly the required status;
/// some group of the condition is a group of the user; `And` needs every
/// part, `Or` some part, `Not` the opposite; a MAC list (allowed or
/// blacklisted) needs the MAC in it, ignoring case. Posture conditions never
/// hold, for the context carries no posture data.
pub proof fn law_condition_meaning(c: Condition, ctx: PolicyContext)
    ensures
        c matches Condition::OsFamily { value } ==> (holds(c, ctx) <==> (ctx.os_family is Some
            && ctx.os_family->0@ == value@)),
        c matches Condition::DeviceType { value } ==> (holds(c, ctx) <==> (ctx.device_type is Some
            && ctx.device_type->0@ == value@)),
        c matches Condition::Compliant { required } ==> (holds(c, ctx) <==> ctx.is_compliant == Some(
            required,
        )),
        c matches Condition::UserGroup { groups } ==> (holds(c, ctx) <==> exists|i: int, j: int|
            0 <= i < groups@.len() && 0 <= j < ctx.groups@.len() && #[trigger] groups@[i]@
                == #[trigger] ctx.groups@[j]@),
        c matches Condition::And { conditions } ==> (holds(c, ctx) <==> forall|i: int|
            0 <= i < conditions@.len() ==> holds(#[trigger] conditions@[i], ctx)),
        c matches Condition::Or { conditions } ==> (holds(c, ctx) <==> exists|i: int|
            0 <= i < conditions@.len() && holds(#[trigger] conditions@[i], ctx)),
        c matches Condition::Not { condition } ==> (holds(c, ctx) <==> !holds(*condition, ctx)),
        c matches Condition::MacList { macs } ==> (holds(c, ctx) <==> exists|i: int|
            0 <= i < macs@.len() && unicode_upper(#[trigger] macs@[i]@) == unicode_upper(ctx.mac_address@)),
        c matches Condition::MacBlacklist { macs } ==> (holds(c, ctx) <==> exists|i: int|
            0 <= i < macs@.len() && unicode_upper(#[trigger] macs@[i]@) == unicode_upper(ctx.mac_address@)),
        (c is OsVersionBelow || c is OsVersionAtLeast || c is SoftwareInstalled || c is SoftwareNotInstalled
            || c is HasMissingPatches || c is UsbEnabled || c is BluetoothEnabled || c is FolderSharingEnabled)
            ==> !holds(c, ctx),
{
    match c {
        Condition::And { conditions } => {
            lemma_all_hold_law(conditions@, ctx);
        },
        Condition::Or { conditions } => {
            lemma_any_holds_law(conditions@, ctx);
        },
        _ => {},
    }
}

proof fn lemma_all_hold_law(s: Seq<Condition>, ctx: PolicyContext)
    ensures
        all_hold(s, ctx) <==> forall|i: int| 0 <= i < s.len() ==> holds(#[trigger] s[i], ctx),
    decreases s.len(),
{
    if s.len() > 0 {
        lemma_all_hold_law(s.drop_first(), ctx);
        if forall|i: int| 0 <= i < s.len() ==> holds(#[trigger] s[i], ctx) {
            assert(holds(s[0], ctx));
            assert forall|i: int| 0 <= i < s.drop_first().len() implies holds(#[trigger] s.drop_first()[i], ctx) by {
                assert(s.drop_first()[i] == s[i + 1]);
            }
        }
        if all_hold(s, ctx) {
            assert forall|i: int| 0 <= i < s.len() implies holds(#[trigger] s[i], ctx) by {
                if i > 0 {
                    assert(s.drop_first()[i - 1] == s[i]);
                }
            }
        }
    }
}

proof fn lemma_any_holds_law(s: Seq<Condition>, ctx: PolicyContext)
    ensures
        any_holds(s, ctx) <==> exists|i: int| 0 <= i < s.len() && holds(#[trigger] s[i], ctx),
    decreases s.len(),
{
    if s.len() > 0 {
        lemma_any_holds_law(s.drop_first(), ctx);
        if exists|i: int| 0 <= i < s.len() && holds(#[trigger] s[i], ctx) {
            let i = choose|i: int| 0 <= i < s.len() && holds(#[trigger] s[i], ctx);
            if i > 0 {
                assert(s.drop_first()[i - 1] == s[i]);
            }
        }
        if any_holds(s, ctx) {
            if !holds(s[0], ctx) {
                let i = choose|i: int| 0 <= i < s.drop_first().len() && holds(#[trigger] s.drop_first()[i], ctx);
                assert(s[i + 1] == s.drop_first()[i]);
            }
        }
    }
}

proof fn lemma_first_match_law(s: Seq<PolicyRule>, ctx: PolicyContext)
    ensures
        first_match(s, ctx) is None <==> forall|i: int| 0 <= i < s.len() ==> !holds(#[trigger] s[i].condition, ctx),
        first_match(s, ctx) matches Some(d) ==> exists|i: int|
            0 <= i < s.len() && holds(#[trigger] s[i].condition, ctx) && s[i].decision@ == d,
    decreases s.len(),
{
    if s.len() > 0 {
        lemma_first_match_law(s.drop_first(), ctx);
        if holds(s[0].condition, ctx) {
        } else {
            assert forall|i: int| 0 < i < s.len() implies s[i] == s.drop_first()[i - 1] by {}
            if let Some(d) = first_match(s, ctx) {
                let j = choose|j: int| 0 <= j < s.drop_first().len() && holds(#[trigger] s.drop_first()[j].condition, ctx)
                    && s.drop_first()[j].decision@ == d;
                assert(s[j + 1] == s.drop_first()[j]);
            }
            if first_match(s, ctx) is None {
                assert forall|i: int| 0 <= i < s.len() implies !holds(#[trigger] s[i].condition, ctx) by {
                    if i > 0 {
                        assert(s[i] == s.drop_first()[i - 1]);
                    }
                }
            } else {
                let k = choose|k: int| 0 <= k < s.drop_first().len() && holds(#[trigger] s.drop_first()[k].condition, ctx);
                assert(s[k + 1] == s.drop_first()[k]);
            }
        }
    }
}

/// Evaluation gives the decision of a rule whose condition holds, when some
/// rule's condition holds, and otherwise denies for want of a matching rule;
/// the rule chosen has the least priority among the rules that match.
pub proof fn law_evaluate_decision(rules: Seq<PolicyRule>, ctx: PolicyContext)
    ensures
        (forall|i: int| 0 <= i < rules.len() ==> !holds(#[trigger] rules[i].condition, ctx)) ==> evaluate_spec(
            rules,
            ctx,
        ) == (DecisionV::Deny { reason: "no matching policy rule"@ }),
        (exists|i: int| 0 <= i < rules.len() && holds(#[trigger] rules[i].condition, ctx)) ==> exists|i: int|
            0 <= i < rules.len() && holds(#[trigger] rules[i].condition, ctx) && evaluate_spec(rules, ctx)
                == rules[i].decision@ && forall|j: int|
                0 <= j < rules.len() && holds(#[trigger] rules[j].condition, ctx) ==> rules[i].priority
                    <= rules[j].priority,
{
    broadcast use vstd::seq_lib::group_to_multiset_ensures;

    let b = by_priority(rules);
    law_by_priority_permutes(rules);
    law_by_priority_sorted(rules);
    lemma_first_match_law(b, ctx);
    lemma_first_match_pos(b, ctx);
    assert forall|x: PolicyRule| b.contains(x) <==> rules.contains(x) by {
        assert(b.to_multiset().count(x) == rules.to_multiset().count(x));
    }
    if forall|i: int| 0 <= i < rules.len() ==> !holds(#[trigger] rules[i].condition, ctx) {
        assert forall|i: int| 0 <= i < b.len() implies !holds(#[trigger] b[i].condition, ctx) by {
            assert(b.contains(b[i]));
            let k = choose|k: int| 0 <= k < rules.len() && rules[k] == b[i];
            assert(!holds(rules[k].condition, ctx));
        }
    }
    if exists|i: int| 0 <= i < rules.len() && holds(#[trigger] rules[i].condition, ctx) {
        let i0 = choose|i: int| 0 <= i < rules.len() && holds(#[trigger] rules[i].condition, ctx);
        assert(rules.contains(rules[i0]));
        let j0 = choose|j: int| 0 <= j < b.len() && b[j] == rules[i0];
        assert(holds(b[j0].condition, ctx));
        let p = choose|p: int| 0 <= p < b.len() && holds(#[trigger] b[p].condition, ctx) && first_match(b, ctx)
            == Some(b[p].decision@) && forall|q: int| 0 <= q < p ==> !holds(#[trigger] b[q].condition, ctx);
        assert(b.contains(b[p]));
        let k = choose|k: int| 0 <= k < rules.len() && rules[k] == b[p];
        assert forall|j: int| 0 <= j < rules.len() && holds(#[trigger] rules[j].condition, ctx) implies rules[k].priority
            <= rules[j].priority by {
            assert(rules.contains(rules[j]));
            let q = choose|q: int| 0 <= q < b.len() && b[q] == rules[j];
            if q < p {
                assert(!holds(b[q].condition, ctx));
            } else {
                assert(b[p].priority <= b[q].priority);
            }
        }
        assert(holds(rules[k].condition, ctx) && evaluate_spec(rules, ctx) == rules[k].decision@);
    }
}

proof fn lemma_first_match_pos(s: Seq<PolicyRule>, ctx: PolicyContext)
    ensures
        first_match(s, ctx) is Some ==> exists|p: int|
            0 <= p < s.len() && holds(#[trigger] s[p].condition, ctx) && first_match(s, ctx) == Some(s[p].decision@)
                && forall|q: int| 0 <= q < p ==> !holds(#[trigger] s[q].condition, ctx),
    decreases s.len(),
{
    if s.len() > 0 {
        lemma_first_match_pos(s.drop_first(), ctx);
        if holds(s[0].condition, ctx) {
            assert(holds(s[0].condition, ctx) && first_match(s, ctx) == Some(s[0].decision@));
        } else if first_match(s, ctx) is Some {
            let p = choose|p: int| 0 <= p < s.drop_first().len() && holds(#[trigger] s.drop_first()[p].condition, ctx)
                && first_match(s.drop_first(), ctx) == Some(s.drop_first()[p].decision@) && forall|q: int|
                0 <= q < p ==> !holds(#[trigger] s.drop_first()[q].condition, ctx);
            assert(s[p + 1] == s.drop_first()[p]);
            assert forall|q: int| 0 <= q < p + 1 implies !holds(#[trigger] s[q].condition, ctx) by {
                if q > 0 {
                    assert(s[q] == s.drop_first()[q - 1]);
                }
            }
        }
    }
}

} // verus!
