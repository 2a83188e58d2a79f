//! Turning stored policy rows into engine rules, and decisions into stored
//! statuses.

use vstd::prelude::*;
use crate::policy_engine::rule::{Condition, PolicyRule};
use crate::policy_engine::{DecisionV, PolicyDecision};
use crate::text::{chars_of, push_str, string_from_chars, str_eq};

verus! {

/// A stored condition as its JSON form names it (tagged by `type`).
#[derive(Debug)]
pub enum ConditionDef {
    OsFamily { value: String },
    UserGroup { groups: Vec<String> },
    Compliant { required: bool },
    DeviceType { value: String },
    And { conditions: Vec<ConditionDef> },
    Or { conditions: Vec<ConditionDef> },
    Not { condition: Box<ConditionDef> },
}

/// The status column value for a decision.
pub open spec fn status_of(d: DecisionV) -> Seq<char> {
    match d {
        DecisionV::Allow | DecisionV::AllowVlan(_) => "allowed"@,
        DecisionV::Quarantine { .. } => "quarantined"@,
        DecisionV::Deny { .. } => "denied"@,
    }
}

/// The status column value for a decision.
pub fn decision_to_status(decision: &PolicyDecision) -> (r: &'static str)
    ensures
        r@ == status_of(decision@),
{
    match decision {
        PolicyDecision::Allow => "allowed",
        PolicyDecision::AllowVlan(_) => "allowed",
        PolicyDecision::Quarantine { .. } => "quarantined",
        PolicyDecision::Deny { .. } => "denied",
    }
}

/// The decision a stored action names: "allow" allows, "quarantine"
/// quarantines to the row's VLAN (99 when unset; the stored signed value
/// taken as 16 bits), anything else denies; the reason names the policy.
pub open spec fn action_decision(action: Seq<char>, vlan_id: Option<i16>, name: Seq<char>) -> DecisionV {
    if action == "allow"@ {
        DecisionV::Allow
    } else if action == "quarantine"@ {
        DecisionV::Quarantine {
            vlan: (match vlan_id {
                Some(v) => v,
                None => 99i16,
            }) as u16,
            reason: "policy: "@ + name,
        }
    } else {
        DecisionV::Deny { reason: "policy: "@ + name }
    }
}

/// Builds the engine rule for a stored policy row whose condition list has
/// been read.
pub fn to_policy_rule(name: &String, priority: i32, conditions: Vec<Condition>, action: &str, vlan_id: Option<i16>) -> (r: PolicyRule)
    ensures
        r.name@ == name@,
        r.priority == priority,
        conditions@.len() == 1 ==> r.condition == conditions@[0],
        conditions@.len() != 1 ==> r.condition == (Condition::And { conditions }),
        r.decision@ == action_decision(action@, vlan_id, name@),
{
    let ghost given = conditions;
    let mut conditions = conditions;
    let condition = if conditions.len() == 1 {
        conditions.remove(0)
    } else {
        Condition::And { conditions }
    };
    let mut reason_chars = chars_of("policy: ");
    push_str(&mut reason_chars, name.as_str());
    let decision = if str_eq(action, "allow") {
        PolicyDecision::Allow
    } else if str_eq(action, "quarantine") {
        let v: i16 = match vlan_id {
            Some(v) => v,
            None => 99,
        };
        PolicyDecision::Quarantine { vlan: v as u16, reason: string_from_chars(reason_chars) }
    } else {
        PolicyDecision::Deny { reason: string_from_chars(reason_chars) }
    };
    PolicyRule { name: name.clone(), priority, condition, decision }
}

} // verus!
