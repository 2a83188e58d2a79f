//! Policy rule evaluation: a context is matched against prioritized rules.

pub mod evaluator;
pub mod rule;

use vstd::prelude::*;

verus! {

#[verifier::external_type_specification]
#[verifier::external_body]
pub struct ExJsonError(serde_json::Error);

/// Errors produced by the policy engine.
#[derive(Debug)]
pub enum PolicyError {
    UnknownPolicy(String),
    Evaluation(String),
    Serialization(serde_json::Error),
}

/// The outcome of a policy evaluation.
#[derive(Debug)]
pub enum PolicyDecision {
    /// Allow the device with no restrictions.
    Allow,
    /// Allow with a VLAN assignment.
    AllowVlan(u16),
    /// Quarantine to a restricted VLAN.
    Quarantine { vlan: u16, reason: String },
    /// Deny network access entirely.
    Deny { reason: String },
}

/// Decisions as values (reasons as character sequences).
pub enum DecisionV {
    Allow,
    AllowVlan(u16),
    Quarantine { vlan: u16, reason: Seq<char> },
    Deny { reason: Seq<char> },
}

impl View for PolicyDecision {
    type V = DecisionV;

    open spec fn view(&self) -> DecisionV {
        match self {
            PolicyDecision::Allow => DecisionV::Allow,
            PolicyDecision::AllowVlan(v) => DecisionV::AllowVlan(*v),
            PolicyDecision::Quarantine { vlan, reason } => DecisionV::Quarantine {
                vlan: *vlan,
                reason: reason@,
            },
            PolicyDecision::Deny { reason } => DecisionV::Deny { reason: reason@ },
        }
    }
}

impl PartialEq for PolicyDecision {
    fn eq(&self, other: &Self) -> (r: bool) {
        match (self, other) {
            (PolicyDecision::Allow, PolicyDecision::Allow) => true,
            (PolicyDecision::AllowVlan(a), PolicyDecision::AllowVlan(b)) => *a == *b,
            (
                PolicyDecision::Quarantine { vlan: a, reason: ra },
                PolicyDecision::Quarantine { vlan: b, reason: rb },
            ) => *a == *b && *ra == *rb,
            (PolicyDecision::Deny { reason: ra }, PolicyDecision::Deny { reason: rb }) => *ra == *rb,
            _ => false,
        }
    }
}

impl Eq for PolicyDecision {

}

impl vstd::std_specs::cmp::PartialEqSpecImpl for PolicyDecision {
    open spec fn obeys_eq_spec() -> bool {
        true
    }

    open spec fn eq_spec(&self, other: &Self) -> bool {
        self@ == other@
    }
}

impl PolicyDecision {
    /// A copy of the decision.
    pub fn duplicate(&self) -> (r: PolicyDecision)
        ensures
            r@ == self@,
    {
        match self {
            PolicyDecision::Allow => PolicyDecision::Allow,
            PolicyDecision::AllowVlan(v) => PolicyDecision::AllowVlan(*v),
            PolicyDecision::Quarantine { vlan, reason } => PolicyDecision::Quarantine {
                vlan: *vlan,
                reason: reason.clone(),
            },
            PolicyDecision::Deny { reason } => PolicyDecision::Deny { reason: reason.clone() },
        }
    }
}

/// The facts about a device that rules are matched against.
#[derive(Debug, Default)]
pub struct PolicyContext {
    pub mac_address: String,
    pub ip_address: Option<String>,
    pub hostname: Option<String>,
    pub os_family: Option<String>,
    pub device_type: Option<String>,
    pub username: Option<String>,
    pub groups: Vec<String>,
    pub is_compliant: Option<bool>,
    pub switch_port: Option<String>,
}

} // verus!
