//! Policy records as administrators define them.

use vstd::prelude::*;

verus! {

#[derive(Debug)]
pub struct Policy {
    pub id: String,
    pub name: String,
    pub priority: i32,
    pub conditions: Vec<Condition>,
    pub action: PolicyAction,
}

#[derive(Debug)]
pub enum Condition {
    MacAddress(String),
    IpRange { start: String, end: String },
    UserGroup(String),
    DeviceType(String),
}

#[derive(Debug, Clone, Copy, PartialEq, Eq, Structural)]
pub enum PolicyAction {
    Allow,
    Quarantine { vlan_id: u16 },
    Block,
}

} // verus!
