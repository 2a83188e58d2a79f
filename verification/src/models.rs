//! Core domain models: endpoints, VLANs, switch ports, policies, sessions.

pub mod policy;
pub mod session;

use vstd::prelude::*;

verus! {

/// Network access status of a device.
#[derive(Debug, Clone, Copy, PartialEq, Eq, Structural)]
pub enum AccessStatus {
    /// Full network access.
    Allowed,
    /// Placed in a quarantine VLAN.
    Quarantined,
    /// Denied network access.
    Denied,
    /// Waiting for policy evaluation.
    Pending,
}

/// A network endpoint (device) tracked by the system.
#[derive(Debug)]
pub struct Endpoint {
    pub mac_address: String,
    pub ip_address: Option<String>,
    pub hostname: Option<String>,
    pub os_family: Option<String>,
    pub device_type: Option<String>,
    pub username: Option<String>,
    pub vlan_id: Option<u16>,
    pub switch_port: Option<String>,
    pub status: AccessStatus,
    /// Unix time first seen.
    pub first_seen: i64,
    /// Unix time last seen.
    pub last_seen: i64,
}

/// A VLAN definition.
#[derive(Debug)]
pub struct Vlan {
    pub id: u16,
    pub name: String,
    pub description: Option<String>,
    pub is_quarantine: bool,
}

/// A port on a managed switch.
#[derive(Debug)]
pub struct SwitchPort {
    pub switch_id: String,
    pub port_id: String,
    pub description: Option<String>,
    pub vlan_id: Option<u16>,
    pub mac_address: Option<String>,
}

} // verus!
