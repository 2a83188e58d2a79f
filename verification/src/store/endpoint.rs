//! Endpoint registration parameters.

use vstd::prelude::*;

verus! {

/// Parameters for registering an endpoint or refreshing it by MAC.
#[derive(Debug)]
pub struct UpsertEndpoint {
    pub mac_address: String,
    pub ip_address: Option<String>,
    pub hostname: Option<String>,
    pub os_family: Option<String>,
    pub os_version: Option<String>,
    pub device_type: Option<String>,
    pub vendor: Option<String>,
    pub interface: Option<String>,
    /// The device id of the agent that registered the endpoint, if any.
    pub agent_id: Option<String>,
}

} // verus!
