//! Switch port control over SNMP. Setting `ifAdminStatus` is not provided
//! yet: the controller names the object it would set and reports success.

use vstd::prelude::*;
use crate::text::{decimal, push_str, string_from_chars, u64_decimal, push_all};

verus! {

/// A switch port to control.
#[derive(Debug, Clone)]
pub struct SwitchPort {
    pub switch_ip: String,
    /// SNMP community string.
    pub community: String,
    /// The port's `ifIndex`.
    pub port_index: u32,
}

/// The `ifAdminStatus` column (1 = up, 2 = down).
pub const IF_ADMIN_STATUS_OID_PREFIX: &'static str = "1.3.6.1.2.1.2.2.1.7";

/// The `ifAdminStatus` object of a port.
pub open spec fn admin_status_oid_spec(port_index: u32) -> Seq<char> {
    IF_ADMIN_STATUS_OID_PREFIX@ + seq!['.'] + decimal(port_index as nat)
}

/// The `ifAdminStatus` object of a port, e.g. `1.3.6.1.2.1.2.2.1.7.10`.
pub fn admin_status_oid(port: &SwitchPort) -> (r: String)
    ensures
        r@ == admin_status_oid_spec(port.port_index),
{
    let mut out: Vec<char> = Vec::new();
    push_str(&mut out, IF_ADMIN_STATUS_OID_PREFIX);
    out.push('.');
    push_all(&mut out, &u64_decimal(port.port_index as u64));
    string_from_chars(out)
}

/// Controls switch ports.
#[derive(Debug, Clone, Copy)]
pub struct SnmpPortController;

impl SnmpPortController {
    /// Shuts a port down (quarantine or block): not provided yet, so it
    /// succeeds without effect.
    pub fn shutdown_port(&self, port: &SwitchPort) -> (r: Result<(), String>)
        ensures
            r is Ok,
    {
        Ok(())
    }

    /// Brings a port up (allow): not provided yet, so it succeeds without
    /// effect.
    pub fn enable_port(&self, port: &SwitchPort) -> (r: Result<(), String>)
        ensures
            r is Ok,
    {
        Ok(())
    }
}

} // verus!
