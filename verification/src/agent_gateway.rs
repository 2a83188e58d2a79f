//! Agent gateway rules: how a registering agent is recorded, the claims
//! of the token it gets, and the action its status report is answered
//! with.

use vstd::prelude::*;
use crate::auth::NacClaims;
use crate::mac::{colon_join, colon_mac, hex_digits, hex_filter, lower_all, lower_chars, normalized_mac, normalize_mac_chars};
use crate::store::endpoint::UpsertEndpoint;
use crate::store::posture::{PatchItem, PostureReport, SoftwareItem};
use crate::text::{chars_of, is_prefix, owned, str_eq, string_from_chars};
use crate::api_gateway::access::bearer_token;

verus! {

/// The normalized form of an agent's reported MAC: lower-case and
/// colon-separated when the text holds exactly twelve hex digits (so an
/// empty or blank text gives none).
pub fn normalize_mac(s: &str) -> (r: Option<String>)
    ensures
        match normalized_mac(s@) {
            Some(m) => r matches Some(t) && t@ == m,
            None => r is None,
        },
{
    let cs = chars_of(s);
    match normalize_mac_chars(&cs) {
        Some(v) => Some(string_from_chars(v)),
        None => None,
    }
}

/// The address recorded for an agent that reports no MAC: the first twelve
/// hex digits of its device id, or all zeros when there are fewer.
pub open spec fn legacy_mac(device_id: Seq<char>) -> Seq<char> {
    if hex_digits(device_id).len() >= 12 {
        colon_mac(lower_all(hex_digits(device_id).take(12)))
    } else {
        "00:00:00:00:00:00"@
    }
}

/// The MAC derived from a device id, for agents too old to report one.
pub fn legacy_device_id_to_mac(device_id: &str) -> (r: String)
    ensures
        r@ == legacy_mac(device_id@),
{
    let cs = chars_of(device_id);
    let hex = hex_filter(&cs);
    if hex.len() >= 12 {
        let mut first: Vec<char> = Vec::new();
        let mut i: usize = 0;
        while i < 12
            invariant
                i <= 12 <= hex@.len(),
                first@ == hex@.take(i as int),
            decreases 12 - i,
        {
            first.push(hex[i]);
            i = i + 1;
            assert(first@ =~= hex@.take(i as int));
        }
        let low = lower_chars(&first);
        string_from_chars(colon_join(&low))
    } else {
        owned("00:00:00:00:00:00")
    }
}

/// The action an agent is told for the status of its endpoint record:
/// `Deny` for a denied endpoint, `Quarantine` for a quarantined one, and
/// `Allow` otherwise, including when no record was found.
pub open spec fn agent_action_text(status: Option<Seq<char>>) -> Seq<char> {
    match status {
        Some(s) => if s == "denied"@ {
            "Deny"@
        } else if s == "quarantined"@ {
            "Quarantine"@
        } else {
            "Allow"@
        },
        None => "Allow"@,
    }
}

/// The action for the status of the agent's endpoint record (`None` when
/// there is no record or the lookup failed).
pub fn agent_action(status: Option<&str>) -> (r: String)
    ensures
        r@ == agent_action_text(match status {
            Some(s) => Some(s@),
            None => None,
        }),
{
    match status {
        Some(s) => if str_eq(s, "denied") {
            owned("Deny")
        } else if str_eq(s, "quarantined") {
            owned("Quarantine")
        } else {
            owned("Allow")
        },
        None => owned("Allow"),
    }
}

pub open spec fn opt_text(o: Option<String>) -> Option<Seq<char>> {
    match o {
        Some(s) => Some(s@),
        None => None,
    }
}

/// The endpoint record of a registering agent: its normalized MAC (or the
/// one derived from its device id), its address, host name (none when
/// empty), OS and version, and the agent's device id.
pub fn registration_endpoint(
    device_id: &str,
    primary_mac: &str,
    hostname: &str,
    os: &str,
    version: &str,
    remote_ip: Option<String>,
) -> (r: UpsertEndpoint)
    ensures
        r.mac_address@ == (match normalized_mac(primary_mac@) {
            Some(m) => m,
            None => legacy_mac(device_id@),
        }),
        opt_text(r.ip_address) == opt_text(remote_ip),
        opt_text(r.hostname) == (if hostname@.len() == 0 {
            None
        } else {
            Some(hostname@)
        }),
        opt_text(r.os_family) == Some(os@),
        opt_text(r.os_version) == Some(version@),
        r.device_type is None,
        r.vendor is None,
        r.interface is None,
        opt_text(r.agent_id) == Some(device_id@),
{
    let mac_address = match normalize_mac(primary_mac) {
        Some(m) => m,
        None => legacy_device_id_to_mac(device_id),
    };
    let hostname = if hostname.is_empty() {
        None
    } else {
        Some(owned(hostname))
    };
    UpsertEndpoint {
        mac_address,
        ip_address: remote_ip,
        hostname,
        os_family: Some(owned(os)),
        os_version: Some(owned(version)),
        device_type: None,
        vendor: None,
        interface: None,
        agent_id: Some(owned(device_id)),
    }
}

/// How long an agent token stays valid, in seconds.
pub const AGENT_TOKEN_SECS: i64 = 86400;

/// The claims of a registering agent's token, issued at `now`.
pub fn registration_claims(device_id: &str, now: i64) -> (r: NacClaims)
    requires
        now + AGENT_TOKEN_SECS <= i64::MAX,
    ensures
        r.sub@ == device_id@,
        r.groups@.len() == 0,
        r.exp == now + AGENT_TOKEN_SECS,
        r.iat == now,
{
    NacClaims { sub: owned(device_id), groups: Vec::new(), exp: now + AGENT_TOKEN_SECS, iat: now }
}

/// The posture report forwarded for an agent's status report, stamped
/// `timestamp`; OS fields are left empty.
pub fn posture_report(
    device_id: &str,
    installed_software: Vec<SoftwareItem>,
    missing_patches: Vec<PatchItem>,
    usb_enabled: bool,
    bluetooth_enabled: bool,
    folder_sharing_enabled: bool,
    timestamp: i64,
) -> (r: PostureReport)
    ensures
        r.device_id@ == device_id@,
        r.os@.len() == 0,
        r.os_version@.len() == 0,
        r.installed_software@ == installed_software@,
        r.missing_patches@ == missing_patches@,
        r.usb_enabled == usb_enabled,
        r.bluetooth_enabled == bluetooth_enabled,
        r.folder_sharing_enabled == folder_sharing_enabled,
        r.timestamp == timestamp,
{
    PostureReport {
        device_id: owned(device_id),
        os: String::new(),
        os_version: String::new(),
        installed_software,
        missing_patches,
        usb_enabled,
        bluetooth_enabled,
        folder_sharing_enabled,
        timestamp,
    }
}

/// The token of a status report's `authorization` metadata value, which
/// must read `Bearer <token>`; otherwise the report is refused as missing
/// its token. A token that does not verify is refused with
/// `REPORT_TOKEN_INVALID`.
pub fn report_token(header: Option<&str>) -> (r: Result<String, &'static str>)
    ensures
        match header {
            Some(h) => if is_prefix("Bearer "@, h@) {
                r matches Ok(t) && t@ == h@.subrange(7, h@.len() as int)
            } else {
                r == Err::<String, &'static str>("missing authorization token")
            },
            None => r == Err::<String, &'static str>("missing authorization token"),
        },
{
    match header {
        Some(h) => match bearer_token(h) {
            Some(t) => Ok(t),
            None => Err("missing authorization token"),
        },
        None => Err("missing authorization token"),
    }
}

/// The refusal of a status report whose token does not verify.
pub const REPORT_TOKEN_INVALID: &'static str = "invalid or expired token";

} // verus!
