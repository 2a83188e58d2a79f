//! Compliance checks of the endpoint agent, from its host's OS name and
//! environment.

use vstd::prelude::*;
use crate::text::{owned, push_str, str_eq, string_from_chars, to_lower, unicode_lower};

verus! {

/// The result of the checks.
#[derive(Debug, Clone)]
pub struct ComplianceReport {
    pub is_compliant: bool,
    pub checks: Vec<ComplianceCheck>,
}

/// One check.
#[derive(Debug, Clone)]
pub struct ComplianceCheck {
    pub name: String,
    pub passed: bool,
    pub detail: String,
}

pub open spec fn opt_is(v: Option<&str>, s: Seq<char>) -> bool {
    v matches Some(x) && x@ == s
}

/// Whether the agent runs as root: `USER` or `LOGNAME` is `root`.
pub open spec fn runs_as_root(user: Option<&str>, logname: Option<&str>) -> bool {
    opt_is(user, "root"@) || opt_is(logname, "root"@)
}

/// Whether disk encryption is confirmed: `NAC_DISK_ENCRYPT_OK` is `1` or,
/// in any case, `true`.
pub open spec fn disk_encryption_ok(v: Option<&str>) -> bool {
    v matches Some(x) && (x@ == "1"@ || unicode_lower(x@) == "true"@)
}

pub open spec fn os_supported(os: Seq<char>) -> bool {
    os == "linux"@ || os == "windows"@ || os == "macos"@
}

/// The checks as values: name, result and detail of each.
pub open spec fn checks_spec(os: Seq<char>, user: Option<&str>, logname: Option<&str>, disk: Option<&str>) -> Seq<(Seq<char>, bool, Seq<char>)> {
    seq![
        ("os_supported"@, os_supported(os), "OS: "@ + os),
        (
            "not_running_as_root"@,
            !runs_as_root(user, logname),
            if runs_as_root(user, logname) {
                "running as root"@
            } else {
                "non-root"@
            },
        ),
        (
            "disk_encryption"@,
            disk_encryption_ok(disk),
            if disk_encryption_ok(disk) {
                "enabled"@
            } else {
                "not confirmed"@
            },
        ),
    ]
}

pub open spec fn checks_view(v: Seq<ComplianceCheck>) -> Seq<(Seq<char>, bool, Seq<char>)> {
    v.map_values(|c: ComplianceCheck| (c.name@, c.passed, c.detail@))
}

/// What the checks find, for every input: three checks in order. The OS
/// check passes exactly for `linux`, `windows` and `macos` and reports the
/// OS; the root check fails exactly when `USER` or `LOGNAME` is `root`; the
/// disk check passes exactly when the setting is `1` or, in any case,
/// `true`. The report is compliant exactly when all three checks pass.
pub proof fn law_compliance_checks(os: Seq<char>, user: Option<&str>, logname: Option<&str>, disk: Option<&str>)
    ensures
        ({
            let c = checks_spec(os, user, logname, disk);
            &&& c.len() == 3
            &&& c[0].0 == "os_supported"@ && c[0].2 == "OS: "@ + os
            &&& c[0].1 <==> (os == "linux"@ || os == "windows"@ || os == "macos"@)
            &&& c[1].0 == "not_running_as_root"@
            &&& !c[1].1 <==> ((user is Some && user->0@ == "root"@) || (logname is Some && logname->0@ == "root"@))
            &&& c[2].0 == "disk_encryption"@
            &&& c[2].1 <==> (disk is Some && (disk->0@ == "1"@ || unicode_lower(disk->0@) == "true"@))
            &&& (os_supported(os) && !runs_as_root(user, logname) && disk_encryption_ok(disk)) <==> (c[0].1 && c[1].1
                && c[2].1)
        }),
{
}

fn is(v: Option<&str>, s: &str) -> (r: bool)
    ensures
        r == opt_is(v, s@),
{
    match v {
        Some(x) => str_eq(x, s),
        None => false,
    }
}

/// Runs the checks for an OS name (`linux`, `windows`, `macos`, ...) and
/// the values of `USER`, `LOGNAME` and `NAC_DISK_ENCRYPT_OK`: the OS must
/// be supported, the agent must not run as root, and disk encryption must
/// be confirmed; the report is compliant when all pass.
pub fn run_checks(os: &str, user: Option<&str>, logname: Option<&str>, disk_encrypt: Option<&str>) -> (r: ComplianceReport)
    ensures
        checks_view(r.checks@) == checks_spec(os@, user, logname, disk_encrypt),
        r.is_compliant == (os_supported(os@) && !runs_as_root(user, logname) && disk_encryption_ok(
            disk_encrypt,
        )),
{
    let mut checks: Vec<ComplianceCheck> = Vec::new();
    let supported = str_eq(os, "linux") || str_eq(os, "windows") || str_eq(os, "macos");
    let mut detail: Vec<char> = Vec::new();
    push_str(&mut detail, "OS: ");
    push_str(&mut detail, os);
    checks.push(ComplianceCheck { name: owned("os_supported"), passed: supported, detail: string_from_chars(detail) });
    let is_root = is(user, "root") || is(logname, "root");
    checks.push(
        ComplianceCheck {
            name: owned("not_running_as_root"),
            passed: !is_root,
            detail: if is_root {
                owned("running as root")
            } else {
                owned("non-root")
            },
        },
    );
    let disk_ok = match disk_encrypt {
        Some(v) => str_eq(v, "1") || str_eq(to_lower(v).as_str(), "true"),
        None => false,
    };
    checks.push(
        ComplianceCheck {
            name: owned("disk_encryption"),
            passed: disk_ok,
            detail: if disk_ok {
                owned("enabled")
            } else {
                owned("not confirmed")
            },
        },
    );
    assert(checks_view(checks@) =~= checks_spec(os@, user, logname, disk_encrypt));
    ComplianceReport { is_compliant: supported && !is_root && disk_ok, checks }
}

} // verus!
