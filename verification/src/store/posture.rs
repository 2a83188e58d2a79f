//! Posture reports and the compliance policy that judges them.

use vstd::prelude::*;
use crate::text::{contains_seq, str_contains, to_lower, unicode_lower};

verus! {

#[derive(Debug)]
pub struct SoftwareItem {
    pub name: String,
    pub version: String,
}

#[derive(Debug)]
pub struct PatchItem {
    pub kb_id: String,
    pub description: String,
}

/// A device's posture report.
#[derive(Debug)]
pub struct PostureReport {
    /// The device's MAC address.
    pub device_id: String,
    pub os: String,
    pub os_version: String,
    pub installed_software: Vec<SoftwareItem>,
    pub missing_patches: Vec<PatchItem>,
    pub usb_enabled: bool,
    pub bluetooth_enabled: bool,
    pub folder_sharing_enabled: bool,
    pub timestamp: i64,
}

/// A compliance policy.
#[derive(Debug, Default)]
pub struct CompliancePolicy {
    /// Names of software that must be installed.
    pub required_software: Vec<String>,
    /// No patch may be missing.
    pub require_patches: bool,
    pub allow_usb: bool,
    pub allow_bluetooth: bool,
    pub allow_folder_sharing: bool,
}

/// Some installed software's name contains the required name, both
/// lower-cased (Unicode).
pub open spec fn has_software(installed: Seq<SoftwareItem>, req: Seq<char>) -> bool {
    exists|j: int|
        0 <= j < installed.len() && contains_seq(
            unicode_lower(#[trigger] installed[j].name@),
            unicode_lower(req),
        )
}

/// Whether a report complies with a policy: every required software is
/// installed, no patch is missing when patches are required, and USB,
/// Bluetooth and folder sharing are off unless allowed.
pub open spec fn complies(p: CompliancePolicy, r: PostureReport) -> bool {
    &&& forall|i: int|
        0 <= i < p.required_software@.len() ==> has_software(
            r.installed_software@,
            #[trigger] p.required_software@[i]@,
        )
    &&& !(p.require_patches && r.missing_patches@.len() > 0)
    &&& !(!p.allow_usb && r.usb_enabled)
    &&& !(!p.allow_bluetooth && r.bluetooth_enabled)
    &&& !(!p.allow_folder_sharing && r.folder_sharing_enabled)
}

/// What compliance asks, for every policy and report: a report complies
/// exactly when each required software name occurs (ignoring case) in the
/// name of some installed software, no patch is missing if patches are
/// required, and USB storage, Bluetooth and folder sharing are each off
/// unless the policy allows them. In particular Bluetooth on, where the
/// policy does not allow it, makes the report non-compliant, whatever else
/// it says.
pub proof fn law_compliance(p: CompliancePolicy, r: PostureReport)
    ensures
        (!p.allow_usb && r.usb_enabled) ==> !complies(p, r),
        (!p.allow_bluetooth && r.bluetooth_enabled) ==> !complies(p, r),
        (!p.allow_folder_sharing && r.folder_sharing_enabled) ==> !complies(p, r),
        (p.require_patches && r.missing_patches@.len() > 0) ==> !complies(p, r),
        ((forall|i: int|
            #![trigger p.required_software@[i]]
            0 <= i < p.required_software@.len() ==> exists|j: int|
                0 <= j < r.installed_software@.len() && contains_seq(
                    unicode_lower(#[trigger] r.installed_software@[j].name@),
                    unicode_lower(p.required_software@[i]@),
                )) && !(p.require_patches && r.missing_patches@.len() > 0) && (p.allow_usb || !r.usb_enabled) && (
        p.allow_bluetooth || !r.bluetooth_enabled) && (p.allow_folder_sharing || !r.folder_sharing_enabled))
            ==> complies(p, r),
{
}

/// A required software name that occurs (ignoring case) in the name of no
/// installed software makes the report non-compliant, whatever else it says.
pub proof fn law_missing_software(p: CompliancePolicy, r: PostureReport, i: int)
    requires
        0 <= i < p.required_software@.len(),
        forall|j: int|
            0 <= j < r.installed_software@.len() ==> !contains_seq(
                unicode_lower(#[trigger] r.installed_software@[j].name@),
                unicode_lower(p.required_software@[i]@),
            ),
    ensures
        !complies(p, r),
{
    let req = p.required_software@[i]@;
    if has_software(r.installed_software@, req) {
        let j = choose|j: int|
            0 <= j < r.installed_software@.len() && contains_seq(
                unicode_lower(#[trigger] r.installed_software@[j].name@),
                unicode_lower(req),
            );
        assert(!contains_seq(unicode_lower(r.installed_software@[j].name@), unicode_lower(req)));
    }
    assert(!has_software(r.installed_software@, req));
}

impl CompliancePolicy {
    /// The default policy: patches required, USB and Bluetooth allowed,
    /// folder sharing not, no required software.
    pub fn default_policy() -> (r: CompliancePolicy)
        ensures
            r.required_software@.len() == 0,
            r.require_patches,
            r.allow_usb,
            r.allow_bluetooth,
            !r.allow_folder_sharing,
    {
        CompliancePolicy {
            required_software: Vec::new(),
            require_patches: true,
            allow_usb: true,
            allow_bluetooth: true,
            allow_folder_sharing: false,
        }
    }

    /// Whether the report complies with this policy.
    pub fn evaluate(&self, report: &PostureReport) -> (r: bool)
        ensures
            r == complies(*self, *report),
    {
        let mut i: usize = 0;
        while i < self.required_software.len()
            invariant
                i <= self.required_software.len(),
                forall|k: int|
                    0 <= k < i ==> has_software(
                        report.installed_software@,
                        #[trigger] self.required_software@[k]@,
                    ),
            decreases self.required_software.len() - i,
        {
            let req = to_lower(self.required_software[i].as_str());
            let mut found = false;
            let mut j: usize = 0;
            while j < report.installed_software.len() && !found
                invariant
                    i < self.required_software.len(),
                    j <= report.installed_software.len(),
                    req@ == unicode_lower(self.required_software@[i as int]@),
                    found ==> has_software(report.installed_software@, self.required_software@[i as int]@),
                    !found ==> forall|k: int|
                        0 <= k < j ==> !contains_seq(
                            unicode_lower(#[trigger] report.installed_software@[k].name@),
                            req@,
                        ),
                decreases report.installed_software.len() - j,
            {
                let name = to_lower(report.installed_software[j].name.as_str());
                if str_contains(name.as_str(), req.as_str()) {
                    found = true;
                }
                j = j + 1;
            }
            if !found {
                return false;
            }
            i = i + 1;
        }
        if self.require_patches && report.missing_patches.len() > 0 {
            return false;
        }
        if !self.allow_usb && report.usb_enabled {
            return false;
        }
        if !self.allow_bluetooth && report.bluetooth_enabled {
            return false;
        }
        if !self.allow_folder_sharing && report.folder_sharing_enabled {
            return false;
        }
        true
    }
}

} // verus!
