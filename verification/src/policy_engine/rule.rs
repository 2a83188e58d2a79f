//! Rule definitions and condition types.

use vstd::prelude::*;
use crate::policy_engine::PolicyDecision;

verus! {

/// A match condition within a rule.
#[derive(Debug)]
pub enum Condition {
    /// The OS family equals the value.
    OsFamily { value: String },
    /// The user belongs to any of the groups.
    UserGroup { groups: Vec<String> },
    /// The device's compliance status equals `required`.
    Compliant { required: bool },
    /// The device type equals the value.
    DeviceType { value: String },
    /// All of the conditions hold.
    And { conditions: Vec<Condition> },
    /// Any of the conditions holds.
    Or { conditions: Vec<Condition> },
    /// The condition does not hold.
    Not { condition: Box<Condition> },
    /// The MAC address is in the list (MAC bypass).
    MacList { macs: Vec<String> },
    /// OS version below the given one (needs posture data).
    OsVersionBelow { version: String },
    /// OS version at least the given one (needs posture data).
    OsVersionAtLeast { version: String },
    /// The software is installed (needs posture data).
    SoftwareInstalled { name: String },
    /// The software is not installed (needs posture data).
    SoftwareNotInstalled { name: String },
    /// Some patch is missing (needs posture data).
    HasMissingPatches,
    /// USB storage is enabled (needs posture data).
    UsbEnabled,
    /// Bluetooth is enabled (needs posture data).
    BluetoothEnabled,
    /// Folder sharing is enabled (needs posture data).
    FolderSharingEnabled,
    /// The MAC address is in the list (blacklist).
    MacBlacklist { macs: Vec<String> },
}

/// A named rule with a priority (lower is evaluated first), a condition and
/// the decision applied when the condition holds.
#[derive(Debug)]
pub struct PolicyRule {
    pub name: String,
    pub priority: i32,
    pub condition: Condition,
    pub decision: PolicyDecision,
}

} // verus!
