//! Access sessions of devices.

use vstd::prelude::*;

verus! {

#[derive(Debug)]
pub struct Session {
    pub id: String,
    pub device_mac: String,
    pub user_id: Option<String>,
    pub state: SessionState,
    pub created_at: i64,
}

#[derive(Debug, Clone, Copy, PartialEq, Eq, Structural)]
pub enum SessionState {
    Detecting,
    Authenticating,
    CheckingIntegrity,
    Active,
    Quarantined,
    Blocked,
}

} // verus!
