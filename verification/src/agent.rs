//! Endpoint agent: posture collection and compliance checks, from what the
//! agent reads on its host.

pub mod compliance;
pub mod platform;
pub mod software;
