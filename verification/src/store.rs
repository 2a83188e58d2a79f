//! The stored forms of endpoints, policies and posture reports, and the
//! logic applied to them; the database access itself lives with the
//! services.

pub mod endpoint;
pub mod policy;
pub mod posture;
