//! API gateway: bearer tokens signed with a keyed hash, and the
//! administrator login check.

pub mod base64url;
pub mod token;
pub mod access;
