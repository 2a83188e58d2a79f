//! Authentication, authorization and accounting: the RADIUS codec and the
//! decisions behind the captive portal.

pub mod radius;
pub mod portal;
pub mod portal_pages;
