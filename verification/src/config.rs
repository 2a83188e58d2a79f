//! Service configuration, read from the environment by the services.

use vstd::prelude::*;

verus! {

/// Settings shared by the services.
#[derive(Debug, Clone)]
pub struct AppConfig {
    pub database_url: String,
    pub redis_url: String,
    pub nats_url: String,
    pub listen_addr: String,
    pub ldap_url: Option<String>,
    pub ldap_bind_dn: Option<String>,
    pub ldap_bind_pw: Option<String>,
    pub ldap_user_base: Option<String>,
    pub ldap_user_filter: Option<String>,
    pub jwt_secret: Option<String>,
    pub captive_portal_addr: Option<String>,
    pub radius_secret: Option<String>,
    pub radius_auth_addr: Option<String>,
    pub radius_acct_addr: Option<String>,
}

} // verus!
