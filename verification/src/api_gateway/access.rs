//! Who may call the gateway: the administrator login and the bearer
//! header that protected routes require.

use vstd::prelude::*;
use crate::text::{is_prefix, str_eq, strip_prefix_str};

verus! {

/// The administrator's name when none is configured.
pub open spec fn default_admin_user() -> Seq<char> {
    "admin"@
}

/// The administrator's password when none is configured.
pub open spec fn default_admin_pass() -> Seq<char> {
    "changeme"@
}

/// A configured value, or the default.
pub open spec fn configured(v: Option<Seq<char>>, default: Seq<char>) -> Seq<char> {
    match v {
        Some(s) => s,
        None => default,
    }
}

pub open spec fn opt_view(v: Option<&str>) -> Option<Seq<char>> {
    match v {
        Some(s) => Some(s@),
        None => None,
    }
}

/// Whether a login request names the administrator with the right
/// password; `admin_user` and `admin_pass` are the configured credentials
/// (`ADMIN_USER`, `ADMIN_PASS`), with `admin` / `changeme` where unset.
pub fn admin_login_ok(
    username: &str,
    password: &str,
    admin_user: Option<&str>,
    admin_pass: Option<&str>,
) -> (r: bool)
    ensures
        r == (username@ == configured(opt_view(admin_user), default_admin_user()) && password@
            == configured(opt_view(admin_pass), default_admin_pass())),
{
    let user: &str = match admin_user {
        Some(u) => u,
        None => "admin",
    };
    let pass: &str = match admin_pass {
        Some(p) => p,
        None => "changeme",
    };
    str_eq(username, user) && str_eq(password, pass)
}

/// The token of an `Authorization` header value of the form
/// `Bearer <token>`.
pub fn bearer_token(header: &str) -> (r: Option<String>)
    ensures
        is_prefix("Bearer "@, header@) ==> (r matches Some(t) && t@ == header@.subrange(
            7,
            header@.len() as int,
        )),
        !is_prefix("Bearer "@, header@) ==> r is None,
{
    proof {
        reveal_strlit("Bearer ");
    }
    strip_prefix_str(header, "Bearer ")
}

} // verus!
