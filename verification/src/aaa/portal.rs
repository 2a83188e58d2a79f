//! Captive portal decisions: how connectivity probes and pages are
//! answered for an endpoint's status, and what a login produces.

use vstd::prelude::*;
use crate::aaa::portal_pages::{DENIED_HTML, LOGIN_HTML_TEMPLATE};
use crate::auth::{AuthError, NacClaims, UserIdentity};
use crate::text::{owned, replace_all, replace_str, str_eq};

verus! {

/// The connectivity probes and the fallback route.
#[derive(Debug, Clone, Copy, PartialEq, Eq, Structural)]
pub enum Probe {
    /// Windows NCSI (`/ncsi.txt`).
    Ncsi,
    /// Android and Chrome (`/generate_204`).
    Generate204,
    /// iOS and macOS (`/hotspot-detect.html`).
    HotspotDetect,
    /// Any other path.
    CatchAll,
}

/// An HTTP answer of the portal.
#[derive(Debug, Clone, PartialEq, Eq)]
pub enum PortalReply {
    /// A redirect to a path.
    Redirect(String),
    /// `200 OK` with a plain-text body.
    Text(String),
    /// `204 No Content`.
    NoContent,
    /// `200 OK` with an HTML body.
    Html(String),
}

/// The endpoint's status as the store records it.
pub open spec fn is_denied(status: Option<Seq<char>>) -> bool {
    status == Some("denied"@)
}

pub open spec fn is_quarantined(status: Option<Seq<char>>) -> bool {
    status == Some("quarantined"@)
}

pub open spec fn opt_view(o: Option<&str>) -> Option<Seq<char>> {
    match o {
        Some(s) => Some(s@),
        None => None,
    }
}

/// What a probe is answered with: a denied endpoint is sent to the blocked
/// page, a quarantined one to the portal; for any other (or unknown)
/// status the probe gets the answer its operating system expects, so that
/// it reports the network as connected.
pub open spec fn probe_reply_spec(probe: Probe, status: Option<Seq<char>>) -> (Seq<char>, int) {
    if is_denied(status) {
        ("/blocked"@, 0)
    } else if is_quarantined(status) {
        ("/"@, 0)
    } else {
        match probe {
            Probe::Ncsi => ("Microsoft NCSI\r\n"@, 1),
            Probe::Generate204 => (seq![], 2),
            Probe::HotspotDetect => ("<HTML><HEAD><TITLE>Success</TITLE></HEAD><BODY>Success</BODY></HTML>"@, 3),
            Probe::CatchAll => (seq![], 2),
        }
    }
}

/// The kind (0 redirect, 1 text, 2 no content, 3 HTML) and text of a reply.
pub open spec fn reply_parts(r: PortalReply) -> (Seq<char>, int) {
    match r {
        PortalReply::Redirect(p) => (p@, 0),
        PortalReply::Text(t) => (t@, 1),
        PortalReply::NoContent => (seq![], 2),
        PortalReply::Html(h) => (h@, 3),
    }
}

fn status_is(status: Option<&str>, want: &str) -> (r: bool)
    ensures
        r == (opt_view(status) == Some(want@)),
{
    match status {
        Some(s) => str_eq(s, want),
        None => false,
    }
}

/// The answer to a connectivity probe for an endpoint with `status`.
pub fn probe_reply(probe: Probe, status: Option<&str>) -> (r: PortalReply)
    ensures
        reply_parts(r) == probe_reply_spec(probe, opt_view(status)),
{
    if status_is(status, "denied") {
        PortalReply::Redirect(owned("/blocked"))
    } else if status_is(status, "quarantined") {
        PortalReply::Redirect(owned("/"))
    } else {
        match probe {
            Probe::Ncsi => PortalReply::Text(owned("Microsoft NCSI\r\n")),
            Probe::Generate204 => PortalReply::NoContent,
            Probe::HotspotDetect => PortalReply::Html(
                owned("<HTML><HEAD><TITLE>Success</TITLE></HEAD><BODY>Success</BODY></HTML>"),
            ),
            Probe::CatchAll => PortalReply::NoContent,
        }
    }
}

/// The login page for a MAC: the template with `{{MAC}}` replaced.
pub fn login_html(mac: &str) -> (r: String)
    ensures
        r@ == replace_all(LOGIN_HTML_TEMPLATE@, "{{MAC}}"@, mac@),
{
    proof {
        reveal_strlit("{{MAC}}");
    }
    replace_str(LOGIN_HTML_TEMPLATE, "{{MAC}}", mac)
}

/// The reason shown when none is given.
pub open spec fn unknown_reason() -> Seq<char> {
    "알 수 없는 오류"@
}

/// The denied page for a reason (a generic one when none is given).
pub fn denied_html(reason: Option<&str>) -> (r: String)
    ensures
        r@ == replace_all(
            DENIED_HTML@,
            "{{REASON}}"@,
            match reason {
                Some(s) => s@,
                None => unknown_reason(),
            },
        ),
{
    proof {
        reveal_strlit("{{REASON}}");
    }
    let text: &str = match reason {
        Some(s) => s,
        None => "알 수 없는 오류",
    };
    replace_str(DENIED_HTML, "{{REASON}}", text)
}

/// Whether the landing page shows the blocked page (for a denied endpoint)
/// rather than the login form.
pub fn landing_shows_blocked(status: Option<&str>) -> (r: bool)
    ensures
        r == is_denied(opt_view(status)),
{
    status_is(status, "denied")
}

/// The MAC a login is for: the one the form carries when not empty, else
/// the configured default; `None` means it has to be looked up by address.
pub fn login_mac(form_mac: Option<&str>, default_mac: Option<&str>) -> (r: Option<String>)
    ensures
        (form_mac matches Some(m) && m@.len() > 0) ==> (r matches Some(s) && s@ == form_mac->0@),
        !(form_mac matches Some(m) && m@.len() > 0) ==> (match default_mac {
            Some(d) => r matches Some(s) && s@ == d@,
            None => r is None,
        }),
{
    match form_mac {
        Some(m) if !m.is_empty() => Some(owned(m)),
        _ => match default_mac {
            Some(d) => Some(owned(d)),
            None => None,
        },
    }
}

/// How long a portal login token stays valid, in seconds.
pub const PORTAL_TOKEN_SECS: i64 = 3600;

/// The claims of the token issued at `now` for an authenticated user.
pub fn portal_claims(identity: &UserIdentity, now: i64) -> (r: NacClaims)
    requires
        now + PORTAL_TOKEN_SECS <= i64::MAX,
    ensures
        r.sub@ == identity.username@,
        r.groups.deep_view() == identity.groups.deep_view(),
        r.iat == now,
        r.exp == now + PORTAL_TOKEN_SECS,
{
    NacClaims {
        sub: owned(identity.username.as_str()),
        groups: clone_strings(&identity.groups),
        iat: now,
        exp: now + PORTAL_TOKEN_SECS,
    }
}

fn clone_strings(v: &Vec<String>) -> (r: Vec<String>)
    ensures
        r.deep_view() == v.deep_view(),
{
    let mut out: Vec<String> = Vec::new();
    let mut i: usize = 0;
    while i < v.len()
        invariant
            i <= v@.len(),
            out@.len() == i,
            forall|k: int| 0 <= k < i ==> #[trigger] out@[k]@ == v@[k]@,
        decreases v@.len() - i,
    {
        out.push(owned(v[i].as_str()));
        i = i + 1;
    }
    assert(out.deep_view() =~= v.deep_view());
    out
}

/// The event published after a login attempt.
#[derive(Debug, Clone)]
pub struct AuthResponseEvent {
    pub session_id: Option<String>,
    pub endpoint_id: Option<String>,
    pub mac_address: String,
    pub success: bool,
    pub username: Option<String>,
    pub groups: Vec<String>,
    pub reason: Option<String>,
}

pub open spec fn opt_string(o: Option<String>) -> Option<Seq<char>> {
    match o {
        Some(s) => Some(s@),
        None => None,
    }
}

fn clone_opt(o: &Option<String>) -> (r: Option<String>)
    ensures
        opt_string(r) == opt_string(*o),
{
    match o {
        Some(s) => Some(owned(s.as_str())),
        None => None,
    }
}

/// The event for a successful login.
pub fn login_success_event(
    session_id: &Option<String>,
    endpoint_id: &Option<String>,
    mac: &str,
    identity: &UserIdentity,
) -> (r: AuthResponseEvent)
    ensures
        opt_string(r.session_id) == opt_string(*session_id),
        opt_string(r.endpoint_id) == opt_string(*endpoint_id),
        r.mac_address@ == mac@,
        r.success,
        opt_string(r.username) == Some(identity.username@),
        r.groups.deep_view() == identity.groups.deep_view(),
        r.reason is None,
{
    AuthResponseEvent {
        session_id: clone_opt(session_id),
        endpoint_id: clone_opt(endpoint_id),
        mac_address: owned(mac),
        success: true,
        username: Some(owned(identity.username.as_str())),
        groups: clone_strings(&identity.groups),
        reason: None,
    }
}

/// The event for a failed login.
pub fn login_failure_event(session_id: &Option<String>, endpoint_id: &Option<String>, mac: &str) -> (r: AuthResponseEvent)
    ensures
        opt_string(r.session_id) == opt_string(*session_id),
        opt_string(r.endpoint_id) == opt_string(*endpoint_id),
        r.mac_address@ == mac@,
        !r.success,
        r.username is None,
        r.groups@.len() == 0,
        opt_string(r.reason) == Some("invalid_credentials"@),
{
    AuthResponseEvent {
        session_id: clone_opt(session_id),
        endpoint_id: clone_opt(endpoint_id),
        mac_address: owned(mac),
        success: false,
        username: None,
        groups: Vec::new(),
        reason: Some(owned("invalid_credentials")),
    }
}

/// Where the browser is sent after a login: the success page, or the
/// denied page with the reason.
pub open spec fn login_redirect_spec(authenticated: bool, signed: bool) -> Seq<char> {
    if !authenticated {
        "/denied?reason=invalid_credentials"@
    } else if !signed {
        "/denied?reason=internal_error"@
    } else {
        "/success"@
    }
}

/// Where the browser goes after a login attempt; `signed` tells whether the
/// token could be signed.
pub fn login_redirect(authenticated: bool, signed: bool) -> (r: String)
    ensures
        r@ == login_redirect_spec(authenticated, signed),
{
    if !authenticated {
        owned("/denied?reason=invalid_credentials")
    } else if !signed {
        owned("/denied?reason=internal_error")
    } else {
        owned("/success")
    }
}

/// What a login answers.
pub struct LoginOutcome {
    /// The event to publish, if any.
    pub event: Option<AuthResponseEvent>,
    /// Where the browser is sent.
    pub redirect: String,
}

/// The answer to a login given the authentication result and, for an
/// authenticated user, whether the token could be signed: the success event
/// and `/success` when it was; no event and the internal-error page when it
/// was not; the failure event and the invalid-credentials page when
/// authentication failed.
pub fn login_outcome(
    session_id: &Option<String>,
    endpoint_id: &Option<String>,
    mac: &str,
    auth: &Result<UserIdentity, AuthError>,
    signed: bool,
) -> (r: LoginOutcome)
    ensures
        match auth {
            Ok(id) => {
                &&& r.redirect@ == login_redirect_spec(true, signed)
                &&& signed ==> (r.event matches Some(e) && e.success && opt_string(e.session_id) == opt_string(
                    *session_id,
                ) && opt_string(e.endpoint_id) == opt_string(*endpoint_id) && e.mac_address@ == mac@
                    && opt_string(e.username) == Some(id.username@) && e.groups.deep_view()
                    == id.groups.deep_view() && e.reason is None)
                &&& !signed ==> r.event is None
            },
            Err(_) => {
                &&& r.redirect@ == login_redirect_spec(false, false)
                &&& r.event matches Some(e) && !e.success && opt_string(e.session_id) == opt_string(*session_id)
                    && opt_string(e.endpoint_id) == opt_string(*endpoint_id) && e.mac_address@ == mac@
                    && e.username is None && e.groups@.len() == 0 && opt_string(e.reason) == Some(
                    "invalid_credentials"@,
                )
            },
        },
{
    match auth {
        Ok(id) => {
            let event = if signed {
                Some(login_success_event(session_id, endpoint_id, mac, id))
            } else {
                None
            };
            LoginOutcome { event, redirect: login_redirect(true, signed) }
        },
        Err(_) => LoginOutcome {
            event: Some(login_failure_event(session_id, endpoint_id, mac)),
            redirect: login_redirect(false, false),
        },
    }
}

} // verus!
