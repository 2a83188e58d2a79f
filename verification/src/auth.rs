//! Authentication: errors, identities, token claims, and the directory
//! (LDAP) lookup rules.

use vstd::prelude::*;
use vstd::string::StringSliceAdditionalSpecFns;
use argon2::password_hash::SaltString;
use argon2::{Argon2, PasswordHash, PasswordHasher, PasswordVerifier};
use crate::text::{char_pos, chars_of, find_char, is_prefix, owned, push_str, replace_all, replace_str, string_from_chars, to_upper, trim_chars, trim_seq, unicode_upper, vec_slice, vec_starts_with, vec_skip};

verus! {

/// Why authentication failed.
#[derive(Debug, Clone, PartialEq, Eq)]
pub enum AuthError {
    InvalidCredentials,
    UserNotFound(String),
    TokenExpired,
    TokenInvalid(String),
    Ldap(String),
    Internal(String),
}

/// The message of an error.
pub open spec fn auth_error_text(e: AuthError) -> Seq<char> {
    match e {
        AuthError::InvalidCredentials => "invalid credentials"@,
        AuthError::UserNotFound(u) => "user not found: "@ + u@,
        AuthError::TokenExpired => "token expired"@,
        AuthError::TokenInvalid(m) => "token invalid: "@ + m@,
        AuthError::Ldap(m) => "ldap error: "@ + m@,
        AuthError::Internal(m) => "internal error: "@ + m@,
    }
}

fn prefixed(prefix: &str, rest: &String) -> (r: String)
    ensures
        r@ == prefix@ + rest@,
{
    let mut out: Vec<char> = Vec::new();
    push_str(&mut out, prefix);
    push_str(&mut out, rest.as_str());
    string_from_chars(out)
}

impl AuthError {
    /// The error's message.
    pub fn message(&self) -> (r: String)
        ensures
            r@ == auth_error_text(*self),
    {
        match self {
            AuthError::InvalidCredentials => owned("invalid credentials"),
            AuthError::UserNotFound(u) => prefixed("user not found: ", u),
            AuthError::TokenExpired => owned("token expired"),
            AuthError::TokenInvalid(m) => prefixed("token invalid: ", m),
            AuthError::Ldap(m) => prefixed("ldap error: ", m),
            AuthError::Internal(m) => prefixed("internal error: ", m),
        }
    }
}

/// An authenticated user.
#[derive(Debug, Clone)]
pub struct UserIdentity {
    /// Unique user name.
    pub username: String,
    /// Display name from the directory.
    pub display_name: Option<String>,
    pub email: Option<String>,
    /// Group memberships.
    pub groups: Vec<String>,
}

/// Claims carried by a signed token.
#[derive(Debug, Clone)]
pub struct NacClaims {
    pub sub: String,
    pub groups: Vec<String>,
    /// Expiry, seconds since the Unix epoch.
    pub exp: i64,
    /// Issue time, seconds since the Unix epoch.
    pub iat: i64,
}

/// A directory entry as a search returns it: its DN and the values of the
/// attributes that are read (an attribute that is absent has no values).
#[derive(Debug, Clone)]
pub struct DirectoryEntry {
    pub dn: String,
    pub display_name: Vec<String>,
    pub cn: Vec<String>,
    pub mail: Vec<String>,
    pub member_of: Vec<String>,
}

/// A directory to authenticate against.
#[derive(Debug, Clone)]
pub struct LdapClient {
    url: String,
    bind_dn: String,
    bind_pw: String,
    user_base: String,
    user_filter: String,
}

/// The group name of a DN: the value of its first component when that is
/// a `CN=` component (in any case), else the whole DN.
pub open spec fn cn_of(dn: Seq<char>) -> Seq<char> {
    let part = trim_seq(dn.take(char_pos(dn, ',', 0)));
    if is_prefix("CN="@, unicode_upper(part)) {
        part.subrange(if part.len() < 3 {
            part.len() as int
        } else {
            3
        }, part.len() as int)
    } else {
        dn
    }
}

pub open spec fn first_view(v: Seq<String>) -> Option<Seq<char>> {
    if v.len() > 0 {
        Some(v[0]@)
    } else {
        None
    }
}

pub open spec fn opt_string_view(o: Option<String>) -> Option<Seq<char>> {
    match o {
        Some(s) => Some(s@),
        None => None,
    }
}

fn first_of(v: &Vec<String>) -> (r: Option<String>)
    ensures
        opt_string_view(r) == first_view(v@),
{
    if v.len() > 0 {
        Some(owned(v[0].as_str()))
    } else {
        None
    }
}

impl LdapClient {
    /// A client for the directory at `url`; `user_filter` holds `{}` where
    /// the user name goes.
    pub fn new(url: String, bind_dn: String, bind_pw: String, user_base: String, user_filter: String) -> (r: Self)
        ensures
            r.url_spec() == url@,
            r.bind_dn_spec() == bind_dn@,
            r.bind_pw_spec() == bind_pw@,
            r.user_base_spec() == user_base@,
            r.user_filter_spec() == user_filter@,
    {
        LdapClient { url, bind_dn, bind_pw, user_base, user_filter }
    }

    pub closed spec fn url_spec(&self) -> Seq<char> {
        self.url@
    }

    pub closed spec fn bind_dn_spec(&self) -> Seq<char> {
        self.bind_dn@
    }

    pub closed spec fn bind_pw_spec(&self) -> Seq<char> {
        self.bind_pw@
    }

    pub closed spec fn user_base_spec(&self) -> Seq<char> {
        self.user_base@
    }

    pub closed spec fn user_filter_spec(&self) -> Seq<char> {
        self.user_filter@
    }

    pub fn url(&self) -> (r: &str)
        ensures
            r@ == self.url_spec(),
    {
        self.url.as_str()
    }

    pub fn bind_dn(&self) -> (r: &str)
        ensures
            r@ == self.bind_dn_spec(),
    {
        self.bind_dn.as_str()
    }

    pub fn bind_pw(&self) -> (r: &str)
        ensures
            r@ == self.bind_pw_spec(),
    {
        self.bind_pw.as_str()
    }

    pub fn user_base(&self) -> (r: &str)
        ensures
            r@ == self.user_base_spec(),
    {
        self.user_base.as_str()
    }

    /// An empty password is refused before the directory is asked.
    pub fn check_password_given(password: &str) -> (r: Result<(), AuthError>)
        ensures
            password@.len() == 0 ==> r == Err::<(), AuthError>(AuthError::InvalidCredentials),
            password@.len() > 0 ==> r is Ok,
    {
        if password.is_empty() {
            Err(AuthError::InvalidCredentials)
        } else {
            Ok(())
        }
    }

    /// The search filter for a user: every `{}` in the configured filter
    /// replaced by the user name.
    pub fn user_search_filter(&self, username: &str) -> (r: String)
        ensures
            r@ == replace_all(self.user_filter_spec(), "{}"@, username@),
    {
        proof {
            reveal_strlit("{}");
        }
        replace_str(self.user_filter.as_str(), "{}", username)
    }

    /// The entry a search found for a user: the first one; none found means
    /// the user does not exist.
    pub fn user_entry(username: &str, entries: Vec<DirectoryEntry>) -> (r: Result<DirectoryEntry, AuthError>)
        ensures
            entries@.len() == 0 ==> (r matches Err(AuthError::UserNotFound(u)) && u@ == username@),
            entries@.len() > 0 ==> r == Ok::<DirectoryEntry, AuthError>(entries@[0]),
    {
        let mut entries = entries;
        if entries.len() == 0 {
            Err(AuthError::UserNotFound(owned(username)))
        } else {
            Ok(entries.remove(0))
        }
    }

    /// The group name of a DN: `"CN=group1,OU=Groups,DC=corp,DC=local"`
    /// gives `"group1"`.
    pub fn extract_cn_from_dn(dn: &str) -> (r: String)
        ensures
            r@ == cn_of(dn@),
    {
        let chars = chars_of(dn);
        let comma = find_char(&chars, ',', 0);
        let first = vec_slice(&chars, 0, comma);
        assert(first@ =~= dn@.take(char_pos(dn@, ',', 0)));
        let part = trim_chars(&first);
        let part_text = string_from_chars(part);
        let upper = to_upper(part_text.as_str());
        let upper_chars = chars_of(upper.as_str());
        let prefix = chars_of("CN=");
        if vec_starts_with(&upper_chars, &prefix) {
            let part_chars = chars_of(part_text.as_str());
            let from = if part_chars.len() < 3 {
                part_chars.len()
            } else {
                3
            };
            string_from_chars(vec_skip(&part_chars, from))
        } else {
            owned(dn)
        }
    }

    /// The identity of a user whose password the directory accepted: the
    /// display name is the first `displayName`, else the first `cn`; the
    /// email the first `mail`; the groups are the group names of the
    /// `memberOf` DNs.
    pub fn identity_from_entry(username: &str, entry: &DirectoryEntry) -> (r: UserIdentity)
        ensures
            r.username@ == username@,
            opt_string_view(r.display_name) == (if entry.display_name@.len() > 0 {
                first_view(entry.display_name@)
            } else {
                first_view(entry.cn@)
            }),
            opt_string_view(r.email) == first_view(entry.mail@),
            r.groups@.len() == entry.member_of@.len(),
            forall|i: int| 0 <= i < r.groups@.len() ==> #[trigger] r.groups@[i]@ == cn_of(entry.member_of@[i]@),
    {
        let display_name = if entry.display_name.len() > 0 {
            first_of(&entry.display_name)
        } else {
            first_of(&entry.cn)
        };
        let email = first_of(&entry.mail);
        let mut groups: Vec<String> = Vec::new();
        let mut i: usize = 0;
        while i < entry.member_of.len()
            invariant
                i <= entry.member_of@.len(),
                groups@.len() == i,
                forall|k: int| 0 <= k < i ==> #[trigger] groups@[k]@ == cn_of(entry.member_of@[k]@),
            decreases entry.member_of@.len() - i,
        {
            groups.push(Self::extract_cn_from_dn(entry.member_of[i].as_str()));
            i = i + 1;
        }
        UserIdentity { username: owned(username), display_name, email, groups }
    }
}

/// The identity of a local user whose stored role is `role`.
pub fn local_identity(username: &str, role: String) -> (r: UserIdentity)
    ensures
        r.username@ == username@,
        r.display_name is None,
        r.email is None,
        r.groups@.len() == 1,
        r.groups@[0]@ == role@,
{
    let mut groups: Vec<String> = Vec::new();
    groups.push(role);
    UserIdentity { username: owned(username), display_name: None, email: None, groups }
}

// ---------------------------------------------------------------------------
// The directory conversation
// ---------------------------------------------------------------------------

/// How a directory request went: done, failed to be carried out (with the
/// error's text), or answered with a failure result (with its text).
pub enum LdapReply {
    Done,
    Failed(String),
    Refused(String),
}

/// What the directory answered last.
pub enum LdapEvent {
    /// Nothing yet.
    Start,
    /// The connection was opened, or could not be (with the error's text).
    Connected(Result<(), String>),
    /// The service account's bind.
    ServiceBound(LdapReply),
    /// The user search, with the entries found when it was done.
    Searched(LdapReply, Vec<DirectoryEntry>),
    /// The user's own bind, for the entry found.
    UserBound(DirectoryEntry, LdapReply),
}

/// What to ask the directory next, or the result.
pub enum LdapAction {
    Connect(String),
    BindService { dn: String, password: String },
    Search { base: String, filter: String },
    /// Bind as the user of this entry with the password given.
    BindUser(DirectoryEntry),
    Finish(Result<UserIdentity, AuthError>),
}

/// The identity made from a directory entry (see `identity_from_entry`).
pub open spec fn identity_fits(id: UserIdentity, username: Seq<char>, entry: DirectoryEntry) -> bool {
    &&& id.username@ == username
    &&& opt_string_view(id.display_name) == (if entry.display_name@.len() > 0 {
        first_view(entry.display_name@)
    } else {
        first_view(entry.cn@)
    })
    &&& opt_string_view(id.email) == first_view(entry.mail@)
    &&& id.groups@.len() == entry.member_of@.len()
    &&& forall|i: int| 0 <= i < id.groups@.len() ==> #[trigger] id.groups@[i]@ == cn_of(entry.member_of@[i]@)
}

pub open spec fn is_ldap_error(r: LdapAction, msg: Seq<char>) -> bool {
    r matches LdapAction::Finish(Err(AuthError::Ldap(m))) && m@ == msg
}

/// One step of authenticating a user against the directory: an empty
/// password is refused before anything is asked; then connect, bind as the
/// service account, search with the user's filter, take the first entry
/// (none: the user is not found), bind as that entry with the password (a
/// refusal: invalid credentials), and make the identity from the entry.
/// Errors in carrying out a request are directory errors named after the
/// request.
pub fn ldap_step(client: &LdapClient, username: &str, password: &str, event: LdapEvent) -> (r: LdapAction)
    ensures
        match event {
            LdapEvent::Start => if password@.len() == 0 {
                r matches LdapAction::Finish(Err(AuthError::InvalidCredentials))
            } else {
                r matches LdapAction::Connect(u) && u@ == client.url_spec()
            },
            LdapEvent::Connected(Ok(())) => r matches LdapAction::BindService { dn, password: pw }
                && dn@ == client.bind_dn_spec() && pw@ == client.bind_pw_spec(),
            LdapEvent::Connected(Err(e)) => is_ldap_error(r, "connect failed: "@ + e@),
            LdapEvent::ServiceBound(LdapReply::Done) => r matches LdapAction::Search { base, filter }
                && base@ == client.user_base_spec() && filter@ == replace_all(client.user_filter_spec(), "{}"@, username@),
            LdapEvent::ServiceBound(LdapReply::Failed(e)) => is_ldap_error(r, "service bind failed: "@ + e@),
            LdapEvent::ServiceBound(LdapReply::Refused(e)) => is_ldap_error(r, "service bind error: "@ + e@),
            LdapEvent::Searched(LdapReply::Done, entries) => if entries@.len() == 0 {
                r matches LdapAction::Finish(Err(AuthError::UserNotFound(u))) && u@ == username@
            } else {
                r == LdapAction::BindUser(entries@[0])
            },
            LdapEvent::Searched(LdapReply::Failed(e), _) => is_ldap_error(r, "search failed: "@ + e@),
            LdapEvent::Searched(LdapReply::Refused(_), _) => r matches LdapAction::Finish(
                Err(AuthError::UserNotFound(u)),
            ) && u@ == username@,
            LdapEvent::UserBound(entry, LdapReply::Done) => r matches LdapAction::Finish(Ok(id)) && identity_fits(
                id,
                username@,
                entry,
            ),
            LdapEvent::UserBound(_, LdapReply::Failed(e)) => is_ldap_error(r, "user bind failed: "@ + e@),
            LdapEvent::UserBound(_, LdapReply::Refused(_)) => r matches LdapAction::Finish(
                Err(AuthError::InvalidCredentials),
            ),
        },
{
    match event {
        LdapEvent::Start => match LdapClient::check_password_given(password) {
            Err(e) => LdapAction::Finish(Err(e)),
            Ok(()) => LdapAction::Connect(owned(client.url())),
        },
        LdapEvent::Connected(Ok(())) => LdapAction::BindService {
            dn: owned(client.bind_dn()),
            password: owned(client.bind_pw()),
        },
        LdapEvent::Connected(Err(e)) => LdapAction::Finish(Err(AuthError::Ldap(prefixed("connect failed: ", &e)))),
        LdapEvent::ServiceBound(LdapReply::Done) => LdapAction::Search {
            base: owned(client.user_base()),
            filter: client.user_search_filter(username),
        },
        LdapEvent::ServiceBound(LdapReply::Failed(e)) => LdapAction::Finish(
            Err(AuthError::Ldap(prefixed("service bind failed: ", &e))),
        ),
        LdapEvent::ServiceBound(LdapReply::Refused(e)) => LdapAction::Finish(
            Err(AuthError::Ldap(prefixed("service bind error: ", &e))),
        ),
        LdapEvent::Searched(LdapReply::Done, entries) => match LdapClient::user_entry(username, entries) {
            Err(e) => LdapAction::Finish(Err(e)),
            Ok(entry) => LdapAction::BindUser(entry),
        },
        LdapEvent::Searched(LdapReply::Failed(e), _) => LdapAction::Finish(
            Err(AuthError::Ldap(prefixed("search failed: ", &e))),
        ),
        LdapEvent::Searched(LdapReply::Refused(_), _) => LdapAction::Finish(
            Err(AuthError::UserNotFound(owned(username))),
        ),
        LdapEvent::UserBound(entry, LdapReply::Done) => LdapAction::Finish(
            Ok(LdapClient::identity_from_entry(username, &entry)),
        ),
        LdapEvent::UserBound(_, LdapReply::Failed(e)) => LdapAction::Finish(
            Err(AuthError::Ldap(prefixed("user bind failed: ", &e))),
        ),
        LdapEvent::UserBound(_, LdapReply::Refused(_)) => LdapAction::Finish(Err(AuthError::InvalidCredentials)),
    }
}

// ---------------------------------------------------------------------------
// Local users (Argon2 password hashes)
// ---------------------------------------------------------------------------

/// What Argon2 verification answers for a password and a stored hash in
/// PHC string form: whether the password matches, or the message of the
/// error when the string is not a hash it can read.
pub uninterp spec fn argon2_verdict(password: Seq<u8>, phc: Seq<char>) -> Result<bool, Seq<char>>;

/// `PasswordHash::new` on the stored string, then
/// `Argon2::default().verify_password`: the answer is a function of the two
/// arguments (the hash string carries its salt and parameters). A failed
/// verification is a mismatch; a string that does not parse gives the
/// parser's message.
#[verifier::external_body]
fn argon2_verify(password: &[u8], phc: &str) -> (r: Result<bool, String>)
    ensures
        match argon2_verdict(password@, phc@) {
            Ok(b) => r == Ok::<bool, String>(b),
            Err(m) => r matches Err(s) && s@ == m,
        },
{
    match PasswordHash::new(phc) {
        Ok(hash) => Ok(Argon2::default().verify_password(password, &hash).is_ok()),
        Err(e) => Err(e.to_string()),
    }
}

/// Checks a local user's password against the stored hash and role: an
/// unreadable hash is an internal error, a mismatch is refused, a match
/// gives the user's identity with the role as its one group.
pub fn check_local_password(username: &str, password: &str, password_hash: &str, role: &str) -> (r: Result<
    UserIdentity,
    AuthError,
>)
    ensures
        match argon2_verdict(password.spec_bytes(), password_hash@) {
            Err(m) => r matches Err(AuthError::Internal(s)) && s@ == m,
            Ok(false) => r == Err::<UserIdentity, AuthError>(AuthError::InvalidCredentials),
            Ok(true) => r matches Ok(id) && id.username@ == username@ && id.display_name is None
                && id.email is None && id.groups@.len() == 1 && id.groups@[0]@ == role@,
        },
{
    match argon2_verify(password.as_bytes(), password_hash) {
        Err(m) => Err(AuthError::Internal(m)),
        Ok(false) => Err(AuthError::InvalidCredentials),
        Ok(true) => Ok(local_identity(username, owned(role))),
    }
}

/// What Argon2 hashing gives for a password and a salt in B64 form: the
/// PHC string of the hash, or the message of the error.
pub uninterp spec fn argon2_hash_of(password: Seq<u8>, salt_b64: Seq<char>) -> Result<Seq<char>, Seq<char>>;

/// `SaltString::from_b64` on the salt, then
/// `Argon2::default().hash_password`, written as a PHC string: a function of
/// the password and the salt.
#[verifier::external_body]
fn argon2_hash(password: &[u8], salt_b64: &str) -> (r: Result<String, String>)
    ensures
        match argon2_hash_of(password@, salt_b64@) {
            Ok(h) => r matches Ok(s) && s@ == h,
            Err(m) => r matches Err(s) && s@ == m,
        },
{
    let salt = SaltString::from_b64(salt_b64).map_err(|e| e.to_string())?;
    Argon2::default().hash_password(password, &salt).map(|h| h.to_string()).map_err(|e| e.to_string())
}

/// The Argon2 hash of a password with a given salt (B64, as
/// `SaltString` reads it); an error is an internal error with its message.
pub fn hash_password(password: &str, salt_b64: &str) -> (r: Result<String, AuthError>)
    ensures
        match argon2_hash_of(password.spec_bytes(), salt_b64@) {
            Ok(h) => r matches Ok(s) && s@ == h,
            Err(m) => r matches Err(AuthError::Internal(s)) && s@ == m,
        },
{
    match argon2_hash(password.as_bytes(), salt_b64) {
        Ok(h) => Ok(h),
        Err(m) => Err(AuthError::Internal(m)),
    }
}

} // verus!
