//! Requests for registering and logging in, the rules they are validated
//! against, password and token checks, who may change a profile, and the
//! checks and cookies of a single sign-on round trip.

use vstd::prelude::*;
use vstd::string::{StrSliceExecFns, StringExecFns};
use crate::error::{Error, LoginError, TokenError};
use crate::time::DateTime;
use crate::text::joined;
use crate::urls::{spec_url_domain, spec_url_join, url_domain, url_join};

verus! {

/// The data needed to register a new profile.
#[derive(Clone, Debug)]
pub struct RegisterRequest {
    pub username: String,
    pub password: String,
    pub email: String,
}

/// A request to reset the password of a profile.
#[derive(Clone, Debug)]
pub struct PasswordResetRequest {
    pub username: String,
}

/// A new password, with the token that allows setting it.
#[derive(Clone, Debug)]
pub struct PasswordResetData {
    pub token: String,
    pub password: String,
}

/// Logging in with a username.
#[derive(Clone, Debug)]
pub struct LoginUsernameRequest {
    pub username: String,
    pub password: String,
}

/// Logging in with an email address.
#[derive(Clone, Debug)]
pub struct LoginEmailRequest {
    pub email: String,
    pub password: String,
}

/// What a single sign-on provider sends back to the callback.
#[derive(Clone, Debug)]
pub struct OAuthResponse {
    pub code: String,
    pub state: String,
}

/// One rule a field broke: a short code and a message for the client.
#[derive(Clone, Debug)]
pub struct ValidationIssue {
    pub code: String,
    pub message: String,
}

/// The rules one field broke, in the order they are checked.
#[derive(Clone, Debug)]
pub struct FieldIssues {
    pub field: String,
    pub issues: Vec<ValidationIssue>,
}

impl View for ValidationIssue {
    type V = (Seq<char>, Seq<char>);

    open spec fn view(&self) -> (Seq<char>, Seq<char>) {
        (self.code@, self.message@)
    }
}

impl View for FieldIssues {
    type V = (Seq<char>, Seq<(Seq<char>, Seq<char>)>);

    open spec fn view(&self) -> (Seq<char>, Seq<(Seq<char>, Seq<char>)>) {
        (self.field@, self.issues@.map_values(|i: ValidationIssue| i@))
    }
}

/// An ASCII letter.
pub open spec fn is_ascii_letter(c: char) -> bool {
    ('a' <= c <= 'z') || ('A' <= c <= 'Z')
}

/// A character allowed after the first one of a username.
pub open spec fn is_username_char(c: char) -> bool {
    is_ascii_letter(c) || ('0' <= c <= '9') || c == '-' || c == '_'
}

/// The username pattern `^[a-zA-Z][a-zA-Z0-9-_]*$`: a letter, then letters,
/// digits, dashes or underscores.
pub open spec fn spec_username_pattern(s: Seq<char>) -> bool {
    &&& s.len() >= 1
    &&& is_ascii_letter(s[0])
    &&& forall|i: int| 1 <= i < s.len() ==> is_username_char(#[trigger] s[i])
}

/// Whether `validator` accepts `s` as an email address (its HTML5-based
/// email check).
pub uninterp spec fn spec_valid_email(s: Seq<char>) -> bool;

/// Whether `s` matches the username pattern, checked by the `regex` crate
/// with `Regex::new(r"^[a-zA-Z][a-zA-Z0-9-_]*$")` and `is_match`.  Inside
/// the class, the `-` that follows the range `0-9` is a literal dash, and `$`
/// without the multi-line flag matches only at the end of the text; the
/// contract states the language of the pattern.
#[verifier::external_body]
fn matches_username_pattern(s: &str) -> (r: bool)
    ensures
        r == spec_username_pattern(s@),
{
    regex::Regex::new(r"^[a-zA-Z][a-zA-Z0-9-_]*$").unwrap().is_match(s)
}

/// Whether `s` is an email address, checked by `validator`'s
/// `ValidateEmail::validate_email` on the string.  The result is named; the
/// contract also states what its source shows of every call: an empty string
/// and a string without `@` are refused.
#[verifier::external_body]
fn validate_email(s: &str) -> (r: bool)
    ensures
        r == spec_valid_email(s@),
        s@.len() == 0 ==> !r,
        !s@.contains('@') ==> !r,
{
    validator::ValidateEmail::validate_email(&s)
}

/// The issue for a username that does not match the pattern.
pub open spec fn username_regex_issue() -> (Seq<char>, Seq<char>) {
    (
        "username-regex"@,
        "username must start with a letter and only contain letters, numbers, dashes, or underscores"@,
    )
}

/// The issue for a username that is too short or too long.
pub open spec fn username_length_issue() -> (Seq<char>, Seq<char>) {
    ("username-length"@, "username must be between 2 and 32 characters long"@)
}

/// The issue for a registration password that is too short.
pub open spec fn register_password_issue() -> (Seq<char>, Seq<char>) {
    ("password-length"@, "password must be at least 8 characters long"@)
}

/// The issue for an invalid email address.
pub open spec fn email_issue() -> (Seq<char>, Seq<char>) {
    ("email"@, "invalid email"@)
}

/// The issue for a new password that is too short.
pub open spec fn reset_password_issue() -> (Seq<char>, Seq<char>) {
    ("password-length"@, "password must be at least 16 characters long"@)
}

/// The issues of one field, in order, for the rules it breaks.
pub open spec fn issues_if(
    first_broken: bool,
    first: (Seq<char>, Seq<char>),
    second_broken: bool,
    second: (Seq<char>, Seq<char>),
) -> Seq<(Seq<char>, Seq<char>)> {
    (if first_broken { seq![first] } else { Seq::empty() }) + (if second_broken {
        seq![second]
    } else {
        Seq::empty()
    })
}

/// A field entry when the field broke some rule.
pub open spec fn field_entry(
    name: Seq<char>,
    issues: Seq<(Seq<char>, Seq<char>)>,
) -> Seq<(Seq<char>, Seq<(Seq<char>, Seq<char>)>)> {
    if issues.len() > 0 {
        seq![(name, issues)]
    } else {
        Seq::empty()
    }
}

/// The issues of a registration request: for the username, the pattern and
/// then the length of 2 to 32 characters; for the password, a length of at
/// least 8 characters; for the email, a valid address.  Fields in that order,
/// each only when it broke a rule.
pub open spec fn register_issues(r: RegisterRequest) -> Seq<(Seq<char>, Seq<(Seq<char>, Seq<char>)>)> {
    let u = r.username@;
    field_entry(
        "username"@,
        issues_if(
            !spec_username_pattern(u),
            username_regex_issue(),
            !(2 <= u.len() <= 32),
            username_length_issue(),
        ),
    ) + field_entry(
        "password"@,
        issues_if(r.password@.len() < 8, register_password_issue(), false, register_password_issue()),
    ) + field_entry(
        "email"@,
        issues_if(!spec_valid_email(r.email@), email_issue(), false, email_issue()),
    )
}

/// The issues of a password reset: a new password of at least 16 characters.
pub open spec fn reset_issues(r: PasswordResetData) -> Seq<(Seq<char>, Seq<(Seq<char>, Seq<char>)>)> {
    field_entry(
        "password"@,
        issues_if(r.password@.len() < 16, reset_password_issue(), false, reset_password_issue()),
    )
}

fn issue(code: &str, message: &str) -> (r: ValidationIssue)
    ensures
        r@ == (code@, message@),
{
    ValidationIssue { code: String::from_str(code), message: String::from_str(message) }
}

fn push_field(out: &mut Vec<FieldIssues>, name: &str, issues: Vec<ValidationIssue>)
    ensures
        final(out)@.map_values(|f: FieldIssues| f@) == old(out)@.map_values(|f: FieldIssues| f@)
            + field_entry(name@, issues@.map_values(|i: ValidationIssue| i@)),
{
    let ghost before = old(out)@.map_values(|f: FieldIssues| f@);
    if issues.len() > 0 {
        out.push(FieldIssues { field: String::from_str(name), issues });
        assert(out@.map_values(|f: FieldIssues| f@) =~= before + field_entry(
            name@,
            out@.last().issues@.map_values(|i: ValidationIssue| i@),
        ));
    } else {
        assert(out@.map_values(|f: FieldIssues| f@) =~= before + field_entry(
            name@,
            issues@.map_values(|i: ValidationIssue| i@),
        ));
    }
}

impl RegisterRequest {
    /// Check the request against the registration rules, listing every rule
    /// that is broken.
    pub fn validate(&self) -> (r: Result<(), Vec<FieldIssues>>)
        ensures
            r is Ok <==> register_issues(*self).len() == 0,
            r matches Err(v) ==> v@.map_values(|f: FieldIssues| f@) == register_issues(*self),
    {
        let mut out: Vec<FieldIssues> = Vec::new();

        let mut username_issues: Vec<ValidationIssue> = Vec::new();
        if !matches_username_pattern(self.username.as_str()) {
            username_issues.push(issue(
                "username-regex",
                "username must start with a letter and only contain letters, numbers, dashes, or underscores",
            ));
        }
        let ulen = self.username.as_str().unicode_len();
        if ulen < 2 || ulen > 32 {
            username_issues.push(issue("username-length", "username must be between 2 and 32 characters long"));
        }
        assert(username_issues@.map_values(|i: ValidationIssue| i@) =~= issues_if(
            !spec_username_pattern(self.username@),
            username_regex_issue(),
            !(2 <= self.username@.len() <= 32),
            username_length_issue(),
        ));
        push_field(&mut out, "username", username_issues);

        let mut password_issues: Vec<ValidationIssue> = Vec::new();
        if self.password.as_str().unicode_len() < 8 {
            password_issues.push(issue("password-length", "password must be at least 8 characters long"));
        }
        assert(password_issues@.map_values(|i: ValidationIssue| i@) =~= issues_if(
            self.password@.len() < 8,
            register_password_issue(),
            false,
            register_password_issue(),
        ));
        push_field(&mut out, "password", password_issues);

        let mut email_issues: Vec<ValidationIssue> = Vec::new();
        if !validate_email(self.email.as_str()) {
            email_issues.push(issue("email", "invalid email"));
        }
        assert(email_issues@.map_values(|i: ValidationIssue| i@) =~= issues_if(
            !spec_valid_email(self.email@),
            email_issue(),
            false,
            email_issue(),
        ));
        push_field(&mut out, "email", email_issues);

        assert(out@.map_values(|f: FieldIssues| f@) =~= register_issues(*self));
        if out.len() > 0 {
            Err(out)
        } else {
            Ok(())
        }
    }
}

impl PasswordResetData {
    /// Check the new password against the reset rules.
    pub fn validate(&self) -> (r: Result<(), Vec<FieldIssues>>)
        ensures
            r is Ok <==> reset_issues(*self).len() == 0,
            r matches Err(v) ==> v@.map_values(|f: FieldIssues| f@) == reset_issues(*self),
    {
        let mut out: Vec<FieldIssues> = Vec::new();
        let mut password_issues: Vec<ValidationIssue> = Vec::new();
        if self.password.as_str().unicode_len() < 16 {
            password_issues.push(issue("password-length", "password must be at least 16 characters long"));
        }
        assert(password_issues@.map_values(|i: ValidationIssue| i@) =~= issues_if(
            self.password@.len() < 16,
            reset_password_issue(),
            false,
            reset_password_issue(),
        ));
        push_field(&mut out, "password", password_issues);
        assert(out@.map_values(|f: FieldIssues| f@) =~= reset_issues(*self));
        if out.len() > 0 {
            Err(out)
        } else {
            Ok(())
        }
    }
}

/// The messages of the issues of each field.
pub open spec fn issue_messages(fields: Seq<(Seq<char>, Seq<(Seq<char>, Seq<char>)>)>) -> Seq<
    Seq<char>,
> {
    fields.map_values(
        |f: (Seq<char>, Seq<(Seq<char>, Seq<char>)>)|
            joined(f.1.map_values(|i: (Seq<char>, Seq<char>)| i.1), "\n"@),
    )
}

/// The request error for failed validation: the messages of each field
/// joined by newlines, and the fields joined by newlines.
pub fn validation_error(fields: &Vec<FieldIssues>) -> (r: Error)
    ensures
        r matches Error::ValidationError(m) && m@ == joined(
            issue_messages(fields@.map_values(|f: FieldIssues| f@)),
            "\n"@,
        ),
{
    let mut messages: Vec<Vec<String>> = Vec::new();
    let mut k: usize = 0;
    while k < fields.len()
        invariant
            k <= fields@.len(),
            messages@.len() == k,
            forall|q: int|
                0 <= q < k ==> (#[trigger] messages@[q])@.map_values(|p: String| p@)
                    == fields@[q]@.1.map_values(|i: (Seq<char>, Seq<char>)| i.1),
        decreases fields@.len() - k,
    {
        let issues = &fields[k].issues;
        let mut ms: Vec<String> = Vec::new();
        let mut j: usize = 0;
        while j < issues.len()
            invariant
                j <= issues@.len(),
                ms@.len() == j,
                forall|q: int| 0 <= q < j ==> (#[trigger] ms@[q])@ == issues@[q].message@,
            decreases issues@.len() - j,
        {
            ms.push(issues[j].message.clone());
            j = j + 1;
        }
        assert(ms@.map_values(|p: String| p@) =~= fields@[k as int]@.1.map_values(
            |i: (Seq<char>, Seq<char>)| i.1,
        ));
        messages.push(ms);
        k = k + 1;
    }
    let r = Error::from_validation_messages(&messages);
    assert(messages@.map_values(|f: Vec<String>| joined(f@.map_values(|p: String| p@), "\n"@))
        =~= issue_messages(fields@.map_values(|f: FieldIssues| f@)));
    r
}

/// Why a single sign-on round trip was refused.
#[derive(Clone, Debug)]
pub enum OAuthError {
    UnknownProvider(String),
    MissingCSRFTokenCookie,
    MissingNonceCookie,
    InvalidCSRFToken,
}

/// Only Google is known as a sign-on provider.
pub fn check_sso_provider(provider: &str) -> (r: Result<(), OAuthError>)
    ensures
        r is Ok <==> provider@ == "google"@,
        r matches Err(e) ==> e matches OAuthError::UnknownProvider(p) && p@ == provider@,
{
    let google = String::from_str("google");
    let given = String::from_str(provider);
    if given == google {
        Ok(())
    } else {
        Err(OAuthError::UnknownProvider(given))
    }
}

/// Check the cookies of a sign-on callback: both the CSRF token and the nonce
/// cookie must be there, and the CSRF token must equal the state the provider
/// sent back.  Gives the nonce to verify the identity token with.
pub fn check_sso_callback(
    csrf_cookie: Option<&str>,
    nonce_cookie: Option<&str>,
    response: &OAuthResponse,
) -> (r: Result<String, OAuthError>)
    ensures
        csrf_cookie is None ==> r matches Err(OAuthError::MissingCSRFTokenCookie),
        csrf_cookie is Some && nonce_cookie is None ==> r matches Err(OAuthError::MissingNonceCookie),
        csrf_cookie matches Some(c) && nonce_cookie is Some && c@ != response.state@ ==> r matches Err(
            OAuthError::InvalidCSRFToken,
        ),
        csrf_cookie is Some && csrf_cookie->0@ == response.state@ && nonce_cookie is Some ==> (
        r matches Ok(nonce) && nonce@ == nonce_cookie->0@),
{
    let csrf = match csrf_cookie {
        Some(c) => String::from_str(c),
        None => return Err(OAuthError::MissingCSRFTokenCookie),
    };
    let nonce = match nonce_cookie {
        Some(n) => String::from_str(n),
        None => return Err(OAuthError::MissingNonceCookie),
    };
    if csrf != response.state {
        return Err(OAuthError::InvalidCSRFToken);
    }
    Ok(nonce)
}

/// When the browser sends a cookie along with a cross-site request:
/// never, on top-level navigation, or always.
#[derive(Clone, Copy, Debug, PartialEq, Eq, Structural)]
pub enum SameSite {
    Strict,
    Lax,
    Unrestricted,
}

/// A cookie to set: its name, value and attributes.
#[derive(Clone, Debug)]
pub struct CookieSettings {
    pub name: String,
    pub value: String,
    pub domain: String,
    pub max_age_seconds: i64,
    pub http_only: bool,
    pub secure: bool,
    pub same_site: SameSite,
    pub path: String,
}

/// The cookies of a sign-on round trip: for the given domain and lifespan,
/// readable only over HTTP, only over secure connections, sent on top-level
/// navigation (`Lax`), for every path.
pub fn make_cookie(name: String, value: String, domain: String, lifespan_seconds: i64) -> (r: CookieSettings)
    ensures
        r.name == name,
        r.value == value,
        r.domain == domain,
        r.max_age_seconds == lifespan_seconds,
        r.http_only,
        r.secure,
        r.same_site == SameSite::Lax,
        r.path@ == "/"@,
{
    CookieSettings {
        name,
        value,
        domain,
        max_age_seconds: lifespan_seconds,
        http_only: true,
        secure: true,
        same_site: SameSite::Lax,
        path: String::from_str("/"),
    }
}

/// The lifetime of the cookies of a sign-on round trip, in seconds.
pub const SSO_COOKIE_LIFETIME_SECONDS: i64 = 120;

/// `c` is a sign-on cookie with the given name, value and domain.
pub open spec fn is_sso_cookie(c: CookieSettings, name: Seq<char>, value: Seq<char>, domain: Seq<char>) -> bool {
    &&& c.name@ == name
    &&& c.value@ == value
    &&& c.domain@ == domain
    &&& c.max_age_seconds == SSO_COOKIE_LIFETIME_SECONDS
    &&& c.http_only
    &&& c.secure
    &&& c.same_site == SameSite::Lax
    &&& c.path@ == "/"@
}

/// The cookies set when a sign-on starts: the CSRF state as `csrf-token`
/// and the nonce as `nonce-cookie`, both for `domain` and two minutes long.
pub fn sso_login_cookies(domain: String, csrf_state: String, nonce: String) -> (r: (CookieSettings, CookieSettings))
    ensures
        is_sso_cookie(r.0, "csrf-token"@, csrf_state@, domain@),
        is_sso_cookie(r.1, "nonce-cookie"@, nonce@, domain@),
{
    let csrf = make_cookie(String::from_str("csrf-token"), csrf_state, domain.clone(), SSO_COOKIE_LIFETIME_SECONDS);
    let nonce = make_cookie(String::from_str("nonce-cookie"), nonce, domain, SSO_COOKIE_LIFETIME_SECONDS);
    (csrf, nonce)
}

/// Why a sign-on cannot start.
#[derive(Clone, Debug)]
pub enum SsoSetupError {
    /// The provider or the round trip was refused.
    OAuth(OAuthError),
    /// The backend URL has no domain to set the cookies for.
    NoBackendDomain,
    /// A URL of the round trip cannot be formed.
    InvalidUrl,
}

/// Where a sign-on is set up for: the domain of the cookies and the URL the
/// provider sends the user back to.
#[derive(Clone, Debug)]
pub struct SsoLogin {
    pub cookie_domain: String,
    pub callback_url: String,
}

/// Set up a sign-on with `provider` for the backend at `backend_url`: only
/// Google is known; the cookies are for the backend's domain, and the
/// provider calls back to `auth/sso/callback` under the backend URL.
pub fn sso_login_setup(provider: &str, backend_url: &str) -> (r: Result<SsoLogin, SsoSetupError>)
    ensures
        provider@ != "google"@ ==> (r matches Err(SsoSetupError::OAuth(OAuthError::UnknownProvider(p)))
            && p@ == provider@),
        provider@ == "google"@ && spec_url_domain(backend_url@) is None ==> (r matches Err(
            SsoSetupError::NoBackendDomain,
        )),
        provider@ == "google"@ && spec_url_domain(backend_url@) is Some && spec_url_join(
            backend_url@,
            "auth/sso/callback"@,
        ) is None ==> (r matches Err(SsoSetupError::InvalidUrl)),
        provider@ == "google"@ && spec_url_domain(backend_url@) is Some && spec_url_join(
            backend_url@,
            "auth/sso/callback"@,
        ) is Some ==> r is Ok,
        r matches Ok(l) ==> provider@ == "google"@ && spec_url_domain(backend_url@) == Some(
            l.cookie_domain@,
        ) && spec_url_join(backend_url@, "auth/sso/callback"@) == Some(l.callback_url@),
{
    match check_sso_provider(provider) {
        Ok(()) => {},
        Err(e) => return Err(SsoSetupError::OAuth(e)),
    }
    let cookie_domain = match url_domain(backend_url) {
        Some(d) => d,
        None => return Err(SsoSetupError::NoBackendDomain),
    };
    let callback_url = match url_join(backend_url, "auth/sso/callback") {
        Some(u) => u,
        None => return Err(SsoSetupError::InvalidUrl),
    };
    Ok(SsoLogin { cookie_domain, callback_url })
}

/// Where the user is sent after a sign-on: `auth/sso` under the frontend
/// URL, `None` when that URL cannot be formed.
pub fn sso_success_redirect(frontend_url: &str) -> (r: Option<String>)
    ensures
        r is Some <==> spec_url_join(frontend_url@, "auth/sso"@) is Some,
        r matches Some(u) ==> spec_url_join(frontend_url@, "auth/sso"@) == Some(u@),
{
    url_join(frontend_url, "auth/sso")
}

/// What `argon2` makes of checking `password` against the stored PHC string
/// `hash` with its default parameters: `Some(true)` when they match,
/// `Some(false)` on a mismatch, `None` when the hash cannot be read or
/// checked.
pub uninterp spec fn spec_verify_password(password: Seq<char>, hash: Seq<char>) -> Option<bool>;

/// Check a password against a stored hash with `argon2`: read the hash with
/// `PasswordHash::new` and check it with `Argon2::default().verify_password`
/// on the password's bytes.  The outcome is named: a mismatch is
/// `password_hash::Error::Password`, any other failure is told apart from it.
#[verifier::external_body]
fn verify_password(password: &str, hash: &str) -> (r: Option<bool>)
    ensures
        r == spec_verify_password(password@, hash@),
{
    let parsed = match argon2::PasswordHash::new(hash) {
        Ok(h) => h,
        Err(argon2::password_hash::Error::Password) => return Some(false),
        Err(_) => return None,
    };
    match argon2::PasswordVerifier::verify_password(&argon2::Argon2::default(), password.as_bytes(), &parsed) {
        Ok(()) => Some(true),
        Err(argon2::password_hash::Error::Password) => Some(false),
        Err(_) => None,
    }
}

/// The answer to a login password check: a match lets the login go on, a
/// mismatch is an invalid password, and a hash that cannot be checked is an
/// internal error.
pub fn password_check_result(outcome: Option<bool>) -> (r: Result<(), Error>)
    ensures
        outcome == Some(true) ==> r is Ok,
        outcome == Some(false) ==> r == Err::<(), Error>(Error::LoginError(LoginError::InvalidPassword)),
        outcome is None ==> r == Err::<(), Error>(Error::InternalServerError),
{
    match outcome {
        Some(true) => Ok(()),
        Some(false) => Err(Error::from_hash_error(true)),
        None => Err(Error::from_hash_error(false)),
    }
}

/// Check a login password against the profile's stored hash.
pub fn check_password(password: &str, password_hash: &str) -> (r: Result<(), Error>)
    ensures
        spec_verify_password(password@, password_hash@) == Some(true) ==> r is Ok,
        spec_verify_password(password@, password_hash@) == Some(false) ==> r == Err::<(), Error>(
            Error::LoginError(LoginError::InvalidPassword),
        ),
        spec_verify_password(password@, password_hash@) is None ==> r == Err::<(), Error>(
            Error::InternalServerError,
        ),
{
    password_check_result(verify_password(password, password_hash))
}

/// Whether a new profile's email address counts as confirmed at once:
/// outside production, when verification is skipped.
pub fn confirms_on_register(production: bool, skip_verify: bool) -> (r: bool)
    ensures
        r == (!production && skip_verify),
{
    !production && skip_verify
}

/// Check an email confirmation token at `now`: it is refused once its
/// expiry lies in the past.
pub fn check_email_token_expiry(now: &DateTime, expiry: &DateTime) -> (r: Result<(), Error>)
    requires
        now.wf(),
        expiry.wf(),
    ensures
        r is Ok <==> !expiry.before(*now),
        r is Err ==> r == Err::<(), Error>(Error::TokenError(TokenError::ExpiredEmailToken)),
{
    if expiry.lt(now) {
        Err(Error::TokenError(TokenError::ExpiredEmailToken))
    } else {
        Ok(())
    }
}

/// Whether the session's profile may change the profile `profile_id`: an
/// admin may change any profile, anyone else only their own.
pub fn may_manage_profile(session_is_admin: bool, session_profile_id: i32, profile_id: i32) -> (r: bool)
    ensures
        r == (session_is_admin || session_profile_id == profile_id),
{
    session_is_admin || session_profile_id == profile_id
}

/// Whether an update changed the email address awaiting confirmation, so a
/// new confirmation mail is due.
pub fn pending_email_changed(before: &Option<String>, after: &Option<String>) -> (r: bool)
    ensures
        r == !(match (before, after) {
            (None, None) => true,
            (Some(a), Some(b)) => a@ == b@,
            _ => false,
        }),
{
    match (before, after) {
        (None, None) => false,
        (Some(a), Some(b)) => !string_eq(a, b),
        _ => true,
    }
}

fn string_eq(a: &String, b: &String) -> (r: bool)
    ensures
        r == (a@ == b@),
{
    *a == *b
}

/// A username is accepted exactly when it starts with an ASCII letter and
/// every later character is an ASCII letter, a digit, `-` or `_`.
pub proof fn law_username_characters(s: Seq<char>)
    ensures
        spec_username_pattern(s) <==> {
            &&& s.len() >= 1
            &&& ('a' <= s[0] <= 'z' || 'A' <= s[0] <= 'Z')
            &&& forall|i: int|
                1 <= i < s.len() ==> ('a' <= #[trigger] s[i] <= 'z' || 'A' <= s[i] <= 'Z' || '0' <= s[i] <= '9'
                    || s[i] == '-' || s[i] == '_')
        },
{
}

/// A username holding any other character anywhere, such as `.`, `@` or a
/// space, is refused, and so is one that starts with a digit, `-` or `_`.
pub proof fn law_username_refuses_other_characters(s: Seq<char>, i: int)
    requires
        0 <= i < s.len(),
        !('a' <= s[i] <= 'z' || 'A' <= s[i] <= 'Z' || '0' <= s[i] <= '9' || s[i] == '-' || s[i] == '_')
            || (i == 0 && !('a' <= s[i] <= 'z' || 'A' <= s[i] <= 'Z')),
    ensures
        !spec_username_pattern(s),
{
}

} // verus!
