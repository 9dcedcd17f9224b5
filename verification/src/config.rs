//! The configuration of the application, read from the values of environment
//! variables with their defaults.

use vstd::prelude::*;
use vstd::string::{StrSliceExecFns, StringExecFns};
use crate::mailer::uses_stub_transport;
use crate::urls::{parse_url, spec_parse_url};

verus! {

/// An ASCII digit.
pub open spec fn is_digit(c: char) -> bool {
    '0' <= c <= '9'
}

/// The value of an ASCII digit.
pub open spec fn digit_value(c: char) -> int {
    (c as int) - ('0' as int)
}

/// Every character is an ASCII digit.
pub open spec fn all_digits(s: Seq<char>) -> bool {
    forall|i: int| 0 <= i < s.len() ==> is_digit(#[trigger] s[i])
}

/// The number written by a string of decimal digits.
pub open spec fn digits_value(s: Seq<char>) -> int
    decreases s.len(),
{
    if s.len() == 0 {
        0
    } else {
        digits_value(s.drop_last()) * 10 + digit_value(s.last())
    }
}

/// The digits after an optional leading sign.
pub open spec fn unsigned_body(s: Seq<char>) -> Seq<char> {
    if s.len() > 0 && (s[0] == '-' || s[0] == '+') {
        s.drop_first()
    } else {
        s
    }
}

/// What `str::parse::<i64>` gives: an optional `+` or `-`, then at least one
/// decimal digit, for a value that fits.
pub open spec fn spec_parse_i64(s: Seq<char>) -> Option<i64> {
    let body = unsigned_body(s);
    let v = if s.len() > 0 && s[0] == '-' { -digits_value(body) } else { digits_value(body) };
    if body.len() == 0 || !all_digits(body) || v < i64::MIN || v > i64::MAX {
        None
    } else {
        Some(v as i64)
    }
}

/// What `str::parse::<usize>` gives: an optional `+`, then at least one
/// decimal digit, for a value that fits.
pub open spec fn spec_parse_usize(s: Seq<char>) -> Option<usize> {
    let body = if s.len() > 0 && s[0] == '+' { s.drop_first() } else { s };
    if body.len() == 0 || !all_digits(body) || digits_value(body) > usize::MAX {
        None
    } else {
        Some(digits_value(body) as usize)
    }
}

/// What `str::parse::<bool>` gives: `true` or `false`, nothing else.
pub open spec fn spec_parse_bool(s: Seq<char>) -> Option<bool> {
    if s == "true"@ {
        Some(true)
    } else if s == "false"@ {
        Some(false)
    } else {
        None
    }
}

proof fn lemma_digits_value_nonneg(s: Seq<char>)
    requires
        all_digits(s),
    ensures
        digits_value(s) >= 0,
    decreases s.len(),
{
    if s.len() > 0 {
        lemma_digits_value_nonneg(s.drop_last());
    }
}

proof fn lemma_digits_value_grows(s: Seq<char>, k: int)
    requires
        all_digits(s),
        0 <= k <= s.len(),
    ensures
        digits_value(s) >= digits_value(s.take(k)),
    decreases s.len() - k,
{
    if k < s.len() {
        lemma_digits_value_grows(s, k + 1);
        assert(s.take(k + 1).drop_last() =~= s.take(k));
        lemma_digits_value_nonneg(s.take(k));
    } else {
        assert(s.take(k) =~= s);
    }
}

/// Read the decimal digits of `s` from `start`, as long as the value stays
/// at most `limit`.  `None` for a non-digit or a value above `limit`.
fn parse_digits(s: &str, start: usize, limit: u64) -> (r: Option<u64>)
    requires
        start <= s@.len(),
        limit >= 9,
    ensures
        ({
            let body = s@.skip(start as int);
            match r {
                Some(v) => all_digits(body) && v == digits_value(body) && v <= limit,
                None => !all_digits(body) || digits_value(body) > limit,
            }
        }),
{
    let ghost body = s@.skip(start as int);
    let n = s.unicode_len();
    let mut acc: u64 = 0;
    let mut i: usize = start;
    while i < n
        invariant
            n == s@.len(),
            body == s@.skip(start as int),
            start <= i <= n,
            all_digits(body.take(i - start)),
            acc == digits_value(body.take(i - start)),
            acc <= limit,
            limit >= 9,
        decreases n - i,
    {
        let c = s.get_char(i);
        let ghost k = i - start;
        proof {
            assert(body.take(k + 1).drop_last() =~= body.take(k));
            assert(body.take(k + 1).last() == c);
        }
        if !('0' <= c && c <= '9') {
            proof {
                assert(!is_digit(body[k]));
            }
            return None;
        }
        let d = (c as u32 - '0' as u32) as u64;
        if acc > (limit - d) / 10 {
            proof {
                assert(all_digits(body.take(k + 1)));
                assert(digits_value(body.take(k + 1)) == acc * 10 + d);
                assert(acc * 10 + d > limit) by (nonlinear_arith)
                    requires acc > (limit - d) / 10, d <= 9, d <= limit;
                if all_digits(body) {
                    lemma_digits_value_grows(body, k + 1);
                }
            }
            return None;
        }
        proof {
            assert(acc * 10 + d <= limit) by (nonlinear_arith)
                requires acc <= (limit - d) / 10, d <= limit;
        }
        acc = acc * 10 + d;
        i = i + 1;
        proof {
            assert(all_digits(body.take(i - start)));
        }
    }
    assert(body.take(n - start) =~= body);
    Some(acc)
}

/// Parse a signed decimal number, as `str::parse::<i64>` does.
pub fn parse_i64(s: &str) -> (r: Option<i64>)
    ensures
        r == spec_parse_i64(s@),
{
    let n = s.unicode_len();
    if n == 0 {
        return None;
    }
    let first = s.get_char(0);
    let neg = first == '-';
    let start: usize = if first == '-' || first == '+' { 1 } else { 0 };
    proof {
        assert(unsigned_body(s@) =~= s@.skip(start as int));
    }
    if start == n {
        return None;
    }
    let limit: u64 = if neg { 9_223_372_036_854_775_808 } else { 9_223_372_036_854_775_807 };
    match parse_digits(s, start, limit) {
        None => None,
        Some(v) => {
            if neg {
                if v == 9_223_372_036_854_775_808 {
                    Some(i64::MIN)
                } else {
                    Some(-(v as i64))
                }
            } else {
                Some(v as i64)
            }
        },
    }
}

/// Parse an unsigned decimal number, as `str::parse::<usize>` does.
pub fn parse_usize(s: &str) -> (r: Option<usize>)
    ensures
        r == spec_parse_usize(s@),
{
    let n = s.unicode_len();
    if n == 0 {
        return None;
    }
    let start: usize = if s.get_char(0) == '+' { 1 } else { 0 };
    proof {
        if start == 1 {
            assert(s@.drop_first() =~= s@.skip(1));
        } else {
            assert(s@ =~= s@.skip(0));
        }
    }
    if start == n {
        return None;
    }
    let limit: u64 = usize::MAX as u64;
    match parse_digits(s, start, limit) {
        None => None,
        Some(v) => Some(v as usize),
    }
}

/// Parse `true` or `false`, as `str::parse::<bool>` does.
pub fn parse_bool(s: &str) -> (r: Option<bool>)
    ensures
        r == spec_parse_bool(s@),
{
    let given = String::from_str(s);
    if given == String::from_str("true") {
        Some(true)
    } else if given == String::from_str("false") {
        Some(false)
    } else {
        None
    }
}

/// The values of the environment variables the configuration is read from; a
/// variable that is not set is `None`.  `email_smtp_password` is the content
/// of the SMTP password secret, `None` when it cannot be read.
#[derive(Clone, Debug)]
pub struct EnvValues {
    pub database_url: Option<String>,
    pub redis_url: Option<String>,
    pub production: Option<String>,
    pub skip_verify: Option<String>,
    pub backend_url: Option<String>,
    pub frontend_url: Option<String>,
    pub static_url: Option<String>,
    pub email_confirmation_token_lifetime: Option<String>,
    pub password_reset_token_lifetime: Option<String>,
    pub claims_cookie_name: Option<String>,
    pub access_cookie_name: Option<String>,
    pub access_cookie_lifetime_minutes: Option<String>,
    pub email_address: Option<String>,
    pub email_queue_size: Option<String>,
    pub email_smtp_server: Option<String>,
    pub email_smtp_password: Option<String>,
}

/// The configuration of the application, read from the environment.  URLs
/// are kept in the form the `url` crate writes them; lifetimes are in
/// minutes.
#[derive(Clone, Debug)]
pub struct Config {
    pub database_url: String,
    pub redis_url: String,
    pub production: bool,
    pub skip_verify: bool,
    pub backend_url: String,
    pub frontend_url: String,
    pub static_url: String,
    pub email_confirmation_token_lifetime_minutes: i64,
    pub password_reset_token_lifetime_minutes: i64,
    pub claims_cookie_name: String,
    pub access_cookie_name: String,
    pub access_cookie_lifetime_minutes: i64,
    pub email_address: String,
    pub email_queue_size: usize,
    pub email_smtp_server: String,
    pub email_smtp_password: String,
}

/// Why the configuration cannot be read.
#[derive(Clone, Debug)]
pub enum ConfigError {
    /// A required variable is not set.
    Missing(String),
    /// A variable holds a value that cannot be read.
    Invalid(String),
}

/// A configuration error as whether the variable is missing, and its name.
pub open spec fn config_error_view(e: ConfigError) -> (bool, Seq<char>) {
    match e {
        ConfigError::Missing(n) => (true, n@),
        ConfigError::Invalid(n) => (false, n@),
    }
}

/// The value of a variable, or its default when it is not set.
pub open spec fn or_default(v: Option<String>, default: Seq<char>) -> Seq<char> {
    match v {
        Some(s) => s@,
        None => default,
    }
}

/// Whether `lettre` accepts `s` as an email address (`Address::from_str`).
pub uninterp spec fn spec_mail_address(s: Seq<char>) -> bool;

/// Whether `s` parses as an email address with `lettre::Address::from_str`.
/// The result is named; the contract also states what the source shows of
/// every call: an address needs an `@` between its user and its domain.
#[verifier::external_body]
fn is_mail_address(s: &str) -> (r: bool)
    ensures
        r == spec_mail_address(s@),
        !s@.contains('@') ==> !r,
{
    match s.parse::<lettre::Address>() {
        Ok(_) => true,
        Err(_) => false,
    }
}

/// The value of a variable, or its default when it is not set.
pub fn env_or_default(v: &Option<String>, default: &str) -> (r: String)
    ensures
        r@ == or_default(*v, default@),
{
    match v {
        Some(s) => s.clone(),
        None => String::from_str(default),
    }
}

fn required(v: &Option<String>, name: &str) -> (r: Result<String, ConfigError>)
    ensures
        match v {
            Some(s) => r matches Ok(t) && t@ == s@,
            None => r matches Err(e) && config_error_view(e) == (true, name@),
        },
{
    match v {
        Some(s) => Ok(s.clone()),
        None => Err(ConfigError::Missing(String::from_str(name))),
    }
}

fn required_url(v: &Option<String>, name: &str) -> (r: Result<String, ConfigError>)
    ensures
        match v {
            Some(s) => match spec_parse_url(s@) {
                Some(u) => r matches Ok(t) && t@ == u,
                None => r matches Err(e) && config_error_view(e) == (false, name@),
            },
            None => r matches Err(e) && config_error_view(e) == (true, name@),
        },
{
    match v {
        Some(s) => match parse_url(s.as_str()) {
            Some(u) => Ok(u),
            None => Err(ConfigError::Invalid(String::from_str(name))),
        },
        None => Err(ConfigError::Missing(String::from_str(name))),
    }
}

fn bool_or_default(v: &Option<String>, default: &str, name: &str) -> (r: Result<bool, ConfigError>)
    ensures
        match spec_parse_bool(or_default(*v, default@)) {
            Some(b) => r == Ok::<bool, ConfigError>(b),
            None => r matches Err(e) && config_error_view(e) == (false, name@),
        },
{
    let s = env_or_default(v, default);
    match parse_bool(s.as_str()) {
        Some(b) => Ok(b),
        None => Err(ConfigError::Invalid(String::from_str(name))),
    }
}

/// The largest minute count a token lifetime (a `chrono::TimeDelta`, at most
/// `i64::MAX` milliseconds) can hold.
pub const TOKEN_LIFETIME_MINUTES_LIMIT: i64 = 153_722_867_280_912;

/// The largest minute count a cookie lifetime (a `time::Duration`, whose
/// seconds must fit an `i64`) can hold.
pub const COOKIE_LIFETIME_MINUTES_LIMIT: i64 = 153_722_867_280_912_930;

/// Minute counts within `-limit..=limit`.
pub open spec fn minutes_in_range(m: i64, limit: i64) -> bool {
    -limit <= m <= limit
}

/// A variable (or its default) that reads as a minute count within
/// `-limit..=limit`.
pub open spec fn minutes_ok(v: Option<String>, default: Seq<char>, limit: i64) -> bool {
    spec_parse_i64(or_default(v, default)) matches Some(m) && minutes_in_range(m, limit)
}

fn minutes_or_default(v: &Option<String>, default: &str, name: &str, limit: i64) -> (r: Result<i64, ConfigError>)
    requires
        limit >= 0,
    ensures
        minutes_ok(*v, default@, limit) ==> r == Ok::<i64, ConfigError>(
            spec_parse_i64(or_default(*v, default@))->0,
        ),
        !minutes_ok(*v, default@, limit) ==> (r matches Err(e) && config_error_view(e) == (false, name@)),
{
    let s = env_or_default(v, default);
    match parse_i64(s.as_str()) {
        Some(m) => {
            if -limit <= m && m <= limit {
                Ok(m)
            } else {
                Err(ConfigError::Invalid(String::from_str(name)))
            }
        },
        None => Err(ConfigError::Invalid(String::from_str(name))),
    }
}

/// A required URL variable: missing, or present but not a URL.
pub open spec fn url_problem(v: Option<String>, name: Seq<char>) -> Option<(bool, Seq<char>)> {
    match v {
        None => Some((true, name)),
        Some(s) => if spec_parse_url(s@) is None {
            Some((false, name))
        } else {
            None
        },
    }
}

/// The first variable that keeps the configuration from being read, in the order
/// they are read, as whether it is missing and its name; `None` when every
/// variable can be read.
pub open spec fn config_problem(env: EnvValues) -> Option<(bool, Seq<char>)> {
    if env.database_url is None {
        Some((true, "DATABASE_URL"@))
    } else if env.redis_url is None {
        Some((true, "REDIS_URL"@))
    } else if spec_parse_bool(or_default(env.production, "false"@)) is None {
        Some((false, "PRODUCTION"@))
    } else if spec_parse_bool(or_default(env.skip_verify, "true"@)) is None {
        Some((false, "SKIP_VERIFY"@))
    } else if url_problem(env.backend_url, "BACKEND_URL"@) is Some {
        url_problem(env.backend_url, "BACKEND_URL"@)
    } else if url_problem(env.frontend_url, "FRONTEND_URL"@) is Some {
        url_problem(env.frontend_url, "FRONTEND_URL"@)
    } else if url_problem(env.static_url, "STATIC_URL"@) is Some {
        url_problem(env.static_url, "STATIC_URL"@)
    } else if !minutes_ok(env.email_confirmation_token_lifetime, "5"@, TOKEN_LIFETIME_MINUTES_LIMIT) {
        Some((false, "EMAIL_CONFIRMATION_TOKEN_LIFETIME"@))
    } else if !minutes_ok(env.password_reset_token_lifetime, "5"@, TOKEN_LIFETIME_MINUTES_LIMIT) {
        Some((false, "PASSWORD_RESET_TOKEN_LIFETIME"@))
    } else if !minutes_ok(env.access_cookie_lifetime_minutes, "120"@, COOKIE_LIFETIME_MINUTES_LIMIT) {
        Some((false, "ACCESS_COOKIE_LIFETIME_MINUTES"@))
    } else if !spec_mail_address(or_default(env.email_address, "blokmap@gmail.com"@)) {
        Some((false, "EMAIL_ADDRESS"@))
    } else if spec_parse_usize(or_default(env.email_queue_size, "32"@)) is None {
        Some((false, "EMAIL_QUEUE_SIZE"@))
    } else {
        None
    }
}

/// The configuration read from readable variables.
pub open spec fn config_matches(env: EnvValues, s: Config) -> bool {
    &&& s.database_url@ == env.database_url->0@
    &&& s.redis_url@ == env.redis_url->0@
    &&& spec_parse_bool(or_default(env.production, "false"@)) == Some(s.production)
    &&& spec_parse_bool(or_default(env.skip_verify, "true"@)) == Some(s.skip_verify)
    &&& spec_parse_url(env.backend_url->0@) == Some(s.backend_url@)
    &&& spec_parse_url(env.frontend_url->0@) == Some(s.frontend_url@)
    &&& spec_parse_url(env.static_url->0@) == Some(s.static_url@)
    &&& spec_parse_i64(or_default(env.email_confirmation_token_lifetime, "5"@)) == Some(
        s.email_confirmation_token_lifetime_minutes,
    )
    &&& spec_parse_i64(or_default(env.password_reset_token_lifetime, "5"@)) == Some(
        s.password_reset_token_lifetime_minutes,
    )
    &&& s.claims_cookie_name@ == or_default(env.claims_cookie_name, "blokmap_login_claims"@)
    &&& s.access_cookie_name@ == or_default(env.access_cookie_name, "blokmap_access_token"@)
    &&& spec_parse_i64(or_default(env.access_cookie_lifetime_minutes, "120"@)) == Some(
        s.access_cookie_lifetime_minutes,
    )
    &&& s.email_address@ == or_default(env.email_address, "blokmap@gmail.com"@)
    &&& spec_parse_usize(or_default(env.email_queue_size, "32"@)) == Some(s.email_queue_size)
    &&& s.email_smtp_server@ == or_default(env.email_smtp_server, "stub"@)
    &&& s.email_smtp_password@ == or_default(env.email_smtp_password, ""@)
}

impl Config {
    /// The configuration for the given variable values.  `DATABASE_URL`, `REDIS_URL`,
    /// `BACKEND_URL`, `FRONTEND_URL` and `STATIC_URL` are required, the last
    /// three as URLs; the others default to: production `false`, skip
    /// verification `true`, token lifetimes 5 minutes, claims cookie
    /// `blokmap_login_claims`, access cookie `blokmap_access_token` living 120
    /// minutes, sender `blokmap@gmail.com` (which must be an email address), a
    /// mail queue of 32, the `stub` SMTP server and an empty SMTP password.
    /// Token lifetimes and the cookie lifetime must be minute counts their
    /// duration types can hold.  The first variable that cannot be read is
    /// reported.
    pub fn from_env(env: &EnvValues) -> (r: Result<Config, ConfigError>)
        ensures
            r is Ok <==> config_problem(*env) is None,
            r matches Ok(s) ==> config_matches(*env, s),
            r matches Err(e) ==> config_problem(*env) == Some(config_error_view(e)),
    {
        let database_url = match required(&env.database_url, "DATABASE_URL") {
            Ok(v) => v,
            Err(e) => return Err(e),
        };
        let redis_url = match required(&env.redis_url, "REDIS_URL") {
            Ok(v) => v,
            Err(e) => return Err(e),
        };
        let production = match bool_or_default(&env.production, "false", "PRODUCTION") {
            Ok(v) => v,
            Err(e) => return Err(e),
        };
        let skip_verify = match bool_or_default(&env.skip_verify, "true", "SKIP_VERIFY") {
            Ok(v) => v,
            Err(e) => return Err(e),
        };
        let backend_url = match required_url(&env.backend_url, "BACKEND_URL") {
            Ok(v) => v,
            Err(e) => return Err(e),
        };
        let frontend_url = match required_url(&env.frontend_url, "FRONTEND_URL") {
            Ok(v) => v,
            Err(e) => return Err(e),
        };
        let static_url = match required_url(&env.static_url, "STATIC_URL") {
            Ok(v) => v,
            Err(e) => return Err(e),
        };
        let email_confirmation_token_lifetime_minutes = match minutes_or_default(
            &env.email_confirmation_token_lifetime,
            "5",
            "EMAIL_CONFIRMATION_TOKEN_LIFETIME",
            TOKEN_LIFETIME_MINUTES_LIMIT,
        ) {
            Ok(v) => v,
            Err(e) => return Err(e),
        };
        let password_reset_token_lifetime_minutes = match minutes_or_default(
            &env.password_reset_token_lifetime,
            "5",
            "PASSWORD_RESET_TOKEN_LIFETIME",
            TOKEN_LIFETIME_MINUTES_LIMIT,
        ) {
            Ok(v) => v,
            Err(e) => return Err(e),
        };
        let claims_cookie_name = env_or_default(&env.claims_cookie_name, "blokmap_login_claims");
        let access_cookie_name = env_or_default(&env.access_cookie_name, "blokmap_access_token");
        let access_cookie_lifetime_minutes = match minutes_or_default(
            &env.access_cookie_lifetime_minutes,
            "120",
            "ACCESS_COOKIE_LIFETIME_MINUTES",
            COOKIE_LIFETIME_MINUTES_LIMIT,
        ) {
            Ok(v) => v,
            Err(e) => return Err(e),
        };
        let email_address = env_or_default(&env.email_address, "blokmap@gmail.com");
        if !is_mail_address(email_address.as_str()) {
            return Err(ConfigError::Invalid(String::from_str("EMAIL_ADDRESS")));
        }
        let queue = env_or_default(&env.email_queue_size, "32");
        let email_queue_size = match parse_usize(queue.as_str()) {
            Some(v) => v,
            None => return Err(ConfigError::Invalid(String::from_str("EMAIL_QUEUE_SIZE"))),
        };
        let email_smtp_server = env_or_default(&env.email_smtp_server, "stub");
        let email_smtp_password = env_or_default(&env.email_smtp_password, "");
        Ok(Config {
            database_url,
            redis_url,
            production,
            skip_verify,
            backend_url,
            frontend_url,
            static_url,
            email_confirmation_token_lifetime_minutes,
            password_reset_token_lifetime_minutes,
            claims_cookie_name,
            access_cookie_name,
            access_cookie_lifetime_minutes,
            email_address,
            email_queue_size,
            email_smtp_server,
            email_smtp_password,
        })
    }

    /// Whether a stub mailbox is to be created: only for the stub SMTP
    /// server (`stub`).
    pub fn create_stub_mailbox(&self) -> (r: bool)
        ensures
            r == (self.email_smtp_server@ == "stub"@),
    {
        uses_stub_transport(self.email_smtp_server.as_str())
    }
}

} // verus!
