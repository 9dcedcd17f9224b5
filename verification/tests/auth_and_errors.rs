use blokmap::auth::{
    check_email_token_expiry, check_password, password_check_result, check_sso_callback, check_sso_provider, confirms_on_register, may_manage_profile,
    pending_email_changed, make_cookie, sso_login_cookies, sso_login_setup,
    sso_success_redirect, validation_error, FieldIssues, OAuthError, OAuthResponse, PasswordResetData,
    RegisterRequest, SameSite, SsoSetupError, ValidationIssue,
};
use argon2::password_hash::{PasswordHasher, SaltString};
use blokmap::error::{DatabaseFailure, Error, LoginError, TokenError};
use blokmap::time::{DateTime, TimeOfDay};

fn register(username: &str, password: &str, email: &str) -> RegisterRequest {
    RegisterRequest { username: username.to_string(), password: password.to_string(), email: email.to_string() }
}

fn codes(fields: &[FieldIssues]) -> Vec<(String, Vec<String>)> {
    fields
        .iter()
        .map(|f| (f.field.clone(), f.issues.iter().map(|i| i.code.clone()).collect()))
        .collect()
}

#[test]
fn valid_registration_passes() {
    assert!(register("alice", "password1", "alice@example.com").validate().is_ok());
    assert!(register("a-b_c9", "12345678", "x@y.be").validate().is_ok());
}

#[test]
fn username_must_start_with_a_letter() {
    let err = register("9lives", "password1", "cat@example.com").validate().unwrap_err();
    assert_eq!(codes(&err), vec![("username".to_string(), vec!["username-regex".to_string()])]);
    let err = register("bad name", "password1", "cat@example.com").validate().unwrap_err();
    assert_eq!(codes(&err), vec![("username".to_string(), vec!["username-regex".to_string()])]);
}

#[test]
fn username_length_is_checked_after_the_pattern() {
    let err = register("a", "password1", "a@example.com").validate().unwrap_err();
    assert_eq!(codes(&err), vec![("username".to_string(), vec!["username-length".to_string()])]);
    let long = "a".repeat(33);
    let err = register(&long, "password1", "a@example.com").validate().unwrap_err();
    assert_eq!(codes(&err), vec![("username".to_string(), vec!["username-length".to_string()])]);
    assert!(register(&"a".repeat(32), "password1", "a@example.com").validate().is_ok());
    let err = register("", "password1", "a@example.com").validate().unwrap_err();
    assert_eq!(
        codes(&err),
        vec![("username".to_string(), vec!["username-regex".to_string(), "username-length".to_string()])]
    );
}

#[test]
fn every_broken_rule_is_listed_in_field_order() {
    let err = register("_x", "short", "not-an-email").validate().unwrap_err();
    assert_eq!(
        codes(&err),
        vec![
            ("username".to_string(), vec!["username-regex".to_string()]),
            ("password".to_string(), vec!["password-length".to_string()]),
            ("email".to_string(), vec!["email".to_string()]),
        ]
    );
    assert_eq!(err[1].issues[0].message, "password must be at least 8 characters long");
    assert_eq!(err[2].issues[0].message, "invalid email");
}

#[test]
fn empty_email_is_refused() {
    let err = register("alice", "password1", "").validate().unwrap_err();
    assert_eq!(codes(&err), vec![("email".to_string(), vec!["email".to_string()])]);
}

#[test]
fn password_reset_needs_sixteen_characters() {
    let short = PasswordResetData { token: "t".to_string(), password: "fifteen chars!!".to_string() };
    let err = short.validate().unwrap_err();
    assert_eq!(codes(&err), vec![("password".to_string(), vec!["password-length".to_string()])]);
    assert_eq!(err[0].issues[0].message, "password must be at least 16 characters long");
    let ok = PasswordResetData { token: "t".to_string(), password: "sixteen chars!!!".to_string() };
    assert!(ok.validate().is_ok());
}

#[test]
fn validation_error_joins_messages() {
    let fields = vec![
        FieldIssues {
            field: "username".to_string(),
            issues: vec![
                ValidationIssue { code: "a".to_string(), message: "first".to_string() },
                ValidationIssue { code: "b".to_string(), message: "second".to_string() },
            ],
        },
        FieldIssues {
            field: "email".to_string(),
            issues: vec![ValidationIssue { code: "c".to_string(), message: "third".to_string() }],
        },
    ];
    match validation_error(&fields) {
        Error::ValidationError(m) => assert_eq!(m, "first\nsecond\nthird"),
        other => panic!("unexpected {:?}", other),
    }
    match validation_error(&Vec::new()) {
        Error::ValidationError(m) => assert_eq!(m, ""),
        other => panic!("unexpected {:?}", other),
    }
}

#[test]
fn only_google_is_a_provider() {
    assert!(check_sso_provider("google").is_ok());
    match check_sso_provider("github") {
        Err(OAuthError::UnknownProvider(p)) => assert_eq!(p, "github"),
        other => panic!("unexpected {:?}", other),
    }
    assert!(check_sso_provider("Google").is_err());
}

#[test]
fn sso_callback_checks_cookies_and_state() {
    let response = OAuthResponse { code: "code".to_string(), state: "csrf".to_string() };
    assert!(matches!(check_sso_callback(None, Some("n"), &response), Err(OAuthError::MissingCSRFTokenCookie)));
    assert!(matches!(check_sso_callback(Some("csrf"), None, &response), Err(OAuthError::MissingNonceCookie)));
    assert!(matches!(check_sso_callback(Some("other"), Some("n"), &response), Err(OAuthError::InvalidCSRFToken)));
    assert_eq!(check_sso_callback(Some("csrf"), Some("nonce"), &response).unwrap(), "nonce");
}

#[test]
fn sso_cookies_are_lax_secure_and_http_only() {
    let c = make_cookie("csrf_token".to_string(), "v".to_string(), "blokmap.be".to_string(), 600);
    assert_eq!(c.name, "csrf_token");
    assert_eq!(c.value, "v");
    assert_eq!(c.domain, "blokmap.be");
    assert_eq!(c.max_age_seconds, 600);
    assert!(c.http_only);
    assert!(c.secure);
    assert_eq!(c.same_site, SameSite::Lax);
    assert_eq!(c.path, "/");
}

#[test]
fn errors_have_status_codes() {
    assert_eq!(Error::Duplicate("x".to_string()).status_code(), 409);
    assert_eq!(Error::InternalServerError.status_code(), 500);
    assert_eq!(Error::NotFound.status_code(), 404);
    assert_eq!(Error::LoginError(LoginError::InvalidPassword).status_code(), 403);
    assert_eq!(Error::TokenError(TokenError::ExpiredEmailToken).status_code(), 403);
    assert_eq!(Error::ValidationError("v".to_string()).status_code(), 422);
}

#[test]
fn errors_have_messages() {
    assert_eq!(Error::InternalServerError.message(), "internal server error");
    assert_eq!(Error::NotFound.message(), "not found");
    assert_eq!(
        Error::LoginError(LoginError::UnknownUsername("bob".to_string())).message(),
        "no profile with username 'bob' was found"
    );
    assert_eq!(
        Error::LoginError(LoginError::UnknownEmail("b@o.b".to_string())).message(),
        "no profile with email 'b@o.b' was found"
    );
    assert_eq!(
        Error::LoginError(LoginError::PendingEmailVerification).message(),
        "profile is still awaiting email verification"
    );
    assert_eq!(Error::TokenError(TokenError::ExpiredEmailToken).message(), "email confirmation token has expired");
    assert_eq!(Error::Duplicate("dup".to_string()).response(), (409, "dup".to_string()));
}

#[test]
fn unique_violations_name_the_column() {
    match Error::from_unique_violation("profile_username_key") {
        Error::Duplicate(m) => assert_eq!(m, "username is already in use"),
        other => panic!("unexpected {:?}", other),
    }
    match Error::from_unique_violation("profile_email") {
        Error::Duplicate(m) => assert_eq!(m, "email is already in use"),
        other => panic!("unexpected {:?}", other),
    }
    match Error::from_unique_violation("profile_") {
        Error::Duplicate(m) => assert_eq!(m, " is already in use"),
        other => panic!("unexpected {:?}", other),
    }
    assert!(matches!(Error::from_unique_violation("nounderscore"), Error::InternalServerError));
}

#[test]
fn hash_errors_and_conversions() {
    assert!(matches!(Error::from_hash_error(true), Error::LoginError(LoginError::InvalidPassword)));
    assert!(matches!(Error::from_hash_error(false), Error::InternalServerError));
    assert!(matches!(Error::from_login(LoginError::InvalidPassword), Error::LoginError(LoginError::InvalidPassword)));
    assert!(matches!(
        Error::from_token(TokenError::ExpiredEmailToken),
        Error::TokenError(TokenError::ExpiredEmailToken)
    ));
}

#[test]
fn validation_messages_are_joined_by_newlines() {
    let fields = vec![vec!["a".to_string(), "b".to_string()], vec![], vec!["c".to_string()]];
    match Error::from_validation_messages(&fields) {
        Error::ValidationError(m) => assert_eq!(m, "a\nb\n\nc"),
        other => panic!("unexpected {:?}", other),
    }
}

#[test]
fn sso_login_is_set_up_from_the_backend_url() {
    let l = sso_login_setup("google", "http://localhost:8000/").unwrap();
    assert_eq!(l.cookie_domain, "localhost");
    assert_eq!(l.callback_url, "http://localhost:8000/auth/sso/callback");
    let l = sso_login_setup("google", "https://api.blokmap.be/v1").unwrap();
    assert_eq!(l.cookie_domain, "api.blokmap.be");
    assert_eq!(l.callback_url, "https://api.blokmap.be/auth/sso/callback");
    assert!(matches!(sso_login_setup("google", "http://127.0.0.1:8000/"), Err(SsoSetupError::NoBackendDomain)));
    assert!(matches!(sso_login_setup("google", "not a url"), Err(SsoSetupError::NoBackendDomain)));
    match sso_login_setup("facebook", "http://localhost:8000/") {
        Err(SsoSetupError::OAuth(OAuthError::UnknownProvider(p))) => assert_eq!(p, "facebook"),
        other => panic!("unexpected {:?}", other),
    }
}

#[test]
fn sso_cookies_and_redirect() {
    let (csrf, nonce) = sso_login_cookies("localhost".to_string(), "state".to_string(), "n0nce".to_string());
    assert_eq!((csrf.name.as_str(), csrf.value.as_str()), ("csrf-token", "state"));
    assert_eq!((nonce.name.as_str(), nonce.value.as_str()), ("nonce-cookie", "n0nce"));
    assert_eq!(csrf.domain, "localhost");
    assert_eq!(nonce.max_age_seconds, 120);
    assert_eq!(csrf.same_site, SameSite::Lax);
    assert_eq!(sso_success_redirect("http://localhost:3000/").unwrap(), "http://localhost:3000/auth/sso");
    assert!(sso_success_redirect("nope").is_none());
}

#[test]
fn registration_confirms_only_outside_production_when_skipping() {
    assert!(confirms_on_register(false, true));
    assert!(!confirms_on_register(true, true));
    assert!(!confirms_on_register(false, false));
    assert!(!confirms_on_register(true, false));
}

#[test]
fn expired_email_tokens_are_refused() {
    let t = |days: i32, secs: u32| DateTime { days, time: TimeOfDay::new(secs, 0).unwrap() };
    assert!(check_email_token_expiry(&t(10, 100), &t(10, 100)).is_ok());
    assert!(check_email_token_expiry(&t(10, 99), &t(10, 100)).is_ok());
    assert!(check_email_token_expiry(&t(9, 86_399), &t(10, 0)).is_ok());
    assert!(matches!(
        check_email_token_expiry(&t(10, 101), &t(10, 100)),
        Err(Error::TokenError(TokenError::ExpiredEmailToken))
    ));
    assert!(check_email_token_expiry(&t(11, 0), &t(10, 86_399)).is_err());
}

#[test]
fn database_failures_become_answers() {
    assert!(matches!(Error::from_database_failure(&DatabaseFailure::NotFound), Error::NotFound));
    assert!(matches!(Error::from_database_failure(&DatabaseFailure::Other), Error::InternalServerError));
    match Error::from_database_failure(&DatabaseFailure::UniqueViolation("location_name_key".to_string())) {
        Error::Duplicate(m) => assert_eq!(m, "name is already in use"),
        other => panic!("unexpected {:?}", other),
    }
    assert!(matches!(
        Error::from_database_failure(&DatabaseFailure::UniqueViolation("pkey".to_string())),
        Error::InternalServerError
    ));
}

#[test]
fn only_admins_manage_other_profiles() {
    assert!(may_manage_profile(false, 4, 4));
    assert!(!may_manage_profile(false, 4, 5));
    assert!(may_manage_profile(true, 4, 5));
}

#[test]
fn a_new_pending_email_needs_confirmation() {
    let a = Some("a@b.c".to_string());
    let b = Some("d@e.f".to_string());
    assert!(!pending_email_changed(&a, &a.clone()));
    assert!(pending_email_changed(&a, &b));
    assert!(pending_email_changed(&None, &a));
    assert!(pending_email_changed(&a, &None));
    assert!(!pending_email_changed(&None, &None));
}

fn stored_hash(password: &str) -> String {
    let salt = SaltString::from_b64("c29tZXNhbHRzb21lc2FsdA").unwrap();
    argon2::Argon2::default().hash_password(password.as_bytes(), &salt).unwrap().to_string()
}

#[test]
fn passwords_are_checked_against_their_hash() {
    let hash = stored_hash("correct horse");
    assert!(check_password("correct horse", &hash).is_ok());
    assert!(matches!(
        check_password("wrong horse", &hash),
        Err(Error::LoginError(LoginError::InvalidPassword))
    ));
    assert!(matches!(check_password("correct horse", "not a hash"), Err(Error::InternalServerError)));
    assert!(password_check_result(Some(true)).is_ok());
    assert!(matches!(password_check_result(Some(false)), Err(Error::LoginError(LoginError::InvalidPassword))));
    assert!(matches!(password_check_result(None), Err(Error::InternalServerError)));
}
