use blokmap::config::{
    env_or_default, parse_bool, parse_i64, parse_usize, Config, ConfigError, EnvValues,
};
use blokmap::mailer::{
    choose_transport, confirm_email_subject, confirmation_url, reset_password_subject,
    reset_url, uses_stub_transport, MailTransport,
};
use blokmap::template::{
    multi_struct_name, parse_attr, parse_variant, plan_variant_templates, variant_enum_name, variant_to_ext,
    AttrError, MetaItem, TemplateVariant,
};

fn some(s: &str) -> Option<String> {
    Some(s.to_string())
}

fn minimal_env() -> EnvValues {
    EnvValues {
        database_url: some("postgres://db"),
        redis_url: some("redis://cache"),
        production: None,
        skip_verify: None,
        backend_url: some("http://localhost:8000"),
        frontend_url: some("http://localhost:3000"),
        static_url: some("http://localhost:8000/static"),
        email_confirmation_token_lifetime: None,
        password_reset_token_lifetime: None,
        claims_cookie_name: None,
        access_cookie_name: None,
        access_cookie_lifetime_minutes: None,
        email_address: None,
        email_queue_size: None,
        email_smtp_server: None,
        email_smtp_password: None,
    }
}

#[test]
fn numbers_parse_like_std() {
    assert_eq!(parse_i64("42"), Some(42));
    assert_eq!(parse_i64("-7"), Some(-7));
    assert_eq!(parse_i64("+7"), Some(7));
    assert_eq!(parse_i64("-9223372036854775808"), Some(i64::MIN));
    assert_eq!(parse_i64("9223372036854775807"), Some(i64::MAX));
    assert_eq!(parse_i64("9223372036854775808"), None);
    assert_eq!(parse_i64(""), None);
    assert_eq!(parse_i64("-"), None);
    assert_eq!(parse_i64("1 2"), None);
    assert_eq!(parse_usize("32"), Some(32));
    assert_eq!(parse_usize("+32"), Some(32));
    assert_eq!(parse_usize("-1"), None);
    assert_eq!(parse_usize("18446744073709551616"), None);
    assert_eq!(parse_bool("true"), Some(true));
    assert_eq!(parse_bool("false"), Some(false));
    assert_eq!(parse_bool("True"), None);
    assert_eq!(parse_bool(""), None);
    for s in ["0", "-0", "+12", "abc", "12a", "007"] {
        assert_eq!(parse_i64(s), s.parse::<i64>().ok());
    }
}

#[test]
fn defaults_fill_in_unset_variables() {
    let s = Config::from_env(&minimal_env()).unwrap();
    assert_eq!(s.database_url, "postgres://db");
    assert_eq!(s.backend_url, "http://localhost:8000/");
    assert_eq!(s.frontend_url, "http://localhost:3000/");
    assert_eq!(s.static_url, "http://localhost:8000/static");
    assert!(!s.production);
    assert!(s.skip_verify);
    assert_eq!(s.email_confirmation_token_lifetime_minutes, 5);
    assert_eq!(s.password_reset_token_lifetime_minutes, 5);
    assert_eq!(s.claims_cookie_name, "blokmap_login_claims");
    assert_eq!(s.access_cookie_name, "blokmap_access_token");
    assert_eq!(s.access_cookie_lifetime_minutes, 120);
    assert_eq!(s.email_address, "blokmap@gmail.com");
    assert_eq!(s.email_queue_size, 32);
    assert_eq!(s.email_smtp_server, "stub");
    assert_eq!(s.email_smtp_password, "");
    assert_eq!(env_or_default(&None, "d"), "d");
    assert_eq!(env_or_default(&some("v"), "d"), "v");
}

#[test]
fn set_variables_override_defaults() {
    let mut env = minimal_env();
    env.production = some("true");
    env.email_queue_size = some("64");
    env.access_cookie_lifetime_minutes = some("-3");
    let s = Config::from_env(&env).unwrap();
    assert!(s.production);
    assert_eq!(s.email_queue_size, 64);
    assert_eq!(s.access_cookie_lifetime_minutes, -3);
}

#[test]
fn missing_and_invalid_variables_are_reported() {
    let mut env = minimal_env();
    env.database_url = None;
    assert!(matches!(Config::from_env(&env), Err(ConfigError::Missing(n)) if n == "DATABASE_URL"));
    let mut env = minimal_env();
    env.static_url = None;
    assert!(matches!(Config::from_env(&env), Err(ConfigError::Missing(n)) if n == "STATIC_URL"));
    let mut env = minimal_env();
    env.production = some("yes");
    assert!(matches!(Config::from_env(&env), Err(ConfigError::Invalid(n)) if n == "PRODUCTION"));
    let mut env = minimal_env();
    env.password_reset_token_lifetime = some("153722867280913");
    assert!(matches!(Config::from_env(&env), Err(ConfigError::Invalid(n)) if n == "PASSWORD_RESET_TOKEN_LIFETIME"));
    let mut env = minimal_env();
    env.frontend_url = some("not a url");
    assert!(matches!(Config::from_env(&env), Err(ConfigError::Invalid(n)) if n == "FRONTEND_URL"));
    let mut env = minimal_env();
    env.frontend_url = some("::");
    env.backend_url = None;
    assert!(matches!(Config::from_env(&env), Err(ConfigError::Missing(n)) if n == "BACKEND_URL"));
    let mut env = minimal_env();
    env.email_address = some("blokmap.gmail.com");
    assert!(matches!(Config::from_env(&env), Err(ConfigError::Invalid(n)) if n == "EMAIL_ADDRESS"));
    let mut env = minimal_env();
    env.email_address = some("team@blokmap.be");
    assert_eq!(Config::from_env(&env).unwrap().email_address, "team@blokmap.be");
    let mut env = minimal_env();
    env.email_queue_size = some("-1");
    assert!(matches!(Config::from_env(&env), Err(ConfigError::Invalid(n)) if n == "EMAIL_QUEUE_SIZE"));
}

#[test]
fn mail_links_and_subjects() {
    assert_eq!(confirmation_url("http://localhost:3000", "abc"), "http://localhost:3000/confirm_email/abc");
    assert_eq!(reset_url("https://blokmap.be", "t0k"), "https://blokmap.be/reset_password/t0k");
    assert_eq!(confirm_email_subject(), "Confirm your email");
    assert_eq!(reset_password_subject(), "Reset your password");
}

#[test]
fn stub_transport_needs_a_mailbox() {
    assert!(uses_stub_transport("stub"));
    assert!(!uses_stub_transport("smtp.gmail.com"));
    let stub = Config::from_env(&minimal_env()).unwrap();
    assert!(stub.create_stub_mailbox());
    let mut env = minimal_env();
    env.email_smtp_server = some("smtp.gmail.com");
    assert!(!Config::from_env(&env).unwrap().create_stub_mailbox());
    assert_eq!(choose_transport("stub", true), MailTransport::Stub);
    assert_eq!(choose_transport("smtp.gmail.com", false), MailTransport::Smtp);
    assert_eq!(choose_transport("smtp.gmail.com", true), MailTransport::Smtp);
    // The stub server without a stub mailbox is what the caller tests first.
    assert!(uses_stub_transport("stub"));
    assert!(!uses_stub_transport("smtp.gmail.com"));
}

#[test]
fn template_variants_and_paths() {
    assert_eq!(variant_to_ext("email"), "html");
    assert_eq!(variant_to_ext("markdown"), "md");
    assert_eq!(variant_to_ext("text"), "txt");
    assert_eq!(parse_variant("markdown"), Ok(TemplateVariant::Markdown));
    assert_eq!(parse_variant("pdf"), Err(AttrError::UnknownVariant));
    assert_eq!(TemplateVariant::Email.template_path("confirm_email"), "confirm_email/email.html");
    assert_eq!(TemplateVariant::Text.template_path("reset"), "reset/text.txt");
    assert_eq!(TemplateVariant::Email.enum_variant_name(), "Email");
    assert_eq!(TemplateVariant::Markdown.enum_variant_name(), "Markdown");
    assert_eq!(multi_struct_name("ConfirmEmail"), "ConfirmEmailMultiTemplate");
    assert_eq!(variant_enum_name("ConfirmEmail"), "ConfirmEmailTemplate");
    assert_eq!(AttrError::UnknownVariant.message(), "unknown variant");
}

#[test]
fn multi_template_attributes_are_read_in_order() {
    let items = vec![
        MetaItem::Name("first".to_string()),
        MetaItem::Variants(vec!["email".to_string(), "text".to_string()]),
        MetaItem::Name("confirm_email".to_string()),
        MetaItem::Variants(vec!["markdown".to_string()]),
    ];
    let attr = parse_attr(true, &items).unwrap();
    assert_eq!(attr.name, "confirm_email");
    assert_eq!(attr.variants, vec![TemplateVariant::Email, TemplateVariant::Text, TemplateVariant::Markdown]);
    assert!(matches!(parse_attr(false, &items), Err(AttrError::ExpectedMultiTemplate)));
    let unknown = vec![MetaItem::Variants(vec!["email".to_string(), "pdf".to_string()]), MetaItem::Other("x".to_string())];
    assert!(matches!(parse_attr(true, &unknown), Err(AttrError::UnknownVariant)));
    let other = vec![MetaItem::Other("path".to_string()), MetaItem::Variants(vec!["pdf".to_string()])];
    assert!(matches!(parse_attr(true, &other), Err(AttrError::UnrecognizedAttribute)));
    let empty = parse_attr(true, &Vec::new()).unwrap();
    assert_eq!(empty.name, "");
    assert!(empty.variants.is_empty());
}

#[test]
fn derive_plans_structs_and_enums_per_variant() {
    let attr = Some((
        true,
        vec![
            MetaItem::Name("confirm_email".to_string()),
            MetaItem::Variants(vec!["email".to_string(), "text".to_string()]),
        ],
    ));
    let t = plan_variant_templates("ConfirmEmail", &attr).unwrap();
    assert_eq!(t.multi_struct_name, "ConfirmEmailMultiTemplate");
    assert_eq!(t.enum_name, "ConfirmEmailTemplate");
    assert_eq!(t.field_names, vec!["email".to_string(), "text".to_string()]);
    assert_eq!(
        t.variants,
        vec![
            ("Email".to_string(), "confirm_email/email.html".to_string()),
            ("Text".to_string(), "confirm_email/text.txt".to_string()),
        ]
    );
    assert!(matches!(plan_variant_templates("X", &None), Err(AttrError::MissingAttribute)));
    assert_eq!(AttrError::MissingAttribute.message(), "missing multi_template attribute");
    assert!(matches!(plan_variant_templates("X", &Some((false, vec![]))), Err(AttrError::ExpectedMultiTemplate)));
    let bad = Some((true, vec![MetaItem::Other("nme".to_string())]));
    assert!(matches!(plan_variant_templates("X", &bad), Err(AttrError::UnrecognizedAttribute)));
}
