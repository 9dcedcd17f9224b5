//! Mails the backend sends: their links and subjects, and how they are
//! delivered.

use vstd::prelude::*;
use vstd::string::StringExecFns;

verus! {

/// How mails are delivered: kept in a mailbox in memory for tests, or sent
/// over SMTP.
#[derive(Clone, Copy, Debug, PartialEq, Eq, Structural)]
pub enum MailTransport {
    Stub,
    Smtp,
}

/// The subject of the mail that confirms an email address.
pub open spec fn confirm_subject() -> Seq<char> {
    "Confirm your email"@
}

/// The subject of the mail that resets a password.
pub open spec fn reset_subject() -> Seq<char> {
    "Reset your password"@
}

/// The subject of the mail that confirms an email address.
pub fn confirm_email_subject() -> (r: &'static str)
    ensures
        r@ == confirm_subject(),
{
    "Confirm your email"
}

/// The subject of the mail that resets a password.
pub fn reset_password_subject() -> (r: &'static str)
    ensures
        r@ == reset_subject(),
{
    "Reset your password"
}

/// The link in the confirmation mail: `{frontend_url}/confirm_email/{token}`.
pub fn confirmation_url(frontend_url: &str, token: &str) -> (r: String)
    ensures
        r@ == frontend_url@ + "/confirm_email/"@ + token@,
{
    let mut s = String::from_str(frontend_url);
    s.append("/confirm_email/");
    s.append(token);
    s
}

/// The link in the password reset mail:
/// `{frontend_url}/reset_password/{token}`.
pub fn reset_url(frontend_url: &str, token: &str) -> (r: String)
    ensures
        r@ == frontend_url@ + "/reset_password/"@ + token@,
{
    let mut s = String::from_str(frontend_url);
    s.append("/reset_password/");
    s.append(token);
    s
}

/// Whether the configured SMTP server names the stub transport (`stub`).
pub fn uses_stub_transport(smtp_server: &str) -> (r: bool)
    ensures
        r == (smtp_server@ == "stub"@),
{
    String::from_str(smtp_server) == String::from_str("stub")
}

/// The transport to deliver mail with: the stub one for the stub SMTP
/// server, SMTP otherwise.  The stub transport needs a stub mailbox, so the
/// stub server without one is left out (a caller tests it first with
/// `uses_stub_transport`).
pub fn choose_transport(smtp_server: &str, has_stub_mailbox: bool) -> (r: MailTransport)
    requires
        smtp_server@ == "stub"@ ==> has_stub_mailbox,
    ensures
        smtp_server@ == "stub"@ ==> r == MailTransport::Stub,
        smtp_server@ != "stub"@ ==> r == MailTransport::Smtp,
{
    if uses_stub_transport(smtp_server) {
        MailTransport::Stub
    } else {
        MailTransport::Smtp
    }
}

} // verus!
