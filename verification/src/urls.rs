//! URLs as the `url` crate reads and writes them.

use vstd::prelude::*;

verus! {

/// What `url::Url::parse` makes of `s`: the URL in the form the crate writes
/// it (`Url::as_str`), or `None` when `s` is not a URL.
pub uninterp spec fn spec_parse_url(s: Seq<char>) -> Option<Seq<char>>;

/// The domain (`Url::domain`) of the URL that `s` parses to; `None` when `s`
/// is not a URL or its host is not a domain.
pub uninterp spec fn spec_url_domain(s: Seq<char>) -> Option<Seq<char>>;

/// The URL that `input` names relative to the URL `base` parses to
/// (`Url::join`), in written form; `None` when either cannot be parsed.
pub uninterp spec fn spec_url_join(base: Seq<char>, input: Seq<char>) -> Option<Seq<char>>;

/// Parse a URL with `url::Url::parse` and give it in the form the crate
/// writes it.  The result is named; nothing more is claimed of it.
#[verifier::external_body]
pub(crate) fn parse_url(s: &str) -> (r: Option<String>)
    ensures
        r is Some <==> spec_parse_url(s@) is Some,
        r matches Some(u) ==> spec_parse_url(s@) == Some(u@),
{
    match url::Url::parse(s) {
        Ok(u) => Some(u.as_str().to_string()),
        Err(_) => None,
    }
}

/// The domain of a URL, by `url::Url::domain` on the URL that
/// `url::Url::parse` reads from `s`.  The result is named.
#[verifier::external_body]
pub(crate) fn url_domain(s: &str) -> (r: Option<String>)
    ensures
        r is Some <==> spec_url_domain(s@) is Some,
        r matches Some(d) ==> spec_url_domain(s@) == Some(d@),
{
    match url::Url::parse(s) {
        Ok(u) => match u.domain() {
            Some(d) => Some(d.to_string()),
            None => None,
        },
        Err(_) => None,
    }
}

/// Resolve `input` against the URL read from `base`, by `url::Url::join`,
/// and give the result in written form.  The result is named.
#[verifier::external_body]
pub(crate) fn url_join(base: &str, input: &str) -> (r: Option<String>)
    ensures
        r is Some <==> spec_url_join(base@, input@) is Some,
        r matches Some(u) ==> spec_url_join(base@, input@) == Some(u@),
{
    match url::Url::parse(base) {
        Ok(b) => match b.join(input) {
            Ok(u) => Some(u.as_str().to_string()),
            Err(_) => None,
        },
        Err(_) => None,
    }
}

} // verus!
