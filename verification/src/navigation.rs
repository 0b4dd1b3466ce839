//! Admission of model-authored navigation targets: absolute `http` and
//! `https` URLs within the navigation bound, parsed by the `url` crate.

use vstd::prelude::*;

use crate::browser::{BrowserError, BrowserResult, ExecutionState, MAX_URL_BYTES};
use crate::text::{byte_len, text_equals};

verus! {

/// `url::ParseError`, the refusal of `url::Url::parse`, carried opaquely.
#[verifier::external_type_specification]
#[verifier::external_body]
pub struct ExUrlParseError(url::ParseError);

/// The serialization and the scheme of the URL that `url::Url::parse` yields
/// for `input`, or `None` where it refuses `input`.
pub uninterp spec fn url_parse_result(input: Seq<char>) -> Option<(Seq<char>, Seq<char>)>;

/// A parsed absolute URL, held as its serialization and its scheme.
#[derive(Debug, Clone, PartialEq, Eq)]
pub struct NavigationUrl {
    pub href: String,
    pub scheme: String,
}

/// Calls `url::Url::parse` and hands out the parsed URL's serialization
/// (`Url::as_str`) and scheme (`Url::scheme`). The contract claims only that
/// the outcome is a function of `value`, named by [`url_parse_result`].
#[verifier::external_body]
fn parse_absolute_url(value: &str) -> (r: Result<NavigationUrl, url::ParseError>)
    ensures
        match r {
            Ok(u) => url_parse_result(value@) == Some((u.href@, u.scheme@)),
            Err(_) => url_parse_result(value@) is None,
        },
{
    match url::Url::parse(value) {
        Ok(url) => Ok(NavigationUrl { href: url.as_str().to_string(), scheme: url.scheme().to_string() }),
        Err(e) => Err(e),
    }
}

/// A navigable scheme.
pub open spec fn is_navigable_scheme(scheme: Seq<char>) -> bool {
    scheme == "http"@ || scheme == "https"@
}

/// Exactly two schemes are navigable: the texts `http` and `https`; every
/// other scheme (`about`, `file`, `javascript`, `data`, ...) is not.
pub proof fn lemma_navigable_schemes_are_http_and_https(scheme: Seq<char>)
    ensures
        is_navigable_scheme(scheme) <==> (scheme == "http"@ || scheme == "https"@),
        scheme != "http"@ && scheme != "https"@ ==> !is_navigable_scheme(scheme),
{
}

/// `e` is a `not_started` failure of the given kind and message.
pub open spec fn is_not_started(e: BrowserError, kind: Seq<char>, message: Seq<char>) -> bool {
    &&& e.kind@ == kind
    &&& e.message@ == message
    &&& e.execution_state == ExecutionState::NotStarted
    &&& e.recovery_action is None
}

/// Admits a parsed URL whose scheme is `http` or `https`; refuses any other
/// scheme before any effect.
pub fn admit_navigation_scheme(url: NavigationUrl) -> (r: BrowserResult<NavigationUrl>)
    ensures
        r is Ok <==> (url.scheme@ == "http"@ || url.scheme@ == "https"@),
        is_navigable_scheme(url.scheme@) ==> r == Ok::<NavigationUrl, BrowserError>(url),
        !is_navigable_scheme(url.scheme@) ==> r is Err && is_not_started(
            r->Err_0,
            "unsupported_url_scheme"@,
            "Browser navigation permits only http and https"@,
        ),
{
    if text_equals(url.scheme.as_str(), "http") || text_equals(url.scheme.as_str(), "https") {
        Ok(url)
    } else {
        Err(
            BrowserError::not_started(
                "unsupported_url_scheme",
                "Browser navigation permits only http and https",
            ),
        )
    }
}

/// Admits a model-authored navigation target: at most `MAX_URL_BYTES` bytes,
/// an absolute URL, with scheme `http` or `https`.
pub fn validate_navigation_url(value: &str) -> (r: BrowserResult<NavigationUrl>)
    ensures
        vstd::utf8::encode_utf8(value@).len() > MAX_URL_BYTES ==> r is Err && is_not_started(
            r->Err_0,
            "invalid_url"@,
            "URL exceeds the Browser navigation bound"@,
        ),
        vstd::utf8::encode_utf8(value@).len() <= MAX_URL_BYTES ==> match url_parse_result(value@) {
            None => r is Err && is_not_started(
                r->Err_0,
                "invalid_url"@,
                "navigation requires an absolute http/https URL"@,
            ),
            Some((href, scheme)) => (r is Ok <==> (scheme == "http"@ || scheme == "https"@)) && if is_navigable_scheme(scheme) {
                r is Ok && r->Ok_0.href@ == href && r->Ok_0.scheme@ == scheme
            } else {
                r is Err && is_not_started(
                    r->Err_0,
                    "unsupported_url_scheme"@,
                    "Browser navigation permits only http and https"@,
                )
            },
        },
{
    if byte_len(value) > MAX_URL_BYTES {
        return Err(
            BrowserError::not_started("invalid_url", "URL exceeds the Browser navigation bound"),
        );
    }
    match parse_absolute_url(value) {
        Err(_) => Err(
            BrowserError::not_started(
                "invalid_url",
                "navigation requires an absolute http/https URL",
            ),
        ),
        Ok(url) => admit_navigation_scheme(url),
    }
}

} // verus!
