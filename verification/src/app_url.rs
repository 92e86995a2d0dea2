//! The public address of the web application, as links in notifications
//! need it.

use vstd::prelude::*;
use vstd::string::*;

verus! {

/// The domain that is assumed where none is configured.
pub const DEFAULT_DOMAIN: &'static str = "localhost:3000";

/// The pattern whose matches are cut out of the configured domain.
pub const SCHEME_PATTERN: &'static str = "/^(?:https?:\\/\\/)?(?:www\\.)?/i";

/// The environment name under which links use `https`.
pub const SECURE_ENV: &'static str = "development";

/// What the regex engine makes of `haystack` when every match of `pattern`
/// in it is replaced by `replacement`; `None` where it does not accept
/// `pattern`.
pub uninterp spec fn regex_replaced(
    pattern: Seq<char>,
    haystack: Seq<char>,
    replacement: Seq<char>,
) -> Option<Seq<char>>;

/// `regex::Regex::new` on `pattern`, then `Regex::replace_all` on
/// `haystack` with `replacement`. The result is taken on trust to depend on
/// the three texts alone; it is `None` exactly where the pattern is refused.
#[verifier::external_body]
fn replace_all(pattern: &str, haystack: &str, replacement: &str) -> (res: Option<String>)
    ensures
        match regex_replaced(pattern@, haystack@, replacement@) {
            Some(text) => res matches Some(r) && r@ == text,
            None => res is None,
        },
{
    match regex::Regex::new(pattern) {
        Ok(re) => Some(re.replace_all(haystack, replacement).into_owned()),
        Err(_) => None,
    }
}

/// The address under `domain`: `https` in development, `http` elsewhere.
pub open spec fn url_of(domain: Seq<char>, development: bool) -> Seq<char> {
    (if development {
        "https"@
    } else {
        "http"@
    }) + "://"@ + domain
}

/// The configured domain, or the default one.
pub open spec fn domain_or_default(domain: Option<String>) -> Seq<char> {
    match domain {
        Some(d) => d@,
        None => DEFAULT_DOMAIN@,
    }
}

/// Whether the configured environment is the one that uses `https`.
pub open spec fn is_secure_env(env: Option<String>) -> bool {
    match env {
        Some(e) => e@ == SECURE_ENV@,
        None => false,
    }
}

/// Cuts every match of `pattern` out of `text`; `None` where the regex
/// engine refuses the pattern.
pub fn strip_matches(pattern: &str, text: &str) -> (res: Option<String>)
    ensures
        match regex_replaced(pattern@, text@, ""@) {
            Some(bare) => res matches Some(r) && r@ == bare,
            None => res is None,
        },
{
    replace_all(pattern, text, "")
}

/// Puts the scheme in front of a bare domain.
pub fn format_app_url(domain: &str, development: bool) -> (url: String)
    ensures
        url@ == url_of(domain@, development),
{
    let mut url = if development {
        String::from_str("https")
    } else {
        String::from_str("http")
    };
    url.append("://");
    url.append(domain);
    url
}

/// The application's address, from the configured domain and environment
/// name, each absent where it is not set. The domain is first cleaned with
/// `SCHEME_PATTERN`; `None` is returned where the regex engine refuses that
/// pattern.
pub fn get_app_url(domain: Option<String>, env: Option<String>) -> (url: Option<String>)
    ensures
        match regex_replaced(SCHEME_PATTERN@, domain_or_default(domain), ""@) {
            Some(bare) => url matches Some(u) && u@ == url_of(bare, is_secure_env(env)),
            None => url is None,
        },
{
    let domain = match domain {
        Some(d) => d,
        None => String::from_str(DEFAULT_DOMAIN),
    };
    let secure = match env {
        Some(e) => e == String::from_str(SECURE_ENV),
        None => false,
    };
    match strip_matches(SCHEME_PATTERN, domain.as_str()) {
        Some(bare) => Some(format_app_url(bare.as_str(), secure)),
        None => None,
    }
}

} // verus!
