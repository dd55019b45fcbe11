//! Request targets and URL resolution.
//!
//! An inbound request target is either origin-form (path and query only) or
//! absolute-form (scheme and authority included). A snapshot's URL is always
//! absolute: an origin-form target is resolved against `http://localhost`
//! before parsing, and a string that does not parse as a URL fails the
//! capture instead of crashing the server.

use vstd::prelude::*;
use vstd::string::StringExecFns;

verus! {

/// The two forms an inbound request target can take.
pub enum Target {
    /// Path and query only, no scheme or authority (`/a/b?x=1`).
    Origin(String),
    /// Already carries scheme and authority (`http://host/a/b?x=1`).
    Absolute(String),
}

/// What `url::Url::parse` yields for a given input: `None` when the input
/// is not a valid absolute URL, otherwise the serialization of the parsed
/// URL.
pub uninterp spec fn url_parse(s: Seq<char>) -> Option<Seq<char>>;

/// Relies on url::Url::parse and the url crate's `From<Url> for String`
/// (which hands out the parsed URL's serialization): success and result
/// depend on the input characters alone.
#[verifier::external_body]
fn parse_url(s: &str) -> (r: Option<String>)
    ensures
        r is Some <==> url_parse(s@) is Some,
        r matches Some(u) ==> url_parse(s@) == Some(u@),
{
    match url::Url::parse(s) {
        Ok(u) => Some(String::from(u)),
        Err(_) => None,
    }
}

/// The absolute string a target stands for, before URL parsing: an
/// origin-form target is prefixed with `http://localhost`.
pub open spec fn resolved_input(t: Target) -> Seq<char> {
    match t {
        Target::Origin(path) => "http://localhost"@ + path@,
        Target::Absolute(s) => s@,
    }
}

/// The URL a target resolves to: its resolved input, parsed and
/// reserialized; `None` when that string is not a valid URL.
pub open spec fn resolved_url(t: Target) -> Option<Seq<char>> {
    url_parse(resolved_input(t))
}

/// Resolve a request target to the serialization of an absolute URL, or
/// `None` when no valid URL can be formed from it.
pub fn resolve(t: Target) -> (r: Option<String>)
    ensures
        r is Some <==> resolved_url(t) is Some,
        r matches Some(u) ==> resolved_url(t) == Some(u@),
{
    match t {
        Target::Absolute(s) => parse_url(s.as_str()),
        Target::Origin(path) => {
            let mut input = String::new();
            input.append("http://localhost");
            input.append(path.as_str());
            parse_url(input.as_str())
        },
    }
}

} // verus!
