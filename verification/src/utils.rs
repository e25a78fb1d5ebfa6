//! Endpoint address handling: normalizing what the user typed and parsing it
//! with the `url` crate.
use vstd::prelude::*;

use crate::text::{
    chars_have_prefix, chars_to_string, has_prefix, push_chars, push_str_chars, str_to_chars,
    trim_chars, trim_spec,
};

verus! {

/// The normalized form of a typed endpoint: trimmed, and given an `http://`
/// scheme when no `http://` or `https://` scheme is present.
pub open spec fn normalize_url_spec(s: Seq<char>) -> Seq<char> {
    let t = trim_spec(s);
    if has_prefix(t, "http://"@) || has_prefix(t, "https://"@) {
        t
    } else {
        "http://"@ + t
    }
}

/// Normalizes a typed endpoint address.
pub fn normalize_url(s: &str) -> (r: String)
    ensures
        r@ == normalize_url_spec(s@),
{
    let chars = str_to_chars(s);
    let t = trim_chars(&chars);
    if chars_have_prefix(&t, "http://") || chars_have_prefix(&t, "https://") {
        chars_to_string(&t)
    } else {
        let mut out: Vec<char> = Vec::new();
        push_str_chars(&mut out, "http://");
        push_chars(&mut out, &t);
        chars_to_string(&out)
    }
}

/// Whether the `url` crate accepts a string as an absolute URL; a function
/// of the characters alone.
pub uninterp spec fn url_parses(s: Seq<char>) -> bool;

#[verifier::external_type_specification]
#[verifier::external_body]
pub struct ExUrl(url::Url);

/// Relies on `url::Url::parse`: it deterministically either parses its input
/// or rejects it, depending on the input characters alone.
#[verifier::external_body]
fn try_parse_url(s: &str) -> (r: Option<url::Url>)
    ensures
        r is Some <==> url_parses(s@),
{
    url::Url::parse(s).ok()
}

/// The endpoint the client falls back to when the configured one does not
/// parse.
pub open spec fn default_endpoint() -> Seq<char> {
    "http://localhost:11434"@
}

/// The parsed endpoint a typed address resolves to: its normalized form when
/// that parses, else the default endpoint, else nothing.
pub fn resolve_endpoint(raw: &str) -> (r: Option<url::Url>)
    ensures
        r is Some <==> (url_parses(normalize_url_spec(raw@)) || url_parses(default_endpoint())),
{
    let normalized = normalize_url(raw);
    match try_parse_url(normalized.as_str()) {
        Some(u) => Some(u),
        None => try_parse_url("http://localhost:11434"),
    }
}

} // verus!
