//! Request headers.

use crate::text::{ascii_lower, same_ignoring_case, trim, trimmed, equal_ignoring_case};
use axum::http::{HeaderMap, HeaderValue};
use vstd::prelude::*;

verus! {

/// The header map of the `http` crate: a multimap from header names to values.
#[verifier::external_type_specification]
#[verifier::external_body]
#[verifier::reject_recursive_types(T)]
pub struct ExHeaderMap<T>(axum::http::HeaderMap<T>);

/// A header value of the `http` crate.
#[verifier::external_type_specification]
#[verifier::external_body]
pub struct ExHeaderValue(axum::http::HeaderValue);

/// What a header map holds, as far as it can be read as text: for a header name
/// in lower case, the first value sent under it, where that value is made of
/// visible ASCII.
pub uninterp spec fn header_texts(h: HeaderMap<HeaderValue>) -> Map<Seq<char>, Seq<char>>;

pub open spec fn lower_text(s: Seq<char>) -> Seq<char> {
    s.map_values(|c: char| ascii_lower(c))
}

/// The value of the header `name`, whatever the case it is written in.
pub open spec fn header(h: HeaderMap<HeaderValue>, name: Seq<char>) -> Option<Seq<char>> {
    if header_texts(h).contains_key(lower_text(name)) {
        Some(header_texts(h)[lower_text(name)])
    } else {
        None
    }
}

/// `HeaderMap::get`, which matches names without regard to case and gives the
/// first value, then `HeaderValue::to_str`, which fails on a value with bytes
/// other than visible ASCII.
#[verifier::external_body]
fn get_text(h: &HeaderMap<HeaderValue>, name: &str) -> (r: Option<String>)
    ensures
        match r {
            Some(v) => header_texts(*h).contains_key(lower_text(name@))
                && header_texts(*h)[lower_text(name@)] == v@,
            None => !header_texts(*h).contains_key(lower_text(name@)),
        },
{
    h.get(name).and_then(|v| v.to_str().ok()).map(|s| s.to_string())
}

/// The value of the header `name`.
pub fn header_text(h: &HeaderMap<HeaderValue>, name: &str) -> (r: Option<String>)
    ensures
        match r {
            Some(v) => header(*h, name@) == Some(v@),
            None => header(*h, name@) is None,
        },
{
    get_text(h, name)
}

/// The value of the header `name` without the white space around it; a blank
/// value counts as absent.
pub open spec fn stated_header(h: HeaderMap<HeaderValue>, name: Seq<char>) -> Option<Seq<char>> {
    match header(h, name) {
        Some(v) => if trimmed(v).len() > 0 {
            Some(trimmed(v))
        } else {
            None
        },
        None => None,
    }
}

pub fn header_str(h: &HeaderMap<HeaderValue>, name: &str) -> (r: Option<String>)
    ensures
        match r {
            Some(v) => stated_header(*h, name@) == Some(v@),
            None => stated_header(*h, name@) is None,
        },
{
    match get_text(h, name) {
        Some(v) => {
            let t = trim(v.as_str());
            if t.is_empty() {
                None
            } else {
                Some(t.to_owned())
            }
        },
        None => None,
    }
}

/// Whether the header `name` is set to the word `true`, in any case.
pub open spec fn flagged(h: HeaderMap<HeaderValue>, name: Seq<char>) -> bool {
    header(h, name) matches Some(v) && equal_ignoring_case(trimmed(v), "true"@)
}

pub fn is_flagged(h: &HeaderMap<HeaderValue>, name: &str) -> (r: bool)
    ensures
        r == flagged(*h, name@),
{
    match get_text(h, name) {
        Some(v) => same_ignoring_case(trim(v.as_str()), "true"),
        None => false,
    }
}

/// A header is found whatever the case of its name; one that is blank states nothing, and a
/// flag is raised by the word alone, in any case.
pub proof fn headers_are_found_in_any_case(h: HeaderMap<HeaderValue>, a: Seq<char>, b: Seq<char>, v: Seq<char>)
    ensures
        equal_ignoring_case(a, b) ==> header(h, a) == header(h, b),
        header(h, a) is None ==> stated_header(h, a) is None && !flagged(h, a),
        header(h, a) == Some(v) && trimmed(v).len() > 0 ==> stated_header(h, a) == Some(trimmed(v)),
        header(h, a) == Some(v) && trimmed(v).len() == 0 ==> stated_header(h, a) is None,
        header(h, a) == Some(v) ==> (flagged(h, a) <==> equal_ignoring_case(trimmed(v), "true"@)),
{
    if equal_ignoring_case(a, b) {
        assert(lower_text(a) =~= lower_text(b));
    }
}

} // verus!
