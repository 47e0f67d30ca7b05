//! The headers of a request.
use axum::http::{HeaderMap, HeaderValue};
use vstd::prelude::*;

verus! {

/// `axum::http::HeaderMap`, carried as it is; `header_values` says what it holds.
#[verifier::external_type_specification]
#[verifier::external_body]
#[verifier::reject_recursive_types(T)]
pub struct ExHeaderMap<T>(axum::http::HeaderMap<T>);

/// `axum::http::HeaderValue`, carried as it is; `header_bytes` says what it holds.
#[verifier::external_type_specification]
#[verifier::external_body]
pub struct ExHeaderValue(axum::http::HeaderValue);

/// For each name of a header, in small letters, the bytes of the first value under it.
pub uninterp spec fn header_values(headers: HeaderMap<HeaderValue>) -> Map<Seq<char>, Seq<u8>>;

/// The bytes of the value of a header.
pub uninterp spec fn header_bytes(value: HeaderValue) -> Seq<u8>;

/// A name of a header, in small letters.
pub open spec fn is_header_name(name: Seq<char>) -> bool {
    &&& 0 < name.len() <= 64
    &&& forall|i: int|
        0 <= i < name.len() ==> ('a' <= #[trigger] name[i] <= 'z' || name[i] == '-')
}

/// Every byte is a visible character of ASCII, a blank or a tabulator.
pub open spec fn all_visible(bytes: Seq<u8>) -> bool {
    forall|i: int| 0 <= i < bytes.len() ==> (32 <= #[trigger] bytes[i] < 127 || bytes[i] == 9)
}

/// The bytes as characters.
pub open spec fn ascii_text(bytes: Seq<u8>) -> Seq<char> {
    bytes.map_values(|b: u8| b as char)
}

/// `HeaderMap::get` by a name in small letters: the first value under the name.
#[verifier::external_body]
fn first_value<'a>(headers: &'a HeaderMap<HeaderValue>, name: &str) -> (r: Option<&'a HeaderValue>)
    requires
        is_header_name(name@),
    ensures
        r is Some <==> header_values(*headers).contains_key(name@),
        r matches Some(v) ==> header_bytes(*v) == header_values(*headers)[name@],
{
    headers.get(name)
}

/// `HeaderValue::to_str`: the value as text, where all its bytes are visible.
#[verifier::external_body]
fn visible_text(value: &HeaderValue) -> (r: Option<&str>)
    ensures
        r is Some <==> all_visible(header_bytes(*value)),
        r matches Some(s) ==> s@ == ascii_text(header_bytes(*value)),
{
    value.to_str().ok()
}

/// There is a header of this name.
pub open spec fn has_header(headers: HeaderMap<HeaderValue>, name: Seq<char>) -> bool {
    header_values(headers).contains_key(name)
}

/// The text of the header of this name; none where there is no such header, or its
/// value is not visible text.
pub open spec fn header_text(headers: HeaderMap<HeaderValue>, name: Seq<char>) -> Option<Seq<char>> {
    if has_header(headers, name) && all_visible(header_values(headers)[name]) {
        Some(ascii_text(header_values(headers)[name]))
    } else {
        None
    }
}

/// What an optional text is.
pub open spec fn opt_str(s: Option<&str>) -> Option<Seq<char>> {
    match s {
        Some(t) => Some(t@),
        None => None,
    }
}

/// Tells whether there is a header of this name.
pub fn contains_header(headers: &HeaderMap<HeaderValue>, name: &str) -> (r: bool)
    requires
        is_header_name(name@),
    ensures
        r == has_header(*headers, name@),
{
    first_value(headers, name).is_some()
}

/// The text of the header of this name.
pub fn text_header<'a>(headers: &'a HeaderMap<HeaderValue>, name: &str) -> (r: Option<&'a str>)
    requires
        is_header_name(name@),
    ensures
        opt_str(r) == header_text(*headers, name@),
{
    match first_value(headers, name) {
        Some(value) => visible_text(value),
        None => None,
    }
}

/// The names of the headers that requests are read by are names of headers.
pub proof fn lemma_header_names()
    ensures
        is_header_name("x-forwarded-proto"@),
        is_header_name("x-forwarded-host"@),
        is_header_name("host"@),
        is_header_name("referer"@),
        is_header_name("x-session-id"@),
        is_header_name("cookie"@),
        is_header_name("range"@),
{
    reveal_strlit("x-forwarded-proto");
    reveal_strlit("x-forwarded-host");
    reveal_strlit("host");
    reveal_strlit("referer");
    reveal_strlit("x-session-id");
    reveal_strlit("cookie");
    reveal_strlit("range");
}

/// The text of a header is its bytes, one character for each, where all are visible; there is
/// none otherwise.
pub proof fn law_header_text(headers: HeaderMap<HeaderValue>, name: Seq<char>, i: int)
    ensures
        header_text(headers, name) is Some ==> header_values(headers).contains_key(name),
        header_values(headers).contains_key(name) ==> {
            let bytes = header_values(headers)[name];
            &&& header_text(headers, name) is None <==> exists|k: int|
                0 <= k < bytes.len() && !(32 <= #[trigger] bytes[k] < 127 || bytes[k] == 9)
            &&& header_text(headers, name) matches Some(text) ==> {
                &&& text.len() == bytes.len()
                &&& 0 <= i < bytes.len() ==> text[i] == bytes[i] as char
            }
        },
{
}

} // verus!
