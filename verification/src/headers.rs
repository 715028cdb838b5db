//! The headers of HTTP messages.
use vstd::prelude::*;

verus! {

/// The headers of a request or an answer, as `axum` and `reqwest` have them.
#[verifier::external_type_specification]
#[verifier::external_body]
#[verifier::reject_recursive_types(T)]
pub struct ExHeaderMap<T>(axum::http::HeaderMap<T>);

/// The value of a header.
#[verifier::external_type_specification]
#[verifier::external_body]
pub struct ExHeaderValue(axum::http::HeaderValue);

/// The bytes of a header's value.
pub uninterp spec fn header_bytes(value: axum::http::HeaderValue) -> Seq<u8>;

/// The headers by their names in lower case, each with the bytes of the first of its values.
pub uninterp spec fn first_headers(
    headers: axum::http::HeaderMap<axum::http::HeaderValue>,
) -> Map<Seq<char>, Seq<u8>>;

/// The names that headers are asked for by.
pub open spec fn is_known_name(name: Seq<char>) -> bool {
    name == "origin"@ || name == "host"@ || name == "content-type"@
}

/// `HeaderMap::get` of the `http` crate with one of the known names: the first value under that
/// name, and nothing where there is no such header.
#[verifier::external_body]
fn header_of<'a>(
    headers: &'a axum::http::HeaderMap<axum::http::HeaderValue>,
    name: &str,
) -> (r: Option<&'a axum::http::HeaderValue>)
    requires
        is_known_name(name@),
    ensures
        r is Some <==> first_headers(*headers).contains_key(name@),
        r matches Some(value) ==> header_bytes(*value) == first_headers(*headers)[name@],
{
    headers.get(name)
}

/// Whether all bytes are tabs or ASCII characters that can be seen, spaces among them.
pub open spec fn is_visible(bytes: Seq<u8>) -> bool {
    forall|i: int| 0 <= i < bytes.len() ==> 32 <= (#[trigger] bytes[i]) < 127 || bytes[i] == 9
}

/// `HeaderValue::to_str` of the `http` crate: the value as text where all its bytes are tabs or
/// visible ASCII characters, one character for each byte; nothing otherwise.
#[verifier::external_body]
fn header_text(value: &axum::http::HeaderValue) -> (r: Option<&str>)
    ensures
        r is Some <==> is_visible(header_bytes(*value)),
        r matches Some(text) ==> text@ == header_bytes(*value).map_values(|b: u8| b as char),
{
    value.to_str().ok()
}

/// The text of a header: none where it is missing or is no text.
pub open spec fn text_header(
    headers: axum::http::HeaderMap<axum::http::HeaderValue>,
    name: Seq<char>,
) -> Option<Seq<char>> {
    if first_headers(headers).contains_key(name) && is_visible(first_headers(headers)[name]) {
        Some(first_headers(headers)[name].map_values(|b: u8| b as char))
    } else {
        None
    }
}

/// The text of a header.
pub(crate) fn text_header_of<'a>(
    headers: &'a axum::http::HeaderMap<axum::http::HeaderValue>,
    name: &str,
) -> (r: Option<&'a str>)
    requires
        is_known_name(name@),
    ensures
        r is Some <==> text_header(*headers, name@) is Some,
        r matches Some(text) ==> Some(text@) == text_header(*headers, name@),
{
    match header_of(headers, name) {
        Some(value) => header_text(value),
        None => None,
    }
}

/// A header is a text exactly where it is there and all bytes of its first value are tabs or visible
/// ASCII characters; then its text has one character for each byte, with the same number.
pub proof fn law_text_headers(
    headers: axum::http::HeaderMap<axum::http::HeaderValue>,
    name: Seq<char>,
)
    ensures
        text_header(headers, name) is Some <==> first_headers(headers).contains_key(name) && forall|
            i: int,
        |
            0 <= i < first_headers(headers)[name].len() ==> {
                let b = #[trigger] first_headers(headers)[name][i];
                b == 9 || 32 <= b <= 126
            },
        text_header(headers, name) matches Some(text) ==> {
            let bytes = first_headers(headers)[name];
            &&& text.len() == bytes.len()
            &&& forall|i: int| 0 <= i < bytes.len() ==> #[trigger] text[i] as int == bytes[i] as int
        },
{
}

} // verus!
