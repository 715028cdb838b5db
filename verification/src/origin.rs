//! Which web pages may open a WebSocket.
use vstd::prelude::*;

#[allow(unused_imports)]
use crate::headers::{text_header, text_header_of};
#[allow(unused_imports)]
use crate::reply::{bare, bare_reply, Reply, FORBIDDEN};
#[allow(unused_imports)]
use crate::text::{eq_ignoring_ascii_case, same_ignoring_ascii_case};

verus! {

/// The authority of a URI, by the grammar of the `http` crate: none where the text is no URI or
/// has no authority.
pub uninterp spec fn uri_authority(text: Seq<char>) -> Option<Seq<char>>;

/// `Uri::from_str` of the `http` crate, and `Uri::authority` of what it gives: the authority as it
/// stands in the text. It depends on the text alone.
#[verifier::external_body]
fn authority_of(text: &str) -> (r: Option<String>)
    ensures
        r is Some <==> uri_authority(text@) is Some,
        r matches Some(authority) ==> Some(authority@) == uri_authority(text@),
{
    match text.parse::<axum::http::Uri>() {
        Ok(uri) => match uri.authority() {
            Some(authority) => Some(authority.as_str().to_string()),
            None => None,
        },
        Err(_) => None,
    }
}

/// Whether the authority of an origin is the host that was asked.
pub open spec fn authority_is_host(authority: Option<Seq<char>>, host: Seq<char>) -> bool {
    match authority {
        Some(text) => same_ignoring_ascii_case(text, host),
        None => false,
    }
}

/// Whether the authority of an origin is the host that was asked, but for the case of ASCII
/// letters.
pub fn authority_matches(authority: Option<&str>, host: &str) -> (r: bool)
    ensures
        r == (match authority {
            Some(text) => same_ignoring_ascii_case(text@, host@),
            None => false,
        }),
{
    match authority {
        Some(text) => eq_ignoring_ascii_case(text, host),
        None => false,
    }
}

/// Whether a page of the given origin may connect to the given host: a request without an origin
/// may, one with an origin only where the host is known and is the authority of the
/// origin.
pub open spec fn same_origin(origin: Option<Seq<char>>, host: Option<Seq<char>>) -> bool {
    match origin {
        None => true,
        Some(from) => match host {
            None => false,
            Some(to) => authority_is_host(uri_authority(from), to),
        },
    }
}

/// Whether a page of the given origin may connect to the given host.
pub fn origin_allowed(origin: Option<&str>, host: Option<&str>) -> (r: bool)
    ensures
        r == same_origin(
            match origin {
                Some(text) => Some(text@),
                None => None,
            },
            match host {
                Some(text) => Some(text@),
                None => None,
            },
        ),
{
    match origin {
        None => true,
        Some(from) => match host {
            None => false,
            Some(to) => match authority_of(from) {
                Some(authority) => authority_matches(Some(authority.as_str()), to),
                None => authority_matches(None, to),
            },
        },
    }
}

/// Whether a WebSocket request comes from a page of the server itself, by its `Origin` and `Host`
/// headers.
pub fn is_same_origin_ws_request(
    headers: &axum::http::HeaderMap<axum::http::HeaderValue>,
) -> (r: bool)
    ensures
        r == same_origin(text_header(*headers, "origin"@), text_header(*headers, "host"@)),
{
    origin_allowed(text_header_of(headers, "origin"), text_header_of(headers, "host"))
}

/// The refusal of a WebSocket request, none where it is accepted. A debug build accepts all of them.
pub fn handle_ws_upgrade(
    debug_build: bool,
    headers: &axum::http::HeaderMap<axum::http::HeaderValue>,
) -> (r: Option<Reply>)
    ensures
        r is None <==> debug_build || same_origin(
            text_header(*headers, "origin"@),
            text_header(*headers, "host"@),
        ),
        r matches Some(refusal) ==> refusal@ == bare(FORBIDDEN),
{
    if !debug_build && !is_same_origin_ws_request(headers) {
        Some(bare_reply(FORBIDDEN))
    } else {
        None
    }
}

/// The case of the letters in the host does not matter.
pub proof fn law_host_case_is_ignored(origin: Option<Seq<char>>, a: Seq<char>, b: Seq<char>)
    requires
        same_ignoring_ascii_case(a, b),
    ensures
        same_origin(origin, Some(a)) == same_origin(origin, Some(b)),
{
    if let Some(from) = origin {
        if let Some(authority) = uri_authority(from) {
            if same_ignoring_ascii_case(authority, a) {
                assert forall|i: int| 0 <= i < authority.len() implies crate::text::ascii_lower(
                    #[trigger] authority[i],
                ) == crate::text::ascii_lower(b[i]) by {
                    assert(crate::text::ascii_lower(a[i]) == crate::text::ascii_lower(b[i]));
                }
            }
            if same_ignoring_ascii_case(authority, b) {
                assert forall|i: int| 0 <= i < authority.len() implies crate::text::ascii_lower(
                    #[trigger] authority[i],
                ) == crate::text::ascii_lower(a[i]) by {
                    assert(crate::text::ascii_lower(a[i]) == crate::text::ascii_lower(b[i]));
                }
            }
        }
    }
}

/// A request that names its origin but no host, or an origin without an authority, is refused.
pub proof fn law_unclear_origin_is_refused(origin: Seq<char>, host: Option<Seq<char>>)
    ensures
        same_origin(Some(origin), None) == false,
        uri_authority(origin) is None ==> !same_origin(Some(origin), host),
{
}

/// A page may connect exactly where the request names no origin, or where it names its host and the
/// authority of the origin is that host, character by character and but for the case of ASCII
/// letters.
pub proof fn law_who_may_connect(origin: Option<Seq<char>>, host: Option<Seq<char>>)
    ensures
        same_origin(origin, host) <==> {
            ||| origin is None
            ||| host is Some && uri_authority(origin->0) is Some && {
                let from = uri_authority(origin->0)->0;
                let to = host->0;
                &&& from.len() == to.len()
                &&& forall|i: int|
                    0 <= i < from.len() ==> {
                        ||| #[trigger] from[i] == to[i]
                        ||| 'A' <= from[i] <= 'Z' && to[i] as int == from[i] as int + 32
                        ||| 'A' <= to[i] <= 'Z' && from[i] as int == to[i] as int + 32
                    }
            }
        },
{
    if origin is Some && host is Some && uri_authority(origin->0) is Some {
        crate::text::law_only_ascii_case_is_ignored(uri_authority(origin->0)->0, host->0);
    }
}

/// Origins with the same authority are treated alike, whatever else they hold.
pub proof fn law_only_the_authority_matters(a: Seq<char>, b: Seq<char>, host: Option<Seq<char>>)
    requires
        uri_authority(a) == uri_authority(b),
    ensures
        same_origin(Some(a), host) == same_origin(Some(b), host),
{
}

} // verus!
