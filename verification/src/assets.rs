//! The pages of the user interface: from the development server or from the executable.
use vstd::prelude::*;

#[allow(unused_imports)]
use crate::headers::{text_header, text_header_of};
#[allow(unused_imports)]
use crate::mime::{guess_mime, mime};
#[allow(unused_imports)]
use crate::reply::{
    bare, bare_reply, file_reply, with_bytes, Body, BodyView, Reply, ReplyView, NOT_FOUND, OK,
    SERVICE_UNAVAILABLE,
};
#[allow(unused_imports)]
use crate::text::{after_last, joined, text_without_leading, without_leading};

verus! {

/// The address of the development server.
pub const VITE_DEV_URL: &'static str = "http://localhost:1420";

/// The address that a request is passed on to: the development server, with the path and query of
/// the request, or with the root path where it has none.
pub fn vite_url(path_and_query: Option<&str>) -> (r: String)
    ensures
        r@ == "http://localhost:1420"@ + (match path_and_query {
            Some(text) => text@,
            None => "/"@,
        }),
{
    joined(VITE_DEV_URL, path_and_query.unwrap_or("/"))
}

/// What the development server answered.
pub struct Upstream {
    pub status: u16,
    pub headers: axum::http::HeaderMap<axum::http::HeaderValue>,
    /// Its body, where that could be read.
    pub body: Option<Vec<u8>>,
}

/// `StatusCode::from_u16` of the `http` crate: a number is a status code exactly where it is at
/// least 100 and less than 1000.
#[verifier::external_body]
fn status_code(code: u16) -> (r: Option<u16>)
    ensures
        r == (if 100 <= code && code < 1000 {
            Some(code)
        } else {
            None
        }),
{
    match axum::http::StatusCode::from_u16(code) {
        Ok(status) => Some(status.as_u16()),
        Err(_) => None,
    }
}

/// The page that is shown while the development server does not answer; it loads itself
/// again.
pub open spec fn waiting_page() -> Seq<char> {
    "<html><body><p>Waiting for Vite dev server...</p><script>setTimeout(()=>location.reload(),2000)</script></body></html>"@
}

/// The answer with what the development server answered: its status, its content type where it
/// gave one that is a text, and its body where that could be read.
pub open spec fn passed_back(
    status: u16,
    content_type: Option<Seq<char>>,
    body: Option<Seq<u8>>,
) -> ReplyView {
    with_bytes(
        if 100 <= status && status < 1000 {
            status
        } else {
            OK
        },
        match content_type {
            Some(text) => text,
            None => "application/octet-stream"@,
        },
        match body {
            Some(data) => data,
            None => Seq::empty(),
        },
    )
}

/// The bytes of an optional file.
pub open spec fn optional_bytes(file: Option<Vec<u8>>) -> Option<Seq<u8>> {
    match file {
        Some(data) => Some(data@),
        None => None,
    }
}

/// The answer with what the development server answered.
pub fn pass_back(status: u16, content_type: Option<&str>, body: Option<Vec<u8>>) -> (r: Reply)
    ensures
        r@ == passed_back(
            status,
            match content_type {
                Some(text) => Some(text@),
                None => None,
            },
            optional_bytes(body),
        ),
        r.status == if 100 <= status && status < 1000 {
            status
        } else {
            200
        },
        r.body matches Body::Bytes { content_type: kind, data } && {
            &&& content_type matches Some(text) ==> kind@ == text@
            &&& content_type is None ==> kind@ == "application/octet-stream"@
            &&& body matches Some(given) ==> data@ == given@
            &&& body is None ==> data@.len() == 0
        },
{
    let data = match body {
        Some(data) => data,
        None => Vec::new(),
    };
    Reply {
        status: status_code(status).unwrap_or(OK),
        body: Body::Bytes {
            content_type: content_type.unwrap_or("application/octet-stream").to_owned(),
            data,
        },
    }
}

/// The answer to a request that was passed on to the development server: what that answered,
/// or a page to wait on where it did not.
pub fn serve_vite_proxy(answer: Option<Upstream>) -> (r: Reply)
    ensures
        r@ == (match answer {
            Some(upstream) => passed_back(
                upstream.status,
                text_header(upstream.headers, "content-type"@),
                optional_bytes(upstream.body),
            ),
            None => with_bytes(
                SERVICE_UNAVAILABLE,
                "text/html; charset=utf-8"@,
                vstd::utf8::encode_utf8(waiting_page()),
            ),
        }),
{
    match answer {
        Some(upstream) => {
            let Upstream { status, headers, body } = upstream;
            let content_type = text_header_of(&headers, "content-type");
            pass_back(status, content_type, body)
        },
        None => Reply {
            status: SERVICE_UNAVAILABLE,
            body: Body::Bytes {
                content_type: "text/html; charset=utf-8".to_owned(),
                data: "<html><body><p>Waiting for Vite dev server...</p><script>setTimeout(()=>location.reload(),2000)</script></body></html>".as_bytes_vec(),
            },
        },
    }
}

/// The built-in file that a path asks for: the path without its leading slashes, and the start page
/// where nothing is left of it.
pub open spec fn asset_path(uri_path: Seq<char>) -> Seq<char> {
    if without_leading(uri_path, '/').len() == 0 {
        "index.html"@
    } else {
        without_leading(uri_path, '/')
    }
}

/// The built-in file that a path asks for.
pub fn embedded_path(uri_path: &str) -> (r: String)
    ensures
        r@ == asset_path(uri_path@),
        r@.len() > 0,
        r@[0] != '/',
        uri_path@.len() > 0 && uri_path@[0] != '/' ==> r@ == uri_path@,
{
    proof {
        law_asset_paths_are_relative(uri_path@);
    }
    let path = text_without_leading(uri_path, '/');
    if path.as_str().is_empty() {
        "index.html".to_owned()
    } else {
        path
    }
}

/// The answer to a request for a built-in file, given that file and the start page as far as they
/// are there.
pub open spec fn embedded(
    uri_path: Seq<char>,
    asset: Option<Seq<u8>>,
    index: Option<Seq<u8>>,
) -> ReplyView {
    match (asset, index) {
        (Some(data), _) => with_bytes(OK, mime(after_last(asset_path(uri_path), '.')), data),
        (None, Some(page)) => with_bytes(OK, "text/html; charset=utf-8"@, page),
        (None, None) => bare(NOT_FOUND),
    }
}

/// The answer to a request for the path `uri_path`: `asset` is the built-in file that it asks for, `index`
/// the built-in start page, which stands in for a file that is not there.
pub fn serve_embedded(uri_path: &str, asset: Option<Vec<u8>>, index: Option<Vec<u8>>) -> (r: Reply)
    ensures
        r@ == embedded(uri_path@, optional_bytes(asset), optional_bytes(index)),
{
    match asset {
        Some(data) => {
            let path = embedded_path(uri_path);
            file_reply(guess_mime(path.as_str()).to_owned(), data)
        },
        None => match index {
            Some(page) => file_reply("text/html; charset=utf-8".to_owned(), page),
            None => bare_reply(NOT_FOUND),
        },
    }
}

/// A built-in path never starts with a slash, and is never empty.
pub proof fn law_asset_paths_are_relative(uri_path: Seq<char>)
    ensures
        asset_path(uri_path).len() > 0,
        asset_path(uri_path)[0] != '/',
{
    reveal_strlit("index.html");
    lemma_without_leading(uri_path, '/');
}

proof fn lemma_without_leading(s: Seq<char>, c: char)
    ensures
        without_leading(s, c).len() > 0 ==> without_leading(s, c)[0] != c,
    decreases s.len(),
{
    if s.len() > 0 && s[0] == c {
        lemma_without_leading(s.drop_first(), c);
    }
}

/// Slashes in front of a path do not matter.
pub proof fn law_leading_slashes_do_not_matter(uri_path: Seq<char>)
    ensures
        asset_path("/"@ + uri_path) == asset_path(uri_path),
{
    reveal_strlit("/");
    assert(("/"@ + uri_path).drop_first() =~= uri_path);
}

/// A path that is not empty and does not start with a slash stands for itself: whatever it is and
/// however long, and however many slashes are put in front of it, exactly that file is asked for.
pub proof fn law_path_stands_for_itself(path: Seq<char>, slashes: nat)
    requires
        path.len() > 0,
        path[0] != '/',
    ensures
        asset_path(Seq::new(slashes, |i: int| '/') + path) == path,
    decreases slashes,
{
    let all = Seq::new(slashes, |i: int| '/') + path;
    if slashes == 0 {
        assert(all =~= path);
    } else {
        law_path_stands_for_itself(path, (slashes - 1) as nat);
        assert(all.drop_first() =~= Seq::new((slashes - 1) as nat, |i: int| '/') + path);
    }
}

/// Slashes alone, or nothing, ask for the start page.
pub proof fn law_slashes_alone_ask_for_the_start_page(slashes: nat)
    ensures
        asset_path(Seq::new(slashes, |i: int| '/')) == "index.html"@,
    decreases slashes,
{
    let all = Seq::new(slashes, |i: int| '/');
    if slashes > 0 {
        law_slashes_alone_ask_for_the_start_page((slashes - 1) as nat);
        assert(all.drop_first() =~= Seq::new((slashes - 1) as nat, |i: int| '/'));
    }
}

/// The start page is asked for only by slashes alone, or by its own name behind slashes.
pub proof fn law_what_asks_for_the_start_page(uri_path: Seq<char>)
    requires
        asset_path(uri_path) == "index.html"@,
    ensures
        ({
            ||| forall|i: int| 0 <= i < uri_path.len() ==> uri_path[i] == '/'
            ||| exists|slashes: int|
                {
                    &&& 0 <= slashes <= uri_path.len()
                    &&& #[trigger] uri_path.skip(slashes) == "index.html"@
                    &&& forall|i: int| 0 <= i < slashes ==> uri_path[i] == '/'
                }
        }),
{
    crate::text::law_without_leading(uri_path, '/');
    let left = without_leading(uri_path, '/');
    let slashes = uri_path.len() - left.len();
    if left.len() > 0 {
        assert(uri_path.skip(slashes) == "index.html"@);
    }
}

/// What the development server answered is passed back: a status of three digits as it is and any other
/// as a success, its content type or that of mere bytes, and its body or none.
pub proof fn law_what_is_passed_back(status: u16, kind: Seq<char>, data: Seq<u8>)
    ensures
        100 <= status < 1000 ==> passed_back(status, Some(kind), Some(data)) == (ReplyView {
            status,
            body: BodyView::Bytes { content_type: kind, data },
        }),
        !(100 <= status < 1000) ==> passed_back(status, Some(kind), Some(data)) == passed_back(
            200,
            Some(kind),
            Some(data),
        ),
        passed_back(status, None, Some(data)) == passed_back(
            status,
            Some("application/octet-stream"@),
            Some(data),
        ),
        passed_back(status, Some(kind), None) == passed_back(status, Some(kind), Some(Seq::empty())),
        passed_back(status, None, None) == passed_back(
            status,
            Some("application/octet-stream"@),
            Some(Seq::empty()),
        ),
{
}

/// A built-in file is served whole, under the content type of its path; where there is none, the start
/// page is served whole as a page, and where that is missing too, nothing is found.
pub proof fn law_what_is_served(
    uri_path: Seq<char>,
    data: Seq<u8>,
    page: Seq<u8>,
    index: Option<Seq<u8>>,
)
    ensures
        embedded(uri_path, Some(data), index) == (ReplyView {
            status: 200,
            body: BodyView::Bytes {
                content_type: mime(after_last(asset_path(uri_path), '.')),
                data,
            },
        }),
        embedded(uri_path, None, Some(page)) == (ReplyView {
            status: 200,
            body: BodyView::Bytes { content_type: "text/html; charset=utf-8"@, data: page },
        }),
        embedded(uri_path, None, None) == (ReplyView { status: 404, body: BodyView::Empty }),
{
}

/// The bytes of a file that is there are what it holds.
pub proof fn law_optional_bytes(file: Option<Vec<u8>>)
    ensures
        optional_bytes(file) is Some <==> file is Some,
        file matches Some(data) ==> optional_bytes(file) == Some(data@),
{
}

} // verus!
