//! The answers of the HTTP API.
use vstd::prelude::*;

use crate::json::{json_bool, json_single, json_text};
#[allow(unused_imports)]
use crate::json::{json_view, single, JsonView};

verus! {

pub const OK: u16 = 200;
pub const NO_CONTENT: u16 = 204;
pub const BAD_REQUEST: u16 = 400;
pub const FORBIDDEN: u16 = 403;
pub const NOT_FOUND: u16 = 404;
pub const INTERNAL_SERVER_ERROR: u16 = 500;
pub const SERVICE_UNAVAILABLE: u16 = 503;

/// What an answer carries besides its status.
pub enum Body {
    Empty,
    Json(serde_json::Value),
    Text(String),
    Bytes { content_type: String, data: Vec<u8> },
}

/// An answer to an HTTP request.
pub struct Reply {
    pub status: u16,
    pub body: Body,
}

/// What a body holds.
pub enum BodyView {
    Empty,
    Json(JsonView),
    Text(Seq<char>),
    Bytes { content_type: Seq<char>, data: Seq<u8> },
}

/// What an answer holds.
pub struct ReplyView {
    pub status: u16,
    pub body: BodyView,
}

impl View for Body {
    type V = BodyView;

    open spec fn view(&self) -> BodyView {
        match self {
            Body::Empty => BodyView::Empty,
            Body::Json(value) => BodyView::Json(json_view(*value)),
            Body::Text(text) => BodyView::Text(text@),
            Body::Bytes { content_type, data } => BodyView::Bytes {
                content_type: content_type@,
                data: data@,
            },
        }
    }
}

impl View for Reply {
    type V = ReplyView;

    open spec fn view(&self) -> ReplyView {
        ReplyView { status: self.status, body: self.body@ }
    }
}

/// The answer with a status alone.
pub open spec fn bare(status: u16) -> ReplyView {
    ReplyView { status, body: BodyView::Empty }
}

/// The answer with a JSON body.
pub open spec fn with_json(status: u16, value: JsonView) -> ReplyView {
    ReplyView { status, body: BodyView::Json(value) }
}

/// The answer with a plain text.
pub open spec fn with_text(status: u16, text: Seq<char>) -> ReplyView {
    ReplyView { status, body: BodyView::Text(text) }
}

/// The answer with the bytes of a file.
pub open spec fn with_bytes(status: u16, content_type: Seq<char>, data: Seq<u8>) -> ReplyView {
    ReplyView { status, body: BodyView::Bytes { content_type, data } }
}

/// The answer `{"error": message}`.
pub open spec fn refusal(status: u16, message: Seq<char>) -> ReplyView {
    with_json(status, single("error"@, JsonView::Text(message)))
}

/// The answer `{"ok": true}`.
pub open spec fn consent() -> ReplyView {
    with_json(OK, single("ok"@, JsonView::Bool(true)))
}

/// The answer `{"error": message}` with the given status.
pub fn error_reply(status: u16, message: String) -> (r: Reply)
    ensures
        r@ == refusal(status, message@),
{
    Reply { status, body: Body::Json(json_single("error", json_text(message))) }
}

/// The answer `{"ok": true}`.
pub fn ok_reply() -> (r: Reply)
    ensures
        r@ == consent(),
{
    Reply { status: OK, body: Body::Json(json_single("ok", json_bool(true))) }
}

/// The answer with a plain text.
pub fn text_reply(status: u16, text: String) -> (r: Reply)
    ensures
        r@ == with_text(status, text@),
{
    Reply { status, body: Body::Text(text) }
}

/// The answer with the bytes of a file, in the given content type.
pub fn file_reply(content_type: String, data: Vec<u8>) -> (r: Reply)
    ensures
        r@ == with_bytes(OK, content_type@, data@),
{
    Reply { status: OK, body: Body::Bytes { content_type, data } }
}

/// The answer with a status alone.
pub fn bare_reply(status: u16) -> (r: Reply)
    ensures
        r@ == bare(status),
{
    Reply { status, body: Body::Empty }
}

/// Each kind of answer has the status that it was given and holds what it was given, as it is.
pub proof fn law_what_answers_hold(status: u16, text: Seq<char>, value: JsonView, data: Seq<u8>)
    ensures
        bare(status) == (ReplyView { status, body: BodyView::Empty }),
        with_json(status, value) == (ReplyView { status, body: BodyView::Json(value) }),
        with_text(status, text) == (ReplyView { status, body: BodyView::Text(text) }),
        with_bytes(status, text, data) == (ReplyView {
            status,
            body: BodyView::Bytes { content_type: text, data },
        }),
        refusal(status, text) == (ReplyView {
            status,
            body: BodyView::Json(
                JsonView::Object(Map::empty().insert("error"@, JsonView::Text(text))),
            ),
        }),
        consent() == (ReplyView {
            status: 200,
            body: BodyView::Json(JsonView::Object(Map::empty().insert("ok"@, JsonView::Bool(true)))),
        }),
{
}

/// An answer is seen as it is: its status, and its body by what that holds.
pub proof fn law_reply_views(reply: Reply)
    ensures
        reply@.status == reply.status,
        reply.body is Empty ==> reply@.body is Empty,
        reply.body matches Body::Json(value) ==> reply@.body == BodyView::Json(json_view(value)),
        reply.body matches Body::Text(text) ==> reply@.body == BodyView::Text(text@),
        reply.body matches Body::Bytes { content_type, data } ==> reply@.body == (BodyView::Bytes {
            content_type: content_type@,
            data: data@,
        }),
{
}

} // verus!
