//! What the HTTP API answers.
use vstd::prelude::*;

use crate::json::{json_bool, json_number, json_object, json_single};
#[allow(unused_imports)]
use crate::json::{distinct_keys, json_view, members, single, JsonView};
#[allow(unused_imports)]
use crate::mime::{guess_mime, mime, mime_from_extension};
#[allow(unused_imports)]
use crate::reply::{
    bare, bare_reply, consent, error_reply, file_reply, ok_reply, refusal, text_reply, with_bytes,
    with_json, with_text, Body, BodyView, Reply, ReplyView, BAD_REQUEST, INTERNAL_SERVER_ERROR, NOT_FOUND,
    NO_CONTENT, OK, SERVICE_UNAVAILABLE,
};
use crate::runtime_log::{forget_instance, log_file_name, InstanceLog};
#[allow(unused_imports)]
use crate::runtime_log::{cleared, log_file, log_views, one_log_each};
#[allow(unused_imports)]
use crate::settings::{background_image, background_image_path};
#[allow(unused_imports)]
use crate::text::{after_last, decimal, joined};

verus! {

/// What is known of the project interface.
pub struct InterfaceState {
    /// The interface, where it is loaded.
    pub interface: Option<serde_json::Value>,
    pub translations: serde_json::Value,
    pub base_path: serde_json::Value,
    pub data_path: serde_json::Value,
}

/// The object that describes the project interface.
pub open spec fn interface_object(
    interface: JsonView,
    translations: JsonView,
    base_path: JsonView,
    data_path: JsonView,
    port: u16,
) -> JsonView {
    JsonView::Object(
        Map::empty().insert("interface"@, interface).insert("translations"@, translations).insert(
            "basePath"@,
            base_path,
        ).insert("dataPath"@, data_path).insert(
            "webServerPort"@,
            JsonView::Number { whole: Some(port as u64), text: decimal(port as nat) },
        ),
    )
}

/// The answer to a request for the project interface: none of it can be read where the state is
/// missing.
pub open spec fn interface_reply(state: Option<InterfaceState>, port: u16) -> ReplyView {
    match state {
        None => refusal(INTERNAL_SERVER_ERROR, "读取 interface 状态失败"@),
        Some(known) => match known.interface {
            None => refusal(SERVICE_UNAVAILABLE, "interface.json 尚未加载"@),
            Some(interface) => with_json(
                OK,
                interface_object(
                    json_view(interface),
                    json_view(known.translations),
                    json_view(known.base_path),
                    json_view(known.data_path),
                    port,
                ),
            ),
        },
    }
}

/// The answer to a request for the project interface; `state` is none where it could not be read,
/// `actual_port` the port that the server listens on.
pub fn handle_get_interface(state: Option<InterfaceState>, actual_port: u16) -> (r: Reply)
    ensures
        r@ == interface_reply(state, actual_port),
{
    match state {
        None => error_reply(INTERNAL_SERVER_ERROR, "读取 interface 状态失败".to_owned()),
        Some(known) => match known.interface {
            None => error_reply(SERVICE_UNAVAILABLE, "interface.json 尚未加载".to_owned()),
            Some(interface) => {
                let port = json_number(actual_port);
                let mut list: Vec<(String, serde_json::Value)> = Vec::new();
                list.push(("interface".to_owned(), interface));
                list.push(("translations".to_owned(), known.translations));
                list.push(("basePath".to_owned(), known.base_path));
                list.push(("dataPath".to_owned(), known.data_path));
                list.push(("webServerPort".to_owned(), port));
                proof {
                    reveal_strlit("interface");
                    reveal_strlit("translations");
                    reveal_strlit("basePath");
                    reveal_strlit("dataPath");
                    reveal_strlit("webServerPort");
                    let all = list@;
                    assert forall|i: int, j: int| 0 <= i < j < all.len() implies (
                    #[trigger] all[i]).0@ != (#[trigger] all[j]).0@ by {
                        assert(all[0].0@.len() == 9 && all[1].0@.len() == 12);
                        assert(all[2].0@.len() == 8 && all[3].0@.len() == 8);
                        assert(all[4].0@.len() == 13);
                        assert(all[2].0@[0] == 'b' && all[3].0@[0] == 'd');
                        if i == 2 && j == 3 {
                            assert(all[i].0@[0] != all[j].0@[0]);
                        } else {
                            assert(all[i].0@.len() != all[j].0@.len());
                        }
                    }
                    reveal_with_fuel(members, 6);
                    assert(all.drop_last().drop_last().drop_last().drop_last().drop_last()
                        =~= Seq::empty());
                }
                Reply { status: OK, body: Body::Json(json_object(list)) }
            },
        },
    }
}

/// The answer to a request for the configuration; `config` is none where it could not be read.
pub fn handle_get_config(config: Option<serde_json::Value>) -> (r: Reply)
    ensures
        r@ == (match config {
            Some(value) => with_json(OK, json_view(value)),
            None => refusal(INTERNAL_SERVER_ERROR, "读取配置状态失败"@),
        }),
        config matches Some(value) ==> r.body == Body::Json(value),
{
    match config {
        Some(value) => Reply { status: OK, body: Body::Json(value) },
        None => error_reply(INTERNAL_SERVER_ERROR, "读取配置状态失败".to_owned()),
    }
}

/// The answer to an action that was carried out, or not for the given reason.
pub open spec fn outcome_reply(outcome: Result<(), String>) -> ReplyView {
    match outcome {
        Ok(_) => consent(),
        Err(why) => refusal(INTERNAL_SERVER_ERROR, why@),
    }
}

/// The answer to an action that was carried out, or not for the given reason.
fn reply_to_outcome(outcome: Result<(), String>) -> (r: Reply)
    ensures
        r@ == outcome_reply(outcome),
{
    match outcome {
        Ok(_) => ok_reply(),
        Err(why) => error_reply(INTERNAL_SERVER_ERROR, why),
    }
}

/// The answer to a new configuration, and whether everybody is to be told of it: only where it was
/// saved.
pub fn handle_put_config(saved: Result<(), String>) -> (r: (Reply, bool))
    ensures
        r.0@ == outcome_reply(saved),
        r.1 == (saved is Ok),
{
    let announce = saved.is_ok();
    (reply_to_outcome(saved), announce)
}

/// What is to be done about a request for a file.
pub enum FileRequest {
    /// Read this file, and answer by what comes of it.
    Read(String),
    /// Answer this.
    Answer(Reply),
}

/// What is to be done about a request for the background image; `config` is none where the
/// configuration could not be read.
pub fn handle_get_background_image(config: Option<&serde_json::Value>) -> (r: FileRequest)
    ensures
        match config {
            None => r matches FileRequest::Answer(reply) && reply@ == refusal(
                INTERNAL_SERVER_ERROR,
                "读取背景图配置失败"@,
            ),
            Some(value) => match background_image(json_view(*value)) {
                Some(path) => r matches FileRequest::Read(p) && p@ == path,
                None => r matches FileRequest::Answer(reply) && reply@ == with_text(
                    NOT_FOUND,
                    "未设置背景图片"@,
                ),
            },
        },
{
    match config {
        None => FileRequest::Answer(
            error_reply(INTERNAL_SERVER_ERROR, "读取背景图配置失败".to_owned()),
        ),
        Some(value) => background_image_request(background_image_path(value)),
    }
}

/// What is to be done about a request for the background image, given the path that the
/// configuration names.
pub fn background_image_request(path: Option<String>) -> (r: FileRequest)
    ensures
        match path {
            Some(text) => r matches FileRequest::Read(p) && p@ == text@,
            None => r matches FileRequest::Answer(reply) && reply@ == with_text(
                NOT_FOUND,
                "未设置背景图片"@,
            ),
        },
{
    match path {
        Some(text) => FileRequest::Read(text),
        None => FileRequest::Answer(text_reply(NOT_FOUND, "未设置背景图片".to_owned())),
    }
}

/// The answer with the background image, or with the reason why it could not be read.
pub fn background_image_reply(path: &str, read: Result<Vec<u8>, String>) -> (r: Reply)
    ensures
        r@ == (match read {
            Ok(data) => with_bytes(OK, mime(after_last(path@, '.')), data@),
            Err(why) => with_text(NOT_FOUND, "背景图读取失败: "@ + why@),
        }),
{
    match read {
        Ok(data) => file_reply(guess_mime(path).to_owned(), data),
        Err(why) => text_reply(NOT_FOUND, joined("背景图读取失败: ", why.as_str())),
    }
}

/// What is to be done about a request for a local file, given the path that it asks for: it has to
/// name one.
pub fn handle_serve_local_file(path: Option<&str>) -> (r: FileRequest)
    ensures
        match path {
            Some(text) => if text@.len() > 0 {
                r matches FileRequest::Read(p) && p@ == text@
            } else {
                r matches FileRequest::Answer(reply) && reply@ == with_text(
                    BAD_REQUEST,
                    "缺少 path 参数"@,
                )
            },
            None => r matches FileRequest::Answer(reply) && reply@ == with_text(
                BAD_REQUEST,
                "缺少 path 参数"@,
            ),
        },
{
    match path {
        Some(text) => if text.is_empty() {
            FileRequest::Answer(text_reply(BAD_REQUEST, "缺少 path 参数".to_owned()))
        } else {
            FileRequest::Read(text.to_owned())
        },
        None => FileRequest::Answer(text_reply(BAD_REQUEST, "缺少 path 参数".to_owned())),
    }
}

/// What came of a request for a local file.
pub enum LocalFile {
    /// The path leads nowhere that may be read, for this reason.
    Unresolved(String),
    /// The file could not be read.
    Unreadable,
    /// The file, with the extension of its name, where that has one that is a text.
    Found { extension: Option<String>, data: Vec<u8> },
}

/// The answer with a local file, or with the reason why there is none.
pub open spec fn local_file(file: LocalFile) -> ReplyView {
    match file {
        LocalFile::Unresolved(why) => with_text(BAD_REQUEST, why@),
        LocalFile::Unreadable => with_text(NOT_FOUND, "文件不存在"@),
        LocalFile::Found { extension, data } => with_bytes(
            OK,
            mime(
                match extension {
                    Some(text) => text@,
                    None => Seq::empty(),
                },
            ),
            data@,
        ),
    }
}

/// The answer with a local file, or with the reason why there is none.
pub fn local_file_reply(file: LocalFile) -> (r: Reply)
    ensures
        r@ == local_file(file),
{
    match file {
        LocalFile::Unresolved(why) => text_reply(BAD_REQUEST, why),
        LocalFile::Unreadable => text_reply(NOT_FOUND, "文件不存在".to_owned()),
        LocalFile::Found { extension, data } => {
            let ext = match extension {
                Some(text) => text,
                None => String::new(),
            };
            file_reply(mime_from_extension(ext.as_str()).to_owned(), data)
        },
    }
}

/// The answer to a request for all logs, or to a failure to read them.
pub fn handle_get_all_logs(logs: Result<serde_json::Value, String>) -> (r: Reply)
    ensures
        r@ == (match logs {
            Ok(value) => with_json(OK, json_view(value)),
            Err(why) => with_text(INTERNAL_SERVER_ERROR, why@),
        }),
        logs matches Ok(value) ==> r.body == Body::Json(value),
{
    match logs {
        Ok(value) => Reply { status: OK, body: Body::Json(value) },
        Err(why) => text_reply(INTERNAL_SERVER_ERROR, why),
    }
}

/// The answer to a change of the logs in memory.
pub open spec fn log_change(changed: Result<(), String>) -> ReplyView {
    match changed {
        Ok(_) => bare(NO_CONTENT),
        Err(why) => with_text(INTERNAL_SERVER_ERROR, why@),
    }
}

/// The answer to a log entry that was pushed to the buffer in memory, or not for the given reason.
pub fn handle_push_log(pushed: Result<(), String>) -> (r: Reply)
    ensures
        r@ == log_change(pushed),
{
    match pushed {
        Ok(_) => bare_reply(NO_CONTENT),
        Err(why) => text_reply(INTERNAL_SERVER_ERROR, why),
    }
}

/// Clears the log of an instance in memory, where the logs can be had; `locked` says whether they can.
/// Gives the answer, and the file that is to be removed in either case.
pub fn handle_clear_instance_logs(
    logs: &mut Vec<InstanceLog>,
    instance_id: &str,
    locked: Result<(), String>,
) -> (r: (Reply, String))
    ensures
        r.0@ == log_change(locked),
        r.1@ == log_file(instance_id@),
        log_views(final(logs)@) == cleared(log_views(old(logs)@), instance_id@, locked),
        one_log_each(log_views(old(logs)@)) ==> one_log_each(log_views(final(logs)@)),
{
    if locked.is_ok() {
        forget_instance(logs, instance_id);
    }
    (handle_push_log(locked), log_file_name(instance_id))
}

/// The answer to a sign of life.
pub fn handle_heartbeat() -> (r: Reply)
    ensures
        r@ == consent(),
{
    ok_reply()
}

/// The answer to the question whether the shell runs with elevated rights.
pub fn handle_is_elevated(elevated: bool) -> (r: Reply)
    ensures
        r@ == with_json(OK, single("elevated"@, JsonView::Bool(elevated))),
{
    Reply { status: OK, body: Body::Json(json_single("elevated", json_bool(elevated))) }
}

/// The answer to a request to restart with elevated rights.
pub fn handle_restart_as_admin(restarted: Result<(), String>) -> (r: Reply)
    ensures
        r@ == outcome_reply(restarted),
{
    reply_to_outcome(restarted)
}

/// The project interface is answered as an object of five members, each as it is known, and nothing
/// else; without the interface, or without the state, there is a refusal in its place.
pub proof fn law_interface_answer(
    known: InterfaceState,
    interface: serde_json::Value,
    port: u16,
)
    ensures
        interface_reply(None, port) == (ReplyView {
            status: 500,
            body: BodyView::Json(
                JsonView::Object(
                    Map::empty().insert("error"@, JsonView::Text("读取 interface 状态失败"@)),
                ),
            ),
        }),
        known.interface is None ==> interface_reply(Some(known), port) == (ReplyView {
            status: 503,
            body: BodyView::Json(
                JsonView::Object(
                    Map::empty().insert("error"@, JsonView::Text("interface.json 尚未加载"@)),
                ),
            ),
        }),
        known.interface == Some(interface) ==> {
            &&& interface_reply(Some(known), port).status == 200
            &&& interface_reply(Some(known), port).body matches BodyView::Json(JsonView::Object(all))
            &&& all.dom() =~= set![
                "interface"@,
                "translations"@,
                "basePath"@,
                "dataPath"@,
                "webServerPort"@,
            ]
            &&& all["interface"@] == json_view(interface)
            &&& all["translations"@] == json_view(known.translations)
            &&& all["basePath"@] == json_view(known.base_path)
            &&& all["dataPath"@] == json_view(known.data_path)
            &&& all["webServerPort"@] == (JsonView::Number {
                whole: Some(port as u64),
                text: decimal(port as nat),
            })
        },
{
    reveal_strlit("interface");
    reveal_strlit("translations");
    reveal_strlit("basePath");
    reveal_strlit("dataPath");
    reveal_strlit("webServerPort");
    assert("interface"@.len() == 9 && "translations"@.len() == 12 && "basePath"@.len() == 8
        && "dataPath"@.len() == 8 && "webServerPort"@.len() == 13);
    assert("basePath"@[0] == 'b' && "dataPath"@[0] == 'd');
}

/// What was carried out is agreed to; what was not is refused with the reason as it is, and so is a
/// change of the logs, the one as an object and the other as a plain text.
pub proof fn law_outcome_answers(outcome: Result<(), String>)
    ensures
        outcome is Ok ==> outcome_reply(outcome) == (ReplyView {
            status: 200,
            body: BodyView::Json(JsonView::Object(Map::empty().insert("ok"@, JsonView::Bool(true)))),
        }),
        outcome matches Err(why) ==> outcome_reply(outcome) == (ReplyView {
            status: 500,
            body: BodyView::Json(
                JsonView::Object(Map::empty().insert("error"@, JsonView::Text(why@))),
            ),
        }),
        outcome is Ok ==> log_change(outcome) == (ReplyView { status: 204, body: BodyView::Empty }),
        outcome matches Err(why) ==> log_change(outcome) == (ReplyView {
            status: 500,
            body: BodyView::Text(why@),
        }),
{
}

/// A local file is answered whole, under the content type of its extension; a path that leads nowhere
/// by the reason for that, and a file that cannot be read by a fixed text.
pub proof fn law_local_file_answers(file: LocalFile)
    ensures
        file matches LocalFile::Unresolved(why) ==> local_file(file) == (ReplyView {
            status: 400,
            body: BodyView::Text(why@),
        }),
        file is Unreadable ==> local_file(file) == (ReplyView {
            status: 404,
            body: BodyView::Text("文件不存在"@),
        }),
        file matches LocalFile::Found { extension: Some(ext), data } ==> local_file(file) == (
        ReplyView {
            status: 200,
            body: BodyView::Bytes { content_type: mime(ext@), data: data@ },
        }),
        file matches LocalFile::Found { extension: None, data } ==> local_file(file) == (ReplyView {
            status: 200,
            body: BodyView::Bytes { content_type: mime(Seq::empty()), data: data@ },
        }),
{
}

} // verus!
