use axum::http::{HeaderMap, HeaderValue};

use mxu::assets::{embedded_path, pass_back, serve_embedded, serve_vite_proxy, vite_url, Upstream, VITE_DEV_URL};
use mxu::handlers::{
    background_image_reply, background_image_request, handle_clear_instance_logs,
    handle_get_all_logs, handle_get_background_image, handle_get_config, handle_get_interface,
    handle_heartbeat, handle_is_elevated, handle_push_log, handle_put_config,
    handle_restart_as_admin, handle_serve_local_file, local_file_reply, FileRequest,
    InterfaceState, LocalFile,
};
use mxu::json::json_single;
use mxu::origin::{authority_matches, handle_ws_upgrade, is_same_origin_ws_request, origin_allowed};
use mxu::reply::{Body, Reply};
use mxu::runtime_log::InstanceLog;
use mxu::server::{
    bind_address, bind_host, bind_target, cors_policy, frontend_source, get_actual_port,
    get_local_ip, last_port, port_of_attempt, start_web_server, BindAction, BindEvent, Frontend, ServerStatus,
};
use mxu::websocket::{handle_ws_connection, pass_on, WsEvent, WsStep};

fn json(text: &str) -> serde_json::Value {
    serde_json::from_str(text).unwrap()
}

fn json_of(reply: Reply) -> (u16, serde_json::Value) {
    match reply.body {
        Body::Json(value) => (reply.status, value),
        _ => panic!("no JSON"),
    }
}

fn text_of(reply: Reply) -> (u16, String) {
    match reply.body {
        Body::Text(text) => (reply.status, text),
        _ => panic!("no text"),
    }
}

fn bytes_of(reply: Reply) -> (u16, String, Vec<u8>) {
    match reply.body {
        Body::Bytes { content_type, data } => (reply.status, content_type, data),
        _ => panic!("no bytes"),
    }
}

fn status_of(reply: Reply) -> u16 {
    match reply.body {
        Body::Empty => reply.status,
        _ => panic!("a body"),
    }
}

fn answer(request: FileRequest) -> Reply {
    match request {
        FileRequest::Answer(reply) => reply,
        FileRequest::Read(path) => panic!("to read {}", path),
    }
}

fn to_read(request: FileRequest) -> String {
    match request {
        FileRequest::Read(path) => path,
        FileRequest::Answer(_) => panic!("an answer"),
    }
}

#[test]
fn ports_are_tried_in_order() {
    let mut run = start_web_server(12701);
    let mut tried: Vec<u16> = Vec::new();
    let mut rests = 0;
    loop {
        match run.next_action() {
            BindAction::Bind { port } => {
                tried.push(port);
                run.note(BindEvent::Failed);
            }
            BindAction::Rest { millis } => {
                assert_eq!(millis, 1000);
                rests += 1;
                run.note(BindEvent::Rested);
            }
            BindAction::Serve { .. } => panic!("nothing was bound"),
            BindAction::GiveUp => break,
        }
    }
    assert_eq!(
        tried,
        vec![12701, 12701, 12701, 12702, 12703, 12704, 12705, 12706, 12707, 12708, 12709, 12710]
    );
    assert_eq!(rests, 3);
}

#[test]
fn the_first_port_that_is_free() {
    let mut run = start_web_server(65534);
    for _ in 0..3 {
        run.note(BindEvent::Failed);
        run.note(BindEvent::Rested);
    }
    assert_eq!(run.next_action(), BindAction::Bind { port: 65535 });
    let mut status = ServerStatus::new();
    status.note_bind(&run);
    assert_eq!(get_actual_port(&status), 0);
    let mut lost = run;
    lost.note(BindEvent::Failed);
    assert_eq!(lost.next_action(), BindAction::GiveUp);
    run.note(BindEvent::Bound);
    assert_eq!(run.next_action(), BindAction::Serve { port: 65535 });
    run.note(BindEvent::Failed);
    assert_eq!(run.next_action(), BindAction::Serve { port: 65535 });
    status.note_bind(&run);
    assert_eq!(get_actual_port(&status), 65535);
}

#[test]
fn no_port_above_the_last() {
    assert_eq!(port_of_attempt(65535, 2), Some(65535));
    assert_eq!(port_of_attempt(65535, 3), None);
    assert_eq!(port_of_attempt(1, 11), Some(10));
    assert_eq!(port_of_attempt(1, 12), None);
    assert_eq!(port_of_attempt(1, u16::MAX), None);
}

#[test]
fn addresses_to_listen_on() {
    assert_eq!(bind_address(false, 12701), "127.0.0.1:12701");
    assert_eq!(bind_address(true, 80), "0.0.0.0:80");
    assert_eq!(bind_host(false), "127.0.0.1");
    let mut run = start_web_server(12701);
    assert_eq!(bind_target(&run, false).unwrap(), "127.0.0.1:12701");
    assert_eq!(bind_target(&run, true).unwrap(), "0.0.0.0:12701");
    run.note(BindEvent::Failed);
    assert_eq!(bind_target(&run, false), None);
    for _ in 0..2 {
        run.note(BindEvent::Rested);
        run.note(BindEvent::Failed);
    }
    run.note(BindEvent::Rested);
    assert_eq!(bind_target(&run, false).unwrap(), "127.0.0.1:12702");
    run.note(BindEvent::Bound);
    assert_eq!(bind_target(&run, false), None);
}

#[test]
fn the_last_port_of_a_search() {
    assert_eq!(last_port(12701), 12710);
    assert_eq!(last_port(65526), 65535);
    assert_eq!(last_port(65530), 65535);
    assert_eq!(last_port(65535), 65535);
}

#[test]
fn where_the_pages_come_from() {
    assert_eq!(frontend_source(true, Some(true)), Frontend::DevServer);
    assert_eq!(frontend_source(false, Some(true)), Frontend::ExternalDist);
    assert_eq!(frontend_source(false, Some(false)), Frontend::Embedded);
    assert_eq!(frontend_source(false, None), Frontend::Embedded);
}

#[test]
fn other_origins_only_in_debug_builds() {
    for debug in [true, false] {
        let policy = cors_policy(debug);
        assert_eq!((policy.any_origin, policy.any_header), (debug, debug));
        assert_eq!(policy.methods, vec!["GET", "POST", "PUT", "DELETE"]);
    }
}

#[test]
fn the_address_is_looked_for_once() {
    let mut status = ServerStatus::new();
    assert_eq!(get_local_ip(&mut status, || Some("192.168.1.5".to_string())), Some("192.168.1.5"));
    assert_eq!(get_local_ip(&mut status, || panic!("asked twice")), Some("192.168.1.5"));
    let mut offline = ServerStatus::new();
    assert_eq!(get_local_ip(&mut offline, || None), None);
    assert_eq!(get_local_ip(&mut offline, || Some("late".to_string())), None);
}

fn headers(origin: Option<&'static str>, host: Option<&'static str>) -> HeaderMap {
    let mut map = HeaderMap::new();
    if let Some(value) = origin {
        map.insert("Origin", HeaderValue::from_static(value));
    }
    if let Some(value) = host {
        map.insert("HOST", HeaderValue::from_static(value));
    }
    map
}

#[test]
fn pages_of_the_server_itself() {
    let same = |o, h| is_same_origin_ws_request(&headers(o, h));
    assert!(same(None, None));
    assert!(same(None, Some("localhost:12701")));
    assert!(!same(Some("http://localhost:12701"), None));
    assert!(same(Some("http://localhost:12701"), Some("localhost:12701")));
    assert!(same(Some("http://LOCALHOST:12701"), Some("localhost:12701")));
    assert!(!same(Some("http://localhost:12702"), Some("localhost:12701")));
    assert!(!same(Some("http://evil.example"), Some("localhost:12701")));
    assert!(!same(Some("null path"), Some("localhost")));
    assert!(!same(Some("/relative"), Some("/relative")));
    assert!(!same(Some(""), Some("")));
}

#[test]
fn headers_that_are_no_text() {
    let mut map = HeaderMap::new();
    map.insert("origin", HeaderValue::from_bytes(b"http://\xff").unwrap());
    assert!(is_same_origin_ws_request(&map));
    let mut map = headers(Some("http://a"), None);
    map.insert("host", HeaderValue::from_bytes(b"\xff").unwrap());
    assert!(!is_same_origin_ws_request(&map));
    let mut map = headers(Some("http://a"), Some("a"));
    map.append("host", HeaderValue::from_static("b"));
    assert!(is_same_origin_ws_request(&map));
}

#[test]
fn origins_as_texts() {
    assert!(origin_allowed(Some("https://user@Host:1/path"), Some("USER@host:1")));
    assert!(!origin_allowed(Some("https://host/"), Some("host:443")));
    assert!(authority_matches(Some("A"), "a"));
    assert!(!authority_matches(None, ""));
}

#[test]
fn upgrades_are_refused_to_others() {
    let foreign = headers(Some("http://evil.example"), Some("localhost"));
    assert_eq!(status_of(handle_ws_upgrade(false, &foreign).unwrap()), 403);
    assert!(handle_ws_upgrade(true, &foreign).is_none());
    assert!(handle_ws_upgrade(false, &headers(None, None)).is_none());
}

#[test]
fn requests_to_the_development_server() {
    assert_eq!(vite_url(Some("/src/main.ts?t=1")), "http://localhost:1420/src/main.ts?t=1");
    assert_eq!(vite_url(None), "http://localhost:1420/");
    assert_eq!(VITE_DEV_URL, "http://localhost:1420");
}

#[test]
fn answers_of_the_development_server() {
    let mut map = HeaderMap::new();
    map.insert("content-type", HeaderValue::from_static("text/css"));
    let upstream = Upstream { status: 304, headers: map, body: Some(vec![1, 2]) };
    assert_eq!(bytes_of(serve_vite_proxy(Some(upstream))), (304, "text/css".to_string(), vec![1, 2]));
    let bare = Upstream { status: 200, headers: HeaderMap::new(), body: None };
    assert_eq!(
        bytes_of(serve_vite_proxy(Some(bare))),
        (200, "application/octet-stream".to_string(), vec![])
    );
    let (status, content_type, data) = bytes_of(serve_vite_proxy(None));
    assert_eq!((status, content_type.as_str()), (503, "text/html; charset=utf-8"));
    assert_eq!(
        data,
        b"<html><body><p>Waiting for Vite dev server...</p>\
          <script>setTimeout(()=>location.reload(),2000)</script></body></html>"
            .to_vec()
    );
}

#[test]
fn statuses_out_of_range() {
    for (given, expected) in [(99, 200), (100, 100), (999, 999), (1000, 200), (0, 200)] {
        assert_eq!(bytes_of(pass_back(given, Some("x/y"), None)).0, expected);
    }
}

#[test]
fn built_in_files() {
    assert_eq!(embedded_path("/"), "index.html");
    assert_eq!(embedded_path(""), "index.html");
    assert_eq!(embedded_path("//assets/app.js"), "assets/app.js");
    assert_eq!(
        bytes_of(serve_embedded("/assets/app.js", Some(vec![7]), Some(vec![8]))),
        (200, "application/javascript; charset=utf-8".to_string(), vec![7])
    );
    assert_eq!(
        bytes_of(serve_embedded("/route/of/the/app", None, Some(vec![8]))),
        (200, "text/html; charset=utf-8".to_string(), vec![8])
    );
    assert_eq!(
        bytes_of(serve_embedded("/", Some(vec![9]), None)),
        (200, "text/html; charset=utf-8".to_string(), vec![9])
    );
    assert_eq!(status_of(serve_embedded("/x", None, None)), 404);
}

fn interface(loaded: bool) -> InterfaceState {
    InterfaceState {
        interface: if loaded { Some(json(r#"{"name": "KKAFIO"}"#)) } else { None },
        translations: json(r#"{"en": {}}"#),
        base_path: json(r#""/base""#),
        data_path: json(r#""/data""#),
    }
}

#[test]
fn the_project_interface() {
    assert_eq!(
        json_of(handle_get_interface(Some(interface(true)), 12702)),
        (
            200,
            json(
                r#"{"interface": {"name": "KKAFIO"}, "translations": {"en": {}},
                    "basePath": "/base", "dataPath": "/data", "webServerPort": 12702}"#
            )
        )
    );
    assert_eq!(
        json_of(handle_get_interface(Some(interface(false)), 1)),
        (503, json(r#"{"error": "interface.json 尚未加载"}"#))
    );
    assert_eq!(
        json_of(handle_get_interface(None, 1)),
        (500, json(r#"{"error": "读取 interface 状态失败"}"#))
    );
}

#[test]
fn the_configuration() {
    let config = json(r#"{"a": [1, -2, 0.5, null]}"#);
    assert_eq!(json_of(handle_get_config(Some(config.clone()))), (200, config));
    assert_eq!(json_of(handle_get_config(None)), (500, json(r#"{"error": "读取配置状态失败"}"#)));
    let (reply, announce) = handle_put_config(Ok(()));
    assert!(announce);
    assert_eq!(json_of(reply), (200, json(r#"{"ok": true}"#)));
    let (reply, announce) = handle_put_config(Err("disk full".to_string()));
    assert!(!announce);
    assert_eq!(json_of(reply), (500, json(r#"{"error": "disk full"}"#)));
}

#[test]
fn the_background() {
    let config = json(r#"{"settings": {"backgroundImage": "D:/p.tar.png"}}"#);
    let path = to_read(handle_get_background_image(Some(&config)));
    assert_eq!(path, "D:/p.tar.png");
    assert_eq!(
        bytes_of(background_image_reply(&path, Ok(vec![1]))),
        (200, "image/png".to_string(), vec![1])
    );
    assert_eq!(
        text_of(background_image_reply(&path, Err("gone".to_string()))),
        (404, "背景图读取失败: gone".to_string())
    );
    assert_eq!(
        text_of(answer(handle_get_background_image(Some(&json("{}"))))),
        (404, "未设置背景图片".to_string())
    );
    assert_eq!(
        json_of(answer(handle_get_background_image(None))),
        (500, json(r#"{"error": "读取背景图配置失败"}"#))
    );
    assert_eq!(to_read(background_image_request(Some("x".to_string()))), "x");
}

#[test]
fn local_files() {
    assert_eq!(to_read(handle_serve_local_file(Some("a/b.md"))), "a/b.md");
    for path in [None, Some("")] {
        assert_eq!(text_of(answer(handle_serve_local_file(path))), (400, "缺少 path 参数".to_string()));
    }
    assert_eq!(
        text_of(local_file_reply(LocalFile::Unresolved("outside".to_string()))),
        (400, "outside".to_string())
    );
    assert_eq!(text_of(local_file_reply(LocalFile::Unreadable)), (404, "文件不存在".to_string()));
    let found = |extension: Option<&str>| LocalFile::Found {
        extension: extension.map(|e| e.to_string()),
        data: vec![5],
    };
    assert_eq!(
        bytes_of(local_file_reply(found(Some("md")))),
        (200, "text/markdown; charset=utf-8".to_string(), vec![5])
    );
    assert_eq!(
        bytes_of(local_file_reply(found(None))),
        (200, "application/octet-stream".to_string(), vec![5])
    );
}

#[test]
fn logs_over_http() {
    assert_eq!(json_of(handle_get_all_logs(Ok(json(r#"{"a": []}"#)))), (200, json(r#"{"a": []}"#)));
    assert_eq!(text_of(handle_get_all_logs(Err("poisoned".to_string()))), (500, "poisoned".to_string()));
    assert_eq!(status_of(handle_push_log(Ok(()))), 204);
    assert_eq!(text_of(handle_push_log(Err("poisoned".to_string()))), (500, "poisoned".to_string()));
    let mut logs: Vec<InstanceLog> = ["x", "a.b"]
        .iter()
        .map(|id| InstanceLog { instance_id: id.to_string(), entries: Default::default() })
        .collect();
    let (reply, file) = handle_clear_instance_logs(&mut logs, "a.b", Err("poisoned".to_string()));
    assert_eq!(text_of(reply), (500, "poisoned".to_string()));
    assert_eq!((file.as_str(), logs.len()), ("runtime-a_b.log", 2));
    let (reply, file) = handle_clear_instance_logs(&mut logs, "a.b", Ok(()));
    assert_eq!((status_of(reply), file.as_str()), (204, "runtime-a_b.log"));
    assert_eq!((logs.len(), logs[0].instance_id.as_str()), (1, "x"));
}

#[test]
fn small_answers() {
    assert_eq!(json_of(handle_heartbeat()), (200, json(r#"{"ok": true}"#)));
    for elevated in [true, false] {
        assert_eq!(
            json_of(handle_is_elevated(elevated)),
            (200, json(&format!(r#"{{"elevated": {}}}"#, elevated)))
        );
    }
    assert_eq!(json_of(handle_restart_as_admin(Ok(()))), (200, json(r#"{"ok": true}"#)));
    assert_eq!(
        json_of(handle_restart_as_admin(Err("refused".to_string()))),
        (500, json(r#"{"error": "refused"}"#))
    );
    assert_eq!(json_single("k", json("[1]")), json(r#"{"k": [1]}"#));
}

#[test]
fn events_go_out_over_a_connection() {
    let mut step = WsStep::Listen;
    let mut sent: Vec<String> = Vec::new();
    let mut pings = 0;
    let events = vec![
        WsEvent::Broadcast(json(r#"{"b": [1.5, -2], "a": "x y"}"#)),
        WsEvent::Sent(true),
        WsEvent::Lagged,
        WsEvent::PingDue,
        WsEvent::Sent(true),
        WsEvent::ClientMessage,
        WsEvent::Broadcast(json(r#""two""#)),
        WsEvent::Sent(true),
    ];
    for event in events {
        step = handle_ws_connection(step, event);
        match &step {
            WsStep::SendText(text) => sent.push(text.clone()),
            WsStep::SendPing => pings += 1,
            _ => {}
        }
    }
    assert!(matches!(step, WsStep::Listen));
    assert_eq!(sent.len(), 2);
    assert_eq!(json(&sent[0]), json(r#"{"a": "x y", "b": [1.5, -2]}"#));
    assert_eq!(sent[1], r#""two""#);
    assert_eq!(pings, 1);
}

#[test]
fn what_ends_a_connection() {
    for event in [
        WsEvent::BroadcastClosed,
        WsEvent::ClientClosed,
        WsEvent::ClientGone,
        WsEvent::ClientFailed,
    ] {
        let step = handle_ws_connection(WsStep::Listen, event);
        assert!(matches!(step, WsStep::Close));
        assert!(matches!(handle_ws_connection(step, WsEvent::Broadcast(json("1"))), WsStep::Close));
    }
    assert!(matches!(handle_ws_connection(WsStep::SendPing, WsEvent::Sent(false)), WsStep::Close));
    assert!(matches!(
        handle_ws_connection(WsStep::SendText("x".to_string()), WsEvent::Sent(false)),
        WsStep::Close
    ));
}

#[test]
fn events_as_text() {
    match handle_ws_connection(WsStep::Listen, WsEvent::Broadcast(json(r#"{ "n": [1, true, null] }"#))) {
        WsStep::SendText(text) => assert_eq!(text, r#"{"n":[1,true,null]}"#),
        _ => panic!("no text"),
    }
    assert!(matches!(pass_on(Some("t".to_string())), WsStep::SendText(text) if text == "t"));
    assert!(matches!(pass_on(None), WsStep::Listen));
    let busy = handle_ws_connection(WsStep::SendPing, WsEvent::Broadcast(json("1")));
    assert!(matches!(busy, WsStep::SendPing));
}
