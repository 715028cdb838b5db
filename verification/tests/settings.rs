use mxu::settings::{background_image_path, port_or_default, web_settings, DEFAULT_PORT};

fn config(text: &str) -> serde_json::Value {
    serde_json::from_str(text).unwrap()
}

#[test]
fn settings_that_are_there() {
    let s = web_settings(&config(r#"{"settings": {"allowLanAccess": true, "webServerPort": 8080}}"#));
    assert!(s.allow_lan_access);
    assert_eq!(s.web_port, 8080);
}

#[test]
fn settings_by_default() {
    for text in [
        "null",
        "[]",
        "{}",
        r#"{"settings": null}"#,
        r#"{"settings": {}}"#,
        r#"{"settings": {"allowLanAccess": "true", "webServerPort": "8080"}}"#,
        r#"{"settings": {"allowLanAccess": 1, "webServerPort": 8080.5}}"#,
        r#"{"settings": {"allowLanAccess": false, "webServerPort": 0}}"#,
        r#"{"settings": {"webServerPort": 65536}}"#,
        r#"{"settings": {"webServerPort": -1}}"#,
        r#"{"webServerPort": 8080, "allowLanAccess": true}"#,
    ] {
        let s = web_settings(&config(text));
        assert!(!s.allow_lan_access, "{}", text);
        assert_eq!(s.web_port, 12701, "{}", text);
    }
    assert_eq!(DEFAULT_PORT, 12701);
}

#[test]
fn extreme_ports() {
    assert_eq!(web_settings(&config(r#"{"settings": {"webServerPort": 1}}"#)).web_port, 1);
    assert_eq!(web_settings(&config(r#"{"settings": {"webServerPort": 65535}}"#)).web_port, 65535);
    assert_eq!(port_or_default(None), 12701);
    assert_eq!(port_or_default(Some(0)), 12701);
    assert_eq!(port_or_default(Some(u64::MAX)), 12701);
    assert_eq!(port_or_default(Some(443)), 443);
}

#[test]
fn the_background_image() {
    let with = |v: &str| config(&format!(r#"{{"settings": {{"backgroundImage": {}}}}}"#, v));
    assert_eq!(background_image_path(&with(r#""C:\\a.png""#)), Some("C:\\a.png".to_string()));
    assert_eq!(background_image_path(&with(r#""""#)), None);
    assert_eq!(background_image_path(&with("3")), None);
    assert_eq!(background_image_path(&with("null")), None);
    assert_eq!(background_image_path(&config("{}")), None);
}
