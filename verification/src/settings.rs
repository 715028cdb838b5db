//! What the shell reads from its configuration.
use vstd::prelude::*;

use crate::json::json_member;
#[allow(unused_imports)]
use crate::json::{json_view, member, JsonView};

verus! {

/// The port of the web server where the configuration names none.
pub const DEFAULT_PORT: u16 = 12701;

/// How the web server is to be started.
#[derive(Clone, Copy, Debug, PartialEq, Eq)]
pub struct WebSettings {
    pub allow_lan_access: bool,
    pub web_port: u16,
}

/// The member of the configuration's `settings` under a key.
pub open spec fn setting(config: JsonView, key: Seq<char>) -> Option<JsonView> {
    match member(config, "settings"@) {
        Some(settings) => member(settings, key),
        None => None,
    }
}

/// Whether clients of the local network are let in: only where `settings.allowLanAccess` is the
/// boolean `true`.
pub open spec fn lan_access(config: JsonView) -> bool {
    setting(config, "allowLanAccess"@) == Some(JsonView::Bool(true))
}

/// The port to serve on: `settings.webServerPort` where that is a whole number that a port can
/// have, zero excluded; the default otherwise.
pub open spec fn web_port(config: JsonView) -> u16 {
    match setting(config, "webServerPort"@) {
        Some(JsonView::Number { whole: Some(n), .. }) => if 0 < n && n <= u16::MAX {
            n as u16
        } else {
            DEFAULT_PORT
        },
        _ => DEFAULT_PORT,
    }
}

/// The background image: `settings.backgroundImage` where that is a string that is not empty.
pub open spec fn background_image(config: JsonView) -> Option<Seq<char>> {
    match setting(config, "backgroundImage"@) {
        Some(JsonView::Text(path)) => if path.len() > 0 {
            Some(path)
        } else {
            None
        },
        _ => None,
    }
}

/// The member of the configuration's `settings` under a key.
fn setting_of<'a>(config: &'a serde_json::Value, key: &str) -> (r: Option<&'a serde_json::Value>)
    ensures
        r is Some <==> setting(json_view(*config), key@) is Some,
        r matches Some(found) ==> Some(json_view(*found)) == setting(json_view(*config), key@),
{
    match json_member(config, "settings") {
        Some(settings) => json_member(settings, key),
        None => None,
    }
}

/// The port to serve on, given the number that the configuration holds for it.
pub fn port_or_default(configured: Option<u64>) -> (r: u16)
    ensures
        r == (match configured {
            Some(n) => if 0 < n && n <= u16::MAX {
                n as u16
            } else {
                DEFAULT_PORT
            },
            None => DEFAULT_PORT,
        }),
{
    match configured {
        Some(n) => if 0 < n && n <= 65535 {
            n as u16
        } else {
            DEFAULT_PORT
        },
        None => DEFAULT_PORT,
    }
}

/// How the web server is to be started under the given configuration.
pub fn web_settings(config: &serde_json::Value) -> (r: WebSettings)
    ensures
        r.allow_lan_access == lan_access(json_view(*config)),
        r.web_port == web_port(json_view(*config)),
        r.allow_lan_access <==> {
            &&& json_view(*config) matches JsonView::Object(top)
            &&& top.contains_key("settings"@)
            &&& top["settings"@] matches JsonView::Object(settings)
            &&& settings.contains_key("allowLanAccess"@)
            &&& settings["allowLanAccess"@] == JsonView::Bool(true)
        },
{
    let allowed = match setting_of(config, "allowLanAccess") {
        Some(value) => value.as_bool(),
        None => None,
    };
    let configured = match setting_of(config, "webServerPort") {
        Some(value) => value.as_u64(),
        None => None,
    };
    WebSettings {
        allow_lan_access: allowed.unwrap_or(false),
        web_port: port_or_default(configured),
    }
}

/// The path of the background image under the given configuration.
pub fn background_image_path(config: &serde_json::Value) -> (r: Option<String>)
    ensures
        r is Some <==> background_image(json_view(*config)) is Some,
        r matches Some(path) ==> Some(path@) == background_image(json_view(*config)),
{
    match setting_of(config, "backgroundImage") {
        Some(value) => match value.as_str() {
            Some(path) => if path.is_empty() {
                None
            } else {
                Some(path.to_owned())
            },
            None => None,
        },
        None => None,
    }
}

/// The port to serve on is never zero, and the default is taken for a configuration without
/// settings; the local network is let in only where the settings say so.
pub proof fn law_settings_by_default(config: JsonView)
    ensures
        web_port(config) > 0,
        member(config, "settings"@) is None ==> web_port(config) == DEFAULT_PORT && !lan_access(config)
            && background_image(config) is None,
        !(config is Object) ==> member(config, "settings"@) is None,
        setting(config, "allowLanAccess"@) is None ==> !lan_access(config),
{
}

/// Every port but zero can be configured.
pub proof fn law_any_port_can_be_set(config: JsonView, port: u16)
    requires
        port > 0,
        setting(config, "webServerPort"@) matches Some(JsonView::Number { whole, .. }) && whole == Some(
            port as u64,
        ),
    ensures
        web_port(config) == port,
{
}

/// The local network is let in exactly where the configuration is an object with an object
/// `settings` whose member `allowLanAccess` is the boolean `true`.
pub proof fn law_when_the_network_is_let_in(config: JsonView)
    ensures
        lan_access(config) <==> {
            &&& config matches JsonView::Object(top)
            &&& top.contains_key("settings"@)
            &&& top["settings"@] matches JsonView::Object(settings)
            &&& settings.contains_key("allowLanAccess"@)
            &&& settings["allowLanAccess"@] == JsonView::Bool(true)
        },
{
}

/// Settings that agree on one member agree on what is read from it, whatever else they hold and
/// whatever stands beside them.
pub proof fn law_each_setting_stands_alone(
    a: Map<Seq<char>, JsonView>,
    b: Map<Seq<char>, JsonView>,
    in_a: Map<Seq<char>, JsonView>,
    in_b: Map<Seq<char>, JsonView>,
    key: Seq<char>,
)
    requires
        a.contains_key("settings"@) && a["settings"@] == JsonView::Object(in_a),
        b.contains_key("settings"@) && b["settings"@] == JsonView::Object(in_b),
        in_a.contains_key(key) == in_b.contains_key(key),
        in_a.contains_key(key) ==> in_a[key] == in_b[key],
    ensures
        key == "allowLanAccess"@ ==> lan_access(JsonView::Object(a)) == lan_access(
            JsonView::Object(b),
        ),
        key == "webServerPort"@ ==> web_port(JsonView::Object(a)) == web_port(JsonView::Object(b)),
        key == "backgroundImage"@ ==> background_image(JsonView::Object(a)) == background_image(
            JsonView::Object(b),
        ),
{
}

/// What a member of the settings gives: a number from 1 to 65535 is the port, any other value leaves
/// the default; the boolean `true` lets the network in, any other value does not; a text that is not
/// empty is the background image, any other value is none.
pub proof fn law_what_a_setting_gives(
    top: Map<Seq<char>, JsonView>,
    settings: Map<Seq<char>, JsonView>,
    value: JsonView,
)
    requires
        top.contains_key("settings"@),
        top["settings"@] == JsonView::Object(settings),
    ensures
        settings.contains_key("webServerPort"@) && settings["webServerPort"@] == value ==> (web_port(
            JsonView::Object(top),
        ) as int == (match value {
            JsonView::Number { whole: Some(n), .. } => if 1 <= n && n <= 65535 {
                n as int
            } else {
                12701
            },
            _ => 12701,
        })),
        !settings.contains_key("webServerPort"@) ==> web_port(JsonView::Object(top)) == 12701,
        settings.contains_key("allowLanAccess"@) && settings["allowLanAccess"@] == value ==> (
        lan_access(JsonView::Object(top)) <==> value == JsonView::Bool(true)),
        !settings.contains_key("allowLanAccess"@) ==> !lan_access(JsonView::Object(top)),
        settings.contains_key("backgroundImage"@) && settings["backgroundImage"@] == value ==> (
        background_image(JsonView::Object(top)) == (match value {
            JsonView::Text(path) => if path.len() == 0 {
                None
            } else {
                Some(path)
            },
            _ => None,
        })),
        !settings.contains_key("backgroundImage"@) ==> background_image(JsonView::Object(top)) is None,
{
}

/// A configuration that is no object, or has no object `settings`, gives the defaults alone.
pub proof fn law_without_settings(config: JsonView)
    requires
        !(config matches JsonView::Object(top) && top.contains_key("settings"@)
            && top["settings"@] is Object),
    ensures
        web_port(config) == 12701,
        !lan_access(config),
        background_image(config) is None,
{
}

} // verus!
