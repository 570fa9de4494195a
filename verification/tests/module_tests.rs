use blenny::module_attrs::{module_spec, parse_module_attribute, parse_module_attrs, AttrMeta, AttrValue};
use blenny::modules::TestBroadcastModule;

fn nv(key: &str, value: AttrValue) -> AttrMeta {
    AttrMeta { key: Some(key.to_string()), value: Some(value) }
}

#[test]
fn module_attribute_settings() {
    let metas = vec![
        nv("route_handler", AttrValue::Str("dashboard_routes".into())),
        nv("initialize_handler", AttrValue::Str("initialize_module".into())),
        nv("scope", AttrValue::Str("/admin".into())),
        nv("enable", AttrValue::Bool(false)),
        nv("public_routes", AttrValue::Array(vec![AttrValue::Str("/a".into()), AttrValue::Bool(true), AttrValue::Str("/b".into())])),
        nv("unknown", AttrValue::Other),
    ];
    let attrs = parse_module_attrs(&metas).unwrap();
    assert_eq!(attrs.route_handler.as_deref(), Some("dashboard_routes"));
    assert_eq!(attrs.scope.as_deref(), Some("/admin"));
    assert_eq!(attrs.enable, Some(false));
    let spec = module_spec("DashboardModule", &attrs);
    assert_eq!(spec.name, "DashboardModule");
    assert!(!spec.enabled);
    assert_eq!(spec.prefix.as_deref(), Some("/admin"));
    assert_eq!(spec.public_routes, vec!["/a".to_string(), "/b".to_string()]);
    assert_eq!(spec.route_handler.as_deref(), Some("dashboard_routes"));
    assert_eq!(spec.initialize_handler.as_deref(), Some("initialize_module"));
}

#[test]
fn path_wins_over_scope_and_modules_default_enabled() {
    let metas = vec![
        nv("scope", AttrValue::Str("/s".into())),
        nv("path", AttrValue::Str("/p".into())),
    ];
    let spec = module_spec("M", &parse_module_attrs(&metas).unwrap());
    assert_eq!(spec.prefix.as_deref(), Some("/p"));
    assert!(spec.enabled);
    assert!(spec.public_routes.is_empty());
    assert_eq!(spec.route_handler, None);
}

#[test]
fn later_item_replaces_earlier() {
    let metas = vec![nv("path", AttrValue::Str("/one".into())), nv("path", AttrValue::Str("/two".into()))];
    assert_eq!(parse_module_attrs(&metas).unwrap().path.as_deref(), Some("/two"));
}

#[test]
fn attribute_errors() {
    let bad_lit = vec![nv("path", AttrValue::Bool(true))];
    assert_eq!(parse_module_attrs(&bad_lit).unwrap_err().message, "expected string literal for path");
    let bad_shape = vec![AttrMeta { value: None, key: Some("route_handler".into()) }];
    assert_eq!(parse_module_attrs(&bad_shape).unwrap_err().message, "expected route_handler = \"fn_name\"");
    let bad_bool = vec![nv("enable", AttrValue::Str("yes".into()))];
    assert_eq!(parse_module_attrs(&bad_bool).unwrap_err().message, "expected boolean literal for enable");
    let bad_enable_shape = vec![AttrMeta { value: None, key: Some("enable".into()) }];
    assert_eq!(parse_module_attrs(&bad_enable_shape).unwrap_err().message, "expected enable = true/false");
    let bad_array = vec![nv("public_routes", AttrValue::Str("/x".into()))];
    assert_eq!(parse_module_attrs(&bad_array).unwrap_err().message, "expected array literal for public_routes");
    let bad_scope = vec![AttrMeta { value: None, key: Some("scope".into()) }];
    assert_eq!(parse_module_attrs(&bad_scope).unwrap_err().message, "expected scope = \"...\"");
    let bad_init = vec![nv("initialize_handler", AttrValue::Other)];
    assert_eq!(parse_module_attrs(&bad_init).unwrap_err().message, "expected string literal for initialize_handler");
    let bad_routes_shape = vec![AttrMeta { value: None, key: Some("public_routes".into()) }];
    assert_eq!(parse_module_attrs(&bad_routes_shape).unwrap_err().message, "expected public_routes = [...]");
}

#[test]
fn first_error_wins_and_long_paths_are_unknown() {
    let metas = vec![
        AttrMeta { key: None, value: None },
        nv("path", AttrValue::Other),
        nv("scope", AttrValue::Other),
    ];
    assert_eq!(parse_module_attrs(&metas).unwrap_err().message, "expected string literal for path");
}

#[test]
fn test_broadcast_module_settings() {
    assert_eq!(TestBroadcastModule.name(), "TestBroadcast");
    assert_eq!(TestBroadcastModule.public_routes(), vec!["/test-page".to_string(), "/trigger-broadcast".to_string()]);
}

#[test]
fn trigger_messages() {
    let d = TestBroadcastModule::trigger_message("data", "12:00:00");
    assert_eq!(d.category, "data");
    assert_eq!(d.html, None);
    assert_eq!(d.signals.as_deref(), Some(r#"{"stock":"BLEN","price":42,"ts":"12:00:00"}"#));
    let c = TestBroadcastModule::trigger_message("command", "12:00:00");
    assert_eq!(c.html.as_deref(), Some("console.log('command at 12:00:00')"));
    let u = TestBroadcastModule::trigger_message("ui", "12:00:00");
    assert_eq!(u.html.as_deref(), Some("<p>Broadcasted ui at 12:00:00</p>"));
    assert_eq!(TestBroadcastModule::trigger_category(None), "ui");
    assert_eq!(TestBroadcastModule::trigger_category(Some("data".into())), "data");
    assert_eq!(TestBroadcastModule::trigger_reply("ui"), "Sent ui");
}

#[test]
fn module_attribute_text_is_read() {
    let attrs = parse_module_attribute(
        r#"route_handler = "routes", path = "/api", enable = false, public_routes = ["/x", 1, "/y", "/x"]"#,
    )
    .unwrap();
    assert_eq!(attrs.route_handler.as_deref(), Some("routes"));
    assert_eq!(attrs.path.as_deref(), Some("/api"));
    assert_eq!(attrs.enable, Some(false));
    assert_eq!(attrs.public_routes.as_ref().map(|v| v.len()), Some(4));
    let spec = module_spec("ApiModule", &attrs);
    assert_eq!(spec.prefix.as_deref(), Some("/api"));
    assert_eq!(spec.public_routes, vec!["/x".to_string(), "/y".to_string()]);
}

#[test]
fn empty_module_attribute_text_gives_defaults() {
    let attrs = parse_module_attribute("").unwrap();
    let spec = module_spec("Plain", &attrs);
    assert!(spec.enabled);
    assert_eq!(spec.prefix, None);
    assert!(spec.public_routes.is_empty());
    assert_eq!(spec.route_handler, None);
}

#[test]
fn module_attribute_text_errors() {
    assert_eq!(parse_module_attribute("path = 1").unwrap_err().message, "expected string literal for path");
    assert_eq!(parse_module_attribute(r#"enable = "yes""#).unwrap_err().message, "expected boolean literal for enable");
    assert_eq!(parse_module_attribute("scope").unwrap_err().message, "expected scope = \"...\"");
    assert!(parse_module_attribute("path = ").is_err());
    assert!(parse_module_attribute("= = =").is_err());
}
