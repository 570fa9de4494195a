use blenny::builder::{
    choose_auth_provider, conduit_source, enabled_modules, infrastructure_routes, select_encoder,
    surreal_address, ConduitSource, EncoderKind,
};
use blenny::conduit::{after_reload_check, on_watch_event, template_file_name, template_texts, WatchAction, WatchEvent};
use blenny::static_assets::static_reply;

#[test]
fn disabled_modules_are_skipped() {
    assert_eq!(enabled_modules(&vec![true, false, true]), vec![0, 2]);
    assert!(enabled_modules(&vec![]).is_empty());
}

#[test]
fn first_auth_provider_is_used() {
    assert_eq!(choose_auth_provider(0), (None, false));
    assert_eq!(choose_auth_provider(1), (Some(0), false));
    assert_eq!(choose_auth_provider(3), (Some(0), true));
}

#[test]
fn encoder_selection() {
    assert_eq!(select_encoder("datastar"), EncoderKind::Datastar);
    assert_eq!(select_encoder("standard"), EncoderKind::Standard);
    assert_eq!(select_encoder("other"), EncoderKind::Standard);
}

#[test]
fn template_source_choice() {
    assert!(matches!(conduit_source(true, &Some("x".into()), true), ConduitSource::Provided));
    match conduit_source(false, &Some("tpl".into()), false) {
        ConduitSource::HotReload(d) => assert_eq!(d, "tpl"),
        _ => panic!("expected hot reload"),
    }
    match conduit_source(false, &None, true) {
        ConduitSource::HotReload(d) => assert_eq!(d, "templates"),
        _ => panic!("expected hot reload"),
    }
    assert!(matches!(conduit_source(false, &None, false), ConduitSource::Frozen));
}

#[test]
fn surreal_address_strips_websocket_scheme() {
    assert_eq!(surreal_address("ws://localhost:8000"), "localhost:8000");
    assert_eq!(surreal_address("wss://db.example:443"), "db.example:443");
    assert_eq!(surreal_address("https://cloud.surrealdb.com"), "https://cloud.surrealdb.com");
}

#[test]
fn infrastructure_routes_follow_websocket_flag() {
    assert_eq!(infrastructure_routes(false), vec!["/health", "/sse"]);
    assert_eq!(infrastructure_routes(true), vec!["/health", "/sse", "/ws"]);
}

#[test]
fn template_names_get_extension() {
    assert_eq!(template_file_name("auth/login"), "auth/login.tera");
    assert_eq!(template_file_name("auth/login.tera"), "auth/login.tera");
    assert_eq!(template_file_name(""), ".tera");
}

#[test]
fn reloads_are_debounced() {
    let (pending, action) = on_watch_event(false, WatchEvent::Modified);
    assert!(pending);
    assert_eq!(action, WatchAction::StartReload);
    let (pending, action) = on_watch_event(pending, WatchEvent::Modified);
    assert!(pending);
    assert_eq!(action, WatchAction::Ignore);
    assert_eq!(on_watch_event(pending, WatchEvent::Error), (true, WatchAction::ReportError));
    assert_eq!(on_watch_event(false, WatchEvent::Other), (false, WatchAction::Ignore));
    assert!(after_reload_check(true, false));
    assert!(!after_reload_check(true, true));
}

#[test]
fn static_replies() {
    let r = static_reply("css/site.css", true);
    assert_eq!(r.status, 200);
    assert_eq!(r.content_type.as_deref(), Some("text/css"));
    let u = static_reply("blob.unknownext", true);
    assert_eq!(u.content_type.as_deref(), Some("application/octet-stream"));
    let m = static_reply("missing.js", false);
    assert_eq!(m.status, 404);
    assert_eq!(m.content_type, None);
}

#[test]
fn embedded_templates_must_be_utf8() {
    let ok = vec![("a.tera".to_string(), "héllo".as_bytes().to_vec()), ("b.tera".to_string(), vec![])];
    let texts = template_texts(&ok).unwrap();
    assert_eq!(texts, vec![("a.tera".to_string(), "héllo".to_string()), ("b.tera".to_string(), String::new())]);
    let bad = vec![("a.tera".to_string(), b"ok".to_vec()), ("b.tera".to_string(), vec![0xff, 0xfe])];
    assert_eq!(template_texts(&bad), Err(1));
}
