use blenny::encoder::{DatastarEncoder, StandardEncoder, TransportEncoder};
use blenny::transport::ServerMessage;

#[test]
fn standard_encoder_sends_html_as_data() {
    let encoder = StandardEncoder;
    let msg = ServerMessage {
        category: "ui".into(),
        html: Some("<p>Hello</p>".to_string()),
        signals: None,
    };
    let encoded = encoder.encode(&msg);
    let encoded_str = String::from_utf8(encoded).unwrap();
    // Standard encoder produces just the HTML payload
    assert_eq!(encoded_str, "<p>Hello</p>");
}

#[test]
fn standard_encoder_sends_signals_as_data() {
    let encoder = StandardEncoder;
    let msg = ServerMessage {
        category: "data".into(),
        html: None,
        signals: Some(r#"{"key":"value"}"#.to_string()),
    };
    let encoded = encoder.encode(&msg);
    let encoded_str = String::from_utf8(encoded).unwrap();
    // Standard encoder produces just the signals payload
    assert_eq!(encoded_str, r#"{"key":"value"}"#);
}

#[test]
fn datastar_ui_event_has_correct_type() {
    let encoder = DatastarEncoder;
    let msg = ServerMessage {
        category: "ui".into(),
        html: Some("<p>Hello</p>".to_string()),
        signals: None,
    };
    let encoded = encoder.encode(&msg);
    let encoded_str = String::from_utf8(encoded).unwrap();
    assert_eq!(encoded_str, "<p>Hello</p>");
}

#[test]
fn datastar_data_event_uses_signals() {
    let encoder = DatastarEncoder;
    let msg = ServerMessage {
        category: "data".into(),
        html: None,
        signals: Some(r#"{"stock":"BLEN"}"#.to_string()),
    };
    let encoded = encoder.encode(&msg);
    let encoded_str = String::from_utf8(encoded).unwrap();
    assert_eq!(encoded_str, r#"{"stock":"BLEN"}"#);
}

#[test]
fn datastar_unknown_category_uses_blenny_notification() {
    let encoder = DatastarEncoder;
    let msg = ServerMessage {
        category: "notification".into(),
        html: Some("<p>Alert</p>".to_string()),
        signals: None,
    };
    let encoded = encoder.encode(&msg);
    let encoded_str = String::from_utf8(encoded).unwrap();
    assert_eq!(encoded_str, "<p>Alert</p>");
}

fn msg(category: &str, html: Option<&str>, signals: Option<&str>) -> ServerMessage {
    ServerMessage {
        category: category.to_string(),
        html: html.map(|h| h.to_string()),
        signals: signals.map(|s| s.to_string()),
    }
}

#[test]
fn standard_encoder_empty_message_encodes_nothing() {
    let encoded = StandardEncoder.encode(&msg("ui", None, None));
    assert!(encoded.is_empty());
}

#[test]
fn standard_encoder_prefers_html_over_signals() {
    let encoded = StandardEncoder.encode(&msg("data", Some("<b>x</b>"), Some("{}")));
    assert_eq!(encoded, b"<b>x</b>".to_vec());
}

#[test]
fn standard_encoder_encodes_utf8() {
    let encoded = StandardEncoder.encode(&msg("ui", Some("héllo ✓"), None));
    assert_eq!(encoded, "héllo ✓".as_bytes().to_vec());
}

#[test]
fn standard_event_is_untyped_with_payload() {
    let ev = StandardEncoder.to_event(&msg("ui", Some("<p>a</p>"), None));
    assert_eq!(ev.event, None);
    assert_eq!(ev.data, Some("<p>a</p>".to_string()));
}

#[test]
fn standard_encoder_filters_server_side() {
    assert!(!StandardEncoder.filters_client_side());
    assert_eq!(StandardEncoder.content_type(), "text/event-stream");
}

#[test]
fn datastar_encoder_filters_client_side() {
    assert!(DatastarEncoder.filters_client_side());
    assert_eq!(DatastarEncoder.content_type(), "text/event-stream");
}

#[test]
fn datastar_command_and_data_payloads() {
    assert_eq!(DatastarEncoder.encode(&msg("command", Some("alert(1)"), Some("{}"))), b"alert(1)".to_vec());
    assert_eq!(DatastarEncoder.encode(&msg("data", Some("<p>x</p>"), None)), Vec::<u8>::new());
    assert_eq!(DatastarEncoder.encode(&msg("ui", None, Some("{}"))), Vec::<u8>::new());
    assert_eq!(DatastarEncoder.encode(&msg("notification", None, Some("{\"a\":1}"))), b"{\"a\":1}".to_vec());
}

#[test]
fn datastar_ui_event_patches_elements_line_by_line() {
    let ev = DatastarEncoder.to_event(&msg("ui", Some("<div>one</div>\n<div>two</div>"), None));
    assert_eq!(ev.event.as_deref(), Some("datastar-patch-elements"));
    assert_eq!(ev.data.as_deref(), Some("elements <div>one</div>\nelements <div>two</div>"));
}

#[test]
fn datastar_data_event_patches_signals() {
    let ev = DatastarEncoder.to_event(&msg("data", None, Some("{\"stock\":\"BLEN\"}")));
    assert_eq!(ev.event.as_deref(), Some("datastar-patch-signals"));
    assert_eq!(ev.data.as_deref(), Some("signals {\"stock\":\"BLEN\"}"));
}

#[test]
fn datastar_command_event_runs_script() {
    let ev = DatastarEncoder.to_event(&msg("command", Some("console.log(1)"), None));
    assert_eq!(ev.event.as_deref(), Some("datastar-patch-elements"));
    assert_eq!(
        ev.data.as_deref(),
        Some("selector body\nmode append\nelements <script data-effect=\"el.remove()\">console.log(1)</script>")
    );
}

#[test]
fn datastar_multiline_command_closes_on_last_line() {
    let ev = DatastarEncoder.to_event(&msg("command", Some("a()\r\nb()\nc()"), None));
    assert_eq!(
        ev.data.as_deref(),
        Some("selector body\nmode append\nelements <script data-effect=\"el.remove()\">a()\nelements b()\nelements c()</script>")
    );
}

#[test]
fn datastar_empty_ui_event_has_no_data() {
    let ev = DatastarEncoder.to_event(&msg("ui", None, None));
    assert_eq!(ev.event.as_deref(), Some("datastar-patch-elements"));
    assert_eq!(ev.data, None);
}

#[test]
fn datastar_unknown_category_falls_back_to_signals() {
    let ev = DatastarEncoder.to_event(&msg("notification", None, Some("{}")));
    assert_eq!(ev.event.as_deref(), Some("datastar-patch-elements"));
    assert_eq!(ev.data.as_deref(), Some("elements {}"));
}

#[test]
fn datastar_lines_keep_a_bare_carriage_return() {
    let ev = DatastarEncoder.to_event(&msg("ui", Some("a\r\n\nb\r"), None));
    assert_eq!(ev.data.as_deref(), Some("elements a\nelements \nelements b\r"));
    let t = DatastarEncoder.to_event(&msg("ui", Some("x\n"), None));
    assert_eq!(t.data.as_deref(), Some("elements x"));
}
