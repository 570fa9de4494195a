use blenny::error::BlennyError;

#[test]
fn status_codes_and_kinds() {
    let n = BlennyError::NotFound("page".into());
    let u = BlennyError::Unauthorized("who".into());
    let i = BlennyError::Internal("boom".into());
    assert_eq!(n.status_code(), 404);
    assert_eq!(u.status_code(), 401);
    assert_eq!(i.status_code(), 500);
    assert_eq!(n.kind_name(), "NotFound");
    assert_eq!(u.kind_name(), "Unauthorized");
    assert_eq!(i.kind_name(), "Internal");
}

#[test]
fn panic_error_body() {
    let e = BlennyError::Internal("Request handler panicked".into());
    assert_eq!(
        e.json_body(),
        r#"{"error":{"message":"Request handler panicked","type":"Internal"}}"#
    );
    let v: serde_json::Value = serde_json::from_str(&e.json_body()).unwrap();
    assert_eq!(v["error"]["type"], "Internal");
    assert_eq!(v["error"]["message"], "Request handler panicked");
}

#[test]
fn error_body_escapes_message() {
    let e = BlennyError::NotFound("a \"quoted\" \\ path\n\u{1}".into());
    assert_eq!(
        e.json_body(),
        "{\"error\":{\"message\":\"a \\\"quoted\\\" \\\\ path\\n\\u0001\",\"type\":\"NotFound\"}}"
    );
}

#[test]
fn display_text() {
    assert_eq!(BlennyError::Unauthorized("no token".into()).to_display_string(), "Unauthorized: no token");
    assert_eq!(BlennyError::Internal("x".into()).to_display_string(), "Internal error: x");
    assert_eq!(BlennyError::NotFound("y".into()).to_display_string(), "Not found: y");
}
