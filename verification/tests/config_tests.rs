use blenny::config::{
    default_encoder, default_jwt_secret, default_port, default_transport_auth_required,
    default_websocket, BlennyConfig, ConfigLayer,
};

#[test]
fn defaults_are_documented_values() {
    assert_eq!(default_port(), 8081);
    assert_eq!(default_jwt_secret(), "dev-secret");
    assert_eq!(default_encoder(), "standard");
    assert!(!default_websocket());
    assert!(default_transport_auth_required());
    let c = BlennyConfig::default();
    assert_eq!(c.port, 8081);
    assert_eq!(c.template_dir, None);
    assert_eq!(c.jwt_secret, "dev-secret");
    assert_eq!(c.jwt_secret_file, None);
    assert_eq!(c.encoder, "standard");
    assert!(!c.websocket);
    assert!(c.transport_auth_required);
    assert_eq!(c.database_url, None);
}

#[test]
fn empty_layers_give_defaults() {
    let c = BlennyConfig::from_layers(ConfigLayer::empty(), ConfigLayer::empty());
    assert_eq!(c.port, 8081);
    assert_eq!(c.jwt_secret, "dev-secret");
    assert_eq!(c.encoder, "standard");
    assert!(!c.websocket);
    assert!(c.transport_auth_required);
}

#[test]
fn environment_wins_over_file_and_file_over_defaults() {
    let mut env = ConfigLayer::empty();
    env.port = Some(9000);
    env.encoder = Some("datastar".to_string());
    let mut file = ConfigLayer::empty();
    file.port = Some(7000);
    file.websocket = Some(true);
    file.jwt_secret = Some("from-file".to_string());
    file.database_url = Some("ws://localhost:8000".to_string());
    let c = BlennyConfig::from_layers(env, file);
    assert_eq!(c.port, 9000);
    assert_eq!(c.encoder, "datastar");
    assert!(c.websocket);
    assert_eq!(c.jwt_secret, "from-file");
    assert_eq!(c.database_url.as_deref(), Some("ws://localhost:8000"));
    assert!(c.transport_auth_required);
}

#[test]
fn secret_file_contents_replace_secret_trimmed() {
    let c = BlennyConfig::default().with_secret_file_contents(Some("  s3cret\n"));
    assert_eq!(c.jwt_secret, "s3cret");
    let d = BlennyConfig::default().with_secret_file_contents(None);
    assert_eq!(d.jwt_secret, "dev-secret");
}

#[test]
fn secret_file_path_prefers_configured_file() {
    let mut c = BlennyConfig::default();
    assert_eq!(c.secret_file_path(Some("/env/path".to_string())).as_deref(), Some("/env/path"));
    assert_eq!(c.secret_file_path(None), None);
    c.jwt_secret_file = Some("/cfg/path".to_string());
    assert_eq!(c.secret_file_path(Some("/env/path".to_string())).as_deref(), Some("/cfg/path"));
}
