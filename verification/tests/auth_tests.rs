use blenny::auth::{auth_decision, is_public_path, AuthDecision, User};
use blenny::modules::AuthModule;

#[test]
fn token_from_cookie() {
    let t = User::token_from_headers(Some("theme=dark; blenny_token=abc.def; x=1"), None);
    assert_eq!(t.as_deref(), Some("abc.def"));
}

#[test]
fn cookie_token_is_trimmed_and_first_wins() {
    let t = User::token_from_headers(Some(" blenny_token = tok1 ; blenny_token=tok2"), None);
    assert_eq!(t.as_deref(), Some("tok1"));
}

#[test]
fn cookie_wins_over_bearer() {
    let t = User::token_from_headers(Some("blenny_token=c"), Some("Bearer b"));
    assert_eq!(t.as_deref(), Some("c"));
}

#[test]
fn bearer_used_without_cookie_token() {
    assert_eq!(User::token_from_headers(Some("other=1"), Some("Bearer xyz")).as_deref(), Some("xyz"));
    assert_eq!(User::token_from_headers(None, Some("Bearer xyz")).as_deref(), Some("xyz"));
    assert_eq!(User::token_from_headers(None, Some("Basic xyz")), None);
    assert_eq!(User::token_from_headers(None, None), None);
}

#[test]
fn cookie_separator_is_semicolon_space() {
    // without the space the whole header is one cookie whose value runs on
    let t = User::token_from_headers(Some("a=1;blenny_token=z"), None);
    assert_eq!(t, None);
    let u = User::token_from_headers(Some("blenny_token=z;a=1"), None);
    assert_eq!(u.as_deref(), Some("z;a=1"));
}

#[test]
fn cookie_without_equals_is_skipped() {
    let t = User::token_from_headers(Some("blenny_token; blenny_token=v"), None);
    assert_eq!(t.as_deref(), Some("v"));
}

#[test]
fn guard_lets_public_paths_through() {
    let public = vec!["/login".to_string(), "/logout".to_string()];
    assert!(is_public_path("/login", &public));
    assert!(!is_public_path("/login/", &public));
    assert!(matches!(auth_decision("/logout", &public, None), AuthDecision::Public));
}

#[test]
fn guard_authenticates_or_redirects() {
    let public = vec!["/login".to_string()];
    let user = User { id: "admin".to_string() };
    match auth_decision("/dashboard", &public, Some(user)) {
        AuthDecision::Authenticated(u) => assert_eq!(u.id, "admin"),
        _ => panic!("expected an authenticated request"),
    }
    assert!(matches!(auth_decision("/dashboard", &public, None), AuthDecision::RedirectToLogin));
}

#[test]
fn login_credentials() {
    assert!(AuthModule::check_credentials(Some("admin"), Some("password")));
    assert!(!AuthModule::check_credentials(Some("admin"), Some("wrong")));
    assert!(!AuthModule::check_credentials(None, Some("password")));
    assert!(!AuthModule::check_credentials(Some("admin"), None));
}

#[test]
fn login_claims_expire_after_a_day() {
    let c = AuthModule::login_claims("admin", 1_700_000_000);
    assert_eq!(c.sub, "admin");
    assert_eq!(c.exp, 1_700_086_400);
}

#[test]
fn login_greeting_text() {
    assert_eq!(AuthModule::login_greeting("admin"), "User admin logged in");
}

#[test]
fn auth_module_public_paths() {
    assert_eq!(AuthModule.public_paths(), vec!["/login", "/logout"]);
}
