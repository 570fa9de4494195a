use blenny::transport::query::QueryParams;
use blenny::transport::{
    admits, forwards, parse_intents, query_token, select_step, Listening, RecvOutcome, SelectStep, Source,
};
use blenny::transport::ServerMessage;

fn params(pairs: &[(&str, &str)]) -> QueryParams {
    let mut q = QueryParams::new();
    for (k, v) in pairs {
        q.insert(k.to_string(), v.to_string());
    }
    q
}

#[test]
fn no_intent_parameter_means_no_filter() {
    let (do_filter, intents) = parse_intents(&params(&[("token", "x")]));
    assert!(!do_filter);
    assert!(intents.is_empty());
}

#[test]
fn intents_are_split_trimmed_and_unique() {
    let (do_filter, intents) = parse_intents(&params(&[("intent", " ui, notification ,ui")]));
    assert!(do_filter);
    assert_eq!(intents, vec!["ui".to_string(), "notification".to_string()]);
}

#[test]
fn empty_intent_value_filters_everything_but_empty_category() {
    let (do_filter, intents) = parse_intents(&params(&[("intent", "")]));
    assert!(do_filter);
    assert_eq!(intents, vec!["".to_string()]);
    assert!(!forwards(true, do_filter, &intents, "ui"));
}

#[test]
fn later_query_value_replaces_earlier() {
    let q = params(&[("intent", "ui"), ("intent", "data")]);
    assert_eq!(q.get("intent").as_deref(), Some("data"));
    assert_eq!(q.get("missing"), None);
}

#[test]
fn forwarding_rules() {
    let intents = vec!["ui".to_string()];
    assert!(forwards(true, true, &intents, "ui"));
    assert!(!forwards(true, true, &intents, "data"));
    // without an intent parameter everything goes through
    assert!(forwards(true, false, &intents, "data"));
    // with client-side filtering the server forwards everything
    assert!(forwards(false, true, &intents, "data"));
}

#[test]
fn select_step_decisions() {
    let both = Listening { global: true, personal: true };
    let global_only = Listening { global: true, personal: false };
    let personal_only = Listening { global: false, personal: true };
    let none = Listening { global: false, personal: false };
    assert_eq!(select_step(both, Source::Global, RecvOutcome::Message), (SelectStep::Deliver, both));
    assert_eq!(select_step(both, Source::Personal, RecvOutcome::Lagged(3)), (SelectStep::Retry, both));
    assert_eq!(select_step(global_only, Source::Global, RecvOutcome::Lagged(1)), (SelectStep::Retry, global_only));
    assert_eq!(select_step(global_only, Source::Global, RecvOutcome::Closed), (SelectStep::Finish, none));
    assert_eq!(select_step(personal_only, Source::Personal, RecvOutcome::Closed), (SelectStep::Finish, none));
}

#[test]
fn closed_personal_channel_keeps_global_stream() {
    let both = Listening { global: true, personal: true };
    let (step, after) = select_step(both, Source::Personal, RecvOutcome::Closed);
    assert_eq!(step, SelectStep::Retry);
    assert_eq!(after, Listening { global: true, personal: false });
    assert_eq!(
        select_step(after, Source::Global, RecvOutcome::Message),
        (SelectStep::Deliver, Listening { global: true, personal: false })
    );
}

#[test]
fn closed_global_channel_keeps_personal_stream() {
    let both = Listening { global: true, personal: true };
    let (step, after) = select_step(both, Source::Global, RecvOutcome::Closed);
    assert_eq!(step, SelectStep::Retry);
    assert_eq!(after, Listening { global: false, personal: true });
    assert_eq!(select_step(after, Source::Personal, RecvOutcome::Closed).0, SelectStep::Finish);
}

#[test]
fn transport_admission() {
    assert!(!admits(true, false));
    assert!(admits(true, true));
    assert!(admits(false, false));
}

#[test]
fn query_token_prefers_token_parameter() {
    assert_eq!(query_token(&params(&[("blenny_token", "b"), ("token", "t")])).as_deref(), Some("t"));
    assert_eq!(query_token(&params(&[("blenny_token", "b")])).as_deref(), Some("b"));
    assert_eq!(query_token(&params(&[])), None);
}

#[test]
fn websocket_payload_is_html_else_signals() {
    let m = ServerMessage { category: "ui".into(), html: None, signals: Some("{}".into()) };
    assert_eq!(m.payload(), "{}");
    let n = ServerMessage { category: "ui".into(), html: None, signals: None };
    assert_eq!(n.payload(), "");
    let o = ServerMessage::ui("<p/>");
    assert_eq!(o.payload(), "<p/>");
    assert_eq!(ServerMessage::data("{}").category, "data");
}
