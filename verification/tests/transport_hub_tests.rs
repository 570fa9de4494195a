use blenny::transport::{BroadcastError, ServerMessage, TransportHub, TransportHubConfig};

#[test]
fn global_broadcast_reaches_subscriber() {
    let mut hub = TransportHub::new();
    let mut rx = hub.subscribe();

    hub.broadcast_html("<p>hello</p>");

    let msg = rx.try_recv().unwrap();
    assert_eq!(msg.category, "ui");
    assert_eq!(msg.html.unwrap(), "<p>hello</p>");
}

#[test]
fn topic_pub_sub_works() {
    let mut hub = TransportHub::new();
    let mut rx = hub.subscribe_topic("test.topic")
        .expect("Failed to subscribe to topic");

    let _ = hub.publish("test.topic", "hello".into());

    let msg = rx.try_recv().unwrap();
    assert_eq!(msg, "hello");
}

#[test]
fn topic_created_on_subscribe() {
    let mut hub = TransportHub::new();
    let mut rx = hub.subscribe_topic("new.topic")
        .expect("Failed to subscribe to topic");
    // Must be able to publish and receive even though publish never called before
    let _ = hub.publish("new.topic", "first".into());
    let msg = rx.try_recv().unwrap();
    assert_eq!(msg, "first");
}

#[test]
fn topic_multiple_subscribers_all_receive() {
    let mut hub = TransportHub::new();
    let mut rx1 = hub.subscribe_topic("multi")
        .expect("Failed to subscribe to topic");
    let mut rx2 = hub.subscribe_topic("multi")
        .expect("Failed to subscribe to topic");

    let _ = hub.publish("multi", "broadcast".into());

    let msg1 = rx1.try_recv().unwrap();
    let msg2 = rx2.try_recv().unwrap();
    assert_eq!(msg1, "broadcast");
    assert_eq!(msg2, "broadcast");
}

#[test]
fn global_broadcast_only_goes_to_global_subscribers() {
    let mut hub = TransportHub::new();
    let mut global_rx = hub.subscribe();
    let mut topic_rx = hub.subscribe_topic("some.topic").unwrap();

    hub.broadcast_html("global");
    let _ = hub.publish("some.topic", "topic".into());

    let global_msg = global_rx.try_recv().unwrap();
    assert_eq!(global_msg.html.unwrap(), "global");

    let topic_msg = topic_rx.try_recv().unwrap();
    assert_eq!(topic_msg, "topic");

    // After receiving the topic message, global subscriber should not have it
    assert!(global_rx.try_recv().is_err());
}

#[test]
fn publish_without_subscribers_reports_no_receivers() {
    let mut hub = TransportHub::new();
    assert_eq!(hub.publish("lonely", "x".into()), Err(BroadcastError::NoReceivers));
    // the topic now exists; a subscriber that joins later receives later messages
    let mut rx = hub.subscribe_topic("lonely").unwrap();
    assert_eq!(hub.publish("lonely", "y".into()), Ok(()));
    assert_eq!(rx.try_recv().unwrap(), "y");
}

#[test]
fn topics_are_separate() {
    let mut hub = TransportHub::new();
    let mut a = hub.subscribe_topic("a").unwrap();
    let mut b = hub.subscribe_topic("b").unwrap();
    let _ = hub.publish("a", "for a".into());
    assert_eq!(a.try_recv().unwrap(), "for a");
    assert!(b.try_recv().is_err());
}

#[test]
fn broadcast_data_is_tagged_data() {
    let mut hub = TransportHub::new();
    let mut rx = hub.subscribe();
    hub.broadcast_data("{\"n\":1}");
    let msg = rx.try_recv().unwrap();
    assert_eq!(msg.category, "data");
    assert_eq!(msg.html, None);
    assert_eq!(msg.signals.as_deref(), Some("{\"n\":1}"));
}

#[test]
fn broadcast_passes_message_through() {
    let mut hub = TransportHub::new();
    let mut rx = hub.subscribe();
    hub.broadcast(ServerMessage { category: "command".into(), html: Some("x()".into()), signals: None });
    let msg = rx.try_recv().unwrap();
    assert_eq!(msg.category, "command");
    assert_eq!(msg.html.as_deref(), Some("x()"));
}

#[test]
fn direct_message_reaches_only_that_user() {
    let mut hub = TransportHub::new();
    let (mut alice1, h1) = hub.register_user("alice").unwrap();
    let (mut alice2, h2) = hub.register_user("alice").unwrap();
    let (mut bob, h3) = hub.register_user("bob").unwrap();
    let mut global = hub.subscribe();

    hub.direct_html_to_user("alice", "<p>hi alice</p>");

    assert_eq!(alice1.try_recv().unwrap().html.as_deref(), Some("<p>hi alice</p>"));
    assert_eq!(alice2.try_recv().unwrap().html.as_deref(), Some("<p>hi alice</p>"));
    assert!(bob.try_recv().is_err());
    assert!(global.try_recv().is_err());

    hub.direct_data_to_user("bob", "{}");
    let m = bob.try_recv().unwrap();
    assert_eq!(m.category, "data");
    assert_eq!(m.signals.as_deref(), Some("{}"));

    hub.release(h1);
    hub.release(h2);
    hub.release(h3);
}

#[test]
fn released_connection_gets_no_more_messages() {
    let mut hub = TransportHub::new();
    let (mut rx1, h1) = hub.register_user("carol").unwrap();
    let (mut rx2, h2) = hub.register_user("carol").unwrap();
    hub.release(h1);
    hub.direct_html_to_user("carol", "after");
    assert!(rx1.try_recv().is_err());
    assert_eq!(rx2.try_recv().unwrap().html.as_deref(), Some("after"));
    hub.release(h2);
    hub.direct_html_to_user("carol", "gone");
    assert!(rx2.try_recv().is_err());
}

#[test]
fn direct_message_to_unknown_user_is_dropped() {
    let mut hub = TransportHub::new();
    hub.direct_html_to_user("nobody", "x");
}

#[test]
fn hub_with_custom_buffers() {
    let cfg = TransportHubConfig { global_broadcast_buffer: 1, topic_buffer: 2, user_buffer: 3 };
    let mut hub = TransportHub::with_config(cfg);
    let mut rx = hub.subscribe();
    hub.broadcast_html("a");
    hub.broadcast_html("b");
    // a buffer of one keeps only the latest message; the receiver lags
    assert!(rx.try_recv().is_err());
    assert_eq!(rx.try_recv().unwrap().html.as_deref(), Some("b"));
}

#[test]
fn default_hub_config_buffers() {
    let c = TransportHubConfig::default();
    assert_eq!(c.global_broadcast_buffer, 256);
    assert_eq!(c.topic_buffer, 64);
    assert_eq!(c.user_buffer, 64);
}

#[test]
fn broadcast_error_messages() {
    assert_eq!(BroadcastError::NoReceivers.message(), "No receivers for this message");
    assert_eq!(BroadcastError::HubPoisoned.message(), "Hub state is poisoned");
}

#[test]
fn topic_channel_is_the_subscribed_channel() {
    let mut hub = TransportHub::new();
    let mut rx = hub.subscribe_topic("news").unwrap();
    let tx = hub.topic_channel("news");
    tx.send("direct".to_string()).unwrap();
    assert_eq!(rx.try_recv().unwrap(), "direct");
}

#[test]
fn hub_builds_before_topic_and_user_buffers_are_used() {
    let cfg = TransportHubConfig { global_broadcast_buffer: 4, topic_buffer: 0, user_buffer: 0 };
    let mut hub = TransportHub::with_config(cfg);
    let mut rx = hub.subscribe();
    hub.broadcast_data("{}");
    let msg = rx.try_recv().unwrap();
    assert_eq!(msg.category, "data");
    assert_eq!(msg.signals.as_deref(), Some("{}"));
}

#[test]
fn direct_message_reaches_every_connection_of_the_user() {
    let mut hub = TransportHub::new();
    let (mut rx1, _h1) = hub.register_user("dora").unwrap();
    let (mut rx2, _h2) = hub.register_user("dora").unwrap();
    hub.direct_html_to_user("dora", "<b>both</b>");
    assert_eq!(rx1.try_recv().unwrap().html.as_deref(), Some("<b>both</b>"));
    assert_eq!(rx2.try_recv().unwrap().html.as_deref(), Some("<b>both</b>"));
    hub.direct_data_to_user("nobody", "{}");
    assert!(rx1.try_recv().is_err());
    assert!(rx2.try_recv().is_err());
}

#[test]
fn direct_message_reaches_neither_other_user_nor_global() {
    let mut hub = TransportHub::new();
    let (mut ra, _ha) = hub.register_user("a").unwrap();
    let (mut rb, _hb) = hub.register_user("b").unwrap();
    let mut g = hub.subscribe();
    hub.direct_html_to_user("a", "<p>x</p>");
    let m = ra.try_recv().unwrap();
    assert_eq!(m.category, "ui");
    assert_eq!(m.html.as_deref(), Some("<p>x</p>"));
    assert_eq!(m.signals, None);
    assert!(rb.try_recv().is_err());
    assert!(g.try_recv().is_err());
}

#[test]
fn topics_do_not_share_channels() {
    let mut hub = TransportHub::new();
    let mut one = hub.subscribe_topic("one").unwrap();
    let mut two = hub.subscribe_topic("two").unwrap();
    let _ = hub.publish("one", "for one".into());
    assert_eq!(one.try_recv().unwrap(), "for one");
    assert!(two.try_recv().is_err());
}

#[test]
fn released_connection_leaves_the_other() {
    let mut hub = TransportHub::new();
    let (mut r1, h1) = hub.register_user("u").unwrap();
    let (mut r2, h2) = hub.register_user("u").unwrap();
    hub.release(h1);
    hub.direct_data_to_user("u", "{\"n\":2}");
    assert_eq!(r2.try_recv().unwrap().signals.as_deref(), Some("{\"n\":2}"));
    assert!(r1.try_recv().is_err());
    hub.release(h2);
    hub.direct_data_to_user("u", "{}");
    assert!(r2.try_recv().is_err());
}
