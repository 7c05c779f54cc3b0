use homecontrol_ui_server::actor::{Effect, Request, SubscriberActor};
use homecontrol_ui_server::message::{
    answer_or_no_response, payload_text, publish_reply, publish_request, qos_from_level,
    PublishMessage, Qos,
};

fn subscribe(actor: &mut SubscriberActor, topic: &str) -> (usize, bool) {
    match actor.handle(Request::Subscribe(topic.to_string())) {
        Effect::Watch {
            watcher,
            subscribe_broker,
        } => (watcher, subscribe_broker),
        _ => panic!("a subscribe must answer with a watcher"),
    }
}

#[test]
fn first_subscribe_creates_watcher_and_asks_for_broker_call() {
    let mut actor = SubscriberActor::new();
    assert_eq!(subscribe(&mut actor, "room1/temp"), (0, true));
    assert_eq!(actor.watcher_count(), 1);
    assert_eq!(actor.watcher_topic(0), "room1/temp");
    assert_eq!(actor.watcher_value(0), "");
}

#[test]
fn repeated_subscribe_is_idempotent() {
    let mut actor = SubscriberActor::new();
    subscribe(&mut actor, "a");
    assert_eq!(subscribe(&mut actor, "a"), (0, false));
    assert_eq!(actor.watcher_count(), 1);
}

#[test]
fn many_subscribes_issue_one_broker_call_and_share_the_watcher() {
    let mut actor = SubscriberActor::new();
    subscribe(&mut actor, "other");
    let mut broker_calls = 0;
    for _ in 0..10 {
        let (watcher, call) = subscribe(&mut actor, "shared");
        assert_eq!(watcher, 1);
        if call {
            broker_calls += 1;
        }
    }
    assert_eq!(broker_calls, 1);
    assert_eq!(actor.watcher_count(), 2);
    assert_eq!(actor.on_broker_message(&"shared".to_string(), b"v".to_vec()), Some(1));
    assert_eq!(actor.watcher_value(1), "v");
    assert_eq!(actor.watcher_value(0), "");
}

#[test]
fn distinct_topics_get_distinct_watchers() {
    let mut actor = SubscriberActor::new();
    assert_eq!(subscribe(&mut actor, "a"), (0, true));
    assert_eq!(subscribe(&mut actor, "b"), (1, true));
    assert_eq!(subscribe(&mut actor, "a"), (0, false));
}

#[test]
fn message_for_unsubscribed_topic_is_ignored() {
    let mut actor = SubscriberActor::new();
    subscribe(&mut actor, "a");
    assert_eq!(actor.on_broker_message(&"b".to_string(), b"x".to_vec()), None);
    assert_eq!(actor.watcher_count(), 1);
    assert_eq!(actor.watcher_value(0), "");
}

#[test]
fn message_before_any_subscribe_is_ignored() {
    let mut actor = SubscriberActor::new();
    assert_eq!(actor.on_broker_message(&"x".to_string(), b"1".to_vec()), None);
    assert_eq!(actor.watcher_count(), 0);
}

#[test]
fn published_payload_delivered_back_reaches_the_watcher_last_value_wins() {
    let mut actor = SubscriberActor::new();
    let (w, _) = subscribe(&mut actor, "lamp");
    let m = publish_request("lamp".to_string(), "on", 1, false);
    let (topic, value) = match actor.handle(Request::Publish(m)) {
        Effect::Publish(PublishMessage {
            topic,
            value,
            qos,
            retain,
        }) => {
            assert_eq!(qos, Qos::AtLeastOnce);
            assert!(!retain);
            (topic, value)
        }
        _ => panic!("a publish must go to the broker"),
    };
    assert_eq!(topic, "lamp");
    assert_eq!(value, b"on".to_vec());
    assert_eq!(actor.on_broker_message(&topic, value), Some(w));
    assert_eq!(actor.watcher_value(w), "on");
    assert_eq!(actor.on_broker_message(&topic, b"off".to_vec()), Some(w));
    assert_eq!(actor.watcher_value(w), "off");
    // a later subscriber sees the latest value at once
    assert_eq!(subscribe(&mut actor, "lamp"), (w, false));
    assert_eq!(actor.watcher_value(w), "off");
}

#[test]
fn invalid_utf8_payload_becomes_empty_text() {
    let mut actor = SubscriberActor::new();
    subscribe(&mut actor, "t");
    actor.on_broker_message(&"t".to_string(), b"x".to_vec());
    assert_eq!(actor.on_broker_message(&"t".to_string(), vec![0xff, 0xfe]), Some(0));
    assert_eq!(actor.watcher_value(0), "");
}

#[test]
fn payload_text_decodes_utf8() {
    assert_eq!(payload_text("21.5 °C".as_bytes().to_vec()), "21.5 °C");
    assert_eq!(payload_text(vec![0xc3]), "");
    assert_eq!(payload_text(vec![]), "");
}

#[test]
fn status_reports_liveness_text() {
    let mut actor = SubscriberActor::new();
    match actor.handle(Request::Status) {
        Effect::Reply(t) => assert_eq!(t, "implementation pending"),
        _ => panic!("status must answer"),
    }
}

#[test]
fn stopped_actor_answers_nothing() {
    let mut actor = SubscriberActor::new();
    subscribe(&mut actor, "a");
    assert!(actor.stop());
    assert!(!actor.is_running());
    assert!(!actor.stop());
    let m = PublishMessage::new("a".to_string(), b"1".to_vec(), Qos::AtMostOnce, false);
    assert!(matches!(actor.handle(Request::Publish(m)), Effect::Unanswered));
    assert!(matches!(
        actor.handle(Request::Subscribe("b".to_string())),
        Effect::Unanswered
    ));
    assert!(matches!(actor.handle(Request::Status), Effect::Unanswered));
    assert_eq!(actor.on_broker_message(&"a".to_string(), b"2".to_vec()), None);
    assert_eq!(actor.watcher_count(), 1);
    assert_eq!(actor.watcher_value(0), "");
    assert_eq!(answer_or_no_response(None), "No response");
}

#[test]
fn replies() {
    assert_eq!(publish_reply(true), "OK");
    assert_eq!(publish_reply(false), "Error");
    assert_eq!(answer_or_no_response(Some("OK".to_string())), "OK");
    assert_eq!(answer_or_no_response(None), "No response");
}

#[test]
fn qos_levels() {
    assert_eq!(qos_from_level(0), Qos::AtMostOnce);
    assert_eq!(qos_from_level(1), Qos::AtLeastOnce);
    assert_eq!(qos_from_level(2), Qos::ExactlyOnce);
    assert_eq!(qos_from_level(3), Qos::AtMostOnce);
    assert_eq!(qos_from_level(255), Qos::AtMostOnce);
}

#[test]
fn publish_request_keeps_fields() {
    let m = publish_request("t".to_string(), "é", 2, true);
    assert_eq!(m.topic, "t");
    assert_eq!(m.value, vec![0xc3, 0xa9]);
    assert_eq!(m.qos, Qos::ExactlyOnce);
    assert!(m.retain);
}
