use state_machine::actions::{
    after_attempt, build_action_list, collect_actions_for_state, dispatch_actions, AfterAttempt,
    MAX_RETRIES,
};
use state_machine::json::{values_equal, Value};
use state_machine::models::{ActionConfig, ActionDef, DispatchedAction};

fn webhook(on_enter: &str, region: Option<&str>) -> ActionDef {
    ActionDef {
        on_enter: on_enter.into(),
        region: region.map(|r| r.to_string()),
        action: ActionConfig::Webhook { url: "https://example.com/notify".into() },
    }
}

fn event(on_enter: &str) -> ActionDef {
    ActionDef {
        on_enter: on_enter.into(),
        region: None,
        action: ActionConfig::Event { event_type: "order.shipped".into() },
    }
}

fn object(fields: &[(&str, &str)]) -> Value {
    Value::Object(
        fields.iter().map(|(k, v)| (k.to_string(), Value::String(v.to_string()))).collect(),
    )
}

#[test]
fn actions_fire_on_their_state() {
    let actions = [webhook("shipped", None), event("shipped"), event("placed")];
    let fired = collect_actions_for_state(&actions, "shipped", None);
    assert_eq!(fired.len(), 2);
    assert_eq!(fired[0].0, "shipped");
    assert!(matches!(fired[1].1, ActionConfig::Event { .. }));
    assert!(collect_actions_for_state(&actions, "nowhere", None).is_empty());
}

#[test]
fn actions_may_be_confined_to_a_region() {
    let actions = [webhook("captured", Some("payment")), webhook("captured", None)];
    assert_eq!(collect_actions_for_state(&actions, "captured", Some("payment")).len(), 2);
    assert_eq!(collect_actions_for_state(&actions, "captured", Some("other")).len(), 1);
    let fired = collect_actions_for_state(&actions, "captured", None);
    assert_eq!(fired.len(), 1);
    assert_eq!(fired[0].2, None);
    let fired = collect_actions_for_state(&actions, "captured", Some("payment"));
    assert_eq!(fired[0].2.as_deref(), Some("payment"));
}

#[test]
fn actions_are_listed_without_being_sent() {
    let actions = [webhook("shipped", Some("r")), event("shipped")];
    let listed = build_action_list(collect_actions_for_state(&actions, "shipped", Some("r")));
    assert_eq!(listed.len(), 2);
    assert!(matches!(
        &listed[0],
        DispatchedAction::Webhook { url, state, region }
            if url == "https://example.com/notify" && state == "shipped"
                && region.as_deref() == Some("r")
    ));
    assert!(matches!(
        &listed[1],
        DispatchedAction::Event { event_type, state, region }
            if event_type == "order.shipped" && state == "shipped" && region.is_none()
    ));
}

#[test]
fn dispatched_actions_become_requests() {
    let actions = [webhook("shipped", None), event("shipped")];
    let fired = collect_actions_for_state(&actions, "shipped", None);
    let (listed, deliveries) =
        dispatch_actions("http://core/ingest", fired, "t1", "order", "o1", "placed", "shipped");
    assert_eq!(listed.len(), 2);
    assert_eq!(deliveries.len(), 2);
    assert_eq!(deliveries[0].url, "https://example.com/notify");
    let expected = object(&[
        ("tenant_id", "t1"),
        ("machine_id", "order"),
        ("entity_id", "o1"),
        ("from_state", "placed"),
        ("to_state", "shipped"),
    ]);
    assert!(values_equal(&deliveries[0].payload, &expected));
    assert_eq!(deliveries[1].url, "http://core/ingest");
    let expected = Value::Object(vec![
        ("event_type".into(), Value::String("order.shipped".into())),
        (
            "params".into(),
            object(&[
                ("key_prefix", "t1"),
                ("machine_id", "order"),
                ("entity_id", "o1"),
                ("from_state", "placed"),
                ("to_state", "shipped"),
            ]),
        ),
    ]);
    assert!(values_equal(&deliveries[1].payload, &expected));
}

#[test]
fn requests_are_sent_again_with_growing_pauses() {
    assert!(matches!(after_attempt(0, MAX_RETRIES, true), AfterAttempt::Delivered));
    assert!(matches!(after_attempt(0, MAX_RETRIES, false), AfterAttempt::RetryAfter(500)));
    assert!(matches!(after_attempt(1, MAX_RETRIES, false), AfterAttempt::RetryAfter(1000)));
    assert!(matches!(after_attempt(2, MAX_RETRIES, false), AfterAttempt::RetryAfter(2000)));
    assert!(matches!(after_attempt(3, MAX_RETRIES, false), AfterAttempt::GiveUp));
    assert!(matches!(after_attempt(3, MAX_RETRIES, true), AfterAttempt::Delivered));
    assert!(matches!(after_attempt(0, 0, false), AfterAttempt::GiveUp));
}

#[test]
fn four_attempts_are_made_in_all() {
    let mut attempts = 0;
    let mut paused = 0;
    loop {
        let next = after_attempt(attempts, MAX_RETRIES, false);
        attempts += 1;
        match next {
            AfterAttempt::RetryAfter(millis) => paused += millis,
            _ => break,
        }
    }
    assert_eq!(attempts, 4);
    assert_eq!(paused, 3500);
}
