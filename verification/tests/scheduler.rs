use state_machine::json::{Number, Value};
use state_machine::models::{
    ActionConfig, ActionDef, DispatchedAction, JoinDef, MachineDefinition, RegionDef, TransitionDef,
};
use state_machine::query::SqlParam;
use state_machine::scheduler::{
    extract_timeout_ms, extract_timeout_seconds, find_timeouts, plan_timeout, TimedOutEntity,
};
use state_machine::string_map::StringMap;

fn guard(value: Value) -> Option<Value> {
    Some(Value::Object(vec![("timeout_seconds".into(), value)]))
}

fn seconds(n: u64) -> Option<Value> {
    guard(Value::Number(Number::PosInt(n)))
}

fn transition(from: &str, to: &str, on: &str, region: Option<&str>, g: Option<Value>) -> TransitionDef {
    TransitionDef {
        from: from.into(),
        to: to.into(),
        on: on.into(),
        region: region.map(|r| r.to_string()),
        guard: g,
    }
}

fn flat() -> MachineDefinition {
    MachineDefinition {
        machine_id: "order".into(),
        tenant_id: "t1".into(),
        states: vec!["pending".into(), "expired".into()],
        initial_state: "pending".into(),
        regions: vec![],
        joins: vec![],
        transitions: vec![
            transition("pending", "expired", "$timeout", None, seconds(3600)),
            transition("pending", "expired", "$timeout", None, None),
            transition("pending", "expired", "expire", None, seconds(60)),
        ],
        actions: vec![ActionDef {
            on_enter: "expired".into(),
            region: None,
            action: ActionConfig::Event { event_type: "order.expired".into() },
        }],
        sub_machines: StringMap::new(),
    }
}

fn parallel() -> MachineDefinition {
    let mut when = StringMap::new();
    when.insert("payment".to_string(), "expired".to_string());
    let mut m = flat();
    m.states = vec![];
    m.initial_state = String::new();
    m.regions = vec![
        RegionDef {
            id: "payment".into(),
            states: vec!["pending".into(), "expired".into()],
            initial_state: "pending".into(),
            sub_machines: StringMap::new(),
        },
        RegionDef {
            id: "stock".into(),
            states: vec!["held".into(), "free".into()],
            initial_state: "held".into(),
            sub_machines: StringMap::new(),
        },
    ];
    m.joins = vec![JoinDef {
        when,
        target_region: "stock".into(),
        target_state: "free".into(),
        actions: vec![],
    }];
    m.transitions = vec![transition("pending", "expired", "$timeout", Some("payment"), seconds(5))];
    m
}

fn event_action(on_enter: &str, event_type: &str) -> ActionDef {
    ActionDef {
        on_enter: on_enter.into(),
        region: None,
        action: ActionConfig::Event { event_type: event_type.into() },
    }
}

fn row(state: &str, context: Option<&str>) -> TimedOutEntity {
    TimedOutEntity {
        entity_id: "e1".into(),
        current_state: state.into(),
        context: context.map(|c| c.to_string()),
        state_version: 7,
    }
}

#[test]
fn timeouts_are_read_from_the_guard() {
    assert_eq!(extract_timeout_ms(&seconds(3600)), Some(3_600_000));
    assert_eq!(extract_timeout_ms(&guard(Value::Number(Number::NegInt(-1)))), Some(-1000));
    assert_eq!(extract_timeout_ms(&None), None);
    assert_eq!(extract_timeout_ms(&Some(Value::Null)), None);
    assert_eq!(extract_timeout_ms(&Some(Value::Object(vec![]))), None);
    assert_eq!(extract_timeout_ms(&guard(Value::String("5".into()))), None);
    assert_eq!(extract_timeout_ms(&guard(Value::Number(Number::Float(5.0f64.to_bits())))), None);
    assert_eq!(extract_timeout_seconds(&seconds(u64::MAX)), None);
    assert_eq!(extract_timeout_seconds(&seconds(i64::MAX as u64)), Some(i64::MAX));
}

#[test]
fn timeouts_of_a_machine_are_found() {
    let found = find_timeouts(&flat());
    assert_eq!(found.len(), 1);
    assert_eq!(found[0].seconds, 3600);
    assert_eq!(found[0].transition.to, "expired");
}

#[test]
fn entities_whose_time_is_up_are_looked_for() {
    let m = flat();
    let timeout = &find_timeouts(&m)[0];
    assert!(timeout.has_cutoff(10_000_000));
    assert!(!timeout.has_cutoff(i64::MIN));
    let query = timeout.query(&m, 10_000_000);
    assert_eq!(
        query.sql,
        "SELECT entity_id, current_state, context, state_version, updated_at FROM entities WHERE tenant_id = ?1 AND machine_id = ?2 AND current_state = ?3 AND updated_at <= ?4"
    );
    assert!(matches!(&query.params[0], SqlParam::Text(s) if s == "t1"));
    assert!(matches!(&query.params[1], SqlParam::Text(s) if s == "order"));
    assert!(matches!(&query.params[2], SqlParam::Text(s) if s == "pending"));
    assert!(matches!(query.params[3], SqlParam::Integer(6_400_000)));
    let m = parallel();
    let query = find_timeouts(&m)[0].query(&m, 10_000);
    assert_eq!(
        query.sql,
        "SELECT entity_id, current_state, context, state_version, updated_at FROM entities WHERE tenant_id = ?1 AND machine_id = ?2 AND json_extract(current_state, '$.payment') = ?3 AND updated_at <= ?4"
    );
    assert!(matches!(query.params[3], SqlParam::Integer(5_000)));
}

#[test]
fn a_flat_timeout_is_carried_out() {
    let m = flat();
    let timeout = &find_timeouts(&m)[0];
    let planned = plan_timeout("http://core", &m, &timeout.transition, row("pending", None), 50);
    assert_eq!(planned.entity_id, "e1");
    assert_eq!(planned.current_state, "expired");
    assert_eq!(planned.state_version, 7);
    let record = planned.settle(1).unwrap();
    assert_eq!(record.deliveries.len(), 1);
    assert_eq!(record.entry.from_state, "pending");
    assert_eq!(record.entry.to_state, "expired");
    assert_eq!(record.entry.event_type, "$timeout");
    assert_eq!(record.entry.event_params, "{}");
    assert_eq!(record.entry.region, "");
    assert_eq!(record.entry.timestamp, 50);
    assert_eq!(record.entry.actions_dispatched.len(), 1);
    assert!(record.joins.is_empty());
    assert!(record.children.is_empty());
}

#[test]
fn a_timeout_that_comes_too_late_does_nothing() {
    let m = flat();
    let timeout = &find_timeouts(&m)[0];
    let planned = plan_timeout("http://core", &m, &timeout.transition, row("pending", None), 50);
    assert!(planned.settle(0).is_none());
}

#[test]
fn joins_follow_from_a_timeout() {
    let mut m = parallel();
    m.joins[0].actions = vec![event_action("free", "stock.released")];
    m.actions.push(event_action("free", "stock.free"));
    let timeout = &find_timeouts(&m)[0];
    let stored = r#"{"payment":"pending","stock":"held"}"#;
    let entity = row(stored, Some(r#"{"a":"b"}"#));
    let planned = plan_timeout("http://core", &m, &timeout.transition, entity, 50);
    assert_eq!(planned.current_state, r#"{"payment":"expired","stock":"free"}"#);
    let record = planned.settle(1).unwrap();
    assert_eq!(record.entry.from_state, "pending");
    assert_eq!(record.entry.region, "payment");
    assert_eq!(record.entry.event_params, r#"{"a":"b"}"#);
    assert_eq!(record.joins.len(), 1);
    assert_eq!(record.joins[0].event_type, "$join");
    assert_eq!(record.joins[0].event_params, "{}");
    assert_eq!(record.joins[0].from_state, "held");
    assert_eq!(record.joins[0].to_state, "free");
    assert_eq!(record.joins[0].region, "stock");
    assert_eq!(record.joins[0].timestamp, 50);
    let types: Vec<&str> = record
        .entry
        .actions_dispatched
        .iter()
        .map(|action| match action {
            DispatchedAction::Event { event_type, .. } => event_type.as_str(),
            DispatchedAction::Webhook { .. } => "webhook",
        })
        .collect();
    assert_eq!(types, ["order.expired", "stock.free", "stock.released"]);
    assert_eq!(record.deliveries.len(), 3);
}

#[test]
fn an_unreadable_state_is_replaced() {
    let m = parallel();
    let timeout = &find_timeouts(&m)[0];
    let planned = plan_timeout("http://core", &m, &timeout.transition, row("broken", None), 50);
    assert_eq!(planned.current_state, r#"{"payment":"expired","stock":"free"}"#);
    assert_eq!(planned.record.entry.from_state, "");
}
