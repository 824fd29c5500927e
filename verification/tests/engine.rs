use state_machine::engine::{apply_joins, check_joins, evaluate, evaluate_in, fire_joins};
use state_machine::json::{Number, Value};
use state_machine::models::{
    Entity, JoinDef, MachineDefinition, RegionDef, TransitionDef, DEFAULT_REGION,
};
use state_machine::string_map::StringMap;

fn texts(items: &[&str]) -> Vec<String> {
    items.iter().map(|item| item.to_string()).collect()
}

fn map(entries: &[(&str, &str)]) -> StringMap<String> {
    let mut map = StringMap::new();
    for (key, value) in entries {
        map.insert(key.to_string(), value.to_string());
    }
    map
}

fn transition(from: &str, to: &str, on: &str, region: Option<&str>, guard: Option<Value>) -> TransitionDef {
    TransitionDef {
        from: from.into(),
        to: to.into(),
        on: on.into(),
        region: region.map(|r| r.to_string()),
        guard,
    }
}

fn region(id: &str, states: &[&str], initial_state: &str) -> RegionDef {
    RegionDef {
        id: id.into(),
        states: texts(states),
        initial_state: initial_state.into(),
        sub_machines: StringMap::new(),
    }
}

fn test_machine() -> MachineDefinition {
    MachineDefinition {
        machine_id: "test".into(),
        tenant_id: "t1".into(),
        states: texts(&["new", "trial", "active", "past_due", "churned"]),
        initial_state: "new".into(),
        regions: vec![],
        joins: vec![],
        transitions: vec![
            transition("new", "trial", "trial.started", None, None),
            transition("trial", "active", "charge.succeeded", None, None),
            transition("active", "past_due", "invoice.payment_failed", None, None),
            transition(
                "past_due",
                "active",
                "charge.succeeded",
                None,
                Some(Value::Object(vec![
                    ("field".into(), Value::String("amount_cents".into())),
                    ("op".into(), Value::String("gt".into())),
                    ("value".into(), Value::Number(Number::PosInt(0))),
                ])),
            ),
        ],
        actions: vec![],
        sub_machines: StringMap::new(),
    }
}

fn test_entity(state: &str) -> Entity {
    Entity {
        machine_id: "test".into(),
        tenant_id: "t1".into(),
        entity_id: "e1".into(),
        current_state: state.into(),
        context: StringMap::new(),
        state_version: 1,
        created_at: 0,
        updated_at: 0,
    }
}

fn test_parallel_machine() -> MachineDefinition {
    MachineDefinition {
        machine_id: "order".into(),
        tenant_id: "t1".into(),
        states: vec![],
        initial_state: String::new(),
        regions: vec![
            region("payment", &["pending", "confirmed", "refunded"], "pending"),
            region("inventory", &["pending", "reserved", "released"], "pending"),
            region("fulfillment", &["waiting", "ready", "shipped"], "waiting"),
        ],
        joins: vec![JoinDef {
            when: map(&[("payment", "confirmed"), ("inventory", "reserved")]),
            target_region: "fulfillment".into(),
            target_state: "ready".into(),
            actions: vec![],
        }],
        transitions: vec![
            transition("pending", "confirmed", "payment.confirmed", Some("payment"), None),
            transition("pending", "reserved", "inventory.reserved", Some("inventory"), None),
            transition("ready", "shipped", "order.shipped", Some("fulfillment"), None),
        ],
        actions: vec![],
        sub_machines: StringMap::new(),
    }
}

fn test_parallel_entity(state_json: &str) -> Entity {
    Entity {
        machine_id: "order".into(),
        tenant_id: "t1".into(),
        entity_id: "order_1".into(),
        current_state: state_json.into(),
        context: StringMap::new(),
        state_version: 1,
        created_at: 0,
        updated_at: 0,
    }
}

// ── Flat machines ───────────────────────────────────────────────────────────

#[test]
fn test_simple_transition() {
    let m = test_machine();
    let e = test_entity("new");
    let result = evaluate(&m, &e, "trial.started", &StringMap::new());
    assert!(result.is_some());
    let r = result.unwrap();
    assert_eq!(r.region, DEFAULT_REGION);
    assert_eq!(r.from_state, "new");
    assert_eq!(r.to_state, "trial");
}

#[test]
fn test_no_valid_transition() {
    let m = test_machine();
    let e = test_entity("active");
    let result = evaluate(&m, &e, "trial.started", &StringMap::new());
    assert!(result.is_none());
}

#[test]
fn test_guard_passes() {
    let m = test_machine();
    let e = test_entity("past_due");
    let mut params: StringMap<String> = StringMap::new();
    params.insert("amount_cents".into(), "4999".into());
    let result = evaluate(&m, &e, "charge.succeeded", &params);
    assert!(result.is_some());
    assert_eq!(result.unwrap().to_state, "active");
}

#[test]
fn test_guard_fails() {
    let m = test_machine();
    let e = test_entity("past_due");
    let mut params: StringMap<String> = StringMap::new();
    params.insert("amount_cents".into(), "0".into());
    let result = evaluate(&m, &e, "charge.succeeded", &params);
    assert!(result.is_none());
}

// ── Parallel machines ───────────────────────────────────────────────────────

#[test]
fn test_parallel_region_transition() {
    let m = test_parallel_machine();
    let e = test_parallel_entity(
        r#"{"payment":"pending","inventory":"pending","fulfillment":"waiting"}"#,
    );
    let result = evaluate(&m, &e, "payment.confirmed", &StringMap::new());
    assert!(result.is_some());
    let r = result.unwrap();
    assert_eq!(r.region, "payment");
    assert_eq!(r.from_state, "pending");
    assert_eq!(r.to_state, "confirmed");
}

#[test]
fn test_parallel_wrong_region_no_match() {
    let m = test_parallel_machine();
    // The payment is confirmed already, and is not confirmed again.
    let e = test_parallel_entity(
        r#"{"payment":"confirmed","inventory":"pending","fulfillment":"waiting"}"#,
    );
    let result = evaluate(&m, &e, "payment.confirmed", &StringMap::new());
    assert!(result.is_none());
}

#[test]
fn test_join_not_satisfied() {
    let m = test_parallel_machine();
    // Only the payment is confirmed; the inventory is still pending.
    let mut state_map = map(&[
        ("payment", "confirmed"),
        ("inventory", "pending"),
        ("fulfillment", "waiting"),
    ]);
    let joins = apply_joins(&m, &mut state_map, 5);
    assert!(joins.is_empty());
    assert_eq!(state_map.get("fulfillment").unwrap(), "waiting");
}

#[test]
fn test_join_fires_when_all_satisfied() {
    let m = test_parallel_machine();
    // Both the payment and the inventory are in the required states.
    let mut state_map = map(&[
        ("payment", "confirmed"),
        ("inventory", "reserved"),
        ("fulfillment", "waiting"),
    ]);
    let joins = apply_joins(&m, &mut state_map, 5);
    assert_eq!(joins.len(), 1);
    assert_eq!(joins[0].target_region, "fulfillment");
    assert_eq!(joins[0].target_state, "ready");
    assert_eq!(state_map.get("fulfillment").unwrap(), "ready");
}

#[test]
fn test_join_does_not_refire() {
    let m = test_parallel_machine();
    // The target state is reached, so the join does not fire again.
    let mut state_map = map(&[
        ("payment", "confirmed"),
        ("inventory", "reserved"),
        ("fulfillment", "ready"),
    ]);
    let joins = apply_joins(&m, &mut state_map, 5);
    assert!(joins.is_empty());
}

// ── Further cases ───────────────────────────────────────────────────────────

fn join(when: &[(&str, &str)], target_region: &str, target_state: &str) -> JoinDef {
    JoinDef {
        when: map(when),
        target_region: target_region.into(),
        target_state: target_state.into(),
        actions: vec![],
    }
}

fn machine_with_joins(joins: Vec<JoinDef>) -> MachineDefinition {
    let mut machine = test_parallel_machine();
    machine.joins = joins;
    machine
}

#[test]
fn the_first_matching_transition_wins() {
    let transitions = vec![
        transition("a", "b", "other", None, None),
        transition("a", "c", "go", None, None),
        transition("a", "d", "go", None, None),
    ];
    let states = map(&[(DEFAULT_REGION, "a")]);
    let result = evaluate_in(&transitions, &states, "go", &StringMap::new(), &StringMap::new());
    assert_eq!(result.unwrap().to_state, "c");
}

#[test]
fn a_transition_waits_for_its_region() {
    let transitions = vec![transition("a", "b", "go", Some("left"), None)];
    let states = map(&[("right", "a")]);
    let result = evaluate_in(&transitions, &states, "go", &StringMap::new(), &StringMap::new());
    assert!(result.is_none());
    let states = map(&[("left", "a"), ("right", "x")]);
    let result = evaluate_in(&transitions, &states, "go", &StringMap::new(), &StringMap::new());
    assert_eq!(result.unwrap().region, "left");
}

#[test]
fn the_matched_transition_is_handed_back() {
    let m = test_machine();
    let r = evaluate(&m, &test_entity("trial"), "charge.succeeded", &StringMap::new()).unwrap();
    assert_eq!(r._matched_transition.from, "trial");
    assert_eq!(r._matched_transition.on, "charge.succeeded");
}

#[test]
fn joins_cascade_up_to_the_given_depth() {
    let machine = machine_with_joins(vec![
        join(&[("a", "1")], "b", "1"),
        join(&[("b", "1")], "c", "1"),
        join(&[("c", "1")], "d", "1"),
    ]);
    let mut states = map(&[("a", "1"), ("b", "0"), ("c", "0"), ("d", "0")]);
    let fired = apply_joins(&machine, &mut states, 2);
    assert_eq!(fired.len(), 2);
    assert_eq!(states.get("c").unwrap(), "1");
    assert_eq!(states.get("d").unwrap(), "0");
    let fired = apply_joins(&machine, &mut states, 10);
    assert_eq!(fired.len(), 1);
    assert_eq!(fired[0].from_state, "0");
    assert_eq!(states.get("d").unwrap(), "1");
    assert!(apply_joins(&machine, &mut states, 10).is_empty());
}

#[test]
fn joins_that_chase_each_other_stop_at_the_depth() {
    let machine = machine_with_joins(vec![
        join(&[("a", "0")], "a", "1"),
        join(&[("a", "1")], "a", "0"),
    ]);
    let mut states = map(&[("a", "0")]);
    let fired = apply_joins(&machine, &mut states, 10);
    assert_eq!(fired.len(), 10);
    assert_eq!(states.get("a").unwrap(), "0");
}

#[test]
fn a_join_can_open_a_region() {
    let machine = machine_with_joins(vec![join(&[], "new", "open")]);
    let mut states = map(&[]);
    let firing = check_joins(&machine, &states);
    assert_eq!(firing.len(), 1);
    assert_eq!(firing[0].1.from_state, "");
    assert_eq!(firing[0].0.target_state, "open");
    let fired = apply_joins(&machine, &mut states, 1);
    assert_eq!(fired.len(), 1);
    assert_eq!(states.get("new").unwrap(), "open");
}

#[test]
fn no_rounds_change_nothing() {
    let m = test_parallel_machine();
    let mut states = map(&[
        ("payment", "confirmed"),
        ("inventory", "reserved"),
        ("fulfillment", "waiting"),
    ]);
    assert!(apply_joins(&m, &mut states, 0).is_empty());
    assert_eq!(states.get("fulfillment").unwrap(), "waiting");
}

#[test]
fn the_later_join_of_a_round_wins() {
    let machine = machine_with_joins(vec![
        join(&[("a", "1")], "b", "first"),
        join(&[("a", "1")], "b", "second"),
    ]);
    let mut states = map(&[("a", "1"), ("b", "0"), ("c", "kept")]);
    let fired = apply_joins(&machine, &mut states, 1);
    assert_eq!(fired.len(), 2);
    assert_eq!(states.get("b").unwrap(), "second");
    assert_eq!(states.get("c").unwrap(), "kept");
}

#[test]
fn each_firing_names_its_join() {
    let machine = machine_with_joins(vec![
        join(&[("a", "1")], "c", "2"),
        join(&[("b", "1")], "c", "2"),
        join(&[("c", "2")], "d", "1"),
    ]);
    let mut states = map(&[("a", "0"), ("b", "1"), ("c", "0"), ("d", "0")]);
    let (joins, fired) = fire_joins(&machine, &mut states, 10);
    assert_eq!(joins.len(), 2);
    assert_eq!(fired.len(), 2);
    assert_eq!(joins[0].when.get("b").unwrap(), "1");
    assert_eq!(joins[1].target_region, "d");
    assert_eq!(fired[1].target_region, "d");
    // Fewer joins fired than rounds were allowed: none fires any more.
    assert!(check_joins(&machine, &states).is_empty());
}
