use state_machine::cache::MachineCache;
use state_machine::errors::AppError;
use state_machine::json::{values_equal, Value};
use state_machine::models::{
    default_true, CreateEntityRequest, CreateMachineRequest, Entity, EvaluateRequest,
    ListEntitiesQuery, MachineDefinition, StateValue, SubMachineDef, TransitionDef,
    TransitionResponse, UpdateMachineRequest,
};
use state_machine::plan::Child;
use state_machine::query::{Query, SqlParam};
use state_machine::routes::entities::{
    child_entity, create_entity, delete_entity, entity_insertion_error, list_entities, load_entity,
    load_or_create_entity, row_to_entity, AfterLoad,
};
use state_machine::routes::evaluate::{
    evaluate, evaluate_batch, event_result, event_time, lost_event, resolve_entity_id,
    resolve_event, resolve_tenant, summarize, BatchEvaluateRequest, BatchEventResult,
};
use state_machine::routes::machines::{
    check_deletion, create_machine, delete_machine, load_machine, look_up_machine,
    machine_insertion_error, remember_machine, update_machine, MachineLookup,
};
use state_machine::routes::transitions::{get_history, HistoryRow};
use state_machine::routes::{
    clock_time, extract_tenant_id, health_body, now_millis, timestamp_of,
};
use state_machine::string_map::StringMap;

fn map(entries: &[(&str, &str)]) -> StringMap<String> {
    let mut map = StringMap::new();
    for (key, value) in entries {
        map.insert(key.to_string(), value.to_string());
    }
    map
}

fn transition(from: &str, to: &str, on: &str) -> TransitionDef {
    TransitionDef {
        from: from.into(),
        to: to.into(),
        on: on.into(),
        region: None,
        guard: None,
    }
}

fn request(machine_id: &str, states: &[&str]) -> CreateMachineRequest {
    CreateMachineRequest {
        machine_id: machine_id.into(),
        states: states.iter().map(|s| s.to_string()).collect(),
        initial_state: "a".into(),
        regions: vec![],
        joins: vec![],
        transitions: vec![transition("a", "b", "go")],
        actions: vec![],
        sub_machines: StringMap::new(),
    }
}

fn demo() -> MachineDefinition {
    create_machine("test", request("demo", &["a", "b"])).unwrap()
}

fn message(error: AppError) -> String {
    error.to_text()
}

// ── Machines ────────────────────────────────────────────────────────────────

#[test]
fn machines_are_created() {
    let mut req = request("demo", &["a", "b", "c"]);
    req.sub_machines.insert(
        "b".to_string(),
        SubMachineDef { machine_id: "inner".into(), on_final: map(&[("done", "c")]) },
    );
    let machine = create_machine("test", req).unwrap();
    assert_eq!(machine.machine_id, "demo");
    assert_eq!(machine.tenant_id, "test");
    assert_eq!(machine.states, ["a", "b", "c"]);
    assert_eq!(machine.initial_state, "a");
    assert_eq!(machine.transitions.len(), 1);
    assert_eq!(machine.sub_machines.get("b").unwrap().machine_id, "inner");
    let error = create_machine("test", request("demo", &["a"])).unwrap_err();
    assert_eq!(message(error), "BAD_REQUEST: transition 'to' state 'b' not in states");
}

#[test]
fn machines_are_updated() {
    let req = UpdateMachineRequest {
        states: vec!["x".into()],
        initial_state: "x".into(),
        regions: vec![],
        joins: vec![],
        transitions: vec![],
        actions: vec![],
        sub_machines: StringMap::new(),
    };
    let machine = update_machine(demo(), req).unwrap();
    assert_eq!(machine.machine_id, "demo");
    assert_eq!(machine.tenant_id, "test");
    assert_eq!(machine.states, ["x"]);
    assert!(machine.transitions.is_empty());
    let req = UpdateMachineRequest {
        states: vec![],
        initial_state: "x".into(),
        regions: vec![],
        joins: vec![],
        transitions: vec![],
        actions: vec![],
        sub_machines: StringMap::new(),
    };
    let error = update_machine(demo(), req).unwrap_err();
    assert_eq!(message(error), "BAD_REQUEST: at least one state is required");
}

#[test]
fn taken_machine_ids_are_conflicts() {
    let error = machine_insertion_error("UNIQUE constraint failed: machines", "demo");
    assert_eq!(message(error), "CONFLICT: Machine 'demo' already exists");
    let error = machine_insertion_error("bad PRIMARY KEY", "demo");
    assert_eq!(error.status(), 409);
    let error = machine_insertion_error("disk full", "demo");
    assert_eq!(message(error), "INTERNAL_ERROR: Database error: disk full");
}

#[test]
fn machines_with_entities_are_kept() {
    assert!(check_deletion("demo", 0).is_ok());
    let error = check_deletion("demo", 12).unwrap_err();
    assert_eq!(
        message(error),
        "CONFLICT: Cannot delete machine 'demo': 12 entities exist. Delete entities first."
    );
}

#[test]
fn machines_are_cached() {
    let mut cache = MachineCache::new();
    assert!(cache.get("test", "demo").is_none());
    let error = load_machine(&mut cache, "test", "demo", None).unwrap_err();
    assert_eq!(message(error), "NOT_FOUND: Machine 'demo' not found");
    let machine = load_machine(&mut cache, "test", "demo", Some(demo())).unwrap();
    assert_eq!(machine.machine_id, "demo");
    assert_eq!(cache.get("test", "demo").unwrap().states, ["a", "b"]);
    assert!(cache.get("other", "demo").is_none());
    let mut changed = demo();
    changed.initial_state = "b".into();
    cache.insert("test", "demo", changed);
    assert_eq!(cache.get("test", "demo").unwrap().initial_state, "b");
    assert_eq!(
        message(delete_machine(&mut cache, "test", "demo", 0).unwrap_err()),
        "NOT_FOUND: Machine 'demo' not found"
    );
    assert!(cache.get("test", "demo").is_some());
    assert!(delete_machine(&mut cache, "test", "demo", 1).is_ok());
    assert!(cache.get("test", "demo").is_none());
}

#[test]
fn written_machines_are_found_in_the_cache() {
    let mut cache = MachineCache::new();
    assert!(matches!(look_up_machine(&cache, "test", "demo"), MachineLookup::Read));
    remember_machine(&mut cache, &demo());
    assert!(matches!(
        look_up_machine(&cache, "test", "demo"),
        MachineLookup::Cached(m) if m.initial_state == "a"
    ));
    let mut changed = demo();
    changed.initial_state = "b".into();
    remember_machine(&mut cache, &changed);
    assert!(matches!(
        look_up_machine(&cache, "test", "demo"),
        MachineLookup::Cached(m) if m.initial_state == "b"
    ));
    assert!(matches!(look_up_machine(&cache, "other", "demo"), MachineLookup::Read));
    assert!(delete_machine(&mut cache, "test", "demo", 1).is_ok());
    assert!(matches!(look_up_machine(&cache, "test", "demo"), MachineLookup::Read));
}

// ── Entities ────────────────────────────────────────────────────────────────

fn new_entity() -> Entity {
    let req = CreateEntityRequest { entity_id: "e1".into(), context: None };
    create_entity(&demo(), "test", "demo", req, 99).unwrap()
}

#[test]
fn entities_start_in_the_initial_state() {
    let entity = new_entity();
    assert_eq!(entity.machine_id, "demo");
    assert_eq!(entity.tenant_id, "test");
    assert_eq!(entity.entity_id, "e1");
    assert_eq!(entity.current_state, "a");
    assert!(entity.context.is_empty());
    assert_eq!(entity.state_version, 1);
    assert_eq!(entity.created_at, 99);
    assert_eq!(entity.updated_at, 99);
    let mut context = StringMap::new();
    context.insert("vip".to_string(), Value::Bool(true));
    let req = CreateEntityRequest { entity_id: "e2".into(), context: Some(context) };
    let entity = create_entity(&demo(), "test", "demo", req, 99).unwrap();
    assert_eq!(entity.context.len(), 1);
}

#[test]
fn entities_need_an_id() {
    let req = CreateEntityRequest { entity_id: "".into(), context: None };
    let error = create_entity(&demo(), "test", "demo", req, 99).unwrap_err();
    assert_eq!(message(error), "BAD_REQUEST: entity_id is required");
}

#[test]
fn taken_entity_ids_are_conflicts() {
    let error = entity_insertion_error("UNIQUE constraint failed", "e1", "demo");
    assert_eq!(message(error), "CONFLICT: Entity 'e1' already exists in machine 'demo'");
    assert_eq!(entity_insertion_error("x", "e1", "demo").status(), 500);
}

const LIST: &str = "SELECT machine_id, tenant_id, entity_id, current_state, context, state_version, created_at, updated_at FROM entities WHERE tenant_id = ?1 AND machine_id = ?2";

fn list(state: Option<&str>, region: Option<&str>, updated_since: Option<i64>) -> Query {
    let query = ListEntitiesQuery {
        state: state.map(|s| s.to_string()),
        region: region.map(|s| s.to_string()),
        updated_since,
    };
    list_entities("test", "demo", &query)
}

#[test]
fn entities_are_listed() {
    let query = list(None, None, None);
    assert_eq!(query.sql, format!("{LIST} ORDER BY created_at"));
    assert_eq!(query.params.len(), 2);
    assert!(matches!(&query.params[0], SqlParam::Text(s) if s == "test"));
    assert!(matches!(&query.params[1], SqlParam::Text(s) if s == "demo"));
    let query = list(Some("a"), None, None);
    assert_eq!(query.sql, format!("{LIST} AND current_state = ?3 ORDER BY created_at"));
    assert!(matches!(&query.params[2], SqlParam::Text(s) if s == "a"));
    let query = list(Some("a"), Some("payment"), Some(5));
    assert_eq!(
        query.sql,
        format!(
            "{LIST} AND json_extract(current_state, '$.payment') = ?3 AND updated_at >= ?4 ORDER BY created_at"
        )
    );
    assert!(matches!(query.params[3], SqlParam::Integer(5)));
    let query = list(None, Some("payment"), Some(5));
    assert_eq!(query.sql, format!("{LIST} AND updated_at >= ?3 ORDER BY created_at"));
    assert_eq!(query.params.len(), 3);
    assert!(matches!(query.params[2], SqlParam::Integer(5)));
}

#[test]
fn entities_are_loaded_and_deleted() {
    assert_eq!(load_entity("demo", "e1", Some(new_entity())).unwrap().entity_id, "e1");
    assert_eq!(
        message(load_entity("demo", "e1", None).unwrap_err()),
        "NOT_FOUND: Entity 'e1' not found in machine 'demo'"
    );
    assert!(delete_entity("demo", "e1", 1).is_ok());
    assert_eq!(
        message(delete_entity("demo", "e1", 0).unwrap_err()),
        "NOT_FOUND: Entity 'e1' not found in machine 'demo'"
    );
    let entity = row_to_entity(
        "demo".into(),
        "test".into(),
        "e1".into(),
        "b".into(),
        None,
        4,
        1,
        2,
    );
    assert_eq!(entity.current_state, "b");
    assert_eq!(entity.state_version, 4);
    assert!(entity.context.is_empty());
}

#[test]
fn children_begin_anew() {
    let child = Child { machine_id: "demo".into(), entity_id: "o::sub::s".into() };
    let begun = child_entity(&child, &demo(), "test", 7);
    assert_eq!(begun.tenant_id, "test");
    assert_eq!(begun.machine_id, "demo");
    assert_eq!(begun.entity_id, "o::sub::s");
    assert_eq!(begun.current_state, "a");
    assert!(begun.context.is_empty());
    assert_eq!(begun.state_version, 1);
    assert_eq!((begun.created_at, begun.updated_at), (7, 7));
}

#[test]
fn missing_entities_are_created() {
    let m = demo();
    let next = load_or_create_entity(&m, "test", "demo", "e1", Ok(new_entity()), 7);
    assert!(matches!(next, AfterLoad::Found(e) if e.created_at == 99));
    let missing = Err(AppError::NotFound("gone".into()));
    let next = load_or_create_entity(&m, "test", "demo", "e1", missing, 7);
    assert!(matches!(
        next,
        AfterLoad::Create(e) if e.entity_id == "e1" && e.current_state == "a" && e.created_at == 7
            && e.state_version == 1 && e.context.is_empty()
    ));
    let broken = Err(AppError::Internal("broken".into()));
    let next = load_or_create_entity(&m, "test", "demo", "e1", broken, 7);
    assert!(matches!(next, AfterLoad::Failed(AppError::Internal(s)) if s == "broken"));
}

// ── Events ──────────────────────────────────────────────────────────────────

fn event(params: &[(&str, &str)]) -> EvaluateRequest {
    EvaluateRequest {
        event_type: "pay".into(),
        entity_key: "order_id".into(),
        params: map(params),
        timestamp: None,
        dispatch: default_true(),
    }
}

#[test]
fn tenants_come_from_the_header_or_the_parameters() {
    assert_eq!(extract_tenant_id(Some("t1")).unwrap(), "t1");
    assert_eq!(
        message(extract_tenant_id(None).unwrap_err()),
        "BAD_REQUEST: Missing X-Tenant-Id header"
    );
    let params = map(&[("key_prefix", "t2")]);
    assert_eq!(resolve_tenant(Some("t1"), &params).unwrap(), "t1");
    assert_eq!(resolve_tenant(None, &params).unwrap(), "t2");
    assert_eq!(
        message(resolve_tenant(None, &map(&[])).unwrap_err()),
        "BAD_REQUEST: Missing tenant: provide X-Tenant-Id header or key_prefix in params"
    );
}

#[test]
fn events_name_their_entity() {
    assert_eq!(resolve_entity_id("id", &map(&[("id", "e1")])).unwrap(), "e1");
    assert_eq!(
        message(resolve_entity_id("id", &map(&[])).unwrap_err()),
        "BAD_REQUEST: entity_key 'id' not found in params"
    );
    let target = evaluate(Some("t1"), &event(&[("order_id", "abc123")])).unwrap();
    assert_eq!(target.tenant_id, "t1");
    assert_eq!(target.entity_id, "abc123");
    assert_eq!(evaluate(None, &event(&[])).unwrap_err().status(), 400);
    assert_eq!(event_time(Some(5), 9), 5);
    assert_eq!(event_time(None, 9), 9);
    assert!(event(&[]).dispatch);
}

#[test]
fn batches_are_limited() {
    let empty = BatchEvaluateRequest { events: vec![] };
    assert_eq!(
        message(evaluate_batch(Some("t1"), &empty).unwrap_err()),
        "BAD_REQUEST: events array is empty"
    );
    let full = BatchEvaluateRequest { events: (0..1000).map(|_| event(&[])).collect() };
    assert_eq!(evaluate_batch(Some("t1"), &full).unwrap().len(), 1000);
    let large = BatchEvaluateRequest { events: (0..1001).map(|_| event(&[])).collect() };
    assert_eq!(
        message(evaluate_batch(Some("t1"), &large).unwrap_err()),
        "BAD_REQUEST: batch size exceeds maximum of 1000"
    );
}

#[test]
fn each_event_of_a_batch_is_resolved_on_its_own() {
    let events = vec![
        event(&[("order_id", "e0")]),
        event(&[("order_id", "e1"), ("key_prefix", "t1")]),
        event(&[("order_id", "e2"), ("key_prefix", "t2")]),
        event(&[("key_prefix", "t1")]),
    ];
    let mut targets = evaluate_batch(None, &BatchEvaluateRequest { events }).unwrap();
    assert_eq!(targets.len(), 4);
    let unnamed = targets.remove(3).unwrap_err();
    assert_eq!(unnamed.error.as_deref(), Some("entity_key 'order_id' not found in params"));
    let third = targets.remove(2).unwrap();
    assert_eq!((third.tenant_id.as_str(), third.entity_id.as_str()), ("t2", "e2"));
    let second = targets.remove(1).unwrap();
    assert_eq!((second.tenant_id.as_str(), second.entity_id.as_str()), ("t1", "e1"));
    let first = targets.remove(0).unwrap_err();
    assert_eq!(
        first.error.as_deref(),
        Some("Missing tenant: provide X-Tenant-Id header or key_prefix in params")
    );
    let summary = summarize(vec![first, event_result(second.entity_id, Ok(response()))]);
    assert_eq!(summary.total, 2);
    assert_eq!(summary.succeeded, 1);
    assert_eq!(summary.failed, 1);
    let events = vec![event(&[("order_id", "e0")]), event(&[("order_id", "e1"), ("key_prefix", "t1")])];
    let targets = evaluate_batch(Some("t9"), &BatchEvaluateRequest { events }).unwrap();
    assert!(targets.iter().all(|target| matches!(target, Ok(found) if found.tenant_id == "t9")));
}

fn response() -> TransitionResponse {
    TransitionResponse {
        entity_id: "e1".into(),
        previous_state: StateValue::Text("a".into()),
        current_state: StateValue::Text("b".into()),
        transition: Some("a → b".into()),
        region: None,
        triggered_by: "go".into(),
        actions_dispatched: vec![],
        joins_fired: vec![],
        timestamp: 1,
        reason: None,
        sub_machine: None,
    }
}

#[test]
fn batches_tell_what_became_of_each_event() {
    let lost = resolve_event(None, &event(&[])).unwrap_err();
    assert!(lost.entity_id.is_none());
    assert_eq!(
        lost.error.as_deref(),
        Some("Missing tenant: provide X-Tenant-Id header or key_prefix in params")
    );
    let unnamed = resolve_event(Some("t1"), &event(&[])).unwrap_err();
    assert_eq!(unnamed.error.as_deref(), Some("entity_key 'order_id' not found in params"));
    assert!(resolve_event(Some("t1"), &event(&[("order_id", "e1")])).is_ok());
    let done = event_result("e0".into(), Ok(response()));
    assert_eq!(done.entity_id.as_deref(), Some("e1"));
    assert!(done.result.is_some());
    assert!(done.error.is_none());
    let failed = event_result("e0".into(), Err(AppError::Conflict("busy".into())));
    assert_eq!(failed.entity_id.as_deref(), Some("e0"));
    assert_eq!(failed.error.as_deref(), Some("CONFLICT: busy"));
    let panicked = lost_event("oops");
    assert_eq!(panicked.error.as_deref(), Some("Task panicked: oops"));
    let results: Vec<BatchEventResult> = vec![lost, done, failed, panicked];
    let summary = summarize(results);
    assert_eq!(summary.total, 4);
    assert_eq!(summary.succeeded, 1);
    assert_eq!(summary.failed, 3);
    assert_eq!(summary.results.len(), 4);
    assert_eq!(summarize(vec![]).total, 0);
}

// ── History ─────────────────────────────────────────────────────────────────

fn row(params: Option<&str>, actions: Option<&str>, region: Option<&str>) -> HistoryRow {
    HistoryRow {
        id: 1,
        tenant_id: "t".into(),
        machine_id: "m".into(),
        entity_id: "e".into(),
        from_state: "a".into(),
        to_state: "b".into(),
        event_type: "go".into(),
        event_params: params.map(|s| s.to_string()),
        actions_dispatched: actions.map(|s| s.to_string()),
        region: region.map(|s| s.to_string()),
        timestamp: 5,
        created_at: 6,
    }
}

#[test]
fn history_is_read_from_its_rows() {
    let record = get_history(row(Some(r#"{"x":"1"}"#), Some(r#"["a","b"]"#), Some("payment")));
    assert_eq!(record.id, 1);
    assert_eq!(record.event_params.unwrap().get("x").unwrap(), "1");
    assert_eq!(record.actions_dispatched, ["a", "b"]);
    assert_eq!(record.region.as_deref(), Some("payment"));
    assert_eq!(record.timestamp, 5);
    let record = get_history(row(Some("null"), Some(r#"[{"action_type":"event"}]"#), Some("")));
    assert!(record.event_params.is_none());
    assert!(record.actions_dispatched.is_empty());
    assert!(record.region.is_none());
    let record = get_history(row(None, None, None));
    assert!(record.event_params.is_none());
    assert!(record.actions_dispatched.is_empty());
    assert!(record.region.is_none());
}

// ── The rest ────────────────────────────────────────────────────────────────

#[test]
fn the_clock_is_read() {
    let before = std::time::SystemTime::now()
        .duration_since(std::time::UNIX_EPOCH)
        .unwrap()
        .as_millis() as i64;
    let now = now_millis().unwrap();
    assert!(now >= before && now < before + 60_000);
    assert_eq!(timestamp_of(1_700_000_000_000), 1_700_000_000_000);
    assert_eq!(timestamp_of((1u128 << 64) + 5), 5);
    assert_eq!(clock_time(Some(1_700_000_000_000)), Some(1_700_000_000_000));
    assert_eq!(clock_time(Some(u128::MAX)), Some(-1));
    assert_eq!(clock_time(None), None);
}

#[test]
fn the_service_is_healthy() {
    let expected = Value::Object(vec![
        ("status".into(), Value::String("ok".into())),
        ("version".into(), Value::String("1.2.3".into())),
        ("service".into(), Value::String("state-machine".into())),
    ]);
    assert!(values_equal(&health_body("1.2.3"), &expected));
}
