use state_machine::errors::AppError;
use state_machine::json::Value;
use state_machine::models::{
    ActionConfig, ActionDef, DispatchedAction, Entity, JoinDef, MachineDefinition, RegionDef,
    StateValue, SubMachineDef, TransitionDef, TransitionResponse,
};
use state_machine::plan::{child_entity_id, merge_context, EventKey, Record, Update};
use state_machine::string_map::{Duplicate, StringMap};
use state_machine::transition_core::{execute_transition, find_compounds, Execution, Reply, Step};

fn texts(items: &[&str]) -> Vec<String> {
    items.iter().map(|item| item.to_string()).collect()
}

fn map(entries: &[(&str, &str)]) -> StringMap<String> {
    let mut map = StringMap::new();
    for (key, value) in entries {
        map.insert(key.to_string(), value.to_string());
    }
    map
}

fn transition(from: &str, to: &str, on: &str, region: Option<&str>) -> TransitionDef {
    TransitionDef {
        from: from.into(),
        to: to.into(),
        on: on.into(),
        region: region.map(|r| r.to_string()),
        guard: None,
    }
}

fn event_action(on_enter: &str, region: Option<&str>, event_type: &str) -> ActionDef {
    ActionDef {
        on_enter: on_enter.into(),
        region: region.map(|r| r.to_string()),
        action: ActionConfig::Event { event_type: event_type.into() },
    }
}

fn machine(id: &str, states: &[&str], transitions: Vec<TransitionDef>) -> MachineDefinition {
    MachineDefinition {
        machine_id: id.into(),
        tenant_id: "t1".into(),
        states: texts(states),
        initial_state: states[0].into(),
        regions: vec![],
        joins: vec![],
        transitions,
        actions: vec![],
        sub_machines: StringMap::new(),
    }
}

/// The order machine whose processing is a machine of its own.
fn order() -> MachineDefinition {
    let mut m = machine(
        "order",
        &["placed", "processing", "shipped", "delivered", "cancelled"],
        vec![
            transition("placed", "processing", "start_processing", None),
            transition("processing", "cancelled", "cancel", None),
            transition("shipped", "delivered", "deliver", None),
        ],
    );
    m.actions.push(event_action("shipped", None, "order.shipped"));
    m.sub_machines.insert(
        "processing".to_string(),
        SubMachineDef {
            machine_id: "processing_flow".into(),
            on_final: map(&[("labeling", "shipped")]),
        },
    );
    m
}

fn processing_flow() -> MachineDefinition {
    machine(
        "processing_flow",
        &["picking", "packing", "labeling"],
        vec![
            transition("picking", "packing", "picked", None),
            transition("packing", "labeling", "packed", None),
        ],
    )
}

fn entity(machine_id: &str, entity_id: &str, state: &str) -> Entity {
    Entity {
        machine_id: machine_id.into(),
        tenant_id: "t1".into(),
        entity_id: entity_id.into(),
        current_state: state.into(),
        context: StringMap::new(),
        state_version: 5,
        created_at: 0,
        updated_at: 0,
    }
}

fn begin(
    machine: &MachineDefinition,
    entity: &Entity,
    event_type: &str,
    params: &[(&str, &str)],
    dispatch: bool,
) -> (Execution, Step) {
    execute_transition("http://core", "t1", machine, entity, event_type, &map(params), 1000, dispatch)
}

fn key_of(step: Step) -> EventKey {
    match step {
        Step::FindDuplicate(key) => key,
        other => panic!("{other:?}"),
    }
}

fn update_of(step: Step) -> Update {
    match step {
        Step::Update(update) => update,
        other => panic!("{other:?}"),
    }
}

fn record_of(step: Step) -> Record {
    match step {
        Step::Record(record) => record,
        other => panic!("{other:?}"),
    }
}

fn answer_of(step: Step) -> TransitionResponse {
    match step {
        Step::Finish(response) => response,
        other => panic!("{other:?}"),
    }
}

fn error_of(step: Step) -> AppError {
    match step {
        Step::Fail(error) => error,
        other => panic!("{other:?}"),
    }
}

fn shows(value: &StateValue, text: &str) -> bool {
    matches!(value, StateValue::Text(s) if s == text)
}

#[test]
fn a_transition_is_carried_out() {
    let e = entity("order", "order_1", "placed");
    let (mut run, step) = begin(&order(), &e, "start_processing", &[("by", "bob")], true);
    let asked = key_of(step);
    assert_eq!(asked.tenant_id, "t1");
    assert_eq!(asked.machine_id, "order");
    assert_eq!(asked.entity_id, "order_1");
    assert_eq!(asked.event_type, "start_processing");
    assert_eq!(asked.timestamp, 1000);
    let update = update_of(run.resume(Reply::Duplicate(false)));
    assert_eq!(update.tenant_id, "t1");
    assert_eq!(update.machine_id, "order");
    assert_eq!(update.entity_id, "order_1");
    assert_eq!(update.current_state, "processing");
    assert_eq!(update.state_version, 5);
    assert!(matches!(update.context.get("by"), Some(Value::String(s)) if s == "bob"));
    let record = record_of(run.resume(Reply::Updated(1)));
    assert!(record.deliveries.is_empty());
    // The entry is found again under the key that was asked for.
    assert_eq!(record.tenant_id, asked.tenant_id);
    assert_eq!(record.machine_id, asked.machine_id);
    assert_eq!(record.entity_id, asked.entity_id);
    assert_eq!(record.transition.event_type, asked.event_type);
    assert_eq!(record.transition.timestamp, asked.timestamp);
    assert_eq!(record.transition.from_state, "placed");
    assert_eq!(record.transition.to_state, "processing");
    assert_eq!(record.transition.event_type, "start_processing");
    assert_eq!(record.transition.event_params, r#"{"by":"bob"}"#);
    assert_eq!(record.transition.region, "");
    assert!(record.joins.is_empty());
    // The state that was entered is compound, so its child begins anew.
    assert_eq!(record.children.len(), 1);
    assert_eq!(record.children[0].machine_id, "processing_flow");
    assert_eq!(record.children[0].entity_id, "order_1::sub::processing");
    let response = answer_of(run.resume(Reply::Recorded));
    assert_eq!(response.entity_id, "order_1");
    assert!(shows(&response.previous_state, "placed"));
    assert!(shows(&response.current_state, "processing"));
    assert_eq!(response.transition.as_deref(), Some("placed → processing"));
    assert_eq!(response.region, None);
    assert_eq!(response.triggered_by, "start_processing");
    assert_eq!(response.timestamp, 1000);
    assert!(response.reason.is_none());
    assert!(response.sub_machine.is_none());
}

#[test]
fn a_duplicate_changes_nothing() {
    let e = entity("order", "order_1", "placed");
    let (mut run, _) = begin(&order(), &e, "start_processing", &[], true);
    let response = answer_of(run.resume(Reply::Duplicate(true)));
    assert!(shows(&response.previous_state, "placed"));
    assert!(shows(&response.current_state, "placed"));
    assert!(response.transition.is_none());
    assert_eq!(response.reason.as_deref(), Some("duplicate event (already processed)"));
}

#[test]
fn an_unknown_event_changes_nothing() {
    let e = entity("order", "order_1", "placed");
    let (mut run, _) = begin(&order(), &e, "deliver", &[], true);
    let response = answer_of(run.resume(Reply::Duplicate(false)));
    assert!(shows(&response.current_state, "placed"));
    assert_eq!(response.reason.as_deref(), Some("no transition from 'placed' on 'deliver'"));
}

#[test]
fn a_lost_race_is_a_conflict() {
    let e = entity("order", "order_1", "placed");
    let (mut run, _) = begin(&order(), &e, "start_processing", &[], true);
    update_of(run.resume(Reply::Duplicate(false)));
    let error = error_of(run.resume(Reply::Updated(0)));
    assert_eq!(error.status(), 409);
    assert!(error.retry());
    assert_eq!(error.message(), "Concurrent modification detected — retry the transition");
}

#[test]
fn a_failed_step_refuses_the_event() {
    let e = entity("order", "order_1", "placed");
    let (mut run, _) = begin(&order(), &e, "start_processing", &[], true);
    let error = error_of(run.resume(Reply::Failed(AppError::database("gone"))));
    assert_eq!(error.message(), "Database error: gone");
    let error = error_of(run.resume(Reply::Recorded));
    assert_eq!(error.message(), "Unexpected reply");
    let (mut run, _) = begin(&order(), &e, "start_processing", &[], true);
    assert_eq!(error_of(run.resume(Reply::Updated(1))).status(), 500);
}

#[test]
fn events_are_forwarded_to_the_child() {
    let e = entity("order", "order_1", "processing");
    let (mut run, _) = begin(&order(), &e, "picked", &[], true);
    let step = run.resume(Reply::Duplicate(false));
    assert!(matches!(
        step,
        Step::LoadMachine { tenant_id, machine_id }
            if tenant_id == "t1" && machine_id == "processing_flow"
    ));
    let step = run.resume(Reply::Machine(processing_flow()));
    assert!(matches!(
        step,
        Step::LoadOrCreateChild { tenant_id, machine_id, entity_id, machine }
            if tenant_id == "t1" && machine_id == "processing_flow"
                && entity_id == "order_1::sub::processing"
                && machine.initial_state_encoded() == "picking"
    ));
    let child = entity("processing_flow", "order_1::sub::processing", "picking");
    let asked = key_of(run.resume(Reply::Child(child)));
    assert_eq!(asked.machine_id, "processing_flow");
    assert_eq!(asked.entity_id, "order_1::sub::processing");
    assert_eq!(asked.event_type, "picked");
    let update = update_of(run.resume(Reply::Duplicate(false)));
    assert_eq!(update.entity_id, "order_1::sub::processing");
    assert_eq!(update.current_state, "packing");
    record_of(run.resume(Reply::Updated(1)));
    let response = answer_of(run.resume(Reply::Recorded));
    assert_eq!(response.entity_id, "order_1");
    assert!(shows(&response.previous_state, "processing"));
    assert!(shows(&response.current_state, "processing"));
    assert!(response.transition.is_none());
    assert_eq!(response.triggered_by, "picked");
    let child = response.sub_machine.unwrap();
    assert_eq!(child.machine_id, "processing_flow");
    assert_eq!(child.entity_id, "order_1::sub::processing");
    assert!(shows(&child.previous_state, "picking"));
    assert!(shows(&child.current_state, "packing"));
    assert_eq!(child.transition.as_deref(), Some("picking → packing"));
    assert!(!child.auto_completed);
}

#[test]
fn a_finished_child_advances_its_parent() {
    let e = entity("order", "order_1", "processing");
    let (mut run, _) = begin(&order(), &e, "packed", &[("weight", "2")], true);
    run.resume(Reply::Duplicate(false));
    run.resume(Reply::Machine(processing_flow()));
    let child = entity("processing_flow", "order_1::sub::processing", "packing");
    run.resume(Reply::Child(child));
    update_of(run.resume(Reply::Duplicate(false)));
    record_of(run.resume(Reply::Updated(1)));
    let update = update_of(run.resume(Reply::Recorded));
    assert_eq!(update.machine_id, "order");
    assert_eq!(update.current_state, "shipped");
    assert!(!update.context.contains_key("weight"));
    let record = record_of(run.resume(Reply::Updated(1)));
    assert_eq!(record.deliveries.len(), 1);
    assert_eq!(record.deliveries[0].url, "http://core");
    assert_eq!(record.transition.event_type, "$sub_complete");
    assert_eq!(record.transition.event_params, "{}");
    assert_eq!(record.transition.from_state, "processing");
    assert_eq!(record.transition.to_state, "shipped");
    let response = answer_of(run.resume(Reply::Recorded));
    assert!(shows(&response.previous_state, "processing"));
    assert!(shows(&response.current_state, "shipped"));
    assert_eq!(response.transition.as_deref(), Some("processing → shipped"));
    assert_eq!(response.triggered_by, "packed");
    assert_eq!(response.actions_dispatched.len(), 1);
    let child = response.sub_machine.unwrap();
    assert!(shows(&child.previous_state, "packing"));
    assert!(shows(&child.current_state, "labeling"));
    assert_eq!(child.transition.as_deref(), Some("packing → labeling"));
    assert!(child.auto_completed);
}

#[test]
fn the_actions_of_a_finished_child_are_listed() {
    let mut parent = order();
    parent.actions = vec![];
    let mut child_machine = processing_flow();
    child_machine.actions = vec![event_action("labeling", None, "labeled")];
    for parent_actions in [vec![], order().actions] {
        parent.actions = parent_actions;
        let e = entity("order", "order_1", "processing");
        let (mut run, _) = begin(&parent, &e, "packed", &[], false);
        run.resume(Reply::Duplicate(false));
        run.resume(Reply::Machine(child_machine.duplicate()));
        let child = entity("processing_flow", "order_1::sub::processing", "packing");
        run.resume(Reply::Child(child));
        update_of(run.resume(Reply::Duplicate(false)));
        let record = record_of(run.resume(Reply::Updated(1)));
        assert_eq!(record.transition.actions_dispatched.len(), 1);
        assert_eq!(update_of(run.resume(Reply::Recorded)).current_state, "shipped");
        // Each machine records what it has set off itself.
        let record = record_of(run.resume(Reply::Updated(1)));
        assert_eq!(record.transition.actions_dispatched.len(), parent.actions.len());
        let response = answer_of(run.resume(Reply::Recorded));
        assert_eq!(response.actions_dispatched.len(), 1 + parent.actions.len());
        assert!(matches!(
            &response.actions_dispatched[0],
            DispatchedAction::Event { event_type, state, region: None }
                if event_type == "labeled" && state == "labeling"
        ));
        if !parent.actions.is_empty() {
            assert!(matches!(
                &response.actions_dispatched[1],
                DispatchedAction::Event { event_type, .. } if event_type == "order.shipped"
            ));
        }
    }
}

#[test]
fn nothing_is_sent_for_a_state_that_was_not_entered() {
    let mut m = order();
    m.actions = vec![event_action("processing", None, "order.processing")];
    let e = entity("order", "order_1", "placed");
    for changed in [0, 1] {
        let (mut run, _) = begin(&m, &e, "start_processing", &[], true);
        update_of(run.resume(Reply::Duplicate(false)));
        match run.resume(Reply::Updated(changed)) {
            Step::Record(record) => {
                assert_eq!(changed, 1);
                assert_eq!(record.deliveries.len(), 1);
            }
            other => {
                assert_eq!(changed, 0);
                assert_eq!(error_of(other).status(), 409);
            }
        }
    }
}

#[test]
fn own_transitions_come_before_those_of_the_child() {
    let e = entity("order", "order_1", "processing");
    let (mut run, _) = begin(&order(), &e, "cancel", &[], true);
    let update = update_of(run.resume(Reply::Duplicate(false)));
    assert_eq!(update.current_state, "cancelled");
}

#[test]
fn a_child_that_was_done_before_advances_its_parent() {
    let e = entity("order", "order_1", "processing");
    let (mut run, _) = begin(&order(), &e, "anything", &[], false);
    run.resume(Reply::Duplicate(false));
    run.resume(Reply::Machine(processing_flow()));
    let child = entity("processing_flow", "order_1::sub::processing", "labeling");
    let update = update_of(run.resume(Reply::Child(child)));
    assert_eq!(update.current_state, "shipped");
    // Without dispatch, actions are listed but not sent.
    let record = record_of(run.resume(Reply::Updated(1)));
    assert!(record.deliveries.is_empty());
    let response = answer_of(run.resume(Reply::Recorded));
    assert!(matches!(
        &response.actions_dispatched[0],
        DispatchedAction::Event { event_type, .. } if event_type == "order.shipped"
    ));
    let child = response.sub_machine.unwrap();
    assert!(child.auto_completed);
    assert!(child.transition.is_none());
    assert!(shows(&child.previous_state, "labeling"));
}

#[test]
fn an_event_that_the_child_does_not_know_is_not_handled() {
    let e = entity("order", "order_1", "processing");
    for duplicate in [false, true] {
        let (mut run, _) = begin(&order(), &e, "unknown", &[], true);
        run.resume(Reply::Duplicate(false));
        run.resume(Reply::Machine(processing_flow()));
        let child = entity("processing_flow", "order_1::sub::processing", "picking");
        run.resume(Reply::Child(child));
        let response = answer_of(run.resume(Reply::Duplicate(duplicate)));
        assert_eq!(response.entity_id, "order_1");
        assert_eq!(response.reason.as_deref(), Some("no transition from 'processing' on 'unknown'"));
    }
}

fn region(id: &str, states: &[&str]) -> RegionDef {
    RegionDef {
        id: id.into(),
        states: texts(states),
        initial_state: states[0].into(),
        sub_machines: StringMap::new(),
    }
}

fn statechart() -> MachineDefinition {
    let mut m = machine(
        "chart",
        &["unused"],
        vec![
            transition("pending", "confirmed", "pay", Some("payment")),
            transition("pending", "reserved", "reserve", Some("inventory")),
        ],
    );
    m.states = vec![];
    m.initial_state = String::new();
    m.regions = vec![
        region("payment", &["pending", "confirmed"]),
        region("inventory", &["pending", "reserved"]),
        region("fulfillment", &["waiting", "ready"]),
    ];
    m.joins = vec![JoinDef {
        when: map(&[("payment", "confirmed"), ("inventory", "reserved")]),
        target_region: "fulfillment".into(),
        target_state: "ready".into(),
        actions: vec![event_action("ready", None, "joined")],
    }];
    m.actions = vec![
        event_action("reserved", Some("inventory"), "reserved"),
        event_action("ready", Some("fulfillment"), "ready"),
    ];
    m.regions[2].sub_machines.insert(
        "ready".to_string(),
        SubMachineDef { machine_id: "ship".into(), on_final: StringMap::new() },
    );
    m
}

#[test]
fn joins_follow_from_a_transition() {
    let stored = r#"{"fulfillment":"waiting","inventory":"pending","payment":"confirmed"}"#;
    let e = entity("chart", "c1", stored);
    let (mut run, _) = begin(&statechart(), &e, "reserve", &[], true);
    let update = update_of(run.resume(Reply::Duplicate(false)));
    assert_eq!(
        update.current_state,
        r#"{"fulfillment":"ready","inventory":"reserved","payment":"confirmed"}"#
    );
    let record = record_of(run.resume(Reply::Updated(1)));
    assert_eq!(record.deliveries.len(), 3);
    assert_eq!(record.transition.region, "inventory");
    assert_eq!(record.joins.len(), 1);
    assert_eq!(record.joins[0].event_type, "$join");
    assert_eq!(record.joins[0].event_params, "{}");
    assert_eq!(record.joins[0].from_state, "waiting");
    assert_eq!(record.joins[0].to_state, "ready");
    assert_eq!(record.joins[0].region, "fulfillment");
    assert_eq!(record.joins[0].timestamp, 1000);
    assert!(record.joins[0].actions_dispatched.is_empty());
    assert_eq!(record.children.len(), 1);
    assert_eq!(record.children[0].entity_id, "c1::sub::ready");
    let response = answer_of(run.resume(Reply::Recorded));
    assert_eq!(response.transition.as_deref(), Some("inventory: pending → reserved"));
    assert_eq!(response.region.as_deref(), Some("inventory"));
    assert_eq!(response.joins_fired.len(), 1);
    let types: Vec<&str> = response
        .actions_dispatched
        .iter()
        .map(|action| match action {
            DispatchedAction::Event { event_type, .. } => event_type.as_str(),
            DispatchedAction::Webhook { .. } => "webhook",
        })
        .collect();
    assert_eq!(types, ["reserved", "ready", "joined"]);
}

fn join_on(region: &str, event_type: &str) -> JoinDef {
    JoinDef {
        when: map(&[(region, "1")]),
        target_region: "c".into(),
        target_state: "2".into(),
        actions: vec![event_action("2", None, event_type)],
    }
}

fn listed_types(response: &TransitionResponse) -> Vec<String> {
    response
        .actions_dispatched
        .iter()
        .map(|action| match action {
            DispatchedAction::Event { event_type, state, region: Some(region) } => {
                format!("{event_type} {region}:{state}")
            }
            other => panic!("{other:?}"),
        })
        .collect()
}

#[test]
fn only_joins_that_fire_act() {
    let mut m = machine("m", &["unused"], vec![transition("0", "1", "go", Some("a"))]);
    m.states = vec![];
    m.initial_state = String::new();
    m.regions = ["a", "b", "c"].iter().map(|id| region(id, &["0", "1", "2"])).collect();
    m.joins = vec![join_on("a", "x"), join_on("b", "y")];
    let run_from = |b: &str| {
        let e = entity("m", "e", &format!(r#"{{"a":"0","b":"{b}","c":"0"}}"#));
        let (mut run, _) = begin(&m, &e, "go", &[], false);
        update_of(run.resume(Reply::Duplicate(false)));
        record_of(run.resume(Reply::Updated(1)));
        answer_of(run.resume(Reply::Recorded))
    };
    let one = run_from("0");
    assert_eq!(one.joins_fired.len(), 1);
    assert_eq!(listed_types(&one), ["x c:2"]);
    let both = run_from("1");
    assert_eq!(both.joins_fired.len(), 2);
    assert_eq!(listed_types(&both), ["x c:2", "y c:2"]);
}

#[test]
fn parallel_states_are_described_by_region() {
    let e = entity("chart", "c1", r#"{"payment":"confirmed","inventory":"reserved"}"#);
    let (mut run, _) = begin(&statechart(), &e, "pay", &[], true);
    let response = answer_of(run.resume(Reply::Duplicate(false)));
    assert_eq!(
        response.reason.as_deref(),
        Some(r#"no transition from '{"inventory": "reserved", "payment": "confirmed"}' on 'pay'"#)
    );
}

#[test]
fn each_active_child_is_asked_in_turn() {
    let mut m = statechart();
    m.regions[0].sub_machines.insert(
        "confirmed".to_string(),
        SubMachineDef { machine_id: "audit".into(), on_final: StringMap::new() },
    );
    let stored = r#"{"fulfillment":"ready","inventory":"reserved","payment":"confirmed"}"#;
    let e = entity("chart", "c1", stored);
    assert_eq!(find_compounds(&m, &e.state_map()).len(), 2);
    let (mut run, _) = begin(&m, &e, "go", &[], true);
    let step = run.resume(Reply::Duplicate(false));
    assert!(matches!(step, Step::LoadMachine { machine_id, .. } if machine_id == "audit"));
    run.resume(Reply::Machine(machine("audit", &["a"], vec![])));
    run.resume(Reply::Child(entity("audit", "c1::sub::confirmed", "a")));
    let step = run.resume(Reply::Duplicate(false));
    assert!(matches!(step, Step::LoadMachine { machine_id, .. } if machine_id == "ship"));
    run.resume(Reply::Machine(machine("ship", &["a", "b"], vec![transition("a", "b", "go", None)])));
    run.resume(Reply::Child(entity("ship", "c1::sub::ready", "a")));
    update_of(run.resume(Reply::Duplicate(false)));
    record_of(run.resume(Reply::Updated(1)));
    let response = answer_of(run.resume(Reply::Recorded));
    assert_eq!(response.region.as_deref(), Some("fulfillment"));
    assert_eq!(response.sub_machine.unwrap().machine_id, "ship");
}

#[test]
fn children_may_have_children() {
    let mut middle = processing_flow();
    middle.sub_machines.insert(
        "packing".to_string(),
        SubMachineDef { machine_id: "packing_flow".into(), on_final: map(&[("sealed", "labeling")]) },
    );
    let inner = machine(
        "packing_flow",
        &["open", "sealed"],
        vec![transition("open", "sealed", "seal", None)],
    );
    let e = entity("order", "o", "processing");
    let (mut run, _) = begin(&order(), &e, "seal", &[], true);
    run.resume(Reply::Duplicate(false));
    run.resume(Reply::Machine(middle));
    run.resume(Reply::Child(entity("processing_flow", "o::sub::processing", "packing")));
    run.resume(Reply::Duplicate(false));
    run.resume(Reply::Machine(inner));
    run.resume(Reply::Child(entity("packing_flow", "o::sub::processing::sub::packing", "open")));
    assert_eq!(update_of(run.resume(Reply::Duplicate(false))).current_state, "sealed");
    record_of(run.resume(Reply::Updated(1)));
    assert_eq!(update_of(run.resume(Reply::Recorded)).current_state, "labeling");
    record_of(run.resume(Reply::Updated(1)));
    assert_eq!(update_of(run.resume(Reply::Recorded)).current_state, "shipped");
    record_of(run.resume(Reply::Updated(1)));
    let response = answer_of(run.resume(Reply::Recorded));
    assert!(shows(&response.current_state, "shipped"));
}

#[test]
fn parameters_become_part_of_the_context() {
    let mut context = StringMap::new();
    context.insert("a".to_string(), Value::Bool(true));
    context.insert("b".to_string(), Value::Null);
    let merged = merge_context(&context, &map(&[("b", "2"), ("c", "3")]));
    assert_eq!(merged.len(), 3);
    assert!(matches!(merged.get("a"), Some(Value::Bool(true))));
    assert!(matches!(merged.get("b"), Some(Value::String(s)) if s == "2"));
    assert!(matches!(merged.get("c"), Some(Value::String(s)) if s == "3"));
    assert_eq!(child_entity_id("o", "s"), "o::sub::s");
    assert_eq!(context.duplicate().len(), 2);
}
