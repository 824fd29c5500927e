use state_machine::engine::apply_joins;
use state_machine::models::{
    ActionConfig, ActionDef, JoinDef, MachineDefinition, RegionDef, SubMachineDef, TransitionDef,
};
use state_machine::string_map::StringMap;

fn texts(items: &[&str]) -> Vec<String> {
    items.iter().map(|item| item.to_string()).collect()
}

fn map(entries: &[(&str, &str)]) -> StringMap<String> {
    let mut map = StringMap::new();
    for (key, value) in entries {
        map.insert(key.to_string(), value.to_string());
    }
    map
}

fn transition(from: &str, to: &str, on: &str, region: Option<&str>) -> TransitionDef {
    TransitionDef {
        from: from.into(),
        to: to.into(),
        on: on.into(),
        region: region.map(|r| r.to_string()),
        guard: None,
    }
}

fn sub_machine(machine_id: &str, on_final: &[(&str, &str)]) -> SubMachineDef {
    SubMachineDef { machine_id: machine_id.into(), on_final: map(on_final) }
}

fn flat() -> MachineDefinition {
    let mut sub_machines = StringMap::new();
    sub_machines.insert(
        "processing".to_string(),
        sub_machine("processing_flow", &[("labeling", "shipped")]),
    );
    MachineDefinition {
        machine_id: "order".into(),
        tenant_id: "t1".into(),
        states: texts(&["placed", "processing", "shipped"]),
        initial_state: "placed".into(),
        regions: vec![],
        joins: vec![],
        transitions: vec![transition("placed", "processing", "start", None)],
        actions: vec![],
        sub_machines,
    }
}

fn region(id: &str, states: &[&str], initial_state: &str) -> RegionDef {
    RegionDef {
        id: id.into(),
        states: texts(states),
        initial_state: initial_state.into(),
        sub_machines: StringMap::new(),
    }
}

fn join(when: &[(&str, &str)], target_region: &str, target_state: &str) -> JoinDef {
    JoinDef {
        when: map(when),
        target_region: target_region.into(),
        target_state: target_state.into(),
        actions: vec![],
    }
}

fn parallel() -> MachineDefinition {
    MachineDefinition {
        machine_id: "order".into(),
        tenant_id: "t1".into(),
        states: vec![],
        initial_state: String::new(),
        regions: vec![
            region("payment", &["pending", "captured"], "pending"),
            region("fulfillment", &["picking", "shipped"], "picking"),
        ],
        joins: vec![join(&[("payment", "captured")], "fulfillment", "shipped")],
        transitions: vec![transition("pending", "captured", "pay", Some("payment"))],
        actions: vec![],
        sub_machines: StringMap::new(),
    }
}

fn fault(machine: &MachineDefinition) -> String {
    machine.validate().unwrap_err()
}

#[test]
fn consistent_machines_are_accepted() {
    assert!(flat().validate().is_ok());
    assert!(parallel().validate().is_ok());
}

#[test]
fn a_machine_needs_an_id() {
    let mut m = flat();
    m.machine_id = String::new();
    assert_eq!(fault(&m), "machine_id is required");
    let mut m = parallel();
    m.machine_id = String::new();
    assert_eq!(fault(&m), "machine_id is required");
}

#[test]
fn flat_machines_are_checked() {
    let mut m = flat();
    m.states = vec![];
    assert_eq!(fault(&m), "at least one state is required");
    let mut m = flat();
    m.initial_state = "nowhere".into();
    assert_eq!(fault(&m), "initial_state 'nowhere' is not in states list");
    let mut m = flat();
    m.transitions.push(transition("nowhere", "placed", "go", None));
    assert_eq!(fault(&m), "transition 'from' state 'nowhere' not in states");
    let mut m = flat();
    m.transitions.push(transition("placed", "nowhere", "go", None));
    assert_eq!(fault(&m), "transition 'to' state 'nowhere' not in states");
    let mut m = flat();
    m.actions.push(ActionDef {
        on_enter: "nowhere".into(),
        region: None,
        action: ActionConfig::Webhook { url: "http://x".into() },
    });
    assert_eq!(fault(&m), "action on_enter state 'nowhere' not in states");
}

#[test]
fn compound_states_are_checked() {
    let mut m = flat();
    m.sub_machines.insert("nowhere".to_string(), sub_machine("x", &[]));
    assert_eq!(fault(&m), "sub_machine state 'nowhere' not in states list");
    let mut m = flat();
    m.sub_machines.insert("placed".to_string(), sub_machine("x", &[]));
    assert_eq!(fault(&m), "initial_state 'placed' cannot be a compound state (sub-machine)");
    let mut m = flat();
    m.sub_machines.insert("processing".to_string(), sub_machine("x", &[("done", "nowhere")]));
    assert_eq!(fault(&m), "sub_machine on_final target 'nowhere' not in states list");
}

#[test]
fn regions_are_checked() {
    let mut m = parallel();
    m.regions.push(region("", &["a"], "a"));
    assert_eq!(fault(&m), "region id is required");
    let mut m = parallel();
    m.regions.push(region("r", &[], "a"));
    assert_eq!(fault(&m), "region 'r' must have at least one state");
    let mut m = parallel();
    m.regions.push(region("r", &["a"], "b"));
    assert_eq!(fault(&m), "region 'r' initial_state 'b' not in its states");
}

#[test]
fn regional_transitions_are_checked() {
    let mut m = parallel();
    m.transitions.push(transition("a", "b", "go", None));
    assert_eq!(fault(&m), "transition on 'go' must specify a region in parallel machine");
    let mut m = parallel();
    m.transitions.push(transition("a", "b", "go", Some("r")));
    assert_eq!(fault(&m), "transition references unknown region 'r'");
    let mut m = parallel();
    m.transitions.push(transition("a", "pending", "go", Some("payment")));
    assert_eq!(fault(&m), "transition from 'a' not in region 'payment'");
    let mut m = parallel();
    m.transitions.push(transition("pending", "b", "go", Some("payment")));
    assert_eq!(fault(&m), "transition to 'b' not in region 'payment'");
}

#[test]
fn joins_are_checked() {
    let mut m = parallel();
    m.joins.push(join(&[("r", "a")], "payment", "pending"));
    assert_eq!(fault(&m), "join references unknown region 'r'");
    let mut m = parallel();
    m.joins.push(join(&[("payment", "a")], "payment", "pending"));
    assert_eq!(fault(&m), "join references state 'a' not in region 'payment'");
    let mut m = parallel();
    m.joins.push(join(&[], "r", "pending"));
    assert_eq!(fault(&m), "join target region 'r' not defined");
}

#[test]
fn a_join_may_lead_to_a_state_of_its_own() {
    let m = MachineDefinition {
        machine_id: "order".into(),
        tenant_id: "t1".into(),
        states: vec![],
        initial_state: String::new(),
        regions: vec![
            region("payment", &["pending", "captured", "refunded"], "pending"),
            region("fulfillment", &["picking", "packed", "shipped"], "picking"),
        ],
        joins: vec![join(
            &[("payment", "captured"), ("fulfillment", "shipped")],
            "fulfillment",
            "complete",
        )],
        transitions: vec![
            transition("pending", "captured", "pay", Some("payment")),
            transition("picking", "packed", "pack", Some("fulfillment")),
            transition("packed", "shipped", "ship", Some("fulfillment")),
        ],
        actions: vec![],
        sub_machines: StringMap::new(),
    };
    assert_eq!(m.validate(), Ok(()));
    let mut states = m.initial_state_map();
    states.insert("payment".to_string(), "captured".to_string());
    states.insert("fulfillment".to_string(), "shipped".to_string());
    assert_eq!(apply_joins(&m, &mut states, 10).len(), 1);
    assert_eq!(states.get("fulfillment").unwrap(), "complete");
}

#[test]
fn new_entities_start_in_the_initial_states() {
    let states = flat().initial_state_map();
    assert_eq!(states.len(), 1);
    assert_eq!(states.get("_").unwrap(), "placed");
    assert_eq!(flat().initial_state_encoded(), "placed");
    let states = parallel().initial_state_map();
    assert_eq!(states.len(), 2);
    assert_eq!(states.get("payment").unwrap(), "pending");
    assert_eq!(
        parallel().initial_state_encoded(),
        r#"{"fulfillment":"picking","payment":"pending"}"#
    );
    assert!(!flat().is_parallel());
    assert!(parallel().is_parallel());
}

#[test]
fn compound_states_have_a_sub_machine() {
    let m = flat();
    assert_eq!(m.sub_machine_for_state("processing", "_").unwrap().machine_id, "processing_flow");
    assert!(m.sub_machine_for_state("placed", "_").is_none());
    let mut m = parallel();
    m.regions[1].sub_machines.insert("picking".to_string(), sub_machine("pick", &[]));
    assert_eq!(m.sub_machine_for_state("picking", "fulfillment").unwrap().machine_id, "pick");
    assert!(m.sub_machine_for_state("picking", "payment").is_none());
    assert!(m.sub_machine_for_state("picking", "nowhere").is_none());
}
