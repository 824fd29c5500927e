use state_machine::entity::{decode_state, show_state, state_map_to_value};
use state_machine::json::Value;
use state_machine::json_text::{
    debug_string_map, parse_string_object, write_string_object, RAW_VALUE_KEY,
};
use state_machine::models::{Entity, StateValue, DEFAULT_REGION};
use state_machine::string_map::StringMap;

fn map(entries: &[(&str, &str)]) -> StringMap<String> {
    let mut map = StringMap::new();
    for (key, value) in entries {
        map.insert(key.to_string(), value.to_string());
    }
    map
}

fn entity(state: &str) -> Entity {
    let mut context = StringMap::new();
    context.insert("vip".to_string(), Value::Bool(true));
    Entity {
        machine_id: "m".into(),
        tenant_id: "t".into(),
        entity_id: "e".into(),
        current_state: state.into(),
        context,
        state_version: 3,
        created_at: 10,
        updated_at: 20,
    }
}

fn same(a: &StringMap<String>, b: &StringMap<String>) -> bool {
    a.len() == b.len() && (0..a.len()).all(|i| b.get(a.entry(i).0) == Some(a.entry(i).1))
}

#[test]
fn flat_states_are_stored_as_they_are() {
    let states = entity("active").state_map();
    assert!(same(&states, &map(&[(DEFAULT_REGION, "active")])));
    assert_eq!(Entity::encode_state(&states), "active");
    assert_eq!(entity("active").region_state(DEFAULT_REGION).as_deref(), Some("active"));
    assert_eq!(entity("active").region_state("x"), None);
    assert!(!entity("active").is_parallel());
}

#[test]
fn parallel_states_are_stored_as_objects() {
    let states = map(&[("payment", "captured"), ("fulfillment", "picking")]);
    let stored = Entity::encode_state(&states);
    assert_eq!(stored, r#"{"fulfillment":"picking","payment":"captured"}"#);
    assert!(same(&entity(&stored).state_map(), &states));
    assert!(entity(&stored).is_parallel());
    assert_eq!(entity(&stored).region_state("payment").as_deref(), Some("captured"));
}

#[test]
fn states_survive_storage() {
    for states in [
        map(&[]),
        map(&[("_", "a"), ("b", "c")]),
        map(&[("only", "one")]),
        map(&[("quo\"te", "line\nbreak"), ("ü", "→")]),
        map(&[("_", "plain")]),
        map(&[("_", "{not json")]),
    ] {
        assert!(same(&entity(&Entity::encode_state(&states)).state_map(), &states));
    }
}

#[test]
fn unreadable_objects_are_plain_states() {
    for stored in ["{", "{}x", r#"{"a":1}"#, r#"{"a":{"b":"c"}}"#, ""] {
        assert!(same(&entity(stored).state_map(), &map(&[(DEFAULT_REGION, stored)])));
    }
    assert!(same(&entity("{}").state_map(), &map(&[])));
    assert!(same(&decode_state("{x", Some(map(&[("a", "b")]))), &map(&[("a", "b")])));
    assert!(same(&decode_state("x", Some(map(&[("a", "b")]))), &map(&[("_", "x")])));
}

#[test]
fn responses_show_the_state() {
    let response = entity("active").to_response();
    assert!(matches!(response.current_state, StateValue::Text(ref s) if s == "active"));
    assert_eq!(response.state_version, 3);
    assert_eq!(response.created_at, 10);
    assert_eq!(response.updated_at, 20);
    assert!(matches!(response.context.get("vip"), Some(Value::Bool(true))));
    let response = entity(r#"{"a":"b"}"#).to_response();
    assert!(matches!(response.current_state, StateValue::Json(ref s) if s == r#"{"a":"b"}"#));
    let response = entity("{a").to_response();
    assert!(matches!(response.current_state, StateValue::Text(ref s) if s == "{a"));
    let response = entity(r#"{"a":1}"#).to_response();
    assert!(matches!(response.current_state, StateValue::Json(_)));
    assert!(matches!(show_state("1", true), StateValue::Text(_)));
}

#[test]
fn maps_are_shown_as_their_stored_form() {
    let shown = state_map_to_value(&map(&[("_", "done")]));
    assert!(matches!(shown, StateValue::Text(ref s) if s == "done"));
    let shown = state_map_to_value(&map(&[("b", "2"), ("a", "1")]));
    assert!(matches!(shown, StateValue::Json(ref s) if s == r#"{"a":"1","b":"2"}"#));
}

#[test]
fn the_mark_of_raw_text_is_no_ordinary_key() {
    let states = map(&[(RAW_VALUE_KEY, "x")]);
    let stored = Entity::encode_state(&states);
    assert!(same(&parse_string_object(&stored).unwrap(), &states));
    assert!(matches!(state_map_to_value(&states), StateValue::Json(text) if text == stored));
    assert!(matches!(
        entity(&stored).to_response().current_state,
        StateValue::Text(text) if text == stored
    ));
}

#[test]
fn string_objects_are_read_and_written() {
    let read = parse_string_object(r#" {"b":"x","a":"1","b":"y"} "#).unwrap();
    assert!(same(&read, &map(&[("a", "1"), ("b", "y")])));
    assert!(parse_string_object("null").is_none());
    assert!(parse_string_object("[]").is_none());
    assert_eq!(write_string_object(&map(&[])), "{}");
    assert_eq!(write_string_object(&map(&[("k", "\"")])), r#"{"k":"\""}"#);
    assert_eq!(debug_string_map(&map(&[("b", "2"), ("a", "1")])), r#"{"a": "1", "b": "2"}"#);
}

#[test]
fn string_maps_hold_one_value_for_each_key() {
    let mut states = map(&[("a", "1")]);
    assert!(!states.is_empty());
    states.insert("a".to_string(), "2".to_string());
    states.insert("b".to_string(), "3".to_string());
    assert_eq!(states.len(), 2);
    assert_eq!(states.get("a").unwrap(), "2");
    assert!(states.contains_key("b"));
    assert!(!states.contains_key("c"));
    let copy = states.clone();
    assert!(same(&copy, &states));
    let listed = StringMap::from_entries(vec![
        ("x".to_string(), "1".to_string()),
        ("x".to_string(), "2".to_string()),
    ]);
    assert!(same(&listed, &map(&[("x", "2")])));
}
