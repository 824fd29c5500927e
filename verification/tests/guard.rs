use state_machine::guard::{
    as_f64, check_guard, check_operator, compare_values, parameter_to_value, resolve_field,
};
use state_machine::json::{values_equal, Number, Value};
use state_machine::string_map::StringMap;

fn integer(n: i64) -> Value {
    if n >= 0 {
        Value::Number(Number::PosInt(n as u64))
    } else {
        Value::Number(Number::NegInt(n))
    }
}

fn float(n: f64) -> Value {
    Value::Number(Number::Float(n.to_bits()))
}

fn text(s: &str) -> Value {
    Value::String(s.to_string())
}

fn object(fields: Vec<(&str, Value)>) -> Value {
    Value::Object(fields.into_iter().map(|(name, value)| (name.to_string(), value)).collect())
}

fn condition(field: &str, op: &str, value: Value) -> Value {
    object(vec![("field", text(field)), ("op", text(op)), ("value", value)])
}

fn params(entries: &[(&str, &str)]) -> StringMap<String> {
    let mut map = StringMap::new();
    for (key, value) in entries {
        map.insert(key.to_string(), value.to_string());
    }
    map
}

fn context(entries: Vec<(&str, Value)>) -> StringMap<Value> {
    let mut map = StringMap::new();
    for (key, value) in entries {
        map.insert(key.to_string(), value);
    }
    map
}

fn holds(guard: Value, p: &[(&str, &str)], c: Vec<(&str, Value)>) -> bool {
    check_guard(&Some(guard), &params(p), &context(c))
}

#[test]
fn no_guard_always_holds() {
    assert!(check_guard(&None, &StringMap::new(), &StringMap::new()));
    assert!(holds(Value::Null, &[], vec![]));
    assert!(holds(text("x"), &[], vec![]));
    assert!(holds(object(vec![]), &[], vec![]));
}

#[test]
fn guards_compare_numbers() {
    for (op, less, same, more) in [
        ("gt", false, false, true),
        ("gte", false, true, true),
        ("lt", true, false, false),
        ("lte", true, true, false),
    ] {
        assert_eq!(holds(condition("a", op, integer(10)), &[("a", "9.5")], vec![]), less);
        assert_eq!(holds(condition("a", op, integer(10)), &[("a", "10")], vec![]), same);
        assert_eq!(holds(condition("a", op, integer(10)), &[("a", "1e1")], vec![]), same);
        assert_eq!(holds(condition("a", op, integer(10)), &[("a", "11")], vec![]), more);
        assert_eq!(holds(condition("a", op, text("10")), &[], vec![("a", integer(9))]), less);
        assert!(!holds(condition("a", op, integer(10)), &[("a", "many")], vec![]));
        assert!(!holds(condition("a", op, integer(10)), &[("a", "nan")], vec![]));
        assert!(!holds(condition("a", op, Value::Bool(true)), &[("a", "1")], vec![]));
    }
    assert!(holds(condition("a", "gt", integer(-3)), &[("a", "-2")], vec![]));
    assert!(holds(condition("a", "lt", text("inf")), &[("a", "1e308")], vec![]));
}

#[test]
fn equality_is_that_of_json() {
    assert!(holds(condition("c", "eq", text("USD")), &[("c", "USD")], vec![]));
    assert!(!holds(condition("c", "eq", text("USD")), &[("c", "EUR")], vec![]));
    assert!(holds(condition("c", "neq", text("USD")), &[("c", "EUR")], vec![]));
    assert!(holds(condition("c", "ne", text("USD")), &[("c", "EUR")], vec![]));
    assert!(holds(condition("n", "eq", integer(5)), &[], vec![("n", integer(5))]));
    assert!(holds(condition("n", "eq", float(5.0)), &[("n", "5")], vec![]));
    // A parameter is read as a double, and no double is the same number as an integer.
    assert!(!holds(condition("n", "eq", integer(5)), &[("n", "5")], vec![]));
    // An infinity has no JSON form.
    assert!(holds(condition("n", "eq", Value::Null), &[("n", "inf")], vec![]));
}

#[test]
fn texts_may_contain_others() {
    assert!(holds(condition("c", "contains", text("SD")), &[("c", "USD")], vec![]));
    assert!(holds(condition("c", "contains", text("")), &[("c", "USD")], vec![]));
    assert!(!holds(condition("c", "contains", text("sd")), &[("c", "USD")], vec![]));
    assert!(holds(condition("c", "contains", text("ab→")), &[("c", "aab→b")], vec![]));
    assert!(!holds(condition("c", "contains", text("USDX")), &[("c", "USD")], vec![]));
    assert!(!holds(condition("c", "contains", integer(1)), &[("c", "USD")], vec![]));
}

#[test]
fn lists_hold_values() {
    let list = Value::Array(vec![text("USD"), text("EUR")]);
    assert!(holds(condition("c", "in", list.clone()), &[("c", "EUR")], vec![]));
    assert!(!holds(condition("c", "in", list.clone()), &[("c", "GBP")], vec![]));
    assert!(holds(condition("c", "not_in", list.clone()), &[("c", "GBP")], vec![]));
    assert!(!holds(condition("c", "not_in", list.clone()), &[("c", "EUR")], vec![]));
    assert!(!holds(condition("c", "in", list), &[], vec![]));
    assert!(!holds(condition("c", "in", text("USD")), &[("c", "USD")], vec![]));
}

#[test]
fn fields_may_be_asked_for() {
    let exists = object(vec![("field", text("a")), ("op", text("exists"))]);
    let not_exists = object(vec![("field", text("a")), ("op", text("not_exists"))]);
    assert!(holds(exists.clone(), &[("a", "")], vec![]));
    assert!(holds(exists.clone(), &[], vec![("a", Value::Null)]));
    assert!(!holds(exists, &[("b", "")], vec![]));
    assert!(!holds(not_exists.clone(), &[("a", "")], vec![]));
    assert!(holds(not_exists, &[], vec![]));
}

#[test]
fn parameters_come_before_the_context() {
    let guard = condition("a", "gt", integer(0));
    assert!(holds(guard.clone(), &[("a", "1")], vec![("a", integer(-1))]));
    assert!(!holds(guard.clone(), &[("a", "-1")], vec![("a", integer(1))]));
    assert!(holds(guard.clone(), &[], vec![("a", integer(1))]));
    assert!(!holds(guard, &[], vec![]));
}

#[test]
fn incomplete_conditions_hold() {
    assert!(holds(object(vec![("field", text("a")), ("op", text("gt"))]), &[], vec![]));
    assert!(holds(object(vec![("field", text("a")), ("value", integer(1))]), &[], vec![]));
    assert!(holds(object(vec![("op", text("gt")), ("value", integer(1))]), &[], vec![]));
    assert!(holds(object(vec![("field", integer(1)), ("op", text("gt")), ("value", integer(1))]), &[], vec![]));
}

#[test]
fn unknown_operators_do_not_hold() {
    assert!(!holds(condition("a", "like", text("x")), &[("a", "x")], vec![]));
    assert!(!compare_values("", &text("x"), &text("x")));
}

#[test]
fn compound_guards_combine_conditions() {
    let yes = || condition("a", "gt", integer(0));
    let no = || condition("a", "lt", integer(0));
    let all = |items: Vec<Value>| object(vec![("all", Value::Array(items))]);
    let any = |items: Vec<Value>| object(vec![("any", Value::Array(items))]);
    let p = &[("a", "1")];
    assert!(holds(all(vec![yes(), yes()]), p, vec![]));
    assert!(!holds(all(vec![yes(), no()]), p, vec![]));
    assert!(holds(all(vec![]), p, vec![]));
    assert!(holds(any(vec![no(), yes()]), p, vec![]));
    assert!(!holds(any(vec![no(), no()]), p, vec![]));
    assert!(!holds(any(vec![]), p, vec![]));
    assert!(holds(all(vec![yes(), any(vec![no(), yes()])]), p, vec![]));
    // `all` comes before `any`, and what is no list does not count.
    let both = object(vec![("any", Value::Array(vec![yes()])), ("all", Value::Array(vec![no()]))]);
    assert!(!holds(both, p, vec![]));
    let odd = object(vec![("all", text("x")), ("any", Value::Array(vec![no()]))]);
    assert!(!holds(odd, p, vec![]));
}

#[test]
fn timeouts_hold_for_no_event() {
    let guard = object(vec![("timeout_seconds", integer(3600))]);
    assert!(!holds(guard.clone(), &[], vec![]));
    assert!(!holds(object(vec![("all", Value::Array(vec![guard]))]), &[], vec![]));
}

#[test]
fn values_are_read_as_numbers() {
    assert_eq!(as_f64(&integer(7)), Some(7.0f64.to_bits()));
    assert_eq!(as_f64(&integer(-7)), Some((-7.0f64).to_bits()));
    assert_eq!(as_f64(&float(0.5)), Some(0.5f64.to_bits()));
    assert_eq!(as_f64(&text("0.5")), Some(0.5f64.to_bits()));
    assert_eq!(as_f64(&text("x")), None);
    assert_eq!(as_f64(&Value::Null), None);
}

#[test]
fn parameters_become_values() {
    assert!(values_equal(&parameter_to_value("x", None), &text("x")));
    assert!(values_equal(&parameter_to_value("1", Some(1.0f64.to_bits())), &float(1.0)));
    assert!(values_equal(&parameter_to_value("inf", Some(f64::INFINITY.to_bits())), &Value::Null));
    let found = resolve_field("a", &params(&[("a", "2.5")]), &StringMap::new()).unwrap();
    assert!(values_equal(&found, &float(2.5)));
    assert!(resolve_field("a", &StringMap::new(), &StringMap::new()).is_none());
    assert!(check_operator("eq", Some(&text("x")), Some(&text("x"))));
    assert!(!check_operator("eq", Some(&text("x")), None));
}

#[test]
fn objects_are_equal_whatever_their_order() {
    let a = object(vec![("x", integer(1)), ("y", Value::Array(vec![Value::Null]))]);
    let b = object(vec![("y", Value::Array(vec![Value::Null])), ("x", integer(1))]);
    let c = object(vec![("y", Value::Array(vec![])), ("x", integer(1))]);
    let d = object(vec![("x", integer(2)), ("x", integer(1)), ("y", Value::Array(vec![Value::Null]))]);
    assert!(values_equal(&a, &b));
    assert!(!values_equal(&a, &c));
    assert!(values_equal(&a, &d));
    assert!(values_equal(&float(0.0), &float(-0.0)));
    assert!(!values_equal(&float(1.0), &integer(1)));
    assert!(!values_equal(&a, &object(vec![("x", integer(1))])));
}
