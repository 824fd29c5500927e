//! Guards: conditions on an event's parameters and an entity's context.

use vstd::prelude::*;

use crate::double::{
    double_at_most, double_less, i64_to_double, is_finite_double, u64_to_double,
};
use crate::json::{field_index, values_equal, Number, NumberView, Value, ValueView};
use crate::numeral::parse_double;
use crate::string_map::{Duplicate, StringMap};
use crate::text::{contains_text, same_text};

verus! {

/// The value of a parameter: a number where its text denotes one, nothing where the text denotes
/// an infinity or "not a number", the text itself otherwise.
pub open spec fn parameter_value(text: Seq<char>, denoted: Option<Option<int>>) -> ValueView {
    match denoted {
        Some(Some(key)) if crate::double::is_finite(key) => ValueView::Number(
            NumberView::Float(key),
        ),
        Some(_) => ValueView::Null,
        None => ValueView::String(text),
    }
}

/// The value of a field: that of the event's parameter, or else that in the entity's context.
pub open spec fn field_value(
    field: Seq<char>,
    params: Map<Seq<char>, Seq<char>>,
    context: Map<Seq<char>, ValueView>,
) -> Option<ValueView> {
    if params.contains_key(field) {
        Some(parameter_value(params[field], crate::numeral::double_of_text(params[field])))
    } else if context.contains_key(field) {
        Some(context[field])
    } else {
        None
    }
}

/// The double that a value denotes, where it is a number or a text that denotes one.
pub open spec fn numeric(value: ValueView) -> Option<Option<int>> {
    match value {
        ValueView::Number(NumberView::PosInt(n)) => Some(
            Some(crate::double::integer_key(n as int)),
        ),
        ValueView::Number(NumberView::NegInt(n)) => Some(
            Some(crate::double::integer_key(n as int)),
        ),
        ValueView::Number(NumberView::Float(key)) => Some(crate::double::ordered(key)),
        ValueView::String(text) => crate::numeral::double_of_text(text),
        _ => None,
    }
}

/// Whether two doubles stand in the relation that an operator names. "Not a number" stands in none.
pub open spec fn doubles_compare(op: Seq<char>, a: Option<int>, b: Option<int>) -> bool {
    match (a, b) {
        (Some(x), Some(y)) => {
            ||| op == "gt"@ && x > y
            ||| op == "gte"@ && x >= y
            ||| op == "lt"@ && x < y
            ||| op == "lte"@ && x <= y
        },
        _ => false,
    }
}

/// Whether an operator compares numbers.
pub open spec fn is_numeric_operator(op: Seq<char>) -> bool {
    op == "gt"@ || op == "gte"@ || op == "lt"@ || op == "lte"@
}

/// Whether a value satisfies an operator and its operand. An unknown operator is never satisfied.
pub open spec fn values_compare(op: Seq<char>, actual: ValueView, expected: ValueView) -> bool {
    if op == "eq"@ {
        actual == expected
    } else if op == "neq"@ || op == "ne"@ {
        actual != expected
    } else if is_numeric_operator(op) {
        match (numeric(actual), numeric(expected)) {
            (Some(a), Some(b)) => doubles_compare(op, a, b),
            _ => false,
        }
    } else if op == "contains"@ {
        match (actual, expected) {
            (ValueView::String(text), ValueView::String(part)) => crate::text::occurs_in(
                part,
                text,
            ),
            _ => false,
        }
    } else if op == "in"@ {
        expected matches ValueView::Array(items) && items.contains(actual)
    } else if op == "not_in"@ {
        expected matches ValueView::Array(items) && !items.contains(actual)
    } else {
        false
    }
}

/// The text of a field of an object, where it is a string.
pub open spec fn text_field(fields: Map<Seq<char>, ValueView>, name: Seq<char>) -> Option<
    Seq<char>,
> {
    if fields.contains_key(name) {
        match fields[name] {
            ValueView::String(text) => Some(text),
            _ => None,
        }
    } else {
        None
    }
}

/// Whether a single condition holds, given the value of its field. A condition that lacks a part
/// holds; otherwise one on a field without a value fails, except for `not_exists`.
pub open spec fn operator_holds(
    op: Seq<char>,
    expected: Option<ValueView>,
    actual: Option<ValueView>,
) -> bool {
    if op == "exists"@ {
        actual is Some
    } else if op == "not_exists"@ {
        actual is None
    } else {
        match (expected, actual) {
            (None, _) => true,
            (Some(_), None) => false,
            (Some(e), Some(a)) => values_compare(op, a, e),
        }
    }
}

/// Whether the single condition that the fields of an object spell out holds.
pub open spec fn condition_holds(
    fields: Map<Seq<char>, ValueView>,
    params: Map<Seq<char>, Seq<char>>,
    context: Map<Seq<char>, ValueView>,
) -> bool {
    match (text_field(fields, "field"@), text_field(fields, "op"@)) {
        (Some(field), Some(op)) => operator_holds(
            op,
            if fields.contains_key("value"@) {
                Some(fields["value"@])
            } else {
                None
            },
            field_value(field, params, context),
        ),
        _ => true,
    }
}

/// The conditions of a compound guard.
pub open spec fn sub_guards(fields: Map<Seq<char>, ValueView>, name: Seq<char>) -> Option<
    Seq<ValueView>,
> {
    if fields.contains_key(name) {
        match fields[name] {
            ValueView::Array(items) => Some(items),
            _ => None,
        }
    } else {
        None
    }
}

/// Whether a guard holds. A timeout guard never does (the scheduler fires those), `all` wants each
/// of its conditions, `any` wants one of them, and what is no object does not restrict.
pub open spec fn guard_holds(
    guard: ValueView,
    params: Map<Seq<char>, Seq<char>>,
    context: Map<Seq<char>, ValueView>,
) -> bool
    decreases guard,
{
    match guard {
        ValueView::Object(fields) => {
            if fields.contains_key("timeout_seconds"@) {
                false
            } else if sub_guards(fields, "all"@) is Some {
                forall|i: int|
                    0 <= i < fields["all"@]->Array_0.len() ==> guard_holds(
                        #[trigger] fields["all"@]->Array_0[i],
                        params,
                        context,
                    )
            } else if sub_guards(fields, "any"@) is Some {
                exists|i: int|
                    0 <= i < fields["any"@]->Array_0.len() && guard_holds(
                        #[trigger] fields["any"@]->Array_0[i],
                        params,
                        context,
                    )
            } else {
                condition_holds(fields, params, context)
            }
        },
        _ => true,
    }
}

/// The value of a parameter, given the bits of the double that its text denotes.
pub fn parameter_to_value(text: &str, denoted: Option<u64>) -> (value: Value)
    ensures
        value.deep_view() == parameter_value(
            text@,
            match denoted {
                Some(bits) => Some(crate::double::double(bits)),
                None => None,
            },
        ),
{
    match denoted {
        Some(bits) => if is_finite_double(bits) {
            Value::Number(Number::Float(bits))
        } else {
            Value::Null
        },
        None => Value::String(text.to_owned()),
    }
}

/// The value of a field: that of the event's parameter, or else that in the entity's context.
pub fn resolve_field(
    field: &str,
    params: &StringMap<String>,
    context: &StringMap<Value>,
) -> (value: Option<Value>)
    ensures
        value.deep_view() == field_value(field@, params.deep_view(), context.deep_view()),
{
    if let Some(text) = params.get(field) {
        Some(parameter_to_value(text.as_str(), parse_double(text.as_str())))
    } else if let Some(value) = context.get(field) {
        Some(value.duplicate())
    } else {
        None
    }
}

/// The bits of the double that a value denotes, where it is a number or a text that denotes one.
pub fn as_f64(value: &Value) -> (bits: Option<u64>)
    ensures
        match bits {
            Some(b) => numeric(value.deep_view()) == Some(crate::double::double(b)),
            None => numeric(value.deep_view()) is None,
        },
{
    match value {
        Value::Number(Number::PosInt(n)) => Some(u64_to_double(*n)),
        Value::Number(Number::NegInt(n)) => Some(i64_to_double(*n)),
        Value::Number(Number::Float(bits)) => Some(*bits),
        Value::String(text) => parse_double(text.as_str()),
        _ => None,
    }
}

/// Whether two doubles stand in the relation that an operator names.
pub fn compare_doubles(op: &str, a: u64, b: u64) -> (holds: bool)
    ensures
        holds == doubles_compare(op@, crate::double::double(a), crate::double::double(b)),
{
    (same_text(op, "gt") && double_less(b, a)) || (same_text(op, "gte") && double_at_most(b, a))
        || (same_text(op, "lt") && double_less(a, b)) || (same_text(op, "lte") && double_at_most(
        a,
        b,
    ))
}

/// Whether a list holds a value.
pub fn list_contains(items: &Vec<Value>, value: &Value) -> (found: bool)
    ensures
        found == crate::json::array_view(items@).contains(value.deep_view()),
{
    let mut i: usize = 0;
    while i < items.len()
        invariant
            i <= items.len(),
            forall|j: int|
                0 <= j < i ==> #[trigger] crate::json::array_view(items@)[j] != value.deep_view(),
        decreases items.len() - i,
    {
        if values_equal(&items[i], value) {
            assert(crate::json::array_view(items@)[i as int] == value.deep_view());
            return true;
        }
        i = i + 1;
    }
    false
}

/// Whether a value satisfies an operator and its operand.
pub fn compare_values(op: &str, actual: &Value, expected: &Value) -> (holds: bool)
    ensures
        holds == values_compare(op@, actual.deep_view(), expected.deep_view()),
{
    if same_text(op, "eq") {
        values_equal(actual, expected)
    } else if same_text(op, "neq") || same_text(op, "ne") {
        !values_equal(actual, expected)
    } else if same_text(op, "gt") || same_text(op, "gte") || same_text(op, "lt") || same_text(
        op,
        "lte",
    ) {
        match (as_f64(actual), as_f64(expected)) {
            (Some(a), Some(b)) => compare_doubles(op, a, b),
            _ => false,
        }
    } else if same_text(op, "contains") {
        match (actual, expected) {
            (Value::String(text), Value::String(part)) => contains_text(
                text.as_str(),
                part.as_str(),
            ),
            _ => false,
        }
    } else if same_text(op, "in") {
        match expected {
            Value::Array(items) => list_contains(items, actual),
            _ => false,
        }
    } else if same_text(op, "not_in") {
        match expected {
            Value::Array(items) => !list_contains(items, actual),
            _ => false,
        }
    } else {
        false
    }
}

/// The text of a field of an object, where it is a string.
fn get_text<'a>(fields: &'a Vec<(String, Value)>, name: &str) -> (text: Option<&'a str>)
    ensures
        match text {
            Some(t) => text_field(crate::json::object_view(fields@), name@) == Some(t@),
            None => text_field(crate::json::object_view(fields@), name@) is None,
        },
{
    match field_index(fields, name) {
        Some(i) => match &fields[i].1 {
            Value::String(text) => Some(text.as_str()),
            _ => None,
        },
        None => None,
    }
}

/// Whether a single condition holds, given the value of its field.
pub fn check_operator(op: &str, expected: Option<&Value>, actual: Option<&Value>) -> (holds: bool)
    ensures
        holds == operator_holds(op@, expected.deep_view(), actual.deep_view()),
{
    if same_text(op, "exists") {
        actual.is_some()
    } else if same_text(op, "not_exists") {
        actual.is_none()
    } else {
        match (expected, actual) {
            (None, _) => true,
            (Some(_), None) => false,
            (Some(e), Some(a)) => compare_values(op, a, e),
        }
    }
}

/// Whether the single condition that the fields of an object spell out holds.
fn check_condition(
    fields: &Vec<(String, Value)>,
    params: &StringMap<String>,
    context: &StringMap<Value>,
) -> (holds: bool)
    ensures
        holds == condition_holds(
            crate::json::object_view(fields@),
            params.deep_view(),
            context.deep_view(),
        ),
{
    match (get_text(fields, "field"), get_text(fields, "op")) {
        (Some(field), Some(op)) => {
            let actual = resolve_field(field, params, context);
            let expected = match field_index(fields, "value") {
                Some(i) => Some(&fields[i].1),
                None => None,
            };
            check_operator(op, expected, actual.as_ref())
        },
        _ => true,
    }
}

/// Whether a guard holds.
pub fn check_condition_tree(
    guard: &Value,
    params: &StringMap<String>,
    context: &StringMap<Value>,
) -> (holds: bool)
    ensures
        holds == guard_holds(guard.deep_view(), params.deep_view(), context.deep_view()),
    decreases guard,
{
    let fields = match guard {
        Value::Object(fields) => fields,
        _ => return true,
    };
    let ghost object = crate::json::object_view(fields@);
    if field_index(fields, "timeout_seconds").is_some() {
        return false;
    }
    if let Some(at) = field_index(fields, "all") {
        if let Value::Array(items) = &fields[at].1 {
            let mut i: usize = 0;
            while i < items.len()
                invariant
                    i <= items.len(),
                    at < fields.len(),
                    *guard == Value::Object(*fields),
                    fields@[at as int].1 == Value::Array(*items),
                    guard.deep_view() == ValueView::Object(object),
                    !object.contains_key("timeout_seconds"@),
                    object.contains_key("all"@),
                    object["all"@] == ValueView::Array(crate::json::array_view(items@)),
                    forall|j: int|
                        0 <= j < i ==> guard_holds(
                            #[trigger] crate::json::array_view(items@)[j],
                            params.deep_view(),
                            context.deep_view(),
                        ),
                decreases items.len() - i,
            {
                assert(decreases_to!(*guard => guard->Object_0));
                assert(decreases_to!(*fields => fields[at as int]));
                assert(decreases_to!(fields[at as int] => fields[at as int].1));
                assert(decreases_to!(fields[at as int].1 => fields[at as int].1->Array_0));
                assert(decreases_to!(*items => items[i as int]));
                if !check_condition_tree(&items[i], params, context) {
                    assert(!guard_holds(
                        object["all"@]->Array_0[i as int],
                        params.deep_view(),
                        context.deep_view(),
                    ));
                    return false;
                }
                i = i + 1;
            }
            return true;
        }
    }
    if let Some(at) = field_index(fields, "any") {
        if let Value::Array(items) = &fields[at].1 {
            let mut i: usize = 0;
            while i < items.len()
                invariant
                    i <= items.len(),
                    at < fields.len(),
                    *guard == Value::Object(*fields),
                    fields@[at as int].1 == Value::Array(*items),
                    guard.deep_view() == ValueView::Object(object),
                    !object.contains_key("timeout_seconds"@),
                    sub_guards(object, "all"@) is None,
                    object.contains_key("any"@),
                    object["any"@] == ValueView::Array(crate::json::array_view(items@)),
                    forall|j: int|
                        0 <= j < i ==> !guard_holds(
                            #[trigger] crate::json::array_view(items@)[j],
                            params.deep_view(),
                            context.deep_view(),
                        ),
                decreases items.len() - i,
            {
                assert(decreases_to!(*guard => guard->Object_0));
                assert(decreases_to!(*fields => fields[at as int]));
                assert(decreases_to!(fields[at as int] => fields[at as int].1));
                assert(decreases_to!(fields[at as int].1 => fields[at as int].1->Array_0));
                assert(decreases_to!(*items => items[i as int]));
                if check_condition_tree(&items[i], params, context) {
                    assert(guard_holds(
                        object["any"@]->Array_0[i as int],
                        params.deep_view(),
                        context.deep_view(),
                    ));
                    return true;
                }
                i = i + 1;
            }
            return false;
        }
    }
    check_condition(fields, params, context)
}

/// Whether the guard of a transition holds; a transition without a guard is unconditional.
pub fn check_guard(
    guard: &Option<Value>,
    params: &StringMap<String>,
    context: &StringMap<Value>,
) -> (holds: bool)
    ensures
        holds == (guard.deep_view() matches Some(g) ==> guard_holds(
            g,
            params.deep_view(),
            context.deep_view(),
        )),
{
    match guard {
        Some(guard) => check_condition_tree(guard, params, context),
        None => true,
    }
}

// ── Laws ────────────────────────────────────────────────────────────────────

/// The parameters of an event come before the context of the entity: a field that the event names
/// does not depend on the context, and one that it does not name depends on nothing else.
pub proof fn law_parameters_come_first(
    field: Seq<char>,
    params: Map<Seq<char>, Seq<char>>,
    context: Map<Seq<char>, ValueView>,
    other: Map<Seq<char>, ValueView>,
)
    ensures
        params.contains_key(field) ==> field_value(field, params, context) == field_value(
            field,
            params,
            other,
        ) && field_value(field, params, context) is Some,
        !params.contains_key(field) ==> field_value(field, params, context)
            == crate::machine::lookup(context, field),
{
}

/// A guard with a timeout holds for no event: only the passing of time sets its transition off.
pub proof fn law_timeouts_hold_for_no_event(
    fields: Map<Seq<char>, ValueView>,
    params: Map<Seq<char>, Seq<char>>,
    context: Map<Seq<char>, ValueView>,
)
    requires
        fields.contains_key("timeout_seconds"@),
    ensures
        !guard_holds(ValueView::Object(fields), params, context),
{
}

/// A compound guard `all` holds exactly if each of its conditions does, and `any` if one does.
pub proof fn law_compound_guards(
    guards: Seq<ValueView>,
    params: Map<Seq<char>, Seq<char>>,
    context: Map<Seq<char>, ValueView>,
)
    ensures
        ({
            let all = Map::<Seq<char>, ValueView>::empty().insert("all"@, ValueView::Array(guards));
            guard_holds(ValueView::Object(all), params, context) <==> (forall|i: int|
                0 <= i < guards.len() ==> guard_holds(#[trigger] guards[i], params, context))
        }),
        ({
            let any = Map::<Seq<char>, ValueView>::empty().insert("any"@, ValueView::Array(guards));
            guard_holds(ValueView::Object(any), params, context) <==> (exists|i: int|
                0 <= i < guards.len() && guard_holds(#[trigger] guards[i], params, context))
        }),
{
    reveal_strlit("all");
    reveal_strlit("any");
    reveal_strlit("timeout_seconds");
    let all = Map::<Seq<char>, ValueView>::empty().insert("all"@, ValueView::Array(guards));
    let any = Map::<Seq<char>, ValueView>::empty().insert("any"@, ValueView::Array(guards));
    assert("all"@.len() != "timeout_seconds"@.len());
    assert("any"@.len() != "timeout_seconds"@.len());
    assert("all"@[1] != "any"@[1]);
    assert(sub_guards(all, "all"@) == Some(guards));
    assert(sub_guards(any, "all"@) is None);
    assert(sub_guards(any, "any"@) == Some(guards));
    assert(all["all"@]->Array_0 == guards);
    assert(any["any"@]->Array_0 == guards);
}

/// `neq` is the opposite of `eq`; of two numbers `lte` is the opposite of `gt`, `gte` that of `lt`,
/// and `gt` is `lt` the other way round.
pub proof fn law_operators_are_opposites(a: ValueView, b: ValueView)
    ensures
        values_compare("neq"@, a, b) == !values_compare("eq"@, a, b),
        ({
            &&& numeric(a) matches Some(x)
            &&& numeric(b) matches Some(y)
            &&& x is Some
            &&& y is Some
        }) ==> {
            &&& values_compare("lte"@, a, b) == !values_compare("gt"@, a, b)
            &&& values_compare("gte"@, a, b) == !values_compare("lt"@, a, b)
        },
        values_compare("gt"@, a, b) == values_compare("lt"@, b, a),
        values_compare("gte"@, a, b) == values_compare("lte"@, b, a),
{
    lemma_operators_differ();
    assert(is_numeric_operator("gt"@));
    assert(is_numeric_operator("gte"@));
    assert(is_numeric_operator("lt"@));
    assert(is_numeric_operator("lte"@));
}

/// `in` holds exactly if the value is in the list, and `not_in` if it is not.
pub proof fn law_membership(value: ValueView, items: Seq<ValueView>)
    ensures
        values_compare("in"@, value, ValueView::Array(items)) == items.contains(value),
        values_compare("not_in"@, value, ValueView::Array(items)) == !items.contains(value),
{
    lemma_operators_differ();
}

/// `exists` holds exactly if the field has a value, and `not_exists` if it has none, whatever
/// operand is given.
pub proof fn law_existence(expected: Option<ValueView>, actual: Option<ValueView>)
    ensures
        operator_holds("exists"@, expected, actual) == (actual is Some),
        operator_holds("not_exists"@, expected, actual) == (actual is None),
{
    reveal_strlit("exists");
    reveal_strlit("not_exists");
    assert("exists"@.len() != "not_exists"@.len());
}

/// The operators are told apart by their names.
proof fn lemma_operators_differ()
    ensures
        "eq"@ != "neq"@,
        "eq"@ != "ne"@,
        forall|op: Seq<char>|
            #![trigger is_numeric_operator(op)]
            op == "gt"@ || op == "gte"@ || op == "lt"@ || op == "lte"@ ==> op != "eq"@ && op
                != "neq"@ && op != "ne"@ && op != "contains"@ && op != "in"@,
        "gt"@ != "gte"@,
        "gt"@ != "lt"@,
        "gt"@ != "lte"@,
        "gte"@ != "lt"@,
        "gte"@ != "lte"@,
        "lt"@ != "lte"@,
        "in"@ != "eq"@,
        "in"@ != "neq"@,
        "in"@ != "ne"@,
        "in"@ != "contains"@,
        !is_numeric_operator("in"@),
        "not_in"@ != "eq"@,
        "not_in"@ != "neq"@,
        "not_in"@ != "ne"@,
        "not_in"@ != "contains"@,
        "not_in"@ != "in"@,
        !is_numeric_operator("not_in"@),
{
    reveal_strlit("eq");
    reveal_strlit("neq");
    reveal_strlit("ne");
    reveal_strlit("gt");
    reveal_strlit("gte");
    reveal_strlit("lt");
    reveal_strlit("lte");
    reveal_strlit("contains");
    reveal_strlit("in");
    reveal_strlit("not_in");
    assert("eq"@.len() == 2 && "eq"@[0] == 'e');
    assert("ne"@.len() == 2 && "ne"@[0] == 'n');
    assert("gt"@.len() == 2 && "gt"@[0] == 'g');
    assert("lt"@.len() == 2 && "lt"@[0] == 'l');
    assert("in"@.len() == 2 && "in"@[0] == 'i');
    assert("neq"@.len() == 3 && "neq"@[0] == 'n');
    assert("gte"@.len() == 3 && "gte"@[0] == 'g');
    assert("lte"@.len() == 3 && "lte"@[0] == 'l');
    assert("contains"@.len() == 8);
    assert("not_in"@.len() == 6);
}

} // verus!
