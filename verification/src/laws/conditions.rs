//! What guards mean, and which transition an event sets off.

use vstd::prelude::*;

use crate::engine::TransitionResultView;
use crate::json::{NumberView, ValueView};
use crate::models::TransitionDefView;

verus! {

// ── Transitions ─────────────────────────────────────────────────────────────

/// Whether an event sets off a transition: the region that it names, or else the default one, is in
/// the state that it leaves, it waits for the event, and its guard holds, if it has one.
pub open spec fn is_set_off(
    t: TransitionDefView,
    states: Map<Seq<char>, Seq<char>>,
    event_type: Seq<char>,
    params: Map<Seq<char>, Seq<char>>,
    context: Map<Seq<char>, ValueView>,
) -> bool {
    &&& states.contains_key(crate::laws::timeouts::named_region(t))
    &&& states[crate::laws::timeouts::named_region(t)] == t.from
    &&& t.on == event_type
    &&& t.guard matches Some(guard) ==> crate::guard::guard_holds(guard, params, context)
}

/// Whether a result is that of the transition at a position, before which an event sets off none.
pub open spec fn is_result_of(
    transitions: Seq<TransitionDefView>,
    k: int,
    states: Map<Seq<char>, Seq<char>>,
    event_type: Seq<char>,
    params: Map<Seq<char>, Seq<char>>,
    context: Map<Seq<char>, ValueView>,
    result: TransitionResultView,
) -> bool {
    &&& 0 <= k < transitions.len()
    &&& is_set_off(transitions[k], states, event_type, params, context)
    &&& forall|j: int|
        0 <= j < k ==> !is_set_off(#[trigger] transitions[j], states, event_type, params, context)
    &&& result.region == crate::laws::timeouts::named_region(transitions[k])
    &&& result.from_state == transitions[k].from
    &&& result.to_state == transitions[k].to
    &&& result._matched_transition == transitions[k]
}

/// An event sets off the first transition, in the order of the definition, that waits for it where
/// the entity is and whose guard holds; it sets off none exactly if there is no such transition.
pub proof fn law_events_set_off_the_first_match(
    transitions: Seq<TransitionDefView>,
    states: Map<Seq<char>, Seq<char>>,
    event_type: Seq<char>,
    params: Map<Seq<char>, Seq<char>>,
    context: Map<Seq<char>, ValueView>,
)
    ensures
        match crate::engine::evaluation(transitions, states, event_type, params, context) {
            Some(result) => exists|k: int| #[trigger]
                is_result_of(transitions, k, states, event_type, params, context, result),
            None => forall|j: int|
                0 <= j < transitions.len() ==> !is_set_off(
                    #[trigger] transitions[j],
                    states,
                    event_type,
                    params,
                    context,
                ),
        },
    decreases transitions.len(),
{
    if transitions.len() > 0 {
        let first = transitions[0];
        let rest = transitions.drop_first();
        law_events_set_off_the_first_match(rest, states, event_type, params, context);
        if is_set_off(first, states, event_type, params, context) {
            let result = crate::engine::evaluation(
                transitions,
                states,
                event_type,
                params,
                context,
            )->0;
            assert(is_result_of(transitions, 0, states, event_type, params, context, result));
        } else {
            match crate::engine::evaluation(rest, states, event_type, params, context) {
                Some(result) => {
                    let k = choose|k: int| #[trigger]
                        is_result_of(rest, k, states, event_type, params, context, result);
                    assert(transitions[k + 1] == rest[k]);
                    assert forall|j: int| 0 <= j < k + 1 implies !is_set_off(
                        #[trigger] transitions[j],
                        states,
                        event_type,
                        params,
                        context,
                    ) by {
                        if j > 0 {
                            assert(transitions[j] == rest[j - 1]);
                        }
                    }
                    assert(is_result_of(
                        transitions,
                        k + 1,
                        states,
                        event_type,
                        params,
                        context,
                        result,
                    ));
                },
                None => {
                    assert forall|j: int| 0 <= j < transitions.len() implies !is_set_off(
                        #[trigger] transitions[j],
                        states,
                        event_type,
                        params,
                        context,
                    ) by {
                        if j > 0 {
                            assert(transitions[j] == rest[j - 1]);
                        }
                    }
                },
            }
        }
    }
}

// ── Guards ──────────────────────────────────────────────────────────────────

/// Whether a field of an object is a list.
pub open spec fn has_list(fields: Map<Seq<char>, ValueView>, name: Seq<char>) -> bool {
    fields.contains_key(name) && fields[name] is Array
}

/// A guard that is no object restricts nothing; one with a timeout holds for no event; `all` wants
/// each guard in its list, and comes before `any`, which wants one of them.
pub proof fn law_guards_combine(
    fields: Map<Seq<char>, ValueView>,
    other: ValueView,
    params: Map<Seq<char>, Seq<char>>,
    context: Map<Seq<char>, ValueView>,
)
    ensures
        other !is Object ==> crate::guard::guard_holds(other, params, context),
        fields.contains_key("timeout_seconds"@) ==> !crate::guard::guard_holds(
            ValueView::Object(fields),
            params,
            context,
        ),
        !fields.contains_key("timeout_seconds"@) && has_list(fields, "all"@) ==> (
        crate::guard::guard_holds(ValueView::Object(fields), params, context) <==> (forall|i: int|
            0 <= i < fields["all"@]->Array_0.len() ==> crate::guard::guard_holds(
                #[trigger] fields["all"@]->Array_0[i],
                params,
                context,
            ))),
        !fields.contains_key("timeout_seconds"@) && !has_list(fields, "all"@) && has_list(
            fields,
            "any"@,
        ) ==> (crate::guard::guard_holds(ValueView::Object(fields), params, context) <==> (exists|
            i: int,
        |
            0 <= i < fields["any"@]->Array_0.len() && crate::guard::guard_holds(
                #[trigger] fields["any"@]->Array_0[i],
                params,
                context,
            ))),
{
}

/// The value of a field: what the event's parameter of that name reads as, or else what the context
/// of the entity has under it. A parameter reads as the number that it denotes, as nothing where
/// that is not finite, and as itself where it denotes none.
pub open spec fn value_of(
    field: Seq<char>,
    params: Map<Seq<char>, Seq<char>>,
    context: Map<Seq<char>, ValueView>,
) -> Option<ValueView> {
    if params.contains_key(field) {
        match crate::numeral::double_of_text(params[field]) {
            None => Some(ValueView::String(params[field])),
            Some(Some(key)) if -0x7ff0_0000_0000_0000 < key < 0x7ff0_0000_0000_0000 => Some(
                ValueView::Number(NumberView::Float(key)),
            ),
            Some(_) => Some(ValueView::Null),
        }
    } else if context.contains_key(field) {
        Some(context[field])
    } else {
        None
    }
}

/// The place of a value in the order of numbers: that of the number that it is, or of the one that
/// its text denotes. Other values have none, nor has "not a number".
pub open spec fn place_of(value: ValueView) -> Option<int> {
    match value {
        ValueView::Number(NumberView::PosInt(n)) => Some(crate::double::integer_key(n as int)),
        ValueView::Number(NumberView::NegInt(n)) => Some(crate::double::integer_key(n as int)),
        ValueView::Number(NumberView::Float(key)) => if -0x7ff0_0000_0000_0000 <= key
            <= 0x7ff0_0000_0000_0000 {
            Some(key)
        } else {
            None
        },
        ValueView::String(text) => match crate::numeral::double_of_text(text) {
            Some(Some(key)) => Some(key),
            _ => None,
        },
        _ => None,
    }
}

/// Whether a text has a part, somewhere.
pub open spec fn has_part(text: Seq<char>, part: Seq<char>) -> bool {
    exists|before: Seq<char>, after: Seq<char>| text == #[trigger] ((before + part) + after)
}

/// Whether fields spell out a single condition on a field, with an operator.
pub open spec fn is_condition(
    fields: Map<Seq<char>, ValueView>,
    field: Seq<char>,
    op: Seq<char>,
) -> bool {
    &&& !fields.contains_key("timeout_seconds"@)
    &&& !has_list(fields, "all"@)
    &&& !has_list(fields, "any"@)
    &&& fields.contains_key("field"@)
    &&& fields["field"@] == ValueView::String(field)
    &&& fields.contains_key("op"@)
    &&& fields["op"@] == ValueView::String(op)
}

/// A condition means what its operator says of the value of its field: `exists` and `not_exists`
/// ask only whether there is one. Otherwise a condition without an operand holds, and one on a field
/// without a value fails.
pub proof fn law_conditions_ask_for_a_value(
    fields: Map<Seq<char>, ValueView>,
    field: Seq<char>,
    op: Seq<char>,
    params: Map<Seq<char>, Seq<char>>,
    context: Map<Seq<char>, ValueView>,
)
    requires
        is_condition(fields, field, op),
    ensures
        ({
            let holds = crate::guard::guard_holds(ValueView::Object(fields), params, context);
            let actual = value_of(field, params, context);
            &&& op == "exists"@ ==> (holds <==> actual is Some)
            &&& op == "not_exists"@ ==> (holds <==> actual is None)
            &&& op != "exists"@ && op != "not_exists"@ && !fields.contains_key("value"@) ==> holds
            &&& op != "exists"@ && op != "not_exists"@ && fields.contains_key("value"@) && actual
                is None ==> !holds
        }),
{
    lemma_operators_differ();
    assert(crate::guard::field_value(field, params, context) == value_of(field, params, context));
    assert(crate::guard::sub_guards(fields, "all"@) is None);
    assert(crate::guard::sub_guards(fields, "any"@) is None);
}

/// An object that lacks the name of a field or an operator restricts nothing.
pub proof fn law_incomplete_conditions_hold(
    fields: Map<Seq<char>, ValueView>,
    params: Map<Seq<char>, Seq<char>>,
    context: Map<Seq<char>, ValueView>,
)
    requires
        !fields.contains_key("timeout_seconds"@),
        !has_list(fields, "all"@),
        !has_list(fields, "any"@),
        !(fields.contains_key("field"@) && fields["field"@] is String)
            || !(fields.contains_key("op"@) && fields["op"@] is String),
    ensures
        crate::guard::guard_holds(ValueView::Object(fields), params, context),
{
    assert(crate::guard::sub_guards(fields, "all"@) is None);
    assert(crate::guard::sub_guards(fields, "any"@) is None);
}

/// Each operator means what it says of the value of the field and the operand: whether they are the
/// same, how they stand in the order of numbers, whether the one is a part of the other or in its
/// list. An operator that there is not holds for nothing.
pub proof fn law_operators_mean_what_they_say(
    fields: Map<Seq<char>, ValueView>,
    field: Seq<char>,
    op: Seq<char>,
    params: Map<Seq<char>, Seq<char>>,
    context: Map<Seq<char>, ValueView>,
)
    requires
        is_condition(fields, field, op),
        fields.contains_key("value"@),
        value_of(field, params, context) is Some,
    ensures
        ({
            let holds = crate::guard::guard_holds(ValueView::Object(fields), params, context);
            let actual = value_of(field, params, context)->0;
            let operand = fields["value"@];
            let places = place_of(actual) is Some && place_of(operand) is Some;
            let x = place_of(actual)->0;
            let y = place_of(operand)->0;
            &&& op == "eq"@ ==> (holds <==> actual == operand)
            &&& op == "neq"@ || op == "ne"@ ==> (holds <==> actual != operand)
            &&& op == "gt"@ ==> (holds <==> places && x > y)
            &&& op == "gte"@ ==> (holds <==> places && x >= y)
            &&& op == "lt"@ ==> (holds <==> places && x < y)
            &&& op == "lte"@ ==> (holds <==> places && x <= y)
            &&& op == "contains"@ ==> (holds <==> actual is String && operand is String && has_part(
                actual->String_0,
                operand->String_0,
            ))
            &&& op == "in"@ ==> (holds <==> operand is Array && operand->Array_0.contains(actual))
            &&& op == "not_in"@ ==> (holds <==> operand is Array && !operand->Array_0.contains(
                actual,
            ))
            &&& op != "exists"@ && op != "not_exists"@ && op != "eq"@ && op != "neq"@ && op != "ne"@
                && op != "gt"@ && op != "gte"@ && op != "lt"@ && op != "lte"@ && op != "contains"@
                && op != "in"@ && op != "not_in"@ ==> !holds
        }),
{
    lemma_operators_differ();
    let actual = value_of(field, params, context)->0;
    let operand = fields["value"@];
    assert(crate::guard::field_value(field, params, context) == Some(actual));
    assert(crate::guard::sub_guards(fields, "all"@) is None);
    assert(crate::guard::sub_guards(fields, "any"@) is None);
    lemma_place(actual);
    lemma_place(operand);
    if actual is String && operand is String {
        lemma_part(actual->String_0, operand->String_0);
    }
}

/// The place of a value in the order of numbers is the double that it denotes, unless that is "not
/// a number".
proof fn lemma_place(value: ValueView)
    ensures
        place_of(value) == match crate::guard::numeric(value) {
            Some(Some(key)) => Some(key),
            _ => None,
        },
{
}

/// A part of a text is one of its stretches.
pub(crate) proof fn lemma_part(text: Seq<char>, part: Seq<char>)
    ensures
        crate::text::occurs_in(part, text) <==> has_part(text, part),
{
    if crate::text::occurs_in(part, text) {
        let i = choose|i: int|
            0 <= i <= text.len() - part.len() && #[trigger] text.subrange(i, i + part.len())
                == part;
        let before = text.take(i);
        let after = text.skip(i + part.len());
        assert(text =~= (before + part) + after);
    }
    if has_part(text, part) {
        let (before, after) = choose|before: Seq<char>, after: Seq<char>|
            text == #[trigger] ((before + part) + after);
        let i = before.len() as int;
        assert(text.subrange(i, i + part.len()) =~= part);
    }
}

/// The operators are told apart by their names.
proof fn lemma_operators_differ()
    ensures
        "exists"@.len() == 6 && "exists"@[0] == 'e',
        "not_exists"@.len() == 10,
        "eq"@.len() == 2 && "eq"@[0] == 'e',
        "ne"@.len() == 2 && "ne"@[0] == 'n',
        "gt"@.len() == 2 && "gt"@[0] == 'g',
        "lt"@.len() == 2 && "lt"@[0] == 'l',
        "in"@.len() == 2 && "in"@[0] == 'i',
        "neq"@.len() == 3 && "neq"@[0] == 'n',
        "gte"@.len() == 3 && "gte"@[0] == 'g',
        "lte"@.len() == 3 && "lte"@[0] == 'l',
        "contains"@.len() == 8,
        "not_in"@.len() == 6 && "not_in"@[0] == 'n',
{
    reveal_strlit("exists");
    reveal_strlit("not_exists");
    reveal_strlit("eq");
    reveal_strlit("ne");
    reveal_strlit("gt");
    reveal_strlit("lt");
    reveal_strlit("in");
    reveal_strlit("neq");
    reveal_strlit("gte");
    reveal_strlit("lte");
    reveal_strlit("contains");
    reveal_strlit("not_in");
}

/// An integer is where its digits are, so that a number can be compared with its text; integers up
/// to 2^53 are in their own order.
pub proof fn law_integers_are_in_order(a: i64, b: i64, n: u64)
    requires
        -0x20_0000_0000_0000 <= a <= 0x20_0000_0000_0000,
        -0x20_0000_0000_0000 <= b <= 0x20_0000_0000_0000,
    ensures
        ({
            let x = if a >= 0 {
                ValueView::Number(NumberView::PosInt(a as u64))
            } else {
                ValueView::Number(NumberView::NegInt(a))
            };
            let y = if b >= 0 {
                ValueView::Number(NumberView::PosInt(b as u64))
            } else {
                ValueView::Number(NumberView::NegInt(b))
            };
            &&& place_of(x) is Some && place_of(y) is Some
            &&& place_of(x)->0 < place_of(y)->0 <==> a < b
            &&& place_of(x)->0 == place_of(y)->0 <==> a == b
            &&& place_of(ValueView::String(crate::text::decimal_text(n as nat))) == place_of(
                ValueView::Number(NumberView::PosInt(n)),
            )
        }),
{
    crate::double::law_integers_keep_their_order(a as int, b as int);
    crate::numeral::law_digits_denote_their_integer(n);
}

} // verus!
