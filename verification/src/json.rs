//! JSON values as plain data.

use vstd::prelude::*;

use crate::double::double_key;
use crate::string_map::Duplicate;
use crate::text::same_text;

verus! {

/// A JSON number: a non-negative integer, a negative integer, or a finite double given by its
/// bits.
#[derive(Clone, Copy, Debug)]
pub enum Number {
    PosInt(u64),
    NegInt(i64),
    Float(u64),
}

/// A JSON value. In an object a later field replaces an earlier one of the same name.
#[derive(Debug)]
pub enum Value {
    Null,
    Bool(bool),
    Number(Number),
    String(String),
    Array(Vec<Value>),
    Object(Vec<(String, Value)>),
}

/// What a [`Number`] stands for. Doubles are told apart by their order, so that both zeros are one
/// number. An integer and a double are never the same number.
pub enum NumberView {
    PosInt(u64),
    NegInt(i64),
    Float(int),
}

/// What a [`Value`] stands for. Two values are the same JSON exactly when these are equal.
pub enum ValueView {
    Null,
    Bool(bool),
    Number(NumberView),
    String(Seq<char>),
    Array(Seq<ValueView>),
    Object(Map<Seq<char>, ValueView>),
}

impl DeepView for Number {
    type V = NumberView;

    open spec fn deep_view(&self) -> NumberView {
        match *self {
            Number::PosInt(n) => NumberView::PosInt(n),
            Number::NegInt(n) => NumberView::NegInt(n),
            Number::Float(bits) => NumberView::Float(crate::double::order_key(bits)),
        }
    }
}

/// What a value stands for.
pub open spec fn value_view(value: Value) -> ValueView
    decreases value,
{
    match value {
        Value::Null => ValueView::Null,
        Value::Bool(b) => ValueView::Bool(b),
        Value::Number(n) => ValueView::Number(n.deep_view()),
        Value::String(s) => ValueView::String(s@),
        Value::Array(items) => ValueView::Array(array_view(items@)),
        Value::Object(fields) => ValueView::Object(object_view(fields@)),
    }
}

/// What a list of values stands for.
pub open spec fn array_view(items: Seq<Value>) -> Seq<ValueView>
    decreases items,
{
    Seq::new(
        items.len(),
        |i: int|
            if 0 <= i < items.len() {
                value_view(items[i])
            } else {
                ValueView::Null
            },
    )
}

/// What a list of fields stands for.
pub open spec fn object_view(fields: Seq<(String, Value)>) -> Map<Seq<char>, ValueView>
    decreases fields,
{
    if fields.len() == 0 {
        Map::empty()
    } else {
        object_view(fields.drop_last()).insert(fields.last().0@, value_view(fields.last().1))
    }
}

impl DeepView for Value {
    type V = ValueView;

    open spec fn deep_view(&self) -> ValueView {
        value_view(*self)
    }
}

/// A field of an object holds the value of the last entry with its name.
proof fn lemma_last_field(fields: Seq<(String, Value)>, i: int)
    requires
        0 <= i < fields.len(),
        forall|j: int| i < j < fields.len() ==> (#[trigger] fields[j]).0@ != fields[i].0@,
    ensures
        object_view(fields).contains_key(fields[i].0@),
        object_view(fields)[fields[i].0@] == value_view(fields[i].1),
    decreases fields.len(),
{
    let rest = fields.drop_last();
    if i < rest.len() {
        assert forall|j: int| i < j < rest.len() implies (#[trigger] rest[j]).0@ != rest[i].0@ by {
            assert(rest[j] == fields[j]);
        }
        lemma_last_field(rest, i);
        assert(fields[fields.len() - 1].0@ != fields[i].0@);
    }
}

/// An object has no other fields than those that its entries name.
proof fn lemma_field_names(fields: Seq<(String, Value)>)
    ensures
        forall|k: Seq<char>|
            #[trigger] object_view(fields).contains_key(k) ==> exists|i: int|
                0 <= i < fields.len() && (#[trigger] fields[i]).0@ == k,
    decreases fields.len(),
{
    if fields.len() > 0 {
        let rest = fields.drop_last();
        lemma_field_names(rest);
        assert forall|k: Seq<char>| #[trigger] object_view(fields).contains_key(k) implies exists|
            i: int,
        |
            0 <= i < fields.len() && (#[trigger] fields[i]).0@ == k by {
            if k == fields.last().0@ {
                assert(fields[fields.len() - 1].0@ == k);
            } else {
                assert(object_view(rest).contains_key(k));
                let i = choose|i: int| 0 <= i < rest.len() && (#[trigger] rest[i]).0@ == k;
                assert(fields[i].0@ == k);
            }
        }
    }
}

/// The position of the entry that gives the field `name` its value.
pub fn field_index(fields: &Vec<(String, Value)>, name: &str) -> (found: Option<usize>)
    ensures
        match found {
            Some(i) => {
                &&& i < fields.len()
                &&& object_view(fields@).contains_key(name@)
                &&& object_view(fields@)[name@] == value_view(fields@[i as int].1)
            },
            None => !object_view(fields@).contains_key(name@),
        },
{
    let mut i: usize = fields.len();
    while i > 0
        invariant
            i <= fields.len(),
            forall|j: int| i <= j < fields.len() ==> (#[trigger] fields@[j]).0@ != name@,
        decreases i,
    {
        i = i - 1;
        if same_text(fields[i].0.as_str(), name) {
            proof {
                lemma_last_field(fields@, i as int);
            }
            return Some(i);
        }
    }
    proof {
        lemma_field_names(fields@);
    }
    None
}

/// Whether two values are the same JSON.
pub fn values_equal(a: &Value, b: &Value) -> (equal: bool)
    ensures
        equal == (a.deep_view() == b.deep_view()),
    decreases a,
{
    match (a, b) {
        (Value::Null, Value::Null) => true,
        (Value::Bool(x), Value::Bool(y)) => *x == *y,
        (Value::Number(x), Value::Number(y)) => numbers_equal(*x, *y),
        (Value::String(x), Value::String(y)) => same_text(x.as_str(), y.as_str()),
        (Value::Array(x), Value::Array(y)) => {
            if x.len() != y.len() {
                assert(array_view(x@).len() != array_view(y@).len());
                return false;
            }
            let mut i: usize = 0;
            while i < x.len()
                invariant
                    i <= x.len(),
                    x.len() == y.len(),
                    *a == Value::Array(*x),
                    *b == Value::Array(*y),
                    forall|j: int|
                        0 <= j < i ==> value_view(#[trigger] x@[j]) == value_view(y@[j]),
                decreases x.len() - i,
            {
                assert(decreases_to!(*a => a->Array_0));
                assert(decreases_to!(*x => x[i as int]));
                if !values_equal(&x[i], &y[i]) {
                    assert(array_view(x@)[i as int] != array_view(y@)[i as int]);
                    return false;
                }
                i = i + 1;
            }
            assert(array_view(x@) =~= array_view(y@));
            true
        },
        (Value::Object(x), Value::Object(y)) => {
            let mut i: usize = 0;
            while i < x.len()
                invariant
                    i <= x.len(),
                    *a == Value::Object(*x),
                    *b == Value::Object(*y),
                    forall|j: int|
                        0 <= j < i ==> object_view(y@).contains_key((#[trigger] x@[j]).0@)
                            && object_view(x@)[x@[j].0@] == object_view(y@)[x@[j].0@],
                decreases x.len() - i,
            {
                match (field_index(x, x[i].0.as_str()), field_index(y, x[i].0.as_str())) {
                    (Some(m), Some(n)) => {
                        assert(decreases_to!(*a => a->Object_0));
                        assert(decreases_to!(*x => x[m as int]));
                        assert(decreases_to!(x[m as int] => x[m as int].1));
                        if !values_equal(&x[m].1, &y[n].1) {
                            assert(object_view(x@)[x@[i as int].0@] != object_view(y@)[x@[i as int].0@]);
                            return false;
                        }
                    },
                    _ => {
                        proof {
                            lemma_named_field(x@, i as int);
                        }
                        return false;
                    },
                }
                i = i + 1;
            }
            let mut i: usize = 0;
            while i < y.len()
                invariant
                    i <= y.len(),
                    *a == Value::Object(*x),
                    *b == Value::Object(*y),
                    forall|j: int|
                        0 <= j < i ==> object_view(x@).contains_key((#[trigger] y@[j]).0@),
                decreases y.len() - i,
            {
                if field_index(x, y[i].0.as_str()).is_none() {
                    proof {
                        lemma_named_field(y@, i as int);
                    }
                    return false;
                }
                i = i + 1;
            }
            proof {
                lemma_field_names(x@);
                lemma_field_names(y@);
                assert(object_view(x@) =~= object_view(y@));
            }
            true
        },
        _ => false,
    }
}

/// Every entry of a list of fields names a field.
proof fn lemma_named_field(fields: Seq<(String, Value)>, i: int)
    requires
        0 <= i < fields.len(),
    ensures
        object_view(fields).contains_key(fields[i].0@),
    decreases fields.len(),
{
    if i < fields.len() - 1 {
        lemma_named_field(fields.drop_last(), i);
    }
}

/// Whether two numbers are the same number.
pub fn numbers_equal(a: Number, b: Number) -> (equal: bool)
    ensures
        equal == (a.deep_view() == b.deep_view()),
{
    match (a, b) {
        (Number::PosInt(x), Number::PosInt(y)) => x == y,
        (Number::NegInt(x), Number::NegInt(y)) => x == y,
        (Number::Float(x), Number::Float(y)) => double_key(x) == double_key(y),
        _ => false,
    }
}

impl Duplicate for Value {
    fn duplicate(&self) -> (copy: Self)
        decreases self,
    {
        match self {
            Value::Null => Value::Null,
            Value::Bool(b) => Value::Bool(*b),
            Value::Number(n) => Value::Number(*n),
            Value::String(s) => Value::String(s.clone()),
            Value::Array(items) => {
                let mut copies: Vec<Value> = Vec::new();
                let mut i: usize = 0;
                while i < items.len()
                    invariant
                        i <= items.len(),
                        *self == Value::Array(*items),
                        copies.len() == i,
                        forall|j: int|
                            0 <= j < i ==> value_view(#[trigger] copies@[j]) == value_view(
                                items@[j],
                            ),
                    decreases items.len() - i,
                {
                    assert(decreases_to!(*self => self->Array_0));
                    assert(decreases_to!(*items => items[i as int]));
                    copies.push(items[i].duplicate());
                    i = i + 1;
                }
                assert(array_view(copies@) =~= array_view(items@));
                Value::Array(copies)
            },
            Value::Object(fields) => {
                let mut copies: Vec<(String, Value)> = Vec::new();
                let mut i: usize = 0;
                while i < fields.len()
                    invariant
                        i <= fields.len(),
                        *self == Value::Object(*fields),
                        copies.len() == i,
                        object_view(copies@) == object_view(fields@.take(i as int)),
                    decreases fields.len() - i,
                {
                    let ghost before = copies@;
                    assert(decreases_to!(*self => self->Object_0));
                    assert(decreases_to!(*fields => fields[i as int]));
                    assert(decreases_to!(fields[i as int] => fields[i as int].1));
                    copies.push((fields[i].0.clone(), fields[i].1.duplicate()));
                    assert(copies@.drop_last() =~= before);
                    assert(fields@.take(i + 1).drop_last() =~= fields@.take(i as int));
                    i = i + 1;
                }
                assert(fields@.take(i as int) =~= fields@);
                Value::Object(copies)
            },
        }
    }
}

/// Adds a field to an object.
pub fn push_field(fields: &mut Vec<(String, Value)>, name: &str, value: Value)
    ensures
        object_view(final(fields)@) == object_view(old(fields)@).insert(name@, value.deep_view()),
{
    let ghost before = fields@;
    fields.push((name.to_owned(), value));
    assert(fields@.drop_last() =~= before);
}

/// Adds a field with a string to an object.
pub fn push_text_field(fields: &mut Vec<(String, Value)>, name: &str, text: &str)
    ensures
        object_view(final(fields)@) == object_view(old(fields)@).insert(
            name@,
            ValueView::String(text@),
        ),
{
    push_field(fields, name, Value::String(text.to_owned()));
}

impl Clone for Value {
    fn clone(&self) -> (copy: Self)
        ensures
            copy.deep_view() == self.deep_view(),
    {
        self.duplicate()
    }
}

} // verus!
