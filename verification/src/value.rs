//! Structured values held in a session.

use crate::text::strings;
use vstd::prelude::*;

verus! {

/// A structured, JSON-like value.
///
/// Numbers that fit a signed 64-bit integer are held as [`Value::Int`]; any
/// other number is carried as its decimal text in [`Value::Number`].
#[derive(Debug, PartialEq, Eq)]
pub enum Value {
    Null,
    Bool(bool),
    Int(i64),
    Number(String),
    Text(String),
    Array(Vec<Value>),
    Object(Vec<(String, Value)>),
}

/// The mathematical content of a [`Value`].
pub enum ValueView {
    Null,
    Bool(bool),
    Int(i64),
    Number(Seq<char>),
    Text(Seq<char>),
    Array(Seq<ValueView>),
    Object(Seq<(Seq<char>, ValueView)>),
}

impl View for Value {
    type V = ValueView;

    open spec fn view(&self) -> ValueView
        decreases self,
    {
        match self {
            Value::Null => ValueView::Null,
            Value::Bool(b) => ValueView::Bool(*b),
            Value::Int(n) => ValueView::Int(*n),
            Value::Number(t) => ValueView::Number(t@),
            Value::Text(t) => ValueView::Text(t@),
            Value::Array(items) => ValueView::Array(
                Seq::new(
                    items@.len(),
                    |i: int|
                        if 0 <= i < items@.len() {
                            items@[i]@
                        } else {
                            ValueView::Null
                        },
                ),
            ),
            Value::Object(fields) => ValueView::Object(
                Seq::new(
                    fields@.len(),
                    |i: int|
                        if 0 <= i < fields@.len() {
                            (fields@[i].0@, fields@[i].1@)
                        } else {
                            (Seq::empty(), ValueView::Null)
                        },
                ),
            ),
        }
    }
}

/// What the view of an array is, item by item.
pub proof fn lemma_array_view(items: Vec<Value>)
    ensures
        Value::Array(items)@ is Array,
        Value::Array(items)@->Array_0.len() == items@.len(),
        forall|i: int|
            0 <= i < items@.len() ==> (#[trigger] Value::Array(items)@->Array_0[i]) == items@[i]@,
{
    reveal_with_fuel(<Value as View>::view, 2);
}

/// What the view of an object is, field by field.
pub proof fn lemma_object_view(fields: Vec<(String, Value)>)
    ensures
        Value::Object(fields)@ is Object,
        Value::Object(fields)@->Object_0.len() == fields@.len(),
        forall|i: int|
            0 <= i < fields@.len() ==> (#[trigger] Value::Object(fields)@->Object_0[i]) == (
                fields@[i].0@,
                fields@[i].1@,
            ),
{
    reveal_with_fuel(<Value as View>::view, 2);
}

impl Clone for Value {
    #[verifier::loop_isolation(false)]
    fn clone(&self) -> (r: Value)
        ensures
            r@ == self@,
        decreases self,
    {
        match self {
            Value::Null => Value::Null,
            Value::Bool(b) => Value::Bool(*b),
            Value::Int(n) => Value::Int(*n),
            Value::Number(t) => Value::Number(t.clone()),
            Value::Text(t) => Value::Text(t.clone()),
            Value::Array(items) => {
                let mut out: Vec<Value> = Vec::new();
                let mut i: usize = 0;
                while i < items.len()
                    invariant
                        i <= items.len(),
                        out.len() == i,
                        forall|j: int| 0 <= j < i ==> (#[trigger] out@[j])@ == items@[j]@,
                    decreases items.len() - i,
                {
                    out.push(items[i].clone());
                    i += 1;
                }
                let r = Value::Array(out);
                proof {
                    lemma_array_view(out);
                    lemma_array_view(*items);
                    assert(r@->Array_0 =~= self@->Array_0);
                }
                r
            },
            Value::Object(fields) => {
                let mut out: Vec<(String, Value)> = Vec::new();
                let mut i: usize = 0;
                while i < fields.len()
                    invariant
                        i <= fields.len(),
                        out.len() == i,
                        forall|j: int|
                            0 <= j < i ==> (#[trigger] out@[j]).0@ == fields@[j].0@ && out@[j].1@
                                == fields@[j].1@,
                    decreases fields.len() - i,
                {
                    let name = fields[i].0.clone();
                    let inner = fields[i].1.clone();
                    out.push((name, inner));
                    i += 1;
                }
                let r = Value::Object(out);
                proof {
                    lemma_object_view(out);
                    lemma_object_view(*fields);
                    assert(r@->Object_0 =~= self@->Object_0);
                }
                r
            },
        }
    }
}

/// The list of strings that `v` holds, where `v` is an array of strings.
pub open spec fn string_list(v: ValueView) -> Option<Seq<Seq<char>>> {
    if v is Array && (forall|i: int| 0 <= i < v->Array_0.len() ==> #[trigger] v->Array_0[i] is Text) {
        Some(Seq::new(v->Array_0.len(), |i: int| v->Array_0[i]->Text_0))
    } else {
        None
    }
}

/// The array of strings that holds `keys`.
pub open spec fn list_value(keys: Seq<Seq<char>>) -> ValueView {
    ValueView::Array(Seq::new(keys.len(), |i: int| ValueView::Text(keys[i])))
}

/// Reading back an array of strings gives the strings it was made of.
pub proof fn lemma_string_list_of_list_value(keys: Seq<Seq<char>>)
    ensures
        string_list(list_value(keys)) == Some(keys),
{
    let v = list_value(keys);
    assert(string_list(v)->Some_0 =~= keys);
}

impl Value {
    /// Whether the value is null.
    pub fn is_null(&self) -> (r: bool)
        ensures
            r == (self@ is Null),
    {
        match self {
            Value::Null => true,
            _ => false,
        }
    }

    /// Whether the value is an array.
    pub fn is_array(&self) -> (r: bool)
        ensures
            r == (self@ is Array),
    {
        match self {
            Value::Array(_) => true,
            _ => false,
        }
    }

    /// The string value with the characters of `s`.
    pub fn text(s: &str) -> (r: Value)
        ensures
            r@ == ValueView::Text(s@),
    {
        Value::Text(s.to_owned())
    }

    /// The array that holds the given strings, in their order.
    pub fn from_keys(keys: &Vec<String>) -> (r: Value)
        ensures
            r@ == list_value(strings(keys@)),
    {
        let mut out: Vec<Value> = Vec::new();
        let mut i: usize = 0;
        while i < keys.len()
            invariant
                i <= keys@.len(),
                out@.len() == i,
                forall|j: int| 0 <= j < i ==> (#[trigger] out@[j])@ == ValueView::Text(keys@[j]@),
            decreases keys@.len() - i,
        {
            out.push(Value::Text(keys[i].clone()));
            i += 1;
        }
        let r = Value::Array(out);
        proof {
            lemma_array_view(out);
            assert(r@->Array_0 =~= list_value(strings(keys@))->Array_0);
        }
        r
    }

    /// The strings of an array of strings; `None` for any other value.
    #[verifier::loop_isolation(false)]
    pub fn as_keys(&self) -> (r: Option<Vec<String>>)
        ensures
            match r {
                Some(keys) => string_list(self@) == Some(strings(keys@)),
                None => string_list(self@) is None,
            },
    {
        match self {
            Value::Array(items) => {
                proof {
                    lemma_array_view(*items);
                }
                let mut out: Vec<String> = Vec::new();
                let mut i: usize = 0;
                while i < items.len()
                    invariant
                        i <= items@.len(),
                        out@.len() == i,
                        forall|j: int|
                            0 <= j < i ==> (#[trigger] items@[j])@ == ValueView::Text(out@[j]@),
                    decreases items@.len() - i,
                {
                    match &items[i] {
                        Value::Text(t) => {
                            out.push(t.clone());
                        },
                        _ => {
                            assert(!(self@->Array_0[i as int] is Text));
                            return None;
                        },
                    }
                    i += 1;
                }
                proof {
                    assert forall|j: int| 0 <= j < self@->Array_0.len() implies #[trigger] self@->Array_0[j] is Text by {
                        assert(items@[j]@ == ValueView::Text(out@[j]@));
                    }
                    assert(string_list(self@)->Some_0 =~= strings(out@)) by {
                        assert forall|j: int| 0 <= j < out@.len() implies string_list(
                            self@,
                        )->Some_0[j] == strings(out@)[j] by {
                            assert(items@[j]@ == ValueView::Text(out@[j]@));
                        }
                    }
                }
                Some(out)
            },
            _ => None,
        }
    }
}

} // verus!
