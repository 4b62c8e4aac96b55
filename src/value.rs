//! The dynamic value that nodes exchange, and its mathematical model.

use vstd::prelude::*;

verus! {

broadcast use vstd::std_specs::vec::group_vec_axioms;

/// serde_json's `Number`, carried through unread: nodes interpret numbers,
/// the engine never does.
#[verifier::external_type_specification]
#[verifier::external_body]
pub struct ExNumber(serde_json::Number);

/// Relies on the `Clone` that serde_json derives for `Number`: the copy is the
/// same number.
pub assume_specification[ <serde_json::Number as Clone>::clone ](n: &serde_json::Number) -> (r:
    serde_json::Number)
    ensures
        r == *n,
;

/// A JSON-shaped tree: the sole currency passed between nodes.
#[derive(Debug, PartialEq)]
pub enum Value {
    Null,
    Bool(bool),
    Number(serde_json::Number),
    String(String),
    Array(Vec<Value>),
    /// Entries in order; as in JSON, each key is meant to occur once.
    Object(Vec<(String, Value)>),
}

/// The mathematical model of a [`Value`]: the same tree over sequences.
pub enum Json {
    Null,
    Bool(bool),
    Number(serde_json::Number),
    Str(Seq<char>),
    Array(Seq<Json>),
    Object(Seq<(Seq<char>, Json)>),
}

impl View for Value {
    type V = Json;

    open spec fn view(&self) -> Json
        decreases self,
    {
        match self {
            Value::Null => Json::Null,
            Value::Bool(b) => Json::Bool(*b),
            Value::Number(n) => Json::Number(*n),
            Value::String(s) => Json::Str(s@),
            Value::Array(items) => Json::Array(
                Seq::new(items.len() as nat, |i: int| if 0 <= i < items.len() { items[i]@ } else { Json::Null }),
            ),
            Value::Object(entries) => Json::Object(
                Seq::new(
                    entries.len() as nat,
                    |i: int| if 0 <= i < entries.len() { (entries[i].0@, entries[i].1@) } else { (Seq::empty(), Json::Null) },
                ),
            ),
        }
    }
}

impl Value {
    /// An independent copy of this value, equal to it as a tree.
    pub fn duplicate(&self) -> (r: Value)
        ensures
            r@ == self@,
        decreases self,
    {
        match self {
            Value::Null => Value::Null,
            Value::Bool(b) => Value::Bool(*b),
            Value::Number(n) => Value::Number(n.clone()),
            Value::String(s) => Value::String(s.clone()),
            Value::Array(items) => {
                let mut out: Vec<Value> = Vec::new();
                let mut i: usize = 0;
                while i < items.len()
                    invariant
                        *self == Value::Array(*items),
                        i <= items.len(),
                        out.len() == i,
                        forall|k: int| 0 <= k < i ==> out[k]@ == items[k]@,
                    decreases items.len() - i,
                {
                    proof {
                        assert(decreases_to!(*self => self->Array_0));
                        assert(decreases_to!(*items => items[i as int]));
                    }
                    out.push(items[i].duplicate());
                    i += 1;
                }
                let r = Value::Array(out);
                assert(r@->Array_0 =~= self@->Array_0);
                r
            }
            Value::Object(entries) => {
                let mut out: Vec<(String, Value)> = Vec::new();
                let mut i: usize = 0;
                while i < entries.len()
                    invariant
                        *self == Value::Object(*entries),
                        i <= entries.len(),
                        out.len() == i,
                        forall|k: int| 0 <= k < i ==> out[k].0@ == entries[k].0@ && out[k].1@ == entries[k].1@,
                    decreases entries.len() - i,
                {
                    let key = entries[i].0.clone();
                    proof {
                        assert(decreases_to!(*self => self->Object_0));
                        assert(decreases_to!(*entries => entries[i as int]));
                        assert(decreases_to!(entries[i as int] => entries[i as int].1));
                    }
                    let val = entries[i].1.duplicate();
                    out.push((key, val));
                    i += 1;
                }
                let r = Value::Object(out);
                assert(r@->Object_0 =~= self@->Object_0);
                r
            }
        }
    }
}

} // verus!
