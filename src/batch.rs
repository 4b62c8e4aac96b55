//! One node applied to every element of an array.

use vstd::prelude::*;
use crate::error::FlowError;
use crate::flow::{all_ok, gather, gathered, ok_values};
use crate::value::Value;

verus! {

/// The message of the failure for an input that is not an array.
pub open spec fn not_an_array_message() -> Seq<char> {
    "Input must be a JSON array"@
}

/// Wraps one node and applies it to each element of an array input; the
/// outputs come back as an array in element order.
pub struct Batch<N> {
    wrapped_node: N,
}

impl<N> Batch<N> {
    /// The node applied to each element.
    pub closed spec fn wrapped(&self) -> N {
        self.wrapped_node
    }

    pub fn new(wrapped_node: N) -> (r: Batch<N>)
        ensures
            r.wrapped() == wrapped_node,
    {
        Batch { wrapped_node }
    }

    pub fn wrapped_node(&self) -> (r: &N)
        ensures
            *r == self.wrapped(),
    {
        &self.wrapped_node
    }

    /// The elements the wrapped node is applied to, one invocation each:
    /// those of `input` when it is an array; otherwise a node failure, and
    /// nothing is invoked.
    pub fn split(&self, input: Value) -> (r: Result<Vec<Value>, FlowError>)
        ensures
            match input {
                Value::Array(items) => r == Ok::<Vec<Value>, FlowError>(items),
                _ => r matches Err(FlowError::NodeFailed(m)) && m@ == not_an_array_message(),
            },
    {
        match input {
            Value::Array(items) => Ok(items),
            _ => {
                proof {
                    reveal_strlit("Input must be a JSON array");
                }
                Err(FlowError::node_failed("Input must be a JSON array"))
            },
        }
    }

    /// The result of a call once every element has settled; `outcomes[i]`
    /// is what the wrapped node reported for element `i`.
    pub fn fan_in(&self, outcomes: Vec<Result<Value, FlowError>>) -> (r: Result<Value, FlowError>)
        ensures
            gathered(outcomes@, r),
    {
        gather(outcomes)
    }
}

/// A batch over an array `[e1..em]` (the elements that `split` hands out)
/// whose elements all succeed yields `[n(e1)..n(em)]`, in element order.
pub proof fn batch_maps_each_element(
    items: Vec<Value>,
    behave: spec_fn(Value) -> Result<Value, FlowError>,
    r: Result<Value, FlowError>,
)
    requires
        forall|i: int| 0 <= i < items.len() ==> (#[trigger] behave(items[i])) is Ok,
        gathered(Seq::new(items.len() as nat, |i: int| behave(items[i])), r),
    ensures
        r matches Ok(Value::Array(vals)) && vals.len() == items.len() && forall|i: int|
            0 <= i < items.len() ==> vals[i] == (#[trigger] behave(items[i]))->Ok_0,
{
    let outcomes = Seq::new(items.len() as nat, |i: int| behave(items[i]));
    assert(all_ok(outcomes));
    let vals = r->Ok_0->Array_0;
    assert forall|i: int| 0 <= i < items.len() implies vals[i] == (#[trigger] behave(items[i]))->Ok_0 by {
        assert(vals@[i] == ok_values(outcomes)[i]);
    }
}

} // verus!
