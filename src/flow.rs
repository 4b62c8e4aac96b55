//! Sequential and parallel composition of nodes.
//!
//! Invoking a node is asynchronous work that happens outside this module: a
//! driver asks a flow what to do next, performs it, and reports the outcome
//! back. Every decision a flow makes (which node runs, on what value, and what
//! the caller finally receives) is made here.

use vstd::prelude::*;
use crate::error::FlowError;
use crate::value::{Json, Value};

verus! {

/// What an outcome list contributes when every outcome succeeded: the values,
/// in order.
pub open spec fn ok_values(outcomes: Seq<Result<Value, FlowError>>) -> Seq<Value> {
    outcomes.map_values(|o: Result<Value, FlowError>| o->Ok_0)
}

/// Every outcome in the list succeeded.
pub open spec fn all_ok(outcomes: Seq<Result<Value, FlowError>>) -> bool {
    forall|i: int| 0 <= i < outcomes.len() ==> (#[trigger] outcomes[i]) is Ok
}

/// `i` is the lowest index whose outcome is a failure.
pub open spec fn is_first_failure(outcomes: Seq<Result<Value, FlowError>>, i: int) -> bool {
    &&& 0 <= i < outcomes.len()
    &&& outcomes[i] is Err
    &&& forall|j: int| 0 <= j < i ==> (#[trigger] outcomes[j]) is Ok
}

/// `r` is what a fan-out reports for these settled sibling outcomes: the
/// failure with the lowest index if there is one, and otherwise an array of
/// every value in sibling order.
pub open spec fn gathered(outcomes: Seq<Result<Value, FlowError>>, r: Result<Value, FlowError>) -> bool {
    &&& all_ok(outcomes) ==> (r matches Ok(Value::Array(vals)) && vals@ == ok_values(outcomes))
    &&& forall|i: int| is_first_failure(outcomes, i) ==> r == outcomes[i]
    &&& r is Err <==> !all_ok(outcomes)
}

/// Fan-in of settled sibling outcomes, given in declared order: the first
/// failure by index, or else an array of all the values in that order.
pub fn gather(outcomes: Vec<Result<Value, FlowError>>) -> (r: Result<Value, FlowError>)
    ensures
        gathered(outcomes@, r),
{
    let ghost all = outcomes@;
    let total: usize = outcomes.len();
    let mut values: Vec<Value> = Vec::new();
    let mut source = outcomes;
    // Reversed, so that popping hands the outcomes out in declared order.
    let mut rest: Vec<Result<Value, FlowError>> = Vec::new();
    while source.len() > 0
        invariant
            source.len() + rest.len() == all.len(),
            forall|j: int| 0 <= j < source.len() ==> (#[trigger] source@[j]) == all[j],
            forall|j: int| 0 <= j < rest.len() ==> (#[trigger] rest@[j]) == all[all.len() - 1 - j],
        decreases source.len(),
    {
        let last = source.pop().unwrap();
        rest.push(last);
    }
    let mut k: usize = 0;
    while rest.len() > 0
        invariant
            k + rest.len() == all.len(),
            all.len() == total,
            all == outcomes@,
            values.len() == k,
            forall|j: int| 0 <= j < k ==> (#[trigger] all[j]) is Ok && values[j] == all[j]->Ok_0,
            forall|j: int| 0 <= j < rest.len() ==> (#[trigger] rest@[j]) == all[all.len() - 1 - j],
        decreases rest.len(),
    {
        let next = rest.pop().unwrap();
        assert(next == all[k as int]);
        match next {
            Ok(v) => {
                values.push(v);
                k += 1;
            },
            Err(e) => {
                proof {
                    assert(all[k as int] is Err);
                    assert(!all_ok(all));
                    assert forall|i: int| is_first_failure(all, i) implies i == k by {
                        if i < k {
                            assert(all[i] is Ok);
                        } else if i > k {
                            assert(all[k as int] is Ok);
                        }
                    }
                }
                return Err(e);
            },
        }
    }
    assert(values@ =~= ok_values(all));
    Ok(Value::Array(values))
}

/// What a sequential run asks of its driver next.
#[derive(Debug)]
pub enum Step {
    /// Invoke the node at `index` with `input` and report its outcome.
    Call { index: usize, input: Value },
    /// The run is over: this is what the caller receives.
    Finish(Result<Value, FlowError>),
}

/// The first step of a sequential run over `len` nodes.
pub open spec fn first_step(len: nat, input: Value) -> Step {
    if len == 0 {
        Step::Finish(Ok(input))
    } else {
        Step::Call { index: 0, input }
    }
}

/// The step after the node at `index` reported `outcome`.
pub open spec fn step_after(len: nat, index: int, outcome: Result<Value, FlowError>) -> Step {
    match outcome {
        Err(e) => Step::Finish(Err(e)),
        Ok(v) => if index + 1 < len {
            Step::Call { index: (index + 1) as usize, input: v }
        } else {
            Step::Finish(Ok(v))
        },
    }
}

/// A sequential pipeline: each node's output is the next node's input.
pub struct Flow<N> {
    nodes: Vec<N>,
}

impl<N> Flow<N> {
    /// The nodes, in execution order.
    pub closed spec fn nodes(&self) -> Seq<N> {
        self.nodes@
    }

    pub fn new(nodes: Vec<N>) -> (r: Flow<N>)
        ensures
            r.nodes() == nodes@,
    {
        Flow { nodes }
    }

    pub fn len(&self) -> (r: usize)
        ensures
            r == self.nodes().len(),
    {
        self.nodes.len()
    }

    pub fn node(&self, index: usize) -> (r: &N)
        requires
            index < self.nodes().len(),
        ensures
            *r == self.nodes()[index as int],
    {
        &self.nodes[index]
    }

    /// How a run on `input` begins: with the first node, or, with no nodes,
    /// by handing `input` back unchanged.
    pub fn start(&self, input: Value) -> (s: Step)
        ensures
            s == first_step(self.nodes().len(), input),
    {
        if self.nodes.len() == 0 {
            Step::Finish(Ok(input))
        } else {
            Step::Call { index: 0, input }
        }
    }

    /// How a run goes on once the node at `index` reported `outcome`: a
    /// failure ends it at once, a value goes to the next node or, after the
    /// last one, to the caller.
    pub fn resume(&self, index: usize, outcome: Result<Value, FlowError>) -> (s: Step)
        ensures
            s == step_after(self.nodes().len(), index as int, outcome),
    {
        match outcome {
            Err(e) => Step::Finish(Err(e)),
            Ok(v) => {
                let len = self.nodes.len();
                if len > 0 && index < len - 1 {
                    Step::Call { index: index + 1, input: v }
                } else {
                    Step::Finish(Ok(v))
                }
            },
        }
    }
}

/// The step a run reaches from `s` after at most `fuel` node invocations,
/// when node `i` given `v` reports `behave(i, v)`.
pub open spec fn run_steps(
    len: nat,
    behave: spec_fn(int, Value) -> Result<Value, FlowError>,
    s: Step,
    fuel: nat,
) -> Step
    decreases fuel,
{
    if fuel == 0 {
        s
    } else {
        match s {
            Step::Call { index, input } => run_steps(
                len,
                behave,
                step_after(len, index as int, behave(index as int, input)),
                (fuel - 1) as nat,
            ),
            Step::Finish(_) => s,
        }
    }
}

/// The left fold of the first `k` node behaviours over `v`, stopping at the
/// first failure.
pub open spec fn chain(behave: spec_fn(int, Value) -> Result<Value, FlowError>, k: nat, v: Value) -> Result<
    Value,
    FlowError,
>
    decreases k,
{
    if k == 0 {
        Ok(v)
    } else {
        match chain(behave, (k - 1) as nat, v) {
            Ok(w) => behave(k - 1, w),
            Err(e) => Err(e),
        }
    }
}

proof fn lemma_chain_failure_persists(
    behave: spec_fn(int, Value) -> Result<Value, FlowError>,
    k: nat,
    m: nat,
    v: Value,
)
    requires
        k <= m,
        chain(behave, k, v) is Err,
    ensures
        chain(behave, m, v) == chain(behave, k, v),
    decreases m - k,
{
    if k < m {
        lemma_chain_failure_persists(behave, k, (m - 1) as nat, v);
    }
}

proof fn lemma_run_from(len: nat, behave: spec_fn(int, Value) -> Result<Value, FlowError>, k: nat, v: Value)
    requires
        k < len <= usize::MAX,
        chain(behave, k, v) is Ok,
    ensures
        run_steps(len, behave, Step::Call { index: k as usize, input: chain(behave, k, v)->Ok_0 }, (len - k) as nat)
            == Step::Finish(chain(behave, len, v)),
    decreases len - k,
{
    let w = chain(behave, k, v)->Ok_0;
    let next = step_after(len, k as int, behave(k as int, w));
    assert(chain(behave, k + 1, v) == behave(k as int, w));
    if behave(k as int, w) is Err {
        lemma_chain_failure_persists(behave, k + 1, len, v);
        assert(run_steps(len, behave, next, (len - k - 1) as nat) == next);
    } else if k + 1 < len {
        lemma_run_from(len, behave, k + 1, v);
    }
}

/// A sequential run over no nodes hands its input back unchanged, whatever
/// budget of node invocations it is given.
pub proof fn empty_flow_is_identity(
    behave: spec_fn(int, Value) -> Result<Value, FlowError>,
    v: Value,
    fuel: nat,
)
    ensures
        run_steps(0, behave, first_step(0, v), fuel) == Step::Finish(Ok(v)),
{
}

/// A sequential run over `len` nodes finishes after at most `len` node
/// invocations with the left fold of the nodes over the input: the last
/// node's output when every node succeeds, and otherwise the first failure.
pub proof fn flow_is_left_fold(len: nat, behave: spec_fn(int, Value) -> Result<Value, FlowError>, v: Value)
    requires
        len <= usize::MAX,
    ensures
        run_steps(len, behave, first_step(len, v), len) == Step::Finish(chain(behave, len, v)),
{
    if len > 0 {
        lemma_run_from(len, behave, 0, v);
    }
}

proof fn lemma_chain_prefix_ok(behave: spec_fn(int, Value) -> Result<Value, FlowError>, k: nat, m: nat, v: Value)
    requires
        k <= m,
        chain(behave, m, v) is Ok,
    ensures
        chain(behave, k, v) is Ok,
{
    if chain(behave, k, v) is Err {
        lemma_chain_failure_persists(behave, k, m, v);
    }
}

proof fn lemma_run_until_failure(
    len: nat,
    behave: spec_fn(int, Value) -> Result<Value, FlowError>,
    v: Value,
    k: nat,
    i: nat,
)
    requires
        k <= i < len <= usize::MAX,
        chain(behave, i, v) is Ok,
        behave(i as int, chain(behave, i, v)->Ok_0) is Err,
    ensures
        chain(behave, k, v) is Ok,
        run_steps(len, behave, Step::Call { index: k as usize, input: chain(behave, k, v)->Ok_0 }, (i + 1 - k) as nat)
            == Step::Finish(behave(i as int, chain(behave, i, v)->Ok_0)),
    decreases i - k,
{
    lemma_chain_prefix_ok(behave, k, i, v);
    let w = chain(behave, k, v)->Ok_0;
    assert(chain(behave, k + 1, v) == behave(k as int, w));
    if k < i {
        lemma_chain_prefix_ok(behave, k + 1, i, v);
        lemma_run_until_failure(len, behave, v, k + 1, i);
    } else {
        let next = step_after(len, k as int, behave(k as int, w));
        assert(run_steps(len, behave, next, 0) == next);
    }
}

/// When node `i` is the first to fail in a sequential run, the run is over
/// after `i + 1` invocations, so no later node is invoked, and the caller
/// receives exactly that node's failure.
pub proof fn flow_stops_at_first_failure(
    len: nat,
    behave: spec_fn(int, Value) -> Result<Value, FlowError>,
    v: Value,
    i: nat,
)
    requires
        i < len <= usize::MAX,
        chain(behave, i, v) is Ok,
        behave(i as int, chain(behave, i, v)->Ok_0) is Err,
    ensures
        run_steps(len, behave, first_step(len, v), i + 1) == Step::Finish(behave(i as int, chain(behave, i, v)->Ok_0)),
        chain(behave, len, v) == behave(i as int, chain(behave, i, v)->Ok_0),
{
    lemma_run_until_failure(len, behave, v, 0, i);
    assert(chain(behave, i + 1, v) == behave(i as int, chain(behave, i, v)->Ok_0));
    lemma_chain_failure_persists(behave, i + 1, len, v);
}

/// A fan-out pipeline: every node gets its own copy of one input, and the
/// outputs come back as an array in node order.
pub struct ParallelFlow<N> {
    nodes: Vec<N>,
}

impl<N> ParallelFlow<N> {
    /// The nodes, in declared order.
    pub closed spec fn nodes(&self) -> Seq<N> {
        self.nodes@
    }

    pub fn new(nodes: Vec<N>) -> (r: ParallelFlow<N>)
        ensures
            r.nodes() == nodes@,
    {
        ParallelFlow { nodes }
    }

    pub fn len(&self) -> (r: usize)
        ensures
            r == self.nodes().len(),
    {
        self.nodes.len()
    }

    pub fn node(&self, index: usize) -> (r: &N)
        requires
            index < self.nodes().len(),
        ensures
            *r == self.nodes()[index as int],
    {
        &self.nodes[index]
    }

    /// One independent copy of `input` for each node, in node order.
    pub fn fan_out(&self, input: &Value) -> (r: Vec<Value>)
        ensures
            r.len() == self.nodes().len(),
            forall|i: int| 0 <= i < r.len() ==> (#[trigger] r[i])@ == input@,
    {
        let mut copies: Vec<Value> = Vec::new();
        let mut i: usize = 0;
        while i < self.nodes.len()
            invariant
                i <= self.nodes().len(),
                copies.len() == i,
                forall|k: int| 0 <= k < i ==> (#[trigger] copies[k])@ == input@,
            decreases self.nodes().len() - i,
        {
            copies.push(input.duplicate());
            i += 1;
        }
        copies
    }

    /// The result of a run once every node has settled; `outcomes[i]` is
    /// what node `i` reported, whatever the order in which they finished.
    pub fn fan_in(&self, outcomes: Vec<Result<Value, FlowError>>) -> (r: Result<Value, FlowError>)
        requires
            outcomes.len() == self.nodes().len(),
        ensures
            gathered(outcomes@, r),
    {
        gather(outcomes)
    }
}

/// When every node of a fan-out over `n` nodes succeeds on its copy of `v`,
/// the result is an array of `n` values whose element `i` is node `i`'s
/// output on `v`: results are placed by node, not by completion.
pub proof fn parallel_places_results_by_node(
    n: nat,
    v: Value,
    behave: spec_fn(int, Json) -> Result<Value, FlowError>,
    copies: Seq<Value>,
    r: Result<Value, FlowError>,
)
    requires
        copies.len() == n,
        forall|i: int| 0 <= i < n ==> (#[trigger] copies[i])@ == v@,
        forall|i: int| 0 <= i < n ==> (#[trigger] behave(i, v@)) is Ok,
        gathered(Seq::new(n, |i: int| behave(i, copies[i]@)), r),
    ensures
        r matches Ok(Value::Array(vals)) && vals.len() == n && forall|i: int|
            0 <= i < n ==> vals[i] == (#[trigger] behave(i, v@))->Ok_0,
{
    let outcomes = Seq::new(n, |i: int| behave(i, copies[i]@));
    assert forall|i: int| 0 <= i < outcomes.len() implies (#[trigger] outcomes[i]) is Ok by {
        assert(copies[i]@ == v@);
    }
    assert(all_ok(outcomes));
    let vals = r->Ok_0->Array_0;
    assert forall|i: int| 0 <= i < n implies vals[i] == (#[trigger] behave(i, v@))->Ok_0 by {
        assert(copies[i]@ == v@);
        assert(vals@[i] == ok_values(outcomes)[i]);
    }
}

/// When several siblings of a fan-out fail, the failure reported is that of
/// the lowest index, whichever failed first in time.
pub proof fn fan_in_reports_lowest_failure(
    outcomes: Seq<Result<Value, FlowError>>,
    r: Result<Value, FlowError>,
    i: int,
    j: int,
)
    requires
        gathered(outcomes, r),
        0 <= i < j < outcomes.len(),
        outcomes[i] is Err,
        outcomes[j] is Err,
        forall|k: int| 0 <= k < i ==> (#[trigger] outcomes[k]) is Ok,
    ensures
        r == outcomes[i],
{
    assert(is_first_failure(outcomes, i));
}

} // verus!
