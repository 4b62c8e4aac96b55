use rustyflow::batch::Batch;
use rustyflow::error::FlowError;
use rustyflow::flow::{gather, Flow, ParallelFlow, Step};
use rustyflow::tool::{ToolNode, ToolStep};
use rustyflow::value::Value;
use serde_json::Number;
use std::cell::Cell;

// ---- test nodes ----

enum TestNode {
    Add(i64),
    Append(String),
    Wait(u64),
    Fail(String),
}

fn num(n: i64) -> Value {
    Value::Number(Number::from(n))
}

fn text(s: &str) -> Value {
    Value::String(s.to_string())
}

fn object(entries: Vec<(&str, Value)>) -> Value {
    Value::Object(entries.into_iter().map(|(k, v)| (k.to_string(), v)).collect())
}

fn field<'a>(v: &'a Value, key: &str) -> Option<&'a Value> {
    match v {
        Value::Object(entries) => entries.iter().find(|(k, _)| k == key).map(|(_, v)| v),
        _ => None,
    }
}

fn fail_message(r: &Result<Value, FlowError>) -> String {
    match r {
        Err(FlowError::NodeFailed(m)) => m.clone(),
        other => panic!("expected a node failure, got {:?}", other),
    }
}

impl TestNode {
    fn call(&self, input: Value, calls: &Cell<usize>) -> Result<Value, FlowError> {
        calls.set(calls.get() + 1);
        match self {
            TestNode::Add(k) => {
                let n = match field(&input, "value") {
                    Some(Value::Number(n)) => n.as_i64().unwrap_or(0),
                    _ => 0,
                };
                Ok(object(vec![("value", num(n + k))]))
            }
            TestNode::Append(suffix) => match input {
                Value::String(s) => Ok(Value::String(format!("{}{}", s, suffix))),
                _ => Err(FlowError::NodeFailed("Input must be a string".to_string())),
            },
            TestNode::Wait(id) => Ok(object(vec![
                ("id", Value::Number(Number::from(*id))),
                ("status", text("done")),
            ])),
            TestNode::Fail(m) => Err(FlowError::NodeFailed(m.clone())),
        }
    }
}

// ---- drivers: carry out what the library decides ----

fn run_flow(flow: &Flow<TestNode>, input: Value, calls: &Cell<usize>) -> Result<Value, FlowError> {
    let mut step = flow.start(input);
    loop {
        match step {
            Step::Call { index, input } => {
                let outcome = flow.node(index).call(input, calls);
                step = flow.resume(index, outcome);
            }
            Step::Finish(r) => return r,
        }
    }
}

/// Runs the nodes in the given completion order and places each outcome by
/// node index.
fn run_parallel(
    flow: &ParallelFlow<TestNode>,
    input: &Value,
    completion: &[usize],
    calls: &Cell<usize>,
) -> Result<Value, FlowError> {
    let mut copies: Vec<Option<Value>> = flow.fan_out(input).into_iter().map(Some).collect();
    let mut slots: Vec<Option<Result<Value, FlowError>>> = (0..flow.len()).map(|_| None).collect();
    for &i in completion {
        let copy = copies[i].take().unwrap();
        slots[i] = Some(flow.node(i).call(copy, calls));
    }
    flow.fan_in(slots.into_iter().map(|s| s.unwrap()).collect())
}

fn run_batch(batch: &Batch<TestNode>, input: Value, calls: &Cell<usize>) -> Result<Value, FlowError> {
    let items = batch.split(input)?;
    let outcomes = items.into_iter().map(|e| batch.wrapped_node().call(e, calls)).collect();
    batch.fan_in(outcomes)
}

// A typed tool: adds two integers.
struct AddTool;

fn decode_add(v: &Value) -> Result<(i32, i32), serde_json::Error> {
    let a = to_json(field(v, "a").unwrap_or(&Value::Null));
    let b = to_json(field(v, "b").unwrap_or(&Value::Null));
    Ok((serde_json::from_value::<i32>(a)?, serde_json::from_value::<i32>(b)?))
}

fn to_json(v: &Value) -> serde_json::Value {
    match v {
        Value::Null => serde_json::Value::Null,
        Value::Bool(b) => serde_json::Value::Bool(*b),
        Value::Number(n) => serde_json::Value::Number(n.clone()),
        Value::String(s) => serde_json::Value::String(s.clone()),
        Value::Array(items) => serde_json::Value::Array(items.iter().map(to_json).collect()),
        Value::Object(entries) => {
            serde_json::Value::Object(entries.iter().map(|(k, v)| (k.clone(), to_json(v))).collect())
        }
    }
}

fn run_tool(
    node: &ToolNode<AddTool>,
    input: Value,
    run: impl Fn(&AddTool, (i32, i32)) -> Result<i32, FlowError>,
    encode: impl Fn(i32) -> Result<Value, serde_json::Error>,
    runs: &Cell<usize>,
) -> Result<Value, FlowError> {
    let mut step: ToolStep<(i32, i32), i32> = node.after_decode(decode_add(&input));
    loop {
        step = match step {
            ToolStep::Run(i) => {
                runs.set(runs.get() + 1);
                node.after_run(run(node.tool(), i))
            }
            ToolStep::Encode(o) => node.after_encode(encode(o)),
            ToolStep::Finish(r) => return r,
        }
    }
}

fn add_run(_: &AddTool, (a, b): (i32, i32)) -> Result<i32, FlowError> {
    Ok(a + b)
}

fn encode_result(r: i32) -> Result<Value, serde_json::Error> {
    Ok(object(vec![("result", num(r as i64))]))
}

// ---- sequential ----

#[test]
fn empty_flow_returns_input() {
    let flow: Flow<TestNode> = Flow::new(vec![]);
    let calls = Cell::new(0);
    let input = object(vec![("value", num(7))]);
    assert_eq!(run_flow(&flow, input, &calls).unwrap(), object(vec![("value", num(7))]));
    assert_eq!(calls.get(), 0);
}

#[test]
fn flow_adds_five_then_ten() {
    let flow = Flow::new(vec![TestNode::Add(5), TestNode::Add(10)]);
    let calls = Cell::new(0);
    let r = run_flow(&flow, object(vec![("value", num(0))]), &calls).unwrap();
    assert_eq!(r, object(vec![("value", num(15))]));
    assert_eq!(calls.get(), 2);
}

#[test]
fn flow_threads_output_in_declared_order() {
    let flow = Flow::new(vec![TestNode::Append("a".to_string()), TestNode::Append("b".to_string())]);
    let calls = Cell::new(0);
    assert_eq!(run_flow(&flow, text("x"), &calls).unwrap(), text("xab"));
}

#[test]
fn flow_stops_at_first_failure() {
    let flow = Flow::new(vec![
        TestNode::Add(1),
        TestNode::Fail("boom".to_string()),
        TestNode::Add(1),
        TestNode::Fail("later".to_string()),
    ]);
    let calls = Cell::new(0);
    let r = run_flow(&flow, object(vec![("value", num(0))]), &calls);
    assert_eq!(fail_message(&r), "boom");
    assert_eq!(calls.get(), 2);
}

#[test]
fn flow_start_and_resume_steps() {
    let flow = Flow::new(vec![TestNode::Add(1), TestNode::Add(2)]);
    assert_eq!(flow.len(), 2);
    match flow.start(num(3)) {
        Step::Call { index, input } => {
            assert_eq!(index, 0);
            assert_eq!(input, num(3));
        }
        other => panic!("unexpected {:?}", other),
    }
    match flow.resume(0, Ok(num(4))) {
        Step::Call { index, input } => {
            assert_eq!(index, 1);
            assert_eq!(input, num(4));
        }
        other => panic!("unexpected {:?}", other),
    }
    match flow.resume(1, Ok(num(5))) {
        Step::Finish(Ok(v)) => assert_eq!(v, num(5)),
        other => panic!("unexpected {:?}", other),
    }
    match flow.resume(0, Err(FlowError::Unknown)) {
        Step::Finish(Err(FlowError::Unknown)) => {}
        other => panic!("unexpected {:?}", other),
    }
}

// ---- parallel ----

#[test]
fn parallel_places_results_by_node() {
    let flow = ParallelFlow::new(vec![TestNode::Wait(1), TestNode::Wait(2)]);
    let calls = Cell::new(0);
    let input = object(vec![("start", Value::Bool(true))]);
    // node 2 completes first
    let r = run_parallel(&flow, &input, &[1, 0], &calls).unwrap();
    let expected = Value::Array(vec![
        object(vec![("id", num(1)), ("status", text("done"))]),
        object(vec![("id", num(2)), ("status", text("done"))]),
    ]);
    assert_eq!(r, expected);
    assert_eq!(calls.get(), 2);
}

#[test]
fn parallel_each_node_gets_the_input() {
    let flow = ParallelFlow::new(vec![
        TestNode::Append("-1".to_string()),
        TestNode::Append("-2".to_string()),
        TestNode::Append("-3".to_string()),
    ]);
    let calls = Cell::new(0);
    let r = run_parallel(&flow, &text("in"), &[2, 0, 1], &calls).unwrap();
    assert_eq!(r, Value::Array(vec![text("in-1"), text("in-2"), text("in-3")]));
}

#[test]
fn parallel_reports_lowest_failure_after_all_ran() {
    let flow = ParallelFlow::new(vec![
        TestNode::Wait(1),
        TestNode::Fail("first".to_string()),
        TestNode::Fail("second".to_string()),
    ]);
    let calls = Cell::new(0);
    // the higher-index failure completes first
    let r = run_parallel(&flow, &Value::Null, &[2, 1, 0], &calls);
    assert_eq!(fail_message(&r), "first");
    assert_eq!(calls.get(), 3);
}

#[test]
fn parallel_empty_gives_empty_array() {
    let flow: ParallelFlow<TestNode> = ParallelFlow::new(vec![]);
    let calls = Cell::new(0);
    assert_eq!(run_parallel(&flow, &num(1), &[], &calls).unwrap(), Value::Array(vec![]));
}

#[test]
fn fan_out_copies_are_independent() {
    let flow = ParallelFlow::new(vec![TestNode::Wait(1), TestNode::Wait(2)]);
    let input = object(vec![("list", Value::Array(vec![num(1), text("x")]))]);
    let mut copies = flow.fan_out(&input);
    assert_eq!(copies.len(), 2);
    assert_eq!(copies[0], input);
    assert_eq!(copies[1], input);
    copies[0] = Value::Null;
    assert_eq!(copies[1], input);
}

// ---- batch ----

#[test]
fn batch_appends_suffix_to_each_element() {
    let batch = Batch::new(TestNode::Append("_done".to_string()));
    let calls = Cell::new(0);
    let r = run_batch(&batch, Value::Array(vec![text("a"), text("b")]), &calls).unwrap();
    assert_eq!(r, Value::Array(vec![text("a_done"), text("b_done")]));
    assert_eq!(calls.get(), 2);
}

#[test]
fn batch_rejects_non_array_without_calling() {
    let batch = Batch::new(TestNode::Append("_done".to_string()));
    let calls = Cell::new(0);
    let r = run_batch(&batch, text("a"), &calls);
    assert_eq!(fail_message(&r), "Input must be a JSON array");
    assert_eq!(calls.get(), 0);
    let r = run_batch(&batch, object(vec![("a", num(1))]), &calls);
    assert_eq!(fail_message(&r), "Input must be a JSON array");
    assert_eq!(calls.get(), 0);
}

#[test]
fn batch_empty_array_gives_empty_array() {
    let batch = Batch::new(TestNode::Add(1));
    let calls = Cell::new(0);
    assert_eq!(run_batch(&batch, Value::Array(vec![]), &calls).unwrap(), Value::Array(vec![]));
    assert_eq!(calls.get(), 0);
}

#[test]
fn batch_reports_lowest_failing_element() {
    let batch = Batch::new(TestNode::Append("!".to_string()));
    let calls = Cell::new(0);
    let r = run_batch(&batch, Value::Array(vec![text("a"), num(1), Value::Null]), &calls);
    assert_eq!(fail_message(&r), "Input must be a string");
    assert_eq!(calls.get(), 3);
}

// ---- fan-in ----

#[test]
fn gather_orders_values_and_picks_first_failure() {
    assert_eq!(gather(vec![Ok(num(1)), Ok(num(2))]).unwrap(), Value::Array(vec![num(1), num(2)]));
    let r = gather(vec![
        Ok(num(1)),
        Err(FlowError::NodeFailed("x".to_string())),
        Err(FlowError::Unknown),
    ]);
    assert_eq!(fail_message(&r), "x");
    assert!(matches!(gather(vec![Err(FlowError::Unknown), Ok(num(1))]), Err(FlowError::Unknown)));
}

// ---- tool adapter ----

#[test]
fn tool_node_adds() {
    let node = ToolNode::new(AddTool);
    let runs = Cell::new(0);
    let r = run_tool(&node, object(vec![("a", num(10)), ("b", num(5))]), add_run, encode_result, &runs);
    assert_eq!(r.unwrap(), object(vec![("result", num(15))]));
    assert_eq!(runs.get(), 1);
}

#[test]
fn tool_node_rejects_undecodable_input() {
    let node = ToolNode::new(AddTool);
    let runs = Cell::new(0);
    let r = run_tool(&node, object(vec![("a", text("x")), ("b", num(5))]), add_run, encode_result, &runs);
    assert!(matches!(r, Err(FlowError::SerdeError(_))));
    assert_eq!(runs.get(), 0);
}

#[test]
fn tool_node_passes_tool_failure_unchanged() {
    let node = ToolNode::new(AddTool);
    let runs = Cell::new(0);
    let refuse = |_: &AddTool, _: (i32, i32)| Err(FlowError::NodeFailed("no".to_string()));
    let r = run_tool(&node, object(vec![("a", num(1)), ("b", num(2))]), refuse, encode_result, &runs);
    assert_eq!(fail_message(&r), "no");
    assert_eq!(runs.get(), 1);
}

#[test]
fn tool_node_encode_failure_is_data_conversion() {
    let node = ToolNode::new(AddTool);
    let runs = Cell::new(0);
    let bad_encode = |_: i32| serde_json::from_str::<i32>("\"oops\"").map(|_| Value::Null);
    let r = run_tool(&node, object(vec![("a", num(1)), ("b", num(2))]), add_run, bad_encode, &runs);
    assert!(matches!(r, Err(FlowError::SerdeError(_))));
}

// ---- values and errors ----

#[test]
fn duplicate_copies_nested_value() {
    let v = Value::Array(vec![
        Value::Null,
        Value::Bool(true),
        num(-3),
        Value::Number(Number::from(u64::MAX)),
        text("s"),
        object(vec![("k", Value::Array(vec![num(1)]))]),
    ]);
    let d = v.duplicate();
    assert_eq!(d, v);
    assert_ne!(d, Value::Null);
}

#[test]
fn codec_error_becomes_data_conversion_failure() {
    let e = serde_json::from_str::<i32>("\"x\"").unwrap_err();
    assert!(matches!(FlowError::from(e), FlowError::SerdeError(_)));
    match FlowError::node_failed("why") {
        FlowError::NodeFailed(m) => assert_eq!(m, "why"),
        other => panic!("unexpected {:?}", other),
    }
}
