//! The adapter that lets a typed tool take part in a pipeline as a node.
//!
//! A call decodes the incoming value into the tool's input type, runs the
//! tool, and encodes its output back into a value. The codec and the tool
//! run outside this module; the adapter decides, after each of the three,
//! what comes next.

use vstd::prelude::*;
use crate::error::FlowError;
use crate::value::Value;

verus! {

/// What an adapter call asks of its driver next.
#[derive(Debug)]
pub enum ToolStep<I, O> {
    /// Run the tool on this decoded input.
    Run(I),
    /// Encode this tool output into a value.
    Encode(O),
    /// The call is over: this is what the caller receives.
    Finish(Result<Value, FlowError>),
}

/// Wraps a typed tool so that it can stand wherever a node can.
pub struct ToolNode<T> {
    tool: T,
}

impl<T> ToolNode<T> {
    /// The wrapped tool.
    pub closed spec fn wrapped(&self) -> T {
        self.tool
    }

    pub fn new(tool: T) -> (r: ToolNode<T>)
        ensures
            r.wrapped() == tool,
    {
        ToolNode { tool }
    }

    pub fn tool(&self) -> (r: &T)
        ensures
            *r == self.wrapped(),
    {
        &self.tool
    }

    /// After decoding the input: run the tool on it, or end with a data
    /// conversion failure before the tool runs.
    pub fn after_decode<I, O>(&self, decoded: Result<I, serde_json::Error>) -> (s: ToolStep<I, O>)
        ensures
            s == match decoded {
                Ok(i) => ToolStep::<I, O>::Run(i),
                Err(e) => ToolStep::Finish(Err(FlowError::SerdeError(e))),
            },
    {
        match decoded {
            Ok(i) => ToolStep::Run(i),
            Err(e) => ToolStep::Finish(Err(FlowError::from(e))),
        }
    }

    /// After the tool ran: encode its output, or pass its own failure on
    /// unchanged.
    pub fn after_run<I, O>(&self, ran: Result<O, FlowError>) -> (s: ToolStep<I, O>)
        ensures
            s == match ran {
                Ok(o) => ToolStep::<I, O>::Encode(o),
                Err(e) => ToolStep::Finish(Err(e)),
            },
    {
        match ran {
            Ok(o) => ToolStep::Encode(o),
            Err(e) => ToolStep::Finish(Err(e)),
        }
    }

    /// After encoding the output: hand the value to the caller, or end with
    /// a data conversion failure.
    pub fn after_encode<I, O>(&self, encoded: Result<Value, serde_json::Error>) -> (s: ToolStep<I, O>)
        ensures
            s == match encoded {
                Ok(v) => ToolStep::<I, O>::Finish(Ok(v)),
                Err(e) => ToolStep::Finish(Err(FlowError::SerdeError(e))),
            },
    {
        match encoded {
            Ok(v) => ToolStep::Finish(Ok(v)),
            Err(e) => ToolStep::Finish(Err(FlowError::from(e))),
        }
    }
}

/// The step an adapter call takes from `s`, when the tool given `i` reports
/// `run(i)` and encoding `o` gives `encode(o)`.
pub open spec fn tool_step<I, O>(
    s: ToolStep<I, O>,
    run: spec_fn(I) -> Result<O, FlowError>,
    encode: spec_fn(O) -> Result<Value, serde_json::Error>,
) -> ToolStep<I, O> {
    match s {
        ToolStep::Run(i) => match run(i) {
            Ok(o) => ToolStep::Encode(o),
            Err(e) => ToolStep::Finish(Err(e)),
        },
        ToolStep::Encode(o) => match encode(o) {
            Ok(v) => ToolStep::Finish(Ok(v)),
            Err(e) => ToolStep::Finish(Err(FlowError::SerdeError(e))),
        },
        ToolStep::Finish(r) => ToolStep::Finish(r),
    }
}

/// The first step of an adapter call whose input decoded to `decoded`.
pub open spec fn tool_first_step<I, O>(decoded: Result<I, serde_json::Error>) -> ToolStep<I, O> {
    match decoded {
        Ok(i) => ToolStep::Run(i),
        Err(e) => ToolStep::Finish(Err(FlowError::SerdeError(e))),
    }
}

/// For an input that decodes to `i`, an adapter call ends, after running the
/// tool once and encoding once, with the encoding of the tool's output, or
/// with the tool's own failure unchanged, or with a data conversion failure
/// from the encoder.
pub proof fn adapter_round_trips<I, O>(
    i: I,
    run: spec_fn(I) -> Result<O, FlowError>,
    encode: spec_fn(O) -> Result<Value, serde_json::Error>,
)
    ensures
        tool_first_step::<I, O>(Ok(i)) == ToolStep::<I, O>::Run(i),
        tool_step(tool_step(tool_first_step::<I, O>(Ok(i)), run, encode), run, encode) == ToolStep::<I, O>::Finish(
            match run(i) {
                Ok(o) => match encode(o) {
                    Ok(v) => Ok(v),
                    Err(e) => Err(FlowError::SerdeError(e)),
                },
                Err(e) => Err(e),
            },
        ),
{
}

/// An input that does not decode ends the adapter call at once with a data
/// conversion failure: the tool never runs.
pub proof fn adapter_rejects_undecodable<I, O>(
    e: serde_json::Error,
    run: spec_fn(I) -> Result<O, FlowError>,
    encode: spec_fn(O) -> Result<Value, serde_json::Error>,
)
    ensures
        tool_first_step::<I, O>(Err(e)) == ToolStep::<I, O>::Finish(Err(FlowError::SerdeError(e))),
        tool_first_step::<I, O>(Err(e))->Finish_0->Err_0.is_data_conversion(),
        tool_step(tool_first_step::<I, O>(Err(e)), run, encode) == tool_first_step::<I, O>(Err(e)),
{
}

} // verus!
