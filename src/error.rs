//! The failure model shared by every container.

use vstd::prelude::*;

verus! {

/// serde_json's `Error`, the codec's failure, carried through unread.
#[verifier::external_type_specification]
#[verifier::external_body]
pub struct ExJsonError(serde_json::Error);

/// What can go wrong while a node, a flow or an adapter runs.
#[derive(Debug)]
pub enum FlowError {
    /// A node rejected its input or broke one of its own rules; the message
    /// says why.
    NodeFailed(String),
    /// A value did not match a tool's typed shape, on the way in or out.
    SerdeError(serde_json::Error),
    /// A failure that fits neither of the above.
    Unknown,
}

impl FlowError {
    /// A node failure carrying `message`.
    pub fn node_failed(message: &str) -> (r: FlowError)
        ensures
            r matches FlowError::NodeFailed(m) && m@ == message@,
    {
        FlowError::NodeFailed(message.to_owned())
    }

    pub open spec fn is_data_conversion(self) -> bool {
        self is SerdeError
    }
}

impl From<serde_json::Error> for FlowError {
    fn from(e: serde_json::Error) -> (r: FlowError)
        ensures
            r == FlowError::SerdeError(e),
    {
        FlowError::SerdeError(e)
    }
}

impl vstd::std_specs::convert::FromSpecImpl<serde_json::Error> for FlowError {
    open spec fn obeys_from_spec() -> bool {
        true
    }

    open spec fn from_spec(e: serde_json::Error) -> FlowError {
        FlowError::SerdeError(e)
    }
}

} // verus!
