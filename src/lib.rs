//! Composition engine for JSON-shaped values: sequential chains, parallel
//! fan-out, per-element batches and a typed-tool adapter, each written as
//! verified decisions that an asynchronous driver carries out.

pub mod value;
pub mod error;
pub mod flow;
pub mod batch;
pub mod tool;

pub use batch::Batch;
pub use error::FlowError;
pub use flow::{Flow, ParallelFlow, Step};
pub use tool::{ToolNode, ToolStep};
pub use value::Value;
