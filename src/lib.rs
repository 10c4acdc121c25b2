//! A barrier-synchronised incremental streaming execution engine: change
//! chunks, control messages, stateless and stateful executors, and the
//! aggregation state that they maintain between checkpoints.
pub mod agg;
pub mod align;
pub mod chunk;
pub mod error;
pub mod expr;
pub mod hex;
pub mod message;
pub mod project;
pub mod schema;
pub mod simple_agg;
pub mod value;
