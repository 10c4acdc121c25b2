use vstd::prelude::*;

verus! {

/// The ways in which a step of the streaming engine can fail.
#[derive(Clone, Copy, Debug, PartialEq, Eq, Structural)]
pub enum StreamError {
    /// A malformed chunk: column, op or visibility lengths disagree, or a
    /// column that an operator reads is missing.
    SchemaViolation,
    /// A failure reported by the external state store.
    StateStoreError,
    /// An expression or an aggregate could not be computed (overflow, a
    /// reference to a column that does not exist).
    EvalError,
}

pub type StreamResult<T> = Result<T, StreamError>;

} // verus!
