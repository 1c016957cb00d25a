//! The ways in which inference fails.

use vstd::prelude::*;

verus! {

/// Why no type could be inferred. Every failure ends the whole run.
#[derive(Debug, Clone, Copy, PartialEq, Eq, Structural)]
pub enum InferError {
    /// A table is named that the schema does not declare.
    UnknownTable,
    /// A field is asked for that its table or object does not have.
    UnknownField,
    /// A parameter is used that nothing binds.
    UnknownParameter,
    /// A target is an array without items.
    EmptyTargetSet,
    /// A value has a kind that the operation cannot take.
    TypeMismatch,
    /// The construct is valid, and deliberately not modelled.
    UnsupportedExpression,
}

/// The sentence that says what went wrong.
pub open spec fn message_of(error: InferError) -> Seq<char> {
    match error {
        InferError::UnknownTable => "the schema declares no such table"@,
        InferError::UnknownField => "there is no such field"@,
        InferError::UnknownParameter => "nothing binds this parameter"@,
        InferError::EmptyTargetSet => "an array of targets holds no item"@,
        InferError::TypeMismatch => "a value of another kind was expected"@,
        InferError::UnsupportedExpression => "this construct is not supported"@,
    }
}

impl InferError {
    /// A sentence for the person who wrote the query.
    pub fn message(&self) -> (text: &'static str)
        ensures
            text@ == message_of(*self),
    {
        match self {
            InferError::UnknownTable => "the schema declares no such table",
            InferError::UnknownField => "there is no such field",
            InferError::UnknownParameter => "nothing binds this parameter",
            InferError::EmptyTargetSet => "an array of targets holds no item",
            InferError::TypeMismatch => "a value of another kind was expected",
            InferError::UnsupportedExpression => "this construct is not supported",
        }
    }
}

} // verus!
