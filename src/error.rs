//! Why a description fails to compile.

use vstd::prelude::*;

verus! {

/// The first problem found while compiling a description.
#[derive(Debug, Clone, Copy, PartialEq, Eq, Structural)]
pub enum CompileError {
    /// An empty string, class, group, or a quantifier with nothing to repeat.
    EmptyConstruct,
    /// A concatenation or an alternation of fewer than two items.
    TooFewOperands,
    /// A quantifier or a flag scope given two items.
    TooManyOperands,
    /// Two capture groups with the same name.
    DuplicateGroupName,
    /// A capture group named `get_capture`.
    ReservedGroupName,
    /// A Unicode class that the engine does not know.
    UnknownClassName,
    /// A bare word that is not a keyword.
    UnknownWord,
    /// A bound or a quantifier type given twice, or bounds that contradict each other.
    ConflictingQuantifierSpec,
    /// `exactly: 0`, `at_most` without `at_least`, or no bound at all.
    InvalidBound,
    /// A flag both added and removed.
    ConflictingFlag,
    /// A flag scope that adds and removes nothing.
    NoFlagsToApply,
    /// The engine does not compile the assembled pattern text.
    UnderlyingEngineRejected,
}


/// What each error says to a reader.
pub open spec fn error_message(e: CompileError) -> Seq<char> {
    match e {
        CompileError::EmptyConstruct => "Empty string, class, group or repetition is not supported"@,
        CompileError::TooFewOperands => "Concat and any must have at least two elements"@,
        CompileError::TooManyOperands => "Can not repeat or apply on two regular expressions"@,
        CompileError::DuplicateGroupName => "Two capture groups have the same name"@,
        CompileError::ReservedGroupName => "The name get_capture is not supported"@,
        CompileError::UnknownClassName => "Unknown regex class"@,
        CompileError::UnknownWord => "Unknown word"@,
        CompileError::ConflictingQuantifierSpec => "Bounds or quantifier type set twice or together"@,
        CompileError::InvalidBound => "Must set either exactly (not zero), at_least, or at_least and at_most"@,
        CompileError::ConflictingFlag => "Can not add and remove the same flag"@,
        CompileError::NoFlagsToApply => "No flags to apply"@,
        CompileError::UnderlyingEngineRejected => "The regex engine does not accept the pattern"@,
    }
}

impl CompileError {
    /// A sentence that says what went wrong.
    pub fn message(&self) -> (r: &'static str)
        ensures
            r@ == error_message(*self),
    {
        match self {
            CompileError::EmptyConstruct => "Empty string, class, group or repetition is not supported",
            CompileError::TooFewOperands => "Concat and any must have at least two elements",
            CompileError::TooManyOperands => "Can not repeat or apply on two regular expressions",
            CompileError::DuplicateGroupName => "Two capture groups have the same name",
            CompileError::ReservedGroupName => "The name get_capture is not supported",
            CompileError::UnknownClassName => "Unknown regex class",
            CompileError::UnknownWord => "Unknown word",
            CompileError::ConflictingQuantifierSpec => "Bounds or quantifier type set twice or together",
            CompileError::InvalidBound => "Must set either exactly (not zero), at_least, or at_least and at_most",
            CompileError::ConflictingFlag => "Can not add and remove the same flag",
            CompileError::NoFlagsToApply => "No flags to apply",
            CompileError::UnderlyingEngineRejected => "The regex engine does not accept the pattern",
        }
    }
}

} // verus!
