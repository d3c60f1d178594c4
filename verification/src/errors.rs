//! The closed set of failure kinds raised anywhere in the pipeline.

use vstd::prelude::*;

verus! {

/// An error raised by the parser or the evaluator. Errors are plain values:
/// every fallible operation returns either a result or one of these.
///
/// Only `Reason` and `UnmatchedParenthesis` are ever constructed by the
/// current pipeline; the remaining kinds are reserved for features the
/// grammar anticipates but the evaluator does not implement.
#[derive(Debug, PartialEq)]
pub enum RispError {
    /// A general parse or evaluation failure with human-readable detail.
    Reason(String),
    /// Reserved: a lexical failure with detail.
    Syntax(String),
    /// Reserved: a parse failure with detail.
    Parse(String),
    /// The token cursor ran out while still inside an open list.
    UnmatchedParenthesis,
    /// Reserved: a token that fits no grammar rule.
    UnexpectedToken(String),
    /// Reserved: a string literal left open at end of input.
    UnclosedStringLiteral,
}

/// The mathematical model of a `RispError`: the same tags, with each
/// message abstracted to its character sequence.
pub enum ErrorModel {
    Reason(Seq<char>),
    Syntax(Seq<char>),
    Parse(Seq<char>),
    UnmatchedParenthesis,
    UnexpectedToken(Seq<char>),
    UnclosedStringLiteral,
}

impl Clone for RispError {
    /// A clone is equal to the value cloned, message included.
    fn clone(&self) -> (r: Self)
        ensures
            r == *self,
    {
        match self {
            RispError::Reason(m) => RispError::Reason(m.clone()),
            RispError::Syntax(m) => RispError::Syntax(m.clone()),
            RispError::Parse(m) => RispError::Parse(m.clone()),
            RispError::UnmatchedParenthesis => RispError::UnmatchedParenthesis,
            RispError::UnexpectedToken(t) => RispError::UnexpectedToken(t.clone()),
            RispError::UnclosedStringLiteral => RispError::UnclosedStringLiteral,
        }
    }
}

impl View for RispError {
    type V = ErrorModel;

    open spec fn view(&self) -> ErrorModel {
        match self {
            RispError::Reason(m) => ErrorModel::Reason(m@),
            RispError::Syntax(m) => ErrorModel::Syntax(m@),
            RispError::Parse(m) => ErrorModel::Parse(m@),
            RispError::UnmatchedParenthesis => ErrorModel::UnmatchedParenthesis,
            RispError::UnexpectedToken(t) => ErrorModel::UnexpectedToken(t@),
            RispError::UnclosedStringLiteral => ErrorModel::UnclosedStringLiteral,
        }
    }
}

} // verus!
