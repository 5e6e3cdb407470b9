//! The closed set of failures a parse or an evaluation can end in.  Every
//! stage returns a `Result`; nothing here panics.

use vstd::prelude::*;

verus! {

/// Why a parse or an evaluation failed.  The `String` payloads are
/// human-readable context: the offending name, or the textual form of the
/// offending token.
#[derive(Debug, PartialEq)]
pub enum Error {
    /// The parentheses of the input do not balance.
    UnbalancedParentheses,
    /// An operator is missing the operands its arity requires.
    MissingOperands(String),
    /// A variable has no numeric binding in the scope.
    UnknownVariable(String),
    /// Neither the built-in table nor the scope binds the function name.
    UnknownFunction(String),
    /// A function was applied to no arguments at all.
    NotEnoughFunctionParams(String),
    /// A structural token or an unsupported operator kind reached
    /// evaluation.
    CannotEvaluateToken(String),
}

/// The mathematical value of an [`Error`]: the same variants over
/// character sequences.
#[verifier::ext_equal]
pub enum ErrorView {
    UnbalancedParentheses,
    MissingOperands(Seq<char>),
    UnknownVariable(Seq<char>),
    UnknownFunction(Seq<char>),
    NotEnoughFunctionParams(Seq<char>),
    CannotEvaluateToken(Seq<char>),
}

impl View for Error {
    type V = ErrorView;

    open spec fn view(&self) -> ErrorView {
        match self {
            Error::UnbalancedParentheses => ErrorView::UnbalancedParentheses,
            Error::MissingOperands(s) => ErrorView::MissingOperands(s@),
            Error::UnknownVariable(s) => ErrorView::UnknownVariable(s@),
            Error::UnknownFunction(s) => ErrorView::UnknownFunction(s@),
            Error::NotEnoughFunctionParams(s) => ErrorView::NotEnoughFunctionParams(s@),
            Error::CannotEvaluateToken(s) => ErrorView::CannotEvaluateToken(s@),
        }
    }
}

impl Error {
    /// A short label for the failure, so callers can report it without a
    /// `Display` implementation.
    pub fn describe(&self) -> (r: &'static str)
        ensures
            r@ == self.spec_describe(),
    {
        match self {
            Error::UnbalancedParentheses => "unbalanced parentheses",
            Error::MissingOperands(_) => "missing operands",
            Error::UnknownVariable(_) => "unknown variable",
            Error::UnknownFunction(_) => "unknown function",
            Error::NotEnoughFunctionParams(_) => "not enough function parameters",
            Error::CannotEvaluateToken(_) => "cannot evaluate token",
        }
    }

    pub open spec fn spec_describe(self) -> Seq<char> {
        match self {
            Error::UnbalancedParentheses => "unbalanced parentheses"@,
            Error::MissingOperands(_) => "missing operands"@,
            Error::UnknownVariable(_) => "unknown variable"@,
            Error::UnknownFunction(_) => "unknown function"@,
            Error::NotEnoughFunctionParams(_) => "not enough function parameters"@,
            Error::CannotEvaluateToken(_) => "cannot evaluate token"@,
        }
    }
}

} // verus!
