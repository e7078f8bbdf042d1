//! What can go wrong while parsing and while evaluating.

use vstd::prelude::*;
use crate::decimal::{decimal_digits, unsigned_to_string};

verus! {

/// A parse error or a runtime error.
#[derive(Debug, PartialEq)]
pub enum Error {
    // Parse errors
    UnexpectedToken(String),
    MissingToken,
    InvalidIntegerValue(String),
    InvalidBooleanValue(String),
    InvalidPrefixOperator(String),
    InvalidInfixOperator(String),
    // Runtime errors
    TypeMismatch { left: String, operator: String, right: String },
    UnknownOperator(String),
    IdentifierNotFound(String),
    DivisionByZero,
    IntegerOverflow,
    WrongArgumentCount { expected: usize, actual: usize },
    RecursionLimitExceeded,
}

/// The mathematical value of an [`Error`].
pub enum ErrorView {
    UnexpectedToken(Seq<char>),
    MissingToken,
    InvalidIntegerValue(Seq<char>),
    InvalidBooleanValue(Seq<char>),
    InvalidPrefixOperator(Seq<char>),
    InvalidInfixOperator(Seq<char>),
    TypeMismatch { left: Seq<char>, operator: Seq<char>, right: Seq<char> },
    UnknownOperator(Seq<char>),
    IdentifierNotFound(Seq<char>),
    DivisionByZero,
    IntegerOverflow,
    WrongArgumentCount { expected: nat, actual: nat },
    RecursionLimitExceeded,
}

impl View for Error {
    type V = ErrorView;

    open spec fn view(&self) -> ErrorView {
        match self {
            Error::UnexpectedToken(literal) => ErrorView::UnexpectedToken(literal@),
            Error::MissingToken => ErrorView::MissingToken,
            Error::InvalidIntegerValue(text) => ErrorView::InvalidIntegerValue(text@),
            Error::InvalidBooleanValue(text) => ErrorView::InvalidBooleanValue(text@),
            Error::InvalidPrefixOperator(text) => ErrorView::InvalidPrefixOperator(text@),
            Error::InvalidInfixOperator(text) => ErrorView::InvalidInfixOperator(text@),
            Error::TypeMismatch { left, operator, right } => ErrorView::TypeMismatch {
                left: left@,
                operator: operator@,
                right: right@,
            },
            Error::UnknownOperator(description) => ErrorView::UnknownOperator(description@),
            Error::IdentifierNotFound(name) => ErrorView::IdentifierNotFound(name@),
            Error::DivisionByZero => ErrorView::DivisionByZero,
            Error::IntegerOverflow => ErrorView::IntegerOverflow,
            Error::WrongArgumentCount { expected, actual } => ErrorView::WrongArgumentCount {
                expected: *expected as nat,
                actual: *actual as nat,
            },
            Error::RecursionLimitExceeded => ErrorView::RecursionLimitExceeded,
        }
    }
}

/// An error of the parser: the tokens do not spell a program.
pub open spec fn is_parse_error(e: ErrorView) -> bool {
    match e {
        ErrorView::UnexpectedToken(_) => true,
        ErrorView::MissingToken => true,
        ErrorView::InvalidIntegerValue(_) => true,
        ErrorView::InvalidBooleanValue(_) => true,
        ErrorView::InvalidPrefixOperator(_) => true,
        ErrorView::InvalidInfixOperator(_) => true,
        _ => false,
    }
}

/// An error of the evaluator: the program has no value.
pub open spec fn is_runtime_error(e: ErrorView) -> bool {
    !is_parse_error(e)
}

/// The description of an error, as shown to a user.
pub open spec fn error_text(e: ErrorView) -> Seq<char> {
    match e {
        ErrorView::UnexpectedToken(literal) => "unexpected token: "@ + literal,
        ErrorView::MissingToken => "expected token, found none"@,
        ErrorView::InvalidIntegerValue(text) => "failed to convert "@ + text + " to i64 value"@,
        ErrorView::InvalidBooleanValue(text) => "failed to convert "@ + text
            + " to boolean value"@,
        ErrorView::InvalidPrefixOperator(text) => "failed to convert "@ + text
            + " to prefix operator"@,
        ErrorView::InvalidInfixOperator(text) => "failed to convert "@ + text
            + " to infix operator"@,
        ErrorView::TypeMismatch { left, operator, right } => "type mismatch: "@ + left + " "@
            + operator + " "@ + right,
        ErrorView::UnknownOperator(description) => "unknown operator: "@ + description,
        ErrorView::IdentifierNotFound(name) => "identifier not found: "@ + name,
        ErrorView::DivisionByZero => "division by zero"@,
        ErrorView::IntegerOverflow => "integer overflow"@,
        ErrorView::WrongArgumentCount { expected, actual } =>
            "wrong number of arguments: expected "@ + decimal_digits(expected) + ", got "@
                + decimal_digits(actual),
        ErrorView::RecursionLimitExceeded => "recursion limit exceeded"@,
    }
}

impl Error {
    /// Whether the parser gives this error.
    pub fn is_parse_error(&self) -> (b: bool)
        ensures
            b == is_parse_error(self@),
    {
        match self {
            Error::UnexpectedToken(_) => true,
            Error::MissingToken => true,
            Error::InvalidIntegerValue(_) => true,
            Error::InvalidBooleanValue(_) => true,
            Error::InvalidPrefixOperator(_) => true,
            Error::InvalidInfixOperator(_) => true,
            _ => false,
        }
    }

    /// Whether the evaluator gives this error.
    pub fn is_runtime_error(&self) -> (b: bool)
        ensures
            b == is_runtime_error(self@),
    {
        !self.is_parse_error()
    }

    /// The description of the error.
    pub fn message(&self) -> (text: String)
        ensures
            text@ == error_text(self@),
    {
        match self {
            Error::UnexpectedToken(literal) => {
                String::from_str("unexpected token: ").concat(literal.as_str())
            },
            Error::MissingToken => String::from_str("expected token, found none"),
            Error::InvalidIntegerValue(text) => {
                String::from_str("failed to convert ").concat(text.as_str()).concat(
                    " to i64 value",
                )
            },
            Error::InvalidBooleanValue(text) => {
                String::from_str("failed to convert ").concat(text.as_str()).concat(
                    " to boolean value",
                )
            },
            Error::InvalidPrefixOperator(text) => {
                String::from_str("failed to convert ").concat(text.as_str()).concat(
                    " to prefix operator",
                )
            },
            Error::InvalidInfixOperator(text) => {
                String::from_str("failed to convert ").concat(text.as_str()).concat(
                    " to infix operator",
                )
            },
            Error::TypeMismatch { left, operator, right } => {
                String::from_str("type mismatch: ").concat(left.as_str()).concat(" ").concat(
                    operator.as_str(),
                ).concat(" ").concat(right.as_str())
            },
            Error::UnknownOperator(description) => {
                String::from_str("unknown operator: ").concat(description.as_str())
            },
            Error::IdentifierNotFound(name) => {
                String::from_str("identifier not found: ").concat(name.as_str())
            },
            Error::DivisionByZero => String::from_str("division by zero"),
            Error::IntegerOverflow => String::from_str("integer overflow"),
            Error::WrongArgumentCount { expected, actual } => {
                let expected_text = unsigned_to_string(*expected as u64);
                let actual_text = unsigned_to_string(*actual as u64);
                String::from_str("wrong number of arguments: expected ").concat(
                    expected_text.as_str(),
                ).concat(", got ").concat(actual_text.as_str())
            },
            Error::RecursionLimitExceeded => String::from_str("recursion limit exceeded"),
        }
    }
}

} // verus!
