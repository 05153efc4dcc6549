//! The error channel of the pipeline.  Every failure is fatal to the
//! current compilation and carries the position it was detected at.

use vstd::prelude::*;

verus! {

/// A fatal error of the pipeline.
///
/// - `LexError`: an unrecognized character was met at `line`/`column`.
/// - `ParseError`: a required token kind was missing or replaced by an
///   unexpected one; `lexeme` is the offending token's text, empty when
///   the input ended where a token was required.
/// - `NumericOverflow`: a numeric literal's text does not fit the 16-bit
///   signed integer range.
#[derive(Debug, PartialEq)]
pub enum TranspileError {
    LexError { line: usize, column: usize },
    ParseError { line: usize, column: usize, lexeme: String },
    NumericOverflow { line: usize, column: usize, lexeme: String },
}

/// Mathematical mirror of `TranspileError`.
pub enum SpecTranspileError {
    LexError { line: nat, column: nat },
    ParseError { line: nat, column: nat, lexeme: Seq<char> },
    NumericOverflow { line: nat, column: nat, lexeme: Seq<char> },
}

pub open spec fn view_error(e: TranspileError) -> SpecTranspileError {
    match e {
        TranspileError::LexError { line, column } => SpecTranspileError::LexError {
            line: line as nat,
            column: column as nat,
        },
        TranspileError::ParseError { line, column, lexeme } => SpecTranspileError::ParseError {
            line: line as nat,
            column: column as nat,
            lexeme: lexeme@,
        },
        TranspileError::NumericOverflow { line, column, lexeme } =>
            SpecTranspileError::NumericOverflow {
                line: line as nat,
                column: column as nat,
                lexeme: lexeme@,
            },
    }
}

impl View for TranspileError {
    type V = SpecTranspileError;

    open spec fn view(&self) -> SpecTranspileError {
        view_error(*self)
    }
}

impl TranspileError {
    /// A short human-readable description, for hosts that report errors.
    pub fn describe(&self) -> String {
        match self {
            TranspileError::LexError { .. } => String::from_str("unexpected character"),
            TranspileError::ParseError { .. } => String::from_str("unexpected token"),
            TranspileError::NumericOverflow { .. } => String::from_str(
                "numeric literal out of range",
            ),
        }
    }
}

} // verus!
