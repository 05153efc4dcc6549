//! A source-to-source transpiler for a small prefix-notation,
//! block-delimited language, emitting C-family scripting code.
//!
//! The pipeline is `Lexer` (characters to tokens, on demand), `Parser`
//! (recursive descent into an abstract syntax tree) and `Transpiler`
//! (syntax-directed rendering).  Each stage is specified by a
//! mathematical model of the same shape — [`lexer::lex_step`],
//! [`parser::sp_parse_stmts`], [`transpiler::render_stmts`] — and every
//! executable function is proved to return exactly what its model
//! describes, for every input, including which error comes out of which
//! malformed source.

use vstd::prelude::*;

pub mod ast;
pub mod error;
pub mod laws;
pub mod lexer;
pub mod parser;
pub mod transpiler;

use crate::error::SpecTranspileError;
use crate::error::TranspileError;
use crate::lexer::Lexer;
use crate::parser::Parser;
use crate::parser::sp_parse_stmts;
use crate::transpiler::Transpiler;
use crate::transpiler::render_stmts;

verus! {

/// What the pipeline produces for a source text: the rendered program
/// when the text parses, and the first lexical or syntactic error
/// otherwise.
pub open spec fn sp_transpile(input: Seq<char>) -> Result<Seq<char>, SpecTranspileError> {
    match sp_parse_stmts(input, 0, false).res {
        Ok(ns) => Ok(render_stmts(ns)),
        Err(e) => Err(e),
    }
}

/// The single entry point: turns source text into target text, or
/// reports the first error.  Deterministic and side-effect free: exactly
/// [`sp_transpile`].  The length bound is a machine limit: the lexer
/// tracks line and column numbers in `usize`.
pub fn transpile(input: String) -> (r: Result<String, TranspileError>)
    requires
        input@.len() < usize::MAX,
    ensures
        match (r, sp_transpile(input@)) {
            (Ok(code), Ok(t)) => code@ == t,
            (Err(e), Err(se)) => e@ == se,
            _ => false,
        },
{
    let lexer = Lexer::new(input);
    let mut parser = Parser::new(lexer);
    match parser.parse(false) {
        Err(e) => Err(e),
        Ok(nodes) => {
            let transpiler = Transpiler::new(nodes);
            Ok(transpiler.transpile())
        },
    }
}

} // verus!
