//! Recursive-descent parsing.
//!
//! The parser pulls tokens on demand from the lexer and builds the
//! statement list bottom-up, one grammar rule per function.  The grammar
//! is LL(1): every construct's first token decides its production.  Its
//! behaviour is pinned by the spec-level functions below (`sp_parse_*`),
//! which mirror the grammar over the character buffer and the lexing
//! model [`lex_step`]; every executable parsing function is proved to
//! return exactly what its model function describes, including which
//! error comes out on which malformed input.
//!
//! Parsing fails fatally at the first problem: a missing or unexpected
//! token is a `ParseError` carrying the offending token's position and
//! text (an empty lexeme when the input itself ran out), an unrecognized
//! character surfaces as the lexer's `LexError`, and a numeric literal
//! that does not fit the 16-bit signed range is a `NumericOverflow`.

use vstd::prelude::*;

use crate::ast::ASTNode;
use crate::ast::Expression;
use crate::ast::ObjectEntry;
use crate::ast::Operator;
use crate::ast::SpecEntry;
use crate::ast::SpecExpression;
use crate::ast::SpecNode;
use crate::ast::SpecValue;
use crate::ast::SpecVariable;
use crate::ast::Value;
use crate::ast::Variable;
use crate::error::SpecTranspileError;
use crate::error::TranspileError;
use crate::lexer::LexStep;
use crate::lexer::Lexer;
use crate::lexer::SpecToken;
use crate::lexer::Token;
use crate::lexer::TokenKind;
use crate::lexer::clampn;
use crate::lexer::col_at;
use crate::lexer::lex_step;
use crate::lexer::line_at;
use crate::lexer::rem;

verus! {

/// Outcome of one model parsing function: a result and the cursor
/// position after it.
pub struct POut<T> {
    pub res: Result<T, SpecTranspileError>,
    pub next: nat,
}

/// The `ParseError` reported where a token was required but the input
/// had ended: empty lexeme, positioned at the end of the input.
pub open spec fn eof_err(input: Seq<char>, at: nat) -> SpecTranspileError {
    SpecTranspileError::ParseError {
        line: line_at(input, at),
        column: col_at(input, at),
        lexeme: Seq::empty(),
    }
}

/// The `ParseError` reported at an unexpected token.
pub open spec fn tok_err(t: SpecToken) -> SpecTranspileError {
    SpecTranspileError::ParseError { line: t.line, column: t.column, lexeme: t.lexeme }
}

/// Pulls one token and demands a given kind; any other outcome is the
/// corresponding error.
pub open spec fn sp_expect(input: Seq<char>, pos: nat, kind: TokenKind) -> POut<SpecToken> {
    match lex_step(input, pos) {
        LexStep::Token { t, next } => if t.kind == kind {
            POut { res: Ok(t), next }
        } else {
            POut { res: Err(tok_err(t)), next }
        },
        LexStep::End { next } => POut { res: Err(eof_err(input, next)), next },
        LexStep::Bad { line, column, next } => POut {
            res: Err(SpecTranspileError::LexError { line, column }),
            next,
        },
    }
}

// ------------------------------------------------------------------
// Numeric literals
// ------------------------------------------------------------------

/// Whether every character of `s` is an ASCII decimal digit (and there is
/// at least one).
pub open spec fn is_dec_digits(s: Seq<char>) -> bool {
    s.len() > 0 && (forall|i: int| 0 <= i < s.len() ==> '0' <= #[trigger] s[i] <= '9')
}

/// The value of a sequence of decimal digits.
pub open spec fn dec_val(s: Seq<char>) -> int
    decreases s.len(),
{
    if s.len() == 0 {
        0
    } else {
        dec_val(s.drop_last()) * 10 + (s.last() as int - '0' as int)
    }
}

/// What a `Number` token parses to: its decimal value when the lexeme is
/// plain digits and fits the 16-bit signed range, and `NumericOverflow`
/// otherwise.
pub open spec fn number_expr(t: SpecToken) -> Result<SpecExpression, SpecTranspileError> {
    if is_dec_digits(t.lexeme) && dec_val(t.lexeme) <= 32767 {
        Ok(SpecExpression::Value(SpecValue::Number(dec_val(t.lexeme))))
    } else {
        Err(
            SpecTranspileError::NumericOverflow {
                line: t.line,
                column: t.column,
                lexeme: t.lexeme,
            },
        )
    }
}

/// The operator of a prefix-operator token.
pub open spec fn op_of(kind: TokenKind) -> Operator {
    match kind {
        TokenKind::Plus => Operator::Plus,
        TokenKind::Minus => Operator::Minus,
        TokenKind::Times => Operator::Times,
        TokenKind::Divided => Operator::Divided,
        TokenKind::Gt => Operator::Gt,
        TokenKind::Lt => Operator::Lt,
        _ => Operator::Equal,
    }
}

/// Whether a token kind opens a prefix binary expression.
pub open spec fn is_op_kind(kind: TokenKind) -> bool {
    ||| kind == TokenKind::Plus
    ||| kind == TokenKind::Minus
    ||| kind == TokenKind::Times
    ||| kind == TokenKind::Divided
    ||| kind == TokenKind::Gt
    ||| kind == TokenKind::Lt
    ||| kind == TokenKind::Equal
}

// ------------------------------------------------------------------
// Object entries
// ------------------------------------------------------------------

/// Inserts `key: value` into an entry list, keeping keys unique: a
/// repeated key has its value replaced in place, a new key is appended.
pub open spec fn upsert_entry(
    entries: Seq<SpecEntry>,
    key: Seq<char>,
    value: SpecExpression,
) -> Seq<SpecEntry>
    decreases entries.len(),
{
    if entries.len() == 0 {
        seq![SpecEntry { key, value }]
    } else if entries[0].key == key {
        seq![SpecEntry { key, value }] + entries.drop_first()
    } else {
        seq![entries[0]] + upsert_entry(entries.drop_first(), key, value)
    }
}

// ------------------------------------------------------------------
// The grammar model
//
// Each function consumes tokens from `pos` on and says both what it
// produces and where the cursor stands afterwards.  Recursion always
// continues at `clampn(..)` of a sub-result's position: the clamp keeps
// the measure decreasing, and is the identity for the positions that
// actually arise (every sub-parse strictly advances the cursor, as the
// executable functions prove).
// ------------------------------------------------------------------

/// A statement list: statements until the end of the input — or, with
/// `stop_at_rbrace`, until a matching `}`, which is how nested blocks
/// return to their caller.  A stray `}` (without `stop_at_rbrace`) and a
/// bare `;` are skipped as no-ops.
pub open spec fn sp_parse_stmts(input: Seq<char>, pos: nat, stop_at_rbrace: bool) -> POut<
    Seq<SpecNode>,
>
    decreases rem(input, pos), 4int,
{
    match lex_step(input, pos) {
        LexStep::End { next } => POut { res: Ok(Seq::empty()), next },
        LexStep::Bad { line, column, next } => POut {
            res: Err(SpecTranspileError::LexError { line, column }),
            next,
        },
        LexStep::Token { t, next } => {
            if stop_at_rbrace && t.kind == TokenKind::RBrace {
                POut { res: Ok(Seq::empty()), next }
            } else {
                let s1 = sp_parse_stmt(input, t, clampn(input, pos, next));
                match s1.res {
                    Err(e) => POut { res: Err(e), next: s1.next },
                    Ok(ns) => {
                        let restp = clampn(input, pos, if s1.next > next {
                            s1.next
                        } else {
                            next
                        });
                        let rest = sp_parse_stmts(input, restp, stop_at_rbrace);
                        match rest.res {
                            Err(e) => POut { res: Err(e), next: rest.next },
                            Ok(more) => POut { res: Ok(ns + more), next: rest.next },
                        }
                    },
                }
            }
        },
    }
}

/// One statement, dispatched on its (already consumed) leading token
/// `t`; `pos` stands just after `t`.  Produces no node for the no-op
/// statements (`;`, stray `}`), one node otherwise.
pub open spec fn sp_parse_stmt(input: Seq<char>, t: SpecToken, pos: nat) -> POut<Seq<SpecNode>>
    decreases rem(input, pos), 3int,
{
    if t.kind == TokenKind::Fn {
        sp_parse_fn_stmt(input, t, pos)
    } else if t.kind == TokenKind::Let {
        let v = sp_parse_vars(input, pos);
        match v.res {
            Err(e) => POut { res: Err(e), next: v.next },
            Ok(vars) => POut {
                res: Ok(seq![SpecNode::VariableDeclaration { start: t.column, vars }]),
                next: v.next,
            },
        }
    } else if t.kind == TokenKind::SetKw {
        let v = sp_parse_vars(input, pos);
        match v.res {
            Err(e) => POut { res: Err(e), next: v.next },
            Ok(vars) => POut {
                res: Ok(seq![SpecNode::VariableSetting { start: t.column, vars }]),
                next: v.next,
            },
        }
    } else if t.kind == TokenKind::Const {
        let v = sp_parse_vars(input, pos);
        match v.res {
            Err(e) => POut { res: Err(e), next: v.next },
            Ok(vars) => POut {
                res: Ok(seq![SpecNode::ConstDeclaration { start: t.column, vars }]),
                next: v.next,
            },
        }
    } else if t.kind == TokenKind::Return {
        let e = sp_parse_expr(input, pos);
        match e.res {
            Err(err) => POut { res: Err(err), next: e.next },
            Ok(expression) => POut {
                res: Ok(seq![SpecNode::ReturnExpression { start: t.column, expression }]),
                next: e.next,
            },
        }
    } else if t.kind == TokenKind::When || t.kind == TokenKind::OrWhen {
        sp_parse_when_stmt(input, t, pos)
    } else if t.kind == TokenKind::Or {
        let lb = sp_expect(input, pos, TokenKind::LBrace);
        match lb.res {
            Err(e) => POut { res: Err(e), next: lb.next },
            Ok(_) => {
                let body = sp_parse_stmts(input, clampn(input, pos, lb.next), true);
                match body.res {
                    Err(e) => POut { res: Err(e), next: body.next },
                    Ok(content) => POut {
                        res: Ok(seq![SpecNode::OrExpression { start: t.column, content }]),
                        next: body.next,
                    },
                }
            },
        }
    } else if t.kind == TokenKind::Dollar {
        let e = sp_parse_expr_tok(input, t, pos);
        match e.res {
            Err(err) => POut { res: Err(err), next: e.next },
            Ok(expression) => POut {
                res: Ok(seq![SpecNode::Expression(expression)]),
                next: e.next,
            },
        }
    } else if t.kind == TokenKind::Call {
        sp_parse_call_stmt(input, t, pos)
    } else if t.kind == TokenKind::Semicolon || t.kind == TokenKind::RBrace {
        POut { res: Ok(Seq::empty()), next: pos }
    } else {
        POut { res: Err(tok_err(t)), next: pos }
    }
}

/// The `fn name [:{params}] { body }` statement.
pub open spec fn sp_parse_fn_stmt(input: Seq<char>, t: SpecToken, pos: nat) -> POut<
    Seq<SpecNode>,
>
    decreases rem(input, pos), 2int,
{

        let idt = sp_expect(input, pos, TokenKind::Identifier);
        match idt.res {
            Err(e) => POut { res: Err(e), next: idt.next },
            Ok(name_tok) => {
                let p1 = clampn(input, pos, idt.next);
                match lex_step(input, p1) {
                    LexStep::End { next } => POut { res: Err(eof_err(input, next)), next },
                    LexStep::Bad { line, column, next } => POut {
                        res: Err(SpecTranspileError::LexError { line, column }),
                        next,
                    },
                    LexStep::Token { t: t2, next: n2 } => {
                        if t2.kind == TokenKind::Colon {
                            let lb = sp_expect(input, clampn(input, p1, n2), TokenKind::LBrace);
                            match lb.res {
                                Err(e) => POut { res: Err(e), next: lb.next },
                                Ok(_) => {
                                    let ps = sp_parse_params(input, clampn(input, p1, lb.next));
                                    match ps.res {
                                        Err(e) => POut { res: Err(e), next: ps.next },
                                        Ok(params) => {
                                            let lb2 = sp_expect(
                                                input,
                                                clampn(input, p1, ps.next),
                                                TokenKind::LBrace,
                                            );
                                            match lb2.res {
                                                Err(e) => POut { res: Err(e), next: lb2.next },
                                                Ok(_) => {
                                                    let body = sp_parse_stmts(
                                                        input,
                                                        clampn(input, p1, lb2.next),
                                                        true,
                                                    );
                                                    match body.res {
                                                        Err(e) => POut {
                                                            res: Err(e),
                                                            next: body.next,
                                                        },
                                                        Ok(content) => POut {
                                                            res: Ok(
                                                                seq![
                                                                    SpecNode::FunctionDeclaration {
                                                                        start: t.column,
                                                                        name: name_tok.lexeme,
                                                                        parameters: params,
                                                                        content,
                                                                    },
                                                                ],
                                                            ),
                                                            next: body.next,
                                                        },
                                                    }
                                                },
                                            }
                                        },
                                    }
                                },
                            }
                        } else if t2.kind == TokenKind::LBrace {
                            let body = sp_parse_stmts(input, clampn(input, p1, n2), true);
                            match body.res {
                                Err(e) => POut { res: Err(e), next: body.next },
                                Ok(content) => POut {
                                    res: Ok(
                                        seq![
                                            SpecNode::FunctionDeclaration {
                                                start: t.column,
                                                name: name_tok.lexeme,
                                                parameters: Seq::empty(),
                                                content,
                                            },
                                        ],
                                    ),
                                    next: body.next,
                                },
                            }
                        } else {
                            POut { res: Err(tok_err(t2)), next: n2 }
                        }
                    },
                }
            },
        }
}

/// A `when:{cond}{body}` or `orwhen:{cond}{body}` statement.
pub open spec fn sp_parse_when_stmt(input: Seq<char>, t: SpecToken, pos: nat) -> POut<
    Seq<SpecNode>,
>
    decreases rem(input, pos), 2int,
{

        let c = sp_expect(input, pos, TokenKind::Colon);
        match c.res {
            Err(e) => POut { res: Err(e), next: c.next },
            Ok(_) => {
                let lb = sp_expect(input, clampn(input, pos, c.next), TokenKind::LBrace);
                match lb.res {
                    Err(e) => POut { res: Err(e), next: lb.next },
                    Ok(_) => {
                        let cond = sp_parse_expr(input, clampn(input, pos, lb.next));
                        match cond.res {
                            Err(e) => POut { res: Err(e), next: cond.next },
                            Ok(expression) => {
                                let rb = sp_expect(
                                    input,
                                    clampn(input, pos, cond.next),
                                    TokenKind::RBrace,
                                );
                                match rb.res {
                                    Err(e) => POut { res: Err(e), next: rb.next },
                                    Ok(_) => {
                                        let lb2 = sp_expect(
                                            input,
                                            clampn(input, pos, rb.next),
                                            TokenKind::LBrace,
                                        );
                                        match lb2.res {
                                            Err(e) => POut { res: Err(e), next: lb2.next },
                                            Ok(_) => {
                                                let body = sp_parse_stmts(
                                                    input,
                                                    clampn(input, pos, lb2.next),
                                                    true,
                                                );
                                                match body.res {
                                                    Err(e) => POut { res: Err(e), next: body.next },
                                                    Ok(content) => POut {
                                                        res: Ok(
                                                            seq![
                                                                if t.kind == TokenKind::When {
                                                                    SpecNode::WhenExpression {
                                                                        start: t.column,
                                                                        expression,
                                                                        content,
                                                                    }
                                                                } else {
                                                                    SpecNode::OrWhenExpression {
                                                                        start: t.column,
                                                                        expression,
                                                                        content,
                                                                    }
                                                                },
                                                            ],
                                                        ),
                                                        next: body.next,
                                                    },
                                                }
                                            },
                                        }
                                    },
                                }
                            },
                        }
                    },
                }
            },
        }
}

/// A `call { name : { args } }` statement.
pub open spec fn sp_parse_call_stmt(input: Seq<char>, t: SpecToken, pos: nat) -> POut<
    Seq<SpecNode>,
>
    decreases rem(input, pos), 2int,
{

        let lb = sp_expect(input, pos, TokenKind::LBrace);
        match lb.res {
            Err(e) => POut { res: Err(e), next: lb.next },
            Ok(_) => {
                let id = sp_expect(input, clampn(input, pos, lb.next), TokenKind::Identifier);
                match id.res {
                    Err(e) => POut { res: Err(e), next: id.next },
                    Ok(name_tok) => {
                        let c = sp_expect(input, clampn(input, pos, id.next), TokenKind::Colon);
                        match c.res {
                            Err(e) => POut { res: Err(e), next: c.next },
                            Ok(_) => {
                                let lb2 = sp_expect(
                                    input,
                                    clampn(input, pos, c.next),
                                    TokenKind::LBrace,
                                );
                                match lb2.res {
                                    Err(e) => POut { res: Err(e), next: lb2.next },
                                    Ok(_) => {
                                        let args = sp_parse_expr_list(
                                            input,
                                            clampn(input, pos, lb2.next),
                                            TokenKind::RBrace,
                                        );
                                        match args.res {
                                            Err(e) => POut { res: Err(e), next: args.next },
                                            Ok(parameters) => {
                                                let rb = sp_expect(
                                                    input,
                                                    clampn(input, pos, args.next),
                                                    TokenKind::RBrace,
                                                );
                                                match rb.res {
                                                    Err(e) => POut { res: Err(e), next: rb.next },
                                                    Ok(_) => POut {
                                                        res: Ok(
                                                            seq![
                                                                SpecNode::Expression(
                                                                    SpecExpression::FunctionCall {
                                                                        function: Box::new(
                                                                            SpecExpression::Identifier(
                                                                                name_tok.lexeme,
                                                                            ),
                                                                        ),
                                                                        parameters,
                                                                    },
                                                                ),
                                                            ],
                                                        ),
                                                        next: rb.next,
                                                    },
                                                }
                                            },
                                        }
                                    },
                                }
                            },
                        }
                    },
                }
            },
        }
}

/// A function's parameter list after `:{`: identifiers up to the closing
/// `}`, commas skipped.
pub open spec fn sp_parse_params(input: Seq<char>, pos: nat) -> POut<Seq<Seq<char>>>
    decreases rem(input, pos), 0int,
{
    match lex_step(input, pos) {
        LexStep::End { next } => POut { res: Err(eof_err(input, next)), next },
        LexStep::Bad { line, column, next } => POut {
            res: Err(SpecTranspileError::LexError { line, column }),
            next,
        },
        LexStep::Token { t, next } => {
            if t.kind == TokenKind::RBrace {
                POut { res: Ok(Seq::empty()), next }
            } else if t.kind == TokenKind::Identifier {
                let rest = sp_parse_params(input, clampn(input, pos, next));
                match rest.res {
                    Err(e) => POut { res: Err(e), next: rest.next },
                    Ok(more) => POut { res: Ok(seq![t.lexeme] + more), next: rest.next },
                }
            } else if t.kind == TokenKind::Comma {
                sp_parse_params(input, clampn(input, pos, next))
            } else {
                POut { res: Err(tok_err(t)), next }
            }
        },
    }
}

/// A `{ name: expr, ... }` binding block (after `let`, `set` or `const`):
/// the opening `{`, then the bindings.
pub open spec fn sp_parse_vars(input: Seq<char>, pos: nat) -> POut<Seq<SpecVariable>>
    decreases rem(input, pos), 2int,
{
    let lb = sp_expect(input, pos, TokenKind::LBrace);
    match lb.res {
        Err(e) => POut { res: Err(e), next: lb.next },
        Ok(_) => sp_parse_var_list(input, clampn(input, pos, lb.next)),
    }
}

/// The bindings of a var block up to its closing `}`.
pub open spec fn sp_parse_var_list(input: Seq<char>, pos: nat) -> POut<Seq<SpecVariable>>
    decreases rem(input, pos), 0int,
{
    match lex_step(input, pos) {
        LexStep::End { next } => POut { res: Err(eof_err(input, next)), next },
        LexStep::Bad { line, column, next } => POut {
            res: Err(SpecTranspileError::LexError { line, column }),
            next,
        },
        LexStep::Token { t, next } => {
            if t.kind == TokenKind::RBrace {
                POut { res: Ok(Seq::empty()), next }
            } else if t.kind == TokenKind::Identifier {
                let c = sp_expect(input, clampn(input, pos, next), TokenKind::Colon);
                match c.res {
                    Err(e) => POut { res: Err(e), next: c.next },
                    Ok(_) => {
                        let e = sp_parse_expr(input, clampn(input, pos, c.next));
                        match e.res {
                            Err(err) => POut { res: Err(err), next: e.next },
                            Ok(init) => {
                                let sep = clampn(input, pos, e.next);
                                match lex_step(input, sep) {
                                    LexStep::End { next: n2 } => POut {
                                        res: Err(eof_err(input, n2)),
                                        next: n2,
                                    },
                                    LexStep::Bad { line, column, next: n2 } => POut {
                                        res: Err(SpecTranspileError::LexError { line, column }),
                                        next: n2,
                                    },
                                    LexStep::Token { t: t2, next: n2 } => {
                                        if t2.kind == TokenKind::Comma {
                                            let rest = sp_parse_var_list(
                                                input,
                                                clampn(input, pos, n2),
                                            );
                                            match rest.res {
                                                Err(err) => POut { res: Err(err), next: rest.next },
                                                Ok(more) => POut {
                                                    res: Ok(
                                                        seq![
                                                            SpecVariable {
                                                                name: t.lexeme,
                                                                init,
                                                            },
                                                        ] + more,
                                                    ),
                                                    next: rest.next,
                                                },
                                            }
                                        } else if t2.kind == TokenKind::RBrace {
                                            POut {
                                                res: Ok(
                                                    seq![SpecVariable { name: t.lexeme, init }],
                                                ),
                                                next: n2,
                                            }
                                        } else {
                                            POut { res: Err(tok_err(t2)), next: n2 }
                                        }
                                    },
                                }
                            },
                        }
                    },
                }
            } else {
                POut { res: Err(tok_err(t)), next }
            }
        },
    }
}

/// An expression, starting at `pos`.
pub open spec fn sp_parse_expr(input: Seq<char>, pos: nat) -> POut<SpecExpression>
    decreases rem(input, pos), 2int,
{
    match lex_step(input, pos) {
        LexStep::End { next } => POut { res: Err(eof_err(input, next)), next },
        LexStep::Bad { line, column, next } => POut {
            res: Err(SpecTranspileError::LexError { line, column }),
            next,
        },
        LexStep::Token { t, next } => sp_parse_expr_tok(input, t, clampn(input, pos, next)),
    }
}

/// An expression whose leading token `t` is already consumed; `pos`
/// stands just after `t`.
pub open spec fn sp_parse_expr_tok(input: Seq<char>, t: SpecToken, pos: nat) -> POut<
    SpecExpression,
>
    decreases rem(input, pos), 1int,
{
    if t.kind == TokenKind::StringLiteral {
        POut { res: Ok(SpecExpression::Value(SpecValue::Literal(t.lexeme))), next: pos }
    } else if t.kind == TokenKind::Number {
        POut { res: number_expr(t), next: pos }
    } else if t.kind == TokenKind::Identifier {
        POut { res: Ok(SpecExpression::Identifier(t.lexeme)), next: pos }
    } else if is_op_kind(t.kind) {
        let lb = sp_expect(input, pos, TokenKind::LBrace);
        match lb.res {
            Err(e) => POut { res: Err(e), next: lb.next },
            Ok(_) => {
                let l = sp_parse_expr(input, clampn(input, pos, lb.next));
                match l.res {
                    Err(e) => POut { res: Err(e), next: l.next },
                    Ok(left) => {
                        let c = sp_expect(input, clampn(input, pos, l.next), TokenKind::Comma);
                        match c.res {
                            Err(e) => POut { res: Err(e), next: c.next },
                            Ok(_) => {
                                let r = sp_parse_expr(input, clampn(input, pos, c.next));
                                match r.res {
                                    Err(e) => POut { res: Err(e), next: r.next },
                                    Ok(right) => {
                                        let rb = sp_expect(
                                            input,
                                            clampn(input, pos, r.next),
                                            TokenKind::RBrace,
                                        );
                                        match rb.res {
                                            Err(e) => POut { res: Err(e), next: rb.next },
                                            Ok(_) => POut {
                                                res: Ok(
                                                    SpecExpression::Binary {
                                                        left: Box::new(left),
                                                        op: op_of(t.kind),
                                                        right: Box::new(right),
                                                    },
                                                ),
                                                next: rb.next,
                                            },
                                        }
                                    },
                                }
                            },
                        }
                    },
                }
            },
        }
    } else if t.kind == TokenKind::Dollar {
        let lb = sp_expect(input, pos, TokenKind::LBrace);
        match lb.res {
            Err(e) => POut { res: Err(e), next: lb.next },
            Ok(_) => {
                let f = sp_parse_expr(input, clampn(input, pos, lb.next));
                match f.res {
                    Err(e) => POut { res: Err(e), next: f.next },
                    Ok(function) => {
                        let c = sp_expect(input, clampn(input, pos, f.next), TokenKind::Colon);
                        match c.res {
                            Err(e) => POut { res: Err(e), next: c.next },
                            Ok(_) => {
                                let a = sp_parse_expr(input, clampn(input, pos, c.next));
                                match a.res {
                                    Err(e) => POut { res: Err(e), next: a.next },
                                    Ok(arg) => {
                                        let rb = sp_expect(
                                            input,
                                            clampn(input, pos, a.next),
                                            TokenKind::RBrace,
                                        );
                                        match rb.res {
                                            Err(e) => POut { res: Err(e), next: rb.next },
                                            Ok(_) => POut {
                                                res: Ok(
                                                    SpecExpression::FunctionCall {
                                                        function: Box::new(function),
                                                        parameters: seq![arg],
                                                    },
                                                ),
                                                next: rb.next,
                                            },
                                        }
                                    },
                                }
                            },
                        }
                    },
                }
            },
        }
    } else if t.kind == TokenKind::LBracket {
        let items = sp_parse_expr_list(input, pos, TokenKind::RBracket);
        match items.res {
            Err(e) => POut { res: Err(e), next: items.next },
            Ok(elems) => POut {
                res: Ok(SpecExpression::ArrayExpression(elems)),
                next: items.next,
            },
        }
    } else if t.kind == TokenKind::LPar {
        let entries = sp_parse_entries(input, pos, Seq::empty());
        match entries.res {
            Err(e) => POut { res: Err(e), next: entries.next },
            Ok(es) => POut { res: Ok(SpecExpression::ObjectExpression(es)), next: entries.next },
        }
    } else if t.kind == TokenKind::Dot {
        let lb = sp_expect(input, pos, TokenKind::LBrace);
        match lb.res {
            Err(e) => POut { res: Err(e), next: lb.next },
            Ok(_) => {
                let id = sp_expect(input, clampn(input, pos, lb.next), TokenKind::Identifier);
                match id.res {
                    Err(e) => POut { res: Err(e), next: id.next },
                    Ok(obj) => {
                        let c = sp_expect(input, clampn(input, pos, id.next), TokenKind::Comma);
                        match c.res {
                            Err(e) => POut { res: Err(e), next: c.next },
                            Ok(_) => {
                                let pr = sp_parse_expr(input, clampn(input, pos, c.next));
                                match pr.res {
                                    Err(e) => POut { res: Err(e), next: pr.next },
                                    Ok(property) => {
                                        let rb = sp_expect(
                                            input,
                                            clampn(input, pos, pr.next),
                                            TokenKind::RBrace,
                                        );
                                        match rb.res {
                                            Err(e) => POut { res: Err(e), next: rb.next },
                                            Ok(_) => POut {
                                                res: Ok(
                                                    SpecExpression::PropertyAccess {
                                                        object: obj.lexeme,
                                                        property: Box::new(property),
                                                    },
                                                ),
                                                next: rb.next,
                                            },
                                        }
                                    },
                                }
                            },
                        }
                    },
                }
            },
        }
    } else if t.kind == TokenKind::At {
        let lb = sp_expect(input, pos, TokenKind::LBrace);
        match lb.res {
            Err(e) => POut { res: Err(e), next: lb.next },
            Ok(_) => {
                let arr = sp_parse_expr(input, clampn(input, pos, lb.next));
                match arr.res {
                    Err(e) => POut { res: Err(e), next: arr.next },
                    Ok(array) => {
                        let c = sp_expect(input, clampn(input, pos, arr.next), TokenKind::Comma);
                        match c.res {
                            Err(e) => POut { res: Err(e), next: c.next },
                            Ok(_) => {
                                let ix = sp_parse_expr(input, clampn(input, pos, c.next));
                                match ix.res {
                                    Err(e) => POut { res: Err(e), next: ix.next },
                                    Ok(index) => {
                                        let rb = sp_expect(
                                            input,
                                            clampn(input, pos, ix.next),
                                            TokenKind::RBrace,
                                        );
                                        match rb.res {
                                            Err(e) => POut { res: Err(e), next: rb.next },
                                            Ok(_) => POut {
                                                res: Ok(
                                                    SpecExpression::ArrayIndex {
                                                        array: Box::new(array),
                                                        index: Box::new(index),
                                                    },
                                                ),
                                                next: rb.next,
                                            },
                                        }
                                    },
                                }
                            },
                        }
                    },
                }
            },
        }
    } else {
        POut { res: Err(tok_err(t)), next: pos }
    }
}

/// A comma-separated expression list up to the closing token `close`
/// (`]` for array literals, `}` for `call` argument lists); possibly
/// empty.
pub open spec fn sp_parse_expr_list(input: Seq<char>, pos: nat, close: TokenKind) -> POut<
    Seq<SpecExpression>,
>
    decreases rem(input, pos), 0int,
{
    match lex_step(input, pos) {
        LexStep::End { next } => POut { res: Err(eof_err(input, next)), next },
        LexStep::Bad { line, column, next } => POut {
            res: Err(SpecTranspileError::LexError { line, column }),
            next,
        },
        LexStep::Token { t, next } => {
            if t.kind == close {
                POut { res: Ok(Seq::empty()), next }
            } else {
                let e = sp_parse_expr_tok(input, t, clampn(input, pos, next));
                match e.res {
                    Err(err) => POut { res: Err(err), next: e.next },
                    Ok(first) => {
                        let rest = sp_parse_expr_list_rest(
                            input,
                            clampn(input, pos, e.next),
                            close,
                        );
                        match rest.res {
                            Err(err) => POut { res: Err(err), next: rest.next },
                            Ok(more) => POut { res: Ok(seq![first] + more), next: rest.next },
                        }
                    },
                }
            }
        },
    }
}

/// The continuation of an expression list: `, expr` until `close`.
pub open spec fn sp_parse_expr_list_rest(input: Seq<char>, pos: nat, close: TokenKind) -> POut<
    Seq<SpecExpression>,
>
    decreases rem(input, pos), 0int,
{
    match lex_step(input, pos) {
        LexStep::End { next } => POut { res: Err(eof_err(input, next)), next },
        LexStep::Bad { line, column, next } => POut {
            res: Err(SpecTranspileError::LexError { line, column }),
            next,
        },
        LexStep::Token { t, next } => {
            if t.kind == close {
                POut { res: Ok(Seq::empty()), next }
            } else if t.kind == TokenKind::Comma {
                let e = sp_parse_expr(input, clampn(input, pos, next));
                match e.res {
                    Err(err) => POut { res: Err(err), next: e.next },
                    Ok(x) => {
                        let rest = sp_parse_expr_list_rest(
                            input,
                            clampn(input, pos, e.next),
                            close,
                        );
                        match rest.res {
                            Err(err) => POut { res: Err(err), next: rest.next },
                            Ok(more) => POut { res: Ok(seq![x] + more), next: rest.next },
                        }
                    },
                }
            } else {
                POut { res: Err(tok_err(t)), next }
            }
        },
    }
}

/// The `name: expr` entries of an object literal up to the closing `)`,
/// folded left-to-right into `acc` with unique keys.
pub open spec fn sp_parse_entries(input: Seq<char>, pos: nat, acc: Seq<SpecEntry>) -> POut<
    Seq<SpecEntry>,
>
    decreases rem(input, pos), 0int,
{
    match lex_step(input, pos) {
        LexStep::End { next } => POut { res: Err(eof_err(input, next)), next },
        LexStep::Bad { line, column, next } => POut {
            res: Err(SpecTranspileError::LexError { line, column }),
            next,
        },
        LexStep::Token { t, next } => {
            if t.kind == TokenKind::RPar {
                POut { res: Ok(acc), next }
            } else if t.kind == TokenKind::Identifier {
                let c = sp_expect(input, clampn(input, pos, next), TokenKind::Colon);
                match c.res {
                    Err(e) => POut { res: Err(e), next: c.next },
                    Ok(_) => {
                        let e = sp_parse_expr(input, clampn(input, pos, c.next));
                        match e.res {
                            Err(err) => POut { res: Err(err), next: e.next },
                            Ok(value) => {
                                let acc2 = upsert_entry(acc, t.lexeme, value);
                                let sep = clampn(input, pos, e.next);
                                match lex_step(input, sep) {
                                    LexStep::End { next: n2 } => POut {
                                        res: Err(eof_err(input, n2)),
                                        next: n2,
                                    },
                                    LexStep::Bad { line, column, next: n2 } => POut {
                                        res: Err(SpecTranspileError::LexError { line, column }),
                                        next: n2,
                                    },
                                    LexStep::Token { t: t2, next: n2 } => {
                                        if t2.kind == TokenKind::Comma {
                                            sp_parse_entries(input, clampn(input, sep, n2), acc2)
                                        } else if t2.kind == TokenKind::RPar {
                                            POut { res: Ok(acc2), next: n2 }
                                        } else {
                                            POut { res: Err(tok_err(t2)), next: n2 }
                                        }
                                    },
                                }
                            },
                        }
                    },
                }
            } else {
                POut { res: Err(tok_err(t)), next }
            }
        },
    }
}


// ------------------------------------------------------------------
// The executable parser
// ------------------------------------------------------------------

/// Recursive-descent parser over a lexer.
pub struct Parser {
    pub lexer: Lexer,
}

impl Parser {
    /// The character buffer being parsed.
    pub open spec fn src(&self) -> Seq<char> {
        self.lexer.src()
    }

    /// The cursor position, in characters.
    pub open spec fn pos(&self) -> nat {
        self.lexer.pos()
    }

    pub open spec fn wf(&self) -> bool {
        self.lexer.wf()
    }

    pub fn new(lexer: Lexer) -> (r: Parser)
        ensures
            r.lexer == lexer,
    {
        Parser { lexer }
    }

    /// Pulls one token and demands `kind`: exactly [`sp_expect`].
    fn expect(&mut self, kind: TokenKind) -> (r: Result<Token, TranspileError>)
        requires
            old(self).wf(),
        ensures
            final(self).wf(),
            final(self).src() == old(self).src(),
            old(self).pos() <= final(self).pos() <= final(self).src().len(),
            final(self).pos() == sp_expect(old(self).src(), old(self).pos(), kind).next,
            match (r, sp_expect(old(self).src(), old(self).pos(), kind).res) {
                (Ok(tok), Ok(t)) => tok@ == t && old(self).pos() < final(self).pos(),
                (Err(e), Err(se)) => e@ == se,
                _ => false,
            },
    {
        proof {
            crate::lexer::lemma_lexing_terminates(self.src(), self.pos());
        }
        match self.lexer.next_token() {
            Err(e) => Err(e),
            Ok(None) => Err(
                TranspileError::ParseError {
                    line: self.lexer.line,
                    column: self.lexer.column,
                    lexeme: String::new(),
                },
            ),
            Ok(Some(tok)) => {
                if tok.kind == kind {
                    Ok(tok)
                } else {
                    Err(
                        TranspileError::ParseError {
                            line: tok.line,
                            column: tok.column,
                            lexeme: tok.lexeme,
                        },
                    )
                }
            },
        }
    }

    /// Converts a `Number` token: its decimal value as a 16-bit integer,
    /// or `NumericOverflow` when the text is not plain digits in range:
    /// exactly [`number_expr`].
    fn parse_number(t: Token) -> (r: Result<Expression, TranspileError>)
        ensures
            match (r, number_expr(t@)) {
                (Ok(e), Ok(se)) => crate::ast::view_expression(e) == se,
                (Err(e), Err(se)) => e@ == se,
                _ => false,
            },
    {
        let n = t.lexeme.as_str().unicode_len();
        let mut i: usize = 0;
        let mut val: u32 = 0;
        let mut bad: bool = n == 0;
        while i < n && !bad
            invariant
                n == t.lexeme@.len(),
                0 <= i <= n,
                !bad ==> n > 0,
                !bad ==> (forall|j: int| 0 <= j < i ==> '0' <= #[trigger] t.lexeme@[j] <= '9'),
                !bad ==> 0 <= dec_val(t.lexeme@.take(i as int)),
                !bad && val <= 32767 ==> val == dec_val(t.lexeme@.take(i as int)),
                !bad && val > 32767 ==> dec_val(t.lexeme@.take(i as int)) > 32767,
                val <= 327679,
                bad ==> !is_dec_digits(t.lexeme@) || dec_val(t.lexeme@) > 32767,
            decreases n - i,
        {
            let c = t.lexeme.as_str().get_char(i);
            proof {
                assert(t.lexeme@.take(i + 1int).drop_last() =~= t.lexeme@.take(i as int));
            }
            if c < '0' || c > '9' {
                proof {
                    assert(!('0' <= t.lexeme@[i as int] && t.lexeme@[i as int] <= '9'));
                }
                bad = true;
                i = i + 1;
            } else {
                let d = (c as u32) - ('0' as u32);
                if val <= 32767 {
                    val = val * 10 + d;
                }
                i = i + 1;
            }
        }
        proof {
            if !bad {
                assert(t.lexeme@.take(n as int) =~= t.lexeme@);
            }
        }
        if bad || val > 32767 {
            Err(
                TranspileError::NumericOverflow {
                    line: t.line,
                    column: t.column,
                    lexeme: t.lexeme,
                },
            )
        } else {
            Ok(Expression::Value(Value::Number(val as i16)))
        }
    }
}

/// `upsert_entry(s, key, v)` with `key` already present at `i` (and not
/// earlier) replaces the entry at `i` and nothing else.
proof fn lemma_upsert_at(s: Seq<SpecEntry>, key: Seq<char>, v: SpecExpression, i: int)
    requires
        0 <= i < s.len(),
        s[i].key == key,
        forall|j: int| 0 <= j < i ==> (#[trigger] s[j]).key != key,
    ensures
        upsert_entry(s, key, v) == s.update(i, SpecEntry { key, value: v }),
    decreases i,
{
    if i == 0 {
        assert(upsert_entry(s, key, v) =~= s.update(0, SpecEntry { key, value: v }));
    } else {
        assert(forall|j: int|
            0 <= j < i - 1 ==> (#[trigger] s.drop_first()[j]).key == s[j + 1].key);
        lemma_upsert_at(s.drop_first(), key, v, i - 1);
        assert(upsert_entry(s, key, v) =~= s.update(i, SpecEntry { key, value: v }));
    }
}

/// `upsert_entry(s, key, v)` with `key` absent appends the new entry.
proof fn lemma_upsert_absent(s: Seq<SpecEntry>, key: Seq<char>, v: SpecExpression)
    requires
        forall|j: int| 0 <= j < s.len() ==> (#[trigger] s[j]).key != key,
    ensures
        upsert_entry(s, key, v) == s + seq![SpecEntry { key, value: v }],
    decreases s.len(),
{
    if s.len() == 0 {
        assert(upsert_entry(s, key, v) =~= s + seq![SpecEntry { key, value: v }]);
    } else {
        assert(forall|j: int|
            0 <= j < s.drop_first().len() ==> (#[trigger] s.drop_first()[j]).key == s[
                j + 1
            ].key);
        lemma_upsert_absent(s.drop_first(), key, v);
        assert(upsert_entry(s, key, v) =~= s + seq![SpecEntry { key, value: v }]);
    }
}

impl Parser {
    /// Inserts `key: value` into the entry list, replacing the value of a
    /// repeated key in place: exactly [`upsert_entry`].
    fn upsert(entries: &mut Vec<ObjectEntry>, key: String, value: Expression)
        ensures
            crate::ast::view_entries(final(entries)@) == upsert_entry(
                crate::ast::view_entries(old(entries)@),
                key@,
                crate::ast::view_expression(value),
            ),
    {
        let ghost sv = crate::ast::view_entries(entries@);
        let n = entries.len();
        let mut i: usize = 0;
        while i < n
            invariant
                n == entries@.len(),
                0 <= i <= n,
                entries@ == old(entries)@,
                sv == crate::ast::view_entries(entries@),
                forall|j: int| 0 <= j < i ==> (#[trigger] sv[j]).key != key@,
            decreases n - i,
        {
            if entries[i].key == key {
                proof {
                    lemma_upsert_at(sv, key@, crate::ast::view_expression(value), i as int);
                }
                entries.set(i, ObjectEntry { key, value });
                proof {
                    assert(crate::ast::view_entries(entries@) =~= sv.update(
                        i as int,
                        SpecEntry { key: key@, value: crate::ast::view_expression(value) },
                    ));
                }
                return ;
            }
            i = i + 1;
        }
        proof {
            lemma_upsert_absent(sv, key@, crate::ast::view_expression(value));
        }
        entries.push(ObjectEntry { key, value });
        proof {
            assert(crate::ast::view_entries(entries@) =~= sv + seq![
                SpecEntry { key: key@, value: crate::ast::view_expression(value) },
            ]);
        }
    }
}


impl Parser {
    /// Pulls one token: [`lex_step`] at the current position, with
    /// bounds.
    fn next_tok(&mut self) -> (r: Result<Option<Token>, TranspileError>)
        requires
            old(self).wf(),
        ensures
            final(self).wf(),
            final(self).src() == old(self).src(),
            old(self).pos() <= final(self).pos() <= final(self).src().len(),
            match lex_step(old(self).src(), old(self).pos()) {
                LexStep::End { next } => (match r {
                    Ok(o) => o is None,
                    _ => false,
                }) && final(self).pos() == next,
                LexStep::Token { t, next } => (match r {
                    Ok(Some(tok)) => tok@ == t,
                    _ => false,
                }) && final(self).pos() == next && old(self).pos() < next,
                LexStep::Bad { line, column, next } => (match r {
                    Err(e) => e@ == (SpecTranspileError::LexError { line, column }),
                    _ => false,
                }) && final(self).pos() == next,
            },
    {
        proof {
            crate::lexer::lemma_lexing_terminates(self.src(), self.pos());
        }
        self.lexer.next_token()
    }

    /// The `ParseError` for a missing token at the end of the input.
    fn eof_error(&self) -> (r: TranspileError)
        requires
            self.wf(),
        ensures
            r@ == eof_err(self.src(), self.pos()),
    {
        TranspileError::ParseError {
            line: self.lexer.line,
            column: self.lexer.column,
            lexeme: String::new(),
        }
    }

    /// An expression: exactly [`sp_parse_expr`] at the current position.
    fn parse_expression(&mut self) -> (r: Result<Expression, TranspileError>)
        requires
            old(self).wf(),
        ensures
            final(self).wf(),
            final(self).src() == old(self).src(),
            old(self).pos() <= final(self).pos() <= final(self).src().len(),
            final(self).pos() == sp_parse_expr(old(self).src(), old(self).pos()).next,
            match (r, sp_parse_expr(old(self).src(), old(self).pos()).res) {
                (Ok(e), Ok(se)) => crate::ast::view_expression(e) == se,
                (Err(e), Err(se)) => e@ == se,
                _ => false,
            },
        decreases rem(self.src(), self.pos()), 2int,
    {
        match self.next_tok() {
            Err(e) => Err(e),
            Ok(None) => Err(self.eof_error()),
            Ok(Some(tok)) => self.parse_expression_tok(tok),
        }
    }

    /// An expression whose consumed leading token is `t`: exactly
    /// [`sp_parse_expr_tok`].
    #[verifier::rlimit(100)]
    fn parse_expression_tok(&mut self, t: Token) -> (r: Result<Expression, TranspileError>)
        requires
            old(self).wf(),
        ensures
            final(self).wf(),
            final(self).src() == old(self).src(),
            old(self).pos() <= final(self).pos() <= final(self).src().len(),
            final(self).pos() == sp_parse_expr_tok(old(self).src(), t@, old(self).pos()).next,
            match (r, sp_parse_expr_tok(old(self).src(), t@, old(self).pos()).res) {
                (Ok(e), Ok(se)) => crate::ast::view_expression(e) == se,
                (Err(e), Err(se)) => e@ == se,
                _ => false,
            },
        decreases rem(self.src(), self.pos()), 1int,
    {
        match t.kind {
            TokenKind::StringLiteral => Ok(Expression::Value(Value::Literal(t.lexeme))),
            TokenKind::Number => Parser::parse_number(t),
            TokenKind::Identifier => Ok(Expression::Identifier(t.lexeme)),
            TokenKind::Plus
            | TokenKind::Minus
            | TokenKind::Times
            | TokenKind::Divided
            | TokenKind::Gt
            | TokenKind::Lt
            | TokenKind::Equal => {
                match self.expect(TokenKind::LBrace) {
                    Err(e) => Err(e),
                    Ok(_) => match self.parse_expression() {
                        Err(e) => Err(e),
                        Ok(left) => match self.expect(TokenKind::Comma) {
                            Err(e) => Err(e),
                            Ok(_) => match self.parse_expression() {
                                Err(e) => Err(e),
                                Ok(right) => match self.expect(TokenKind::RBrace) {
                                    Err(e) => Err(e),
                                    Ok(_) => {
                                        let op = match t.kind {
                                            TokenKind::Plus => Operator::Plus,
                                            TokenKind::Minus => Operator::Minus,
                                            TokenKind::Times => Operator::Times,
                                            TokenKind::Divided => Operator::Divided,
                                            TokenKind::Gt => Operator::Gt,
                                            TokenKind::Lt => Operator::Lt,
                                            _ => Operator::Equal,
                                        };
                                        Ok(
                                            Expression::Binary {
                                                left: Box::new(left),
                                                op,
                                                right: Box::new(right),
                                            },
                                        )
                                    },
                                },
                            },
                        },
                    },
                }
            },
            TokenKind::Dollar => {
                match self.expect(TokenKind::LBrace) {
                    Err(e) => Err(e),
                    Ok(_) => match self.parse_expression() {
                        Err(e) => Err(e),
                        Ok(function) => match self.expect(TokenKind::Colon) {
                            Err(e) => Err(e),
                            Ok(_) => match self.parse_expression() {
                                Err(e) => Err(e),
                                Ok(arg) => match self.expect(TokenKind::RBrace) {
                                    Err(e) => Err(e),
                                    Ok(_) => {
                                        let mut parameters: Vec<Expression> = Vec::new();
                                        parameters.push(arg);
                                        proof {
                                            assert(crate::ast::view_exprs(parameters@)
                                                =~= seq![
                                                crate::ast::view_expression(parameters@[0]),
                                            ]);
                                        }
                                        Ok(
                                            Expression::FunctionCall {
                                                function: Box::new(function),
                                                parameters,
                                            },
                                        )
                                    },
                                },
                            },
                        },
                    },
                }
            },
            TokenKind::LBracket => {
                match self.parse_expr_list(TokenKind::RBracket) {
                    Err(e) => Err(e),
                    Ok(elems) => Ok(Expression::ArrayExpression(elems)),
                }
            },
            TokenKind::LPar => {
                let acc: Vec<ObjectEntry> = Vec::new();
                proof {
                    assert(crate::ast::view_entries(acc@) =~= Seq::<SpecEntry>::empty());
                }
                match self.parse_entries(acc) {
                    Err(e) => Err(e),
                    Ok(entries) => Ok(Expression::ObjectExpression(entries)),
                }
            },
            TokenKind::Dot => {
                match self.expect(TokenKind::LBrace) {
                    Err(e) => Err(e),
                    Ok(_) => match self.expect(TokenKind::Identifier) {
                        Err(e) => Err(e),
                        Ok(obj) => match self.expect(TokenKind::Comma) {
                            Err(e) => Err(e),
                            Ok(_) => match self.parse_expression() {
                                Err(e) => Err(e),
                                Ok(property) => match self.expect(TokenKind::RBrace) {
                                    Err(e) => Err(e),
                                    Ok(_) => Ok(
                                        Expression::PropertyAccess {
                                            object: obj.lexeme,
                                            property: Box::new(property),
                                        },
                                    ),
                                },
                            },
                        },
                    },
                }
            },
            TokenKind::At => {
                match self.expect(TokenKind::LBrace) {
                    Err(e) => Err(e),
                    Ok(_) => match self.parse_expression() {
                        Err(e) => Err(e),
                        Ok(array) => match self.expect(TokenKind::Comma) {
                            Err(e) => Err(e),
                            Ok(_) => match self.parse_expression() {
                                Err(e) => Err(e),
                                Ok(index) => match self.expect(TokenKind::RBrace) {
                                    Err(e) => Err(e),
                                    Ok(_) => Ok(
                                        Expression::ArrayIndex {
                                            array: Box::new(array),
                                            index: Box::new(index),
                                        },
                                    ),
                                },
                            },
                        },
                    },
                }
            },
            _ => Err(
                TranspileError::ParseError { line: t.line, column: t.column, lexeme: t.lexeme },
            ),
        }
    }

    /// A comma-separated expression list up to `close`: exactly
    /// [`sp_parse_expr_list`].
    fn parse_expr_list(&mut self, close: TokenKind) -> (r: Result<Vec<Expression>, TranspileError>)
        requires
            old(self).wf(),
        ensures
            final(self).wf(),
            final(self).src() == old(self).src(),
            old(self).pos() <= final(self).pos() <= final(self).src().len(),
            final(self).pos() == sp_parse_expr_list(old(self).src(), old(self).pos(), close).next,
            match (r, sp_parse_expr_list(old(self).src(), old(self).pos(), close).res) {
                (Ok(v), Ok(sv)) => crate::ast::view_exprs(v@) == sv,
                (Err(e), Err(se)) => e@ == se,
                _ => false,
            },
        decreases rem(self.src(), self.pos()), 0int,
    {
        match self.next_tok() {
            Err(e) => Err(e),
            Ok(None) => Err(self.eof_error()),
            Ok(Some(tok)) => {
                if tok.kind == close {
                    let v: Vec<Expression> = Vec::new();
                    proof {
                        assert(crate::ast::view_exprs(v@) =~= Seq::<SpecExpression>::empty());
                    }
                    Ok(v)
                } else {
                    match self.parse_expression_tok(tok) {
                        Err(e) => Err(e),
                        Ok(first) => match self.parse_expr_list_rest(close) {
                            Err(e) => Err(e),
                            Ok(mut rest) => {
                                let ghost more = crate::ast::view_exprs(rest@);
                                rest.insert(0, first);
                                proof {
                                    assert(crate::ast::view_exprs(rest@) =~= seq![
                                        crate::ast::view_expression(rest@[0]),
                                    ] + more);
                                }
                                Ok(rest)
                            },
                        },
                    }
                }
            },
        }
    }

    /// The `, expr` continuation of an expression list up to `close`:
    /// exactly [`sp_parse_expr_list_rest`].
    fn parse_expr_list_rest(&mut self, close: TokenKind) -> (r: Result<
        Vec<Expression>,
        TranspileError,
    >)
        requires
            old(self).wf(),
        ensures
            final(self).wf(),
            final(self).src() == old(self).src(),
            old(self).pos() <= final(self).pos() <= final(self).src().len(),
            final(self).pos() == sp_parse_expr_list_rest(
                old(self).src(),
                old(self).pos(),
                close,
            ).next,
            match (r, sp_parse_expr_list_rest(old(self).src(), old(self).pos(), close).res) {
                (Ok(v), Ok(sv)) => crate::ast::view_exprs(v@) == sv,
                (Err(e), Err(se)) => e@ == se,
                _ => false,
            },
        decreases rem(self.src(), self.pos()), 0int,
    {
        match self.next_tok() {
            Err(e) => Err(e),
            Ok(None) => Err(self.eof_error()),
            Ok(Some(tok)) => {
                if tok.kind == close {
                    let v: Vec<Expression> = Vec::new();
                    proof {
                        assert(crate::ast::view_exprs(v@) =~= Seq::<SpecExpression>::empty());
                    }
                    Ok(v)
                } else if tok.kind == TokenKind::Comma {
                    match self.parse_expression() {
                        Err(e) => Err(e),
                        Ok(x) => match self.parse_expr_list_rest(close) {
                            Err(e) => Err(e),
                            Ok(mut rest) => {
                                let ghost more = crate::ast::view_exprs(rest@);
                                rest.insert(0, x);
                                proof {
                                    assert(crate::ast::view_exprs(rest@) =~= seq![
                                        crate::ast::view_expression(rest@[0]),
                                    ] + more);
                                }
                                Ok(rest)
                            },
                        },
                    }
                } else {
                    Err(
                        TranspileError::ParseError {
                            line: tok.line,
                            column: tok.column,
                            lexeme: tok.lexeme,
                        },
                    )
                }
            },
        }
    }

    /// The entries of an object literal up to the closing `)`, folded
    /// into `acc` with unique keys: exactly [`sp_parse_entries`].
    fn parse_entries(&mut self, acc: Vec<ObjectEntry>) -> (r: Result<
        Vec<ObjectEntry>,
        TranspileError,
    >)
        requires
            old(self).wf(),
        ensures
            final(self).wf(),
            final(self).src() == old(self).src(),
            old(self).pos() <= final(self).pos() <= final(self).src().len(),
            final(self).pos() == sp_parse_entries(
                old(self).src(),
                old(self).pos(),
                crate::ast::view_entries(acc@),
            ).next,
            match (
                r,
                sp_parse_entries(
                    old(self).src(),
                    old(self).pos(),
                    crate::ast::view_entries(acc@),
                ).res,
            ) {
                (Ok(v), Ok(sv)) => crate::ast::view_entries(v@) == sv,
                (Err(e), Err(se)) => e@ == se,
                _ => false,
            },
        decreases rem(self.src(), self.pos()), 0int,
    {
        match self.next_tok() {
            Err(e) => Err(e),
            Ok(None) => Err(self.eof_error()),
            Ok(Some(tok)) => {
                if tok.kind == TokenKind::RPar {
                    Ok(acc)
                } else if tok.kind == TokenKind::Identifier {
                    match self.expect(TokenKind::Colon) {
                        Err(e) => Err(e),
                        Ok(_) => match self.parse_expression() {
                            Err(e) => Err(e),
                            Ok(value) => {
                                let mut acc2 = acc;
                                Parser::upsert(&mut acc2, tok.lexeme, value);
                                match self.next_tok() {
                                    Err(e) => Err(e),
                                    Ok(None) => Err(self.eof_error()),
                                    Ok(Some(t2)) => {
                                        if t2.kind == TokenKind::Comma {
                                            self.parse_entries(acc2)
                                        } else if t2.kind == TokenKind::RPar {
                                            Ok(acc2)
                                        } else {
                                            Err(
                                                TranspileError::ParseError {
                                                    line: t2.line,
                                                    column: t2.column,
                                                    lexeme: t2.lexeme,
                                                },
                                            )
                                        }
                                    },
                                }
                            },
                        },
                    }
                } else {
                    Err(
                        TranspileError::ParseError {
                            line: tok.line,
                            column: tok.column,
                            lexeme: tok.lexeme,
                        },
                    )
                }
            },
        }
    }
}


/// The nodes contributed by one parsed statement: none for a no-op, one
/// otherwise.
pub open spec fn stmt_nodes(r: Option<ASTNode>) -> Seq<SpecNode> {
    match r {
        None => Seq::empty(),
        Some(n) => seq![crate::ast::view_node(n)],
    }
}

impl Parser {
    /// A parameter list after `:{`: exactly [`sp_parse_params`].
    fn parse_params(&mut self) -> (r: Result<Vec<String>, TranspileError>)
        requires
            old(self).wf(),
        ensures
            final(self).wf(),
            final(self).src() == old(self).src(),
            old(self).pos() <= final(self).pos() <= final(self).src().len(),
            final(self).pos() == sp_parse_params(old(self).src(), old(self).pos()).next,
            match (r, sp_parse_params(old(self).src(), old(self).pos()).res) {
                (Ok(v), Ok(sv)) => crate::ast::view_names(v@) == sv,
                (Err(e), Err(se)) => e@ == se,
                _ => false,
            },
        decreases rem(self.src(), self.pos()), 0int,
    {
        match self.next_tok() {
            Err(e) => Err(e),
            Ok(None) => Err(self.eof_error()),
            Ok(Some(tok)) => {
                if tok.kind == TokenKind::RBrace {
                    let v: Vec<String> = Vec::new();
                    proof {
                        assert(crate::ast::view_names(v@) =~= Seq::<Seq<char>>::empty());
                    }
                    Ok(v)
                } else if tok.kind == TokenKind::Identifier {
                    match self.parse_params() {
                        Err(e) => Err(e),
                        Ok(mut rest) => {
                            let ghost more = crate::ast::view_names(rest@);
                            rest.insert(0, tok.lexeme);
                            proof {
                                assert(crate::ast::view_names(rest@) =~= seq![rest@[0]@] + more);
                            }
                            Ok(rest)
                        },
                    }
                } else if tok.kind == TokenKind::Comma {
                    self.parse_params()
                } else {
                    Err(
                        TranspileError::ParseError {
                            line: tok.line,
                            column: tok.column,
                            lexeme: tok.lexeme,
                        },
                    )
                }
            },
        }
    }

    /// The bindings of a var block up to its closing `}`: exactly
    /// [`sp_parse_var_list`].
    fn parse_var_list(&mut self) -> (r: Result<Vec<Variable>, TranspileError>)
        requires
            old(self).wf(),
        ensures
            final(self).wf(),
            final(self).src() == old(self).src(),
            old(self).pos() <= final(self).pos() <= final(self).src().len(),
            final(self).pos() == sp_parse_var_list(old(self).src(), old(self).pos()).next,
            match (r, sp_parse_var_list(old(self).src(), old(self).pos()).res) {
                (Ok(v), Ok(sv)) => crate::ast::view_vars(v@) == sv,
                (Err(e), Err(se)) => e@ == se,
                _ => false,
            },
        decreases rem(self.src(), self.pos()), 0int,
    {
        match self.next_tok() {
            Err(e) => Err(e),
            Ok(None) => Err(self.eof_error()),
            Ok(Some(tok)) => {
                if tok.kind == TokenKind::RBrace {
                    let v: Vec<Variable> = Vec::new();
                    proof {
                        assert(crate::ast::view_vars(v@) =~= Seq::<SpecVariable>::empty());
                    }
                    Ok(v)
                } else if tok.kind == TokenKind::Identifier {
                    match self.expect(TokenKind::Colon) {
                        Err(e) => Err(e),
                        Ok(_) => match self.parse_expression() {
                            Err(e) => Err(e),
                            Ok(init) => match self.next_tok() {
                                Err(e) => Err(e),
                                Ok(None) => Err(self.eof_error()),
                                Ok(Some(t2)) => {
                                    if t2.kind == TokenKind::Comma {
                                        match self.parse_var_list() {
                                            Err(e) => Err(e),
                                            Ok(mut rest) => {
                                                let ghost more = crate::ast::view_vars(rest@);
                                                rest.insert(0, Variable(tok.lexeme, init));
                                                proof {
                                                    assert(crate::ast::view_vars(rest@) =~= seq![
                                                        crate::ast::view_variable(rest@[0]),
                                                    ] + more);
                                                }
                                                Ok(rest)
                                            },
                                        }
                                    } else if t2.kind == TokenKind::RBrace {
                                        let mut v: Vec<Variable> = Vec::new();
                                        v.push(Variable(tok.lexeme, init));
                                        proof {
                                            assert(crate::ast::view_vars(v@) =~= seq![
                                                crate::ast::view_variable(v@[0]),
                                            ]);
                                        }
                                        Ok(v)
                                    } else {
                                        Err(
                                            TranspileError::ParseError {
                                                line: t2.line,
                                                column: t2.column,
                                                lexeme: t2.lexeme,
                                            },
                                        )
                                    }
                                },
                            },
                        },
                    }
                } else {
                    Err(
                        TranspileError::ParseError {
                            line: tok.line,
                            column: tok.column,
                            lexeme: tok.lexeme,
                        },
                    )
                }
            },
        }
    }

    /// A `{ name: expr, ... }` binding block: exactly [`sp_parse_vars`].
    fn parse_vars(&mut self) -> (r: Result<Vec<Variable>, TranspileError>)
        requires
            old(self).wf(),
        ensures
            final(self).wf(),
            final(self).src() == old(self).src(),
            old(self).pos() <= final(self).pos() <= final(self).src().len(),
            final(self).pos() == sp_parse_vars(old(self).src(), old(self).pos()).next,
            match (r, sp_parse_vars(old(self).src(), old(self).pos()).res) {
                (Ok(v), Ok(sv)) => crate::ast::view_vars(v@) == sv,
                (Err(e), Err(se)) => e@ == se,
                _ => false,
            },
        decreases rem(self.src(), self.pos()), 2int,
    {
        match self.expect(TokenKind::LBrace) {
            Err(e) => Err(e),
            Ok(_) => self.parse_var_list(),
        }
    }

    /// The `fn` arm of [`sp_parse_stmt`], split out for proof size.
    #[verifier::rlimit(100)]
    fn parse_fn_statement(&mut self, t: Token) -> (r: Result<Option<ASTNode>, TranspileError>)
        requires
            old(self).wf(),
            t.kind == TokenKind::Fn,
        ensures
            final(self).wf(),
            final(self).src() == old(self).src(),
            old(self).pos() <= final(self).pos() <= final(self).src().len(),
            final(self).pos() == sp_parse_fn_stmt(old(self).src(), t@, old(self).pos()).next,
            match (r, sp_parse_fn_stmt(old(self).src(), t@, old(self).pos()).res) {
                (Ok(o), Ok(ns)) => stmt_nodes(o) == ns,
                (Err(e), Err(se)) => e@ == se,
                _ => false,
            },
        decreases rem(self.src(), self.pos()), 2int,
    {
        let name_tok = match self.expect(TokenKind::Identifier) {
            Err(e) => return Err(e),
            Ok(x) => x,
        };
        let t2 = match self.next_tok() {
            Err(e) => return Err(e),
            Ok(None) => return Err(self.eof_error()),
            Ok(Some(x)) => x,
        };
        if t2.kind == TokenKind::Colon {
            if let Err(e) = self.expect(TokenKind::LBrace) {
                return Err(e);
            }
            let parameters = match self.parse_params() {
                Err(e) => return Err(e),
                Ok(x) => x,
            };
            if let Err(e) = self.expect(TokenKind::LBrace) {
                return Err(e);
            }
            let content = match self.parse(true) {
                Err(e) => return Err(e),
                Ok(x) => x,
            };
            Ok(
                Some(
                    ASTNode::FunctionDeclaration {
                        start: t.column,
                        name: name_tok.lexeme,
                        parameters,
                        content,
                    },
                ),
            )
        } else if t2.kind == TokenKind::LBrace {
            let content = match self.parse(true) {
                Err(e) => return Err(e),
                Ok(x) => x,
            };
            let parameters: Vec<String> = Vec::new();
            proof {
                assert(crate::ast::view_names(parameters@) =~= Seq::<Seq<char>>::empty());
            }
            Ok(
                Some(
                    ASTNode::FunctionDeclaration {
                        start: t.column,
                        name: name_tok.lexeme,
                        parameters,
                        content,
                    },
                ),
            )
        } else {
            Err(TranspileError::ParseError { line: t2.line, column: t2.column, lexeme: t2.lexeme })
        }
    }

    /// The `when` / `orwhen` arm of [`sp_parse_stmt`], split out for
    /// proof size.
    #[verifier::rlimit(100)]
    fn parse_when_statement(&mut self, t: Token) -> (r: Result<Option<ASTNode>, TranspileError>)
        requires
            old(self).wf(),
            t.kind == TokenKind::When || t.kind == TokenKind::OrWhen,
        ensures
            final(self).wf(),
            final(self).src() == old(self).src(),
            old(self).pos() <= final(self).pos() <= final(self).src().len(),
            final(self).pos() == sp_parse_when_stmt(old(self).src(), t@, old(self).pos()).next,
            match (r, sp_parse_when_stmt(old(self).src(), t@, old(self).pos()).res) {
                (Ok(o), Ok(ns)) => stmt_nodes(o) == ns,
                (Err(e), Err(se)) => e@ == se,
                _ => false,
            },
        decreases rem(self.src(), self.pos()), 2int,
    {
        if let Err(e) = self.expect(TokenKind::Colon) {
            return Err(e);
        }
        if let Err(e) = self.expect(TokenKind::LBrace) {
            return Err(e);
        }
        let expression = match self.parse_expression() {
            Err(e) => return Err(e),
            Ok(x) => x,
        };
        if let Err(e) = self.expect(TokenKind::RBrace) {
            return Err(e);
        }
        if let Err(e) = self.expect(TokenKind::LBrace) {
            return Err(e);
        }
        let content = match self.parse(true) {
            Err(e) => return Err(e),
            Ok(x) => x,
        };
        if t.kind == TokenKind::When {
            Ok(Some(ASTNode::WhenExpression { start: t.column, expression, content }))
        } else {
            Ok(Some(ASTNode::OrWhenExpression { start: t.column, expression, content }))
        }
    }

    /// The `call` arm of [`sp_parse_stmt`], split out for proof size.
    #[verifier::rlimit(100)]
    fn parse_call_statement(&mut self, t: Token) -> (r: Result<Option<ASTNode>, TranspileError>)
        requires
            old(self).wf(),
            t.kind == TokenKind::Call,
        ensures
            final(self).wf(),
            final(self).src() == old(self).src(),
            old(self).pos() <= final(self).pos() <= final(self).src().len(),
            final(self).pos() == sp_parse_call_stmt(old(self).src(), t@, old(self).pos()).next,
            match (r, sp_parse_call_stmt(old(self).src(), t@, old(self).pos()).res) {
                (Ok(o), Ok(ns)) => stmt_nodes(o) == ns,
                (Err(e), Err(se)) => e@ == se,
                _ => false,
            },
        decreases rem(self.src(), self.pos()), 2int,
    {
        if let Err(e) = self.expect(TokenKind::LBrace) {
            return Err(e);
        }
        let name_tok = match self.expect(TokenKind::Identifier) {
            Err(e) => return Err(e),
            Ok(x) => x,
        };
        if let Err(e) = self.expect(TokenKind::Colon) {
            return Err(e);
        }
        if let Err(e) = self.expect(TokenKind::LBrace) {
            return Err(e);
        }
        let parameters = match self.parse_expr_list(TokenKind::RBrace) {
            Err(e) => return Err(e),
            Ok(x) => x,
        };
        if let Err(e) = self.expect(TokenKind::RBrace) {
            return Err(e);
        }
        let node = ASTNode::Expression(
            Expression::FunctionCall {
                function: Box::new(Expression::Identifier(name_tok.lexeme)),
                parameters,
            },
        );
        proof {
            assert(crate::ast::view_expression(Expression::Identifier(name_tok.lexeme))
                == SpecExpression::Identifier(name_tok.lexeme@));
            assert(crate::ast::view_node(node) == SpecNode::Expression(
                SpecExpression::FunctionCall {
                    function: Box::new(SpecExpression::Identifier(name_tok.lexeme@)),
                    parameters: crate::ast::view_exprs(parameters@),
                },
            ));
        }
        Ok(Some(node))
    }

    /// One statement whose consumed leading token is `t`: exactly
    /// [`sp_parse_stmt`].  `Ok(None)` is a no-op statement.
    fn parse_statement(&mut self, t: Token) -> (r: Result<Option<ASTNode>, TranspileError>)
        requires
            old(self).wf(),
        ensures
            final(self).wf(),
            final(self).src() == old(self).src(),
            old(self).pos() <= final(self).pos() <= final(self).src().len(),
            final(self).pos() == sp_parse_stmt(old(self).src(), t@, old(self).pos()).next,
            match (r, sp_parse_stmt(old(self).src(), t@, old(self).pos()).res) {
                (Ok(o), Ok(ns)) => stmt_nodes(o) == ns,
                (Err(e), Err(se)) => e@ == se,
                _ => false,
            },
        decreases rem(self.src(), self.pos()), 3int,
    {
        match t.kind {
            TokenKind::Fn => self.parse_fn_statement(t),
            TokenKind::Let => {
                match self.parse_vars() {
                    Err(e) => Err(e),
                    Ok(vars) => Ok(Some(ASTNode::VariableDeclaration { start: t.column, vars })),
                }
            },
            TokenKind::SetKw => {
                match self.parse_vars() {
                    Err(e) => Err(e),
                    Ok(vars) => Ok(Some(ASTNode::VariableSetting { start: t.column, vars })),
                }
            },
            TokenKind::Const => {
                match self.parse_vars() {
                    Err(e) => Err(e),
                    Ok(vars) => Ok(Some(ASTNode::ConstDeclaration { start: t.column, vars })),
                }
            },
            TokenKind::Return => {
                match self.parse_expression() {
                    Err(e) => Err(e),
                    Ok(expression) => Ok(
                        Some(ASTNode::ReturnExpression { start: t.column, expression }),
                    ),
                }
            },
            TokenKind::When | TokenKind::OrWhen => self.parse_when_statement(t),
            TokenKind::Or => {
                match self.expect(TokenKind::LBrace) {
                    Err(e) => Err(e),
                    Ok(_) => match self.parse(true) {
                        Err(e) => Err(e),
                        Ok(content) => Ok(Some(ASTNode::OrExpression { start: t.column, content })),
                    },
                }
            },
            TokenKind::Dollar => {
                match self.parse_expression_tok(t) {
                    Err(e) => Err(e),
                    Ok(e) => Ok(Some(ASTNode::Expression(e))),
                }
            },
            TokenKind::Call => self.parse_call_statement(t),
            TokenKind::Semicolon => Ok(None),
            TokenKind::RBrace => Ok(None),
            _ => Err(
                TranspileError::ParseError { line: t.line, column: t.column, lexeme: t.lexeme },
            ),
        }
    }

    /// Parses a statement list: exactly [`sp_parse_stmts`] at the current
    /// position.  With `stop_at_rbrace` the list ends at a matching `}`
    /// (consumed), which is how nested blocks are parsed; without it the
    /// list ends at the end of the input.
    pub fn parse(&mut self, stop_at_rbrace: bool) -> (r: Result<Vec<ASTNode>, TranspileError>)
        requires
            old(self).wf(),
        ensures
            final(self).wf(),
            final(self).src() == old(self).src(),
            old(self).pos() <= final(self).pos() <= final(self).src().len(),
            final(self).pos() == sp_parse_stmts(
                old(self).src(),
                old(self).pos(),
                stop_at_rbrace,
            ).next,
            match (r, sp_parse_stmts(old(self).src(), old(self).pos(), stop_at_rbrace).res) {
                (Ok(v), Ok(sv)) => crate::ast::view_nodes(v@) == sv,
                (Err(e), Err(se)) => e@ == se,
                _ => false,
            },
        decreases rem(self.src(), self.pos()), 4int,
    {
        let mut nodes: Vec<ASTNode> = Vec::new();
        proof {
            assert(crate::ast::view_nodes(nodes@) =~= Seq::<SpecNode>::empty());
        }
        loop
            invariant
                self.wf(),
                self.src() == old(self).src(),
                old(self).pos() <= self.pos() <= self.src().len(),
                ({
                    let out0 = sp_parse_stmts(old(self).src(), old(self).pos(), stop_at_rbrace);
                    let outk = sp_parse_stmts(self.src(), self.pos(), stop_at_rbrace);
                    &&& out0.next == outk.next
                    &&& match (out0.res, outk.res) {
                        (Ok(s0), Ok(sk)) => s0 == crate::ast::view_nodes(nodes@) + sk,
                        (Err(e0), Err(ek)) => e0 == ek,
                        (Ok(s0), Err(ek)) => false,
                        (Err(e0), Ok(sk)) => false,
                    }
                }),
            decreases rem(self.src(), self.pos()),
        {
            let ghost prev = *self;
            match self.next_tok() {
                Err(e) => {
                    return Err(e);
                },
                Ok(None) => {
                    proof {
                        assert(crate::ast::view_nodes(nodes@) + Seq::<SpecNode>::empty()
                            =~= crate::ast::view_nodes(nodes@));
                    }
                    return Ok(nodes);
                },
                Ok(Some(tok)) => {
                    if stop_at_rbrace && tok.kind == TokenKind::RBrace {
                        proof {
                            assert(crate::ast::view_nodes(nodes@) + Seq::<SpecNode>::empty()
                                =~= crate::ast::view_nodes(nodes@));
                        }
                        return Ok(nodes);
                    }
                    let ghost tv = tok@;
                    let ghost mid = self.pos();
                    match self.parse_statement(tok) {
                        Err(e) => {
                            proof {
                                assert(clampn(old(self).src(), prev.pos(), mid) == mid);
                            }
                            return Err(e);
                        },
                        Ok(opt) => {
                            let ghost ov = stmt_nodes(opt);
                            let ghost oldnodes = nodes@;
                            match opt {
                                Some(n) => {
                                    nodes.push(n);
                                    proof {
                                        assert(crate::ast::view_nodes(nodes@)
                                            =~= crate::ast::view_nodes(oldnodes) + ov);
                                    }
                                },
                                None => {
                                    proof {
                                        assert(crate::ast::view_nodes(nodes@)
                                            =~= crate::ast::view_nodes(oldnodes) + ov);
                                    }
                                },
                            }
                            proof {
                                let srcg = old(self).src();
                                let out0 = sp_parse_stmts(
                                    srcg,
                                    old(self).pos(),
                                    stop_at_rbrace,
                                );
                                let s1 = sp_parse_stmt(srcg, tv, mid);
                                let rest = sp_parse_stmts(srcg, self.pos(), stop_at_rbrace);
                                assert(clampn(srcg, prev.pos(), mid) == mid);
                                assert(clampn(
                                    srcg,
                                    prev.pos(),
                                    if s1.next > mid {
                                        s1.next
                                    } else {
                                        mid
                                    },
                                ) == self.pos());
                                match (out0.res, rest.res) {
                                    (Ok(s0), Ok(more)) => {
                                        assert(s0 =~= crate::ast::view_nodes(nodes@) + more);
                                    },
                                    (Err(e0), Err(ek)) => {},
                                    (Ok(s0), Err(ek)) => {},
                                    (Err(e0), Ok(sk)) => {},
                                }
                            }
                        },
                    }
                },
            }
        }
    }
}

} // verus!
