//! The round-trip shape of the pipeline.
//!
//! A successfully parsed program holds exactly one function declaration
//! per `fn` keyword of its source, in source order, each named by the
//! identifier that follows its `fn` — proved in
//! [`lemma_one_function_per_fn`] by induction over the grammar model.
//! On the output side, `render_node` gives each declaration exactly one
//! `function` header, so the rendered text keeps that count and order.

use vstd::prelude::*;

use crate::ast::SpecNode;
use crate::lexer::LexStep;
use crate::lexer::TokenKind;
use crate::lexer::clampn;
use crate::lexer::lex_step;
use crate::lexer::lemma_lexing_terminates;
use crate::lexer::rem;
use crate::parser::sp_expect;
use crate::parser::sp_parse_entries;
use crate::parser::sp_parse_expr;
use crate::parser::sp_parse_expr_list;
use crate::parser::sp_parse_expr_list_rest;
use crate::parser::sp_parse_expr_tok;
use crate::parser::sp_parse_fn_stmt;
use crate::parser::sp_parse_call_stmt;
use crate::parser::sp_parse_params;
use crate::parser::sp_parse_stmt;
use crate::parser::sp_parse_stmts;
use crate::parser::sp_parse_var_list;
use crate::parser::sp_parse_vars;
use crate::parser::sp_parse_when_stmt;

verus! {

// ------------------------------------------------------------------
// The two sides of the law
// ------------------------------------------------------------------

/// The names of the function declarations of a statement list, in
/// source order, declarations nested in bodies and branches included.
pub open spec fn fn_names(nodes: Seq<SpecNode>) -> Seq<Seq<char>>
    decreases nodes, 1int,
{
    if nodes.len() == 0 {
        Seq::empty()
    } else {
        fn_names_node(nodes[0]) + fn_names(nodes.drop_first())
    }
}

/// The function names declared within one statement.
pub open spec fn fn_names_node(n: SpecNode) -> Seq<Seq<char>>
    decreases n, 0int,
{
    match n {
        SpecNode::FunctionDeclaration { start, name, parameters, content } => seq![name]
            + fn_names(content),
        SpecNode::WhenExpression { start, expression, content } => fn_names(content),
        SpecNode::OrWhenExpression { start, expression, content } => fn_names(content),
        SpecNode::OrExpression { start, content } => fn_names(content),
        _ => Seq::empty(),
    }
}

/// The identifiers that follow `fn` keywords in the token stream of
/// `input`, scanning from `pos` and taking tokens while they end at or
/// before `end`.
#[verifier::opaque]
pub open spec fn sp_fn_idents(input: Seq<char>, pos: nat, end: nat) -> Seq<Seq<char>>
    decreases rem(input, pos), 1int,
{
    match lex_step(input, pos) {
        LexStep::Token { t, next } => {
            if next <= end {
                let p2 = clampn(input, pos, next);
                if t.kind == TokenKind::Fn {
                    sp_fn_idents_after_fn(input, p2, end)
                } else {
                    sp_fn_idents(input, p2, end)
                }
            } else {
                Seq::empty()
            }
        },
        _ => Seq::empty(),
    }
}

/// The scan's continuation just past an `fn` keyword: the following
/// identifier (within the region) is collected.
#[verifier::opaque]
pub open spec fn sp_fn_idents_after_fn(input: Seq<char>, pos: nat, end: nat) -> Seq<Seq<char>>
    decreases rem(input, pos), 0int,
{
    match lex_step(input, pos) {
        LexStep::Token { t, next } => {
            if next <= end && t.kind == TokenKind::Identifier {
                seq![t.lexeme] + sp_fn_idents(input, clampn(input, pos, next), end)
            } else if next <= end {
                sp_fn_idents(input, clampn(input, pos, next), end)
            } else {
                Seq::empty()
            }
        },
        _ => Seq::empty(),
    }
}

// ------------------------------------------------------------------
// Position bounds of the grammar model
// ------------------------------------------------------------------

pub proof fn lemma_bounds_expect(input: Seq<char>, pos: nat, kind: TokenKind)
    requires
        pos <= input.len(),
    ensures
        pos <= sp_expect(input, pos, kind).next <= input.len(),
{
    lemma_lexing_terminates(input, pos);
}

pub proof fn lemma_bounds_stmts(input: Seq<char>, pos: nat, stop: bool)
    requires
        pos <= input.len(),
    ensures
        pos <= sp_parse_stmts(input, pos, stop).next <= input.len(),
    decreases rem(input, pos), 4int,
{
    lemma_lexing_terminates(input, pos);
    match lex_step(input, pos) {
        LexStep::Token { t, next } => {
            if !(stop && t.kind == TokenKind::RBrace) {
                let p2 = clampn(input, pos, next);
                lemma_bounds_stmt(input, t, p2);
                let s1 = sp_parse_stmt(input, t, p2);
                if s1.res is Ok {
                    let restp = clampn(
                        input,
                        pos,
                        if s1.next > next {
                            s1.next
                        } else {
                            next
                        },
                    );
                    lemma_bounds_stmts(input, restp, stop);
                }
            }
        },
        _ => {},
    }
}

pub proof fn lemma_bounds_stmt(input: Seq<char>, t: crate::lexer::SpecToken, pos: nat)
    requires
        pos <= input.len(),
    ensures
        pos <= sp_parse_stmt(input, t, pos).next <= input.len(),
    decreases rem(input, pos), 3int,
{
    if t.kind == TokenKind::Fn {
        lemma_bounds_fn_stmt(input, t, pos);
    } else if t.kind == TokenKind::Let || t.kind == TokenKind::SetKw || t.kind
        == TokenKind::Const {
        lemma_bounds_vars(input, pos);
    } else if t.kind == TokenKind::Return {
        lemma_bounds_expr(input, pos);
    } else if t.kind == TokenKind::When || t.kind == TokenKind::OrWhen {
        lemma_bounds_when_stmt(input, t, pos);
    } else if t.kind == TokenKind::Or {
        lemma_bounds_expect(input, pos, TokenKind::LBrace);
        let lb = sp_expect(input, pos, TokenKind::LBrace);
        if lb.res is Ok {
            lemma_bounds_stmts(input, clampn(input, pos, lb.next), true);
        }
    } else if t.kind == TokenKind::Dollar {
        lemma_bounds_expr_tok(input, t, pos);
    } else if t.kind == TokenKind::Call {
        lemma_bounds_call_stmt(input, t, pos);
    }
}

pub proof fn lemma_bounds_fn_stmt(input: Seq<char>, t: crate::lexer::SpecToken, pos: nat)
    requires
        pos <= input.len(),
    ensures
        pos <= sp_parse_fn_stmt(input, t, pos).next <= input.len(),
    decreases rem(input, pos), 2int,
{
    lemma_bounds_expect(input, pos, TokenKind::Identifier);
    let idt = sp_expect(input, pos, TokenKind::Identifier);
    if idt.res is Ok {
        let p1 = clampn(input, pos, idt.next);
        lemma_lexing_terminates(input, p1);
        match lex_step(input, p1) {
            LexStep::Token { t: t2, next: n2 } => {
                if t2.kind == TokenKind::Colon {
                    lemma_bounds_expect(input, clampn(input, p1, n2), TokenKind::LBrace);
                    let lb = sp_expect(input, clampn(input, p1, n2), TokenKind::LBrace);
                    if lb.res is Ok {
                        lemma_bounds_params(input, clampn(input, p1, lb.next));
                        let ps = sp_parse_params(input, clampn(input, p1, lb.next));
                        if ps.res is Ok {
                            lemma_bounds_expect(
                                input,
                                clampn(input, p1, ps.next),
                                TokenKind::LBrace,
                            );
                            let lb2 = sp_expect(
                                input,
                                clampn(input, p1, ps.next),
                                TokenKind::LBrace,
                            );
                            if lb2.res is Ok {
                                lemma_bounds_stmts(input, clampn(input, p1, lb2.next), true);
                            }
                        }
                    }
                } else if t2.kind == TokenKind::LBrace {
                    lemma_bounds_stmts(input, clampn(input, p1, n2), true);
                }
            },
            _ => {},
        }
    }
}

pub proof fn lemma_bounds_when_stmt(input: Seq<char>, t: crate::lexer::SpecToken, pos: nat)
    requires
        pos <= input.len(),
    ensures
        pos <= sp_parse_when_stmt(input, t, pos).next <= input.len(),
    decreases rem(input, pos), 2int,
{
    lemma_bounds_expect(input, pos, TokenKind::Colon);
    let c = sp_expect(input, pos, TokenKind::Colon);
    if c.res is Ok {
        lemma_bounds_expect(input, clampn(input, pos, c.next), TokenKind::LBrace);
        let lb = sp_expect(input, clampn(input, pos, c.next), TokenKind::LBrace);
        if lb.res is Ok {
            lemma_bounds_expr(input, clampn(input, pos, lb.next));
            let cond = sp_parse_expr(input, clampn(input, pos, lb.next));
            if cond.res is Ok {
                lemma_bounds_expect(input, clampn(input, pos, cond.next), TokenKind::RBrace);
                let rb = sp_expect(input, clampn(input, pos, cond.next), TokenKind::RBrace);
                if rb.res is Ok {
                    lemma_bounds_expect(input, clampn(input, pos, rb.next), TokenKind::LBrace);
                    let lb2 = sp_expect(input, clampn(input, pos, rb.next), TokenKind::LBrace);
                    if lb2.res is Ok {
                        lemma_bounds_stmts(input, clampn(input, pos, lb2.next), true);
                    }
                }
            }
        }
    }
}

pub proof fn lemma_bounds_call_stmt(input: Seq<char>, t: crate::lexer::SpecToken, pos: nat)
    requires
        pos <= input.len(),
    ensures
        pos <= sp_parse_call_stmt(input, t, pos).next <= input.len(),
    decreases rem(input, pos), 2int,
{
    lemma_bounds_expect(input, pos, TokenKind::LBrace);
    let lb = sp_expect(input, pos, TokenKind::LBrace);
    if lb.res is Ok {
        lemma_bounds_expect(input, clampn(input, pos, lb.next), TokenKind::Identifier);
        let id = sp_expect(input, clampn(input, pos, lb.next), TokenKind::Identifier);
        if id.res is Ok {
            lemma_bounds_expect(input, clampn(input, pos, id.next), TokenKind::Colon);
            let c = sp_expect(input, clampn(input, pos, id.next), TokenKind::Colon);
            if c.res is Ok {
                lemma_bounds_expect(input, clampn(input, pos, c.next), TokenKind::LBrace);
                let lb2 = sp_expect(input, clampn(input, pos, c.next), TokenKind::LBrace);
                if lb2.res is Ok {
                    lemma_bounds_expr_list(
                        input,
                        clampn(input, pos, lb2.next),
                        TokenKind::RBrace,
                    );
                    let args = sp_parse_expr_list(
                        input,
                        clampn(input, pos, lb2.next),
                        TokenKind::RBrace,
                    );
                    if args.res is Ok {
                        lemma_bounds_expect(
                            input,
                            clampn(input, pos, args.next),
                            TokenKind::RBrace,
                        );
                    }
                }
            }
        }
    }
}

pub proof fn lemma_bounds_params(input: Seq<char>, pos: nat)
    requires
        pos <= input.len(),
    ensures
        pos <= sp_parse_params(input, pos).next <= input.len(),
    decreases rem(input, pos), 0int,
{
    lemma_lexing_terminates(input, pos);
    match lex_step(input, pos) {
        LexStep::Token { t, next } => {
            if t.kind == TokenKind::Identifier || t.kind == TokenKind::Comma {
                lemma_bounds_params(input, clampn(input, pos, next));
            }
        },
        _ => {},
    }
}

pub proof fn lemma_bounds_vars(input: Seq<char>, pos: nat)
    requires
        pos <= input.len(),
    ensures
        pos <= sp_parse_vars(input, pos).next <= input.len(),
    decreases rem(input, pos), 2int,
{
    lemma_bounds_expect(input, pos, TokenKind::LBrace);
    let lb = sp_expect(input, pos, TokenKind::LBrace);
    if lb.res is Ok {
        lemma_bounds_var_list(input, clampn(input, pos, lb.next));
    }
}

pub proof fn lemma_bounds_var_list(input: Seq<char>, pos: nat)
    requires
        pos <= input.len(),
    ensures
        pos <= sp_parse_var_list(input, pos).next <= input.len(),
    decreases rem(input, pos), 0int,
{
    lemma_lexing_terminates(input, pos);
    match lex_step(input, pos) {
        LexStep::Token { t, next } => {
            if t.kind == TokenKind::Identifier {
                lemma_bounds_expect(input, clampn(input, pos, next), TokenKind::Colon);
                let c = sp_expect(input, clampn(input, pos, next), TokenKind::Colon);
                if c.res is Ok {
                    lemma_bounds_expr(input, clampn(input, pos, c.next));
                    let e = sp_parse_expr(input, clampn(input, pos, c.next));
                    if e.res is Ok {
                        let sep = clampn(input, pos, e.next);
                        lemma_lexing_terminates(input, sep);
                        match lex_step(input, sep) {
                            LexStep::Token { t: t2, next: n2 } => {
                                if t2.kind == TokenKind::Comma {
                                    lemma_bounds_var_list(input, clampn(input, pos, n2));
                                }
                            },
                            _ => {},
                        }
                    }
                }
            }
        },
        _ => {},
    }
}

pub proof fn lemma_bounds_expr(input: Seq<char>, pos: nat)
    requires
        pos <= input.len(),
    ensures
        pos <= sp_parse_expr(input, pos).next <= input.len(),
    decreases rem(input, pos), 2int,
{
    lemma_lexing_terminates(input, pos);
    match lex_step(input, pos) {
        LexStep::Token { t, next } => {
            lemma_bounds_expr_tok(input, t, clampn(input, pos, next));
        },
        _ => {},
    }
}

#[verifier::rlimit(100)]
pub proof fn lemma_bounds_expr_tok(input: Seq<char>, t: crate::lexer::SpecToken, pos: nat)
    requires
        pos <= input.len(),
    ensures
        pos <= sp_parse_expr_tok(input, t, pos).next <= input.len(),
    decreases rem(input, pos), 1int,
{
    if crate::parser::is_op_kind(t.kind) || t.kind == TokenKind::Dollar || t.kind
        == TokenKind::Dot || t.kind == TokenKind::At {
        lemma_bounds_expect(input, pos, TokenKind::LBrace);
        let lb = sp_expect(input, pos, TokenKind::LBrace);
        if lb.res is Ok {
            if t.kind == TokenKind::Dot {
                lemma_bounds_expect(input, clampn(input, pos, lb.next), TokenKind::Identifier);
                let id = sp_expect(input, clampn(input, pos, lb.next), TokenKind::Identifier);
                if id.res is Ok {
                    lemma_bounds_expect(input, clampn(input, pos, id.next), TokenKind::Comma);
                    let c = sp_expect(input, clampn(input, pos, id.next), TokenKind::Comma);
                    if c.res is Ok {
                        lemma_bounds_expr(input, clampn(input, pos, c.next));
                        let pr = sp_parse_expr(input, clampn(input, pos, c.next));
                        if pr.res is Ok {
                            lemma_bounds_expect(
                                input,
                                clampn(input, pos, pr.next),
                                TokenKind::RBrace,
                            );
                        }
                    }
                }
            } else {
                let first = sp_parse_expr(input, clampn(input, pos, lb.next));
                lemma_bounds_expr(input, clampn(input, pos, lb.next));
                if first.res is Ok {
                    let mkind = if t.kind == TokenKind::Dollar {
                        TokenKind::Colon
                    } else {
                        TokenKind::Comma
                    };
                    lemma_bounds_expect(input, clampn(input, pos, first.next), mkind);
                    let c = sp_expect(input, clampn(input, pos, first.next), mkind);
                    if c.res is Ok {
                        lemma_bounds_expr(input, clampn(input, pos, c.next));
                        let second = sp_parse_expr(input, clampn(input, pos, c.next));
                        if second.res is Ok {
                            lemma_bounds_expect(
                                input,
                                clampn(input, pos, second.next),
                                TokenKind::RBrace,
                            );
                        }
                    }
                }
            }
        }
    } else if t.kind == TokenKind::LBracket {
        lemma_bounds_expr_list(input, pos, TokenKind::RBracket);
    } else if t.kind == TokenKind::LPar {
        lemma_bounds_entries(input, pos, Seq::empty());
    }
}

pub proof fn lemma_bounds_expr_list(input: Seq<char>, pos: nat, close: TokenKind)
    requires
        pos <= input.len(),
    ensures
        pos <= sp_parse_expr_list(input, pos, close).next <= input.len(),
    decreases rem(input, pos), 0int,
{
    lemma_lexing_terminates(input, pos);
    match lex_step(input, pos) {
        LexStep::Token { t, next } => {
            if t.kind != close {
                lemma_bounds_expr_tok(input, t, clampn(input, pos, next));
                let e = sp_parse_expr_tok(input, t, clampn(input, pos, next));
                if e.res is Ok {
                    lemma_bounds_expr_list_rest(input, clampn(input, pos, e.next), close);
                }
            }
        },
        _ => {},
    }
}

pub proof fn lemma_bounds_expr_list_rest(input: Seq<char>, pos: nat, close: TokenKind)
    requires
        pos <= input.len(),
    ensures
        pos <= sp_parse_expr_list_rest(input, pos, close).next <= input.len(),
    decreases rem(input, pos), 0int,
{
    lemma_lexing_terminates(input, pos);
    match lex_step(input, pos) {
        LexStep::Token { t, next } => {
            if t.kind != close && t.kind == TokenKind::Comma {
                lemma_bounds_expr(input, clampn(input, pos, next));
                let e = sp_parse_expr(input, clampn(input, pos, next));
                if e.res is Ok {
                    lemma_bounds_expr_list_rest(input, clampn(input, pos, e.next), close);
                }
            }
        },
        _ => {},
    }
}

pub proof fn lemma_bounds_entries(input: Seq<char>, pos: nat, acc: Seq<crate::ast::SpecEntry>)
    requires
        pos <= input.len(),
    ensures
        pos <= sp_parse_entries(input, pos, acc).next <= input.len(),
    decreases rem(input, pos), 0int,
{
    lemma_lexing_terminates(input, pos);
    match lex_step(input, pos) {
        LexStep::Token { t, next } => {
            if t.kind == TokenKind::Identifier {
                lemma_bounds_expect(input, clampn(input, pos, next), TokenKind::Colon);
                let c = sp_expect(input, clampn(input, pos, next), TokenKind::Colon);
                if c.res is Ok {
                    lemma_bounds_expr(input, clampn(input, pos, c.next));
                    let e = sp_parse_expr(input, clampn(input, pos, c.next));
                    if e.res is Ok {
                        let value = e.res->Ok_0;
                        let acc2 = crate::parser::upsert_entry(acc, t.lexeme, value);
                        let sep = clampn(input, pos, e.next);
                        lemma_lexing_terminates(input, sep);
                        match lex_step(input, sep) {
                            LexStep::Token { t: t2, next: n2 } => {
                                if t2.kind == TokenKind::Comma {
                                    lemma_bounds_entries(input, clampn(input, sep, n2), acc2);
                                }
                            },
                            _ => {},
                        }
                    }
                }
            }
        },
        _ => {},
    }
}


// ------------------------------------------------------------------
// The scan along a successful parse
// ------------------------------------------------------------------

/// `fn_names` distributes over concatenation.
pub proof fn lemma_fn_names_concat(a: Seq<SpecNode>, b: Seq<SpecNode>)
    ensures
        fn_names(a + b) == fn_names(a) + fn_names(b),
    decreases a.len(),
{
    if a.len() == 0 {
        assert(a + b =~= b);
        assert(fn_names(a) + fn_names(b) =~= fn_names(b));
    } else {
        assert((a + b).drop_first() =~= a.drop_first() + b);
        lemma_fn_names_concat(a.drop_first(), b);
        assert((a + b)[0] == a[0]);
        assert(fn_names(a + b) =~= fn_names(a) + fn_names(b));
    }
}

/// Scanning steps over one token that is not `fn`.
proof fn lemma_fnids_step(
    input: Seq<char>,
    pos: nat,
    end: nat,
    t: crate::lexer::SpecToken,
    next: nat,
)
    requires
        pos <= input.len(),
        lex_step(input, pos) == (LexStep::Token { t, next }),
        t.kind != TokenKind::Fn,
        next <= end,
    ensures
        sp_fn_idents(input, pos, end) == sp_fn_idents(input, next, end),
{
    reveal(sp_fn_idents);
    lemma_lexing_terminates(input, pos);
}

/// Scanning steps over an `fn` keyword into the identifier-collecting
/// continuation.
proof fn lemma_fnids_step_fn(
    input: Seq<char>,
    pos: nat,
    end: nat,
    t: crate::lexer::SpecToken,
    next: nat,
)
    requires
        pos <= input.len(),
        lex_step(input, pos) == (LexStep::Token { t, next }),
        t.kind == TokenKind::Fn,
        next <= end,
    ensures
        sp_fn_idents(input, pos, end) == sp_fn_idents_after_fn(
            input,
            clampn(input, pos, next),
            end,
        ),
{
    reveal(sp_fn_idents);
    reveal(sp_fn_idents_after_fn);
    lemma_lexing_terminates(input, pos);
}

/// Scanning steps over a token consumed by a successful `sp_expect` of a
/// kind other than `fn`.
proof fn lemma_fnids_expect(input: Seq<char>, pos: nat, kind: TokenKind, end: nat)
    requires
        pos <= input.len(),
        kind != TokenKind::Fn,
        sp_expect(input, pos, kind).res is Ok,
        sp_expect(input, pos, kind).next <= end,
    ensures
        sp_fn_idents(input, pos, end) == sp_fn_idents(input, sp_expect(input, pos, kind).next, end),
{
    reveal(sp_fn_idents);
    lemma_lexing_terminates(input, pos);
}

/// An expression contains no function declarations: the scan is the same
/// before and after it.
proof fn lemma_fnids_expr(input: Seq<char>, pos: nat, end: nat)
    requires
        pos <= input.len(),
        sp_parse_expr(input, pos).res is Ok,
        sp_parse_expr(input, pos).next <= end,
    ensures
        sp_fn_idents(input, pos, end) == sp_fn_idents(input, sp_parse_expr(input, pos).next, end),
    decreases rem(input, pos), 2int,
{
    lemma_lexing_terminates(input, pos);
    match lex_step(input, pos) {
        LexStep::Token { t, next } => {
            lemma_bounds_expr_tok(input, t, next);
            lemma_fnids_step(input, pos, end, t, next);
            lemma_fnids_expr_tok(input, t, next, end);
        },
        _ => {},
    }
}

/// As [`lemma_fnids_expr`], for an expression whose leading token is
/// already consumed.
#[verifier::rlimit(100)]
proof fn lemma_fnids_expr_tok(input: Seq<char>, t: crate::lexer::SpecToken, pos: nat, end: nat)
    requires
        pos <= input.len(),
        sp_parse_expr_tok(input, t, pos).res is Ok,
        sp_parse_expr_tok(input, t, pos).next <= end,
    ensures
        sp_fn_idents(input, pos, end) == sp_fn_idents(
            input,
            sp_parse_expr_tok(input, t, pos).next,
            end,
        ),
    decreases rem(input, pos), 1int,
{
    let out = sp_parse_expr_tok(input, t, pos);
    if crate::parser::is_op_kind(t.kind) || t.kind == TokenKind::Dollar || t.kind
        == TokenKind::At {
        let lb = sp_expect(input, pos, TokenKind::LBrace);
        lemma_bounds_expect(input, pos, TokenKind::LBrace);
        let p1 = clampn(input, pos, lb.next);
        let first = sp_parse_expr(input, p1);
        lemma_bounds_expr(input, p1);
        let mkind = if t.kind == TokenKind::Dollar {
            TokenKind::Colon
        } else {
            TokenKind::Comma
        };
        let p2 = clampn(input, pos, first.next);
        let c = sp_expect(input, p2, mkind);
        lemma_bounds_expect(input, p2, mkind);
        let p3 = clampn(input, pos, c.next);
        let second = sp_parse_expr(input, p3);
        lemma_bounds_expr(input, p3);
        let p4 = clampn(input, pos, second.next);
        lemma_bounds_expect(input, p4, TokenKind::RBrace);
        lemma_fnids_expect(input, pos, TokenKind::LBrace, end);
        lemma_fnids_expr(input, p1, end);
        lemma_fnids_expect(input, p2, mkind, end);
        lemma_fnids_expr(input, p3, end);
        lemma_fnids_expect(input, p4, TokenKind::RBrace, end);
    } else if t.kind == TokenKind::Dot {
        let lb = sp_expect(input, pos, TokenKind::LBrace);
        lemma_bounds_expect(input, pos, TokenKind::LBrace);
        let p1 = clampn(input, pos, lb.next);
        let id = sp_expect(input, p1, TokenKind::Identifier);
        lemma_bounds_expect(input, p1, TokenKind::Identifier);
        let p2 = clampn(input, pos, id.next);
        let c = sp_expect(input, p2, TokenKind::Comma);
        lemma_bounds_expect(input, p2, TokenKind::Comma);
        let p3 = clampn(input, pos, c.next);
        let pr = sp_parse_expr(input, p3);
        lemma_bounds_expr(input, p3);
        let p4 = clampn(input, pos, pr.next);
        lemma_bounds_expect(input, p4, TokenKind::RBrace);
        lemma_fnids_expect(input, pos, TokenKind::LBrace, end);
        lemma_fnids_expect(input, p1, TokenKind::Identifier, end);
        lemma_fnids_expect(input, p2, TokenKind::Comma, end);
        lemma_fnids_expr(input, p3, end);
        lemma_fnids_expect(input, p4, TokenKind::RBrace, end);
    } else if t.kind == TokenKind::LBracket {
        lemma_fnids_expr_list(input, pos, TokenKind::RBracket, end);
    } else if t.kind == TokenKind::LPar {
        lemma_fnids_entries(input, pos, Seq::empty(), end);
    }
}

/// An expression list contains no function declarations.
proof fn lemma_fnids_expr_list(input: Seq<char>, pos: nat, close: TokenKind, end: nat)
    requires
        pos <= input.len(),
        close != TokenKind::Fn,
        sp_parse_expr_list(input, pos, close).res is Ok,
        sp_parse_expr_list(input, pos, close).next <= end,
    ensures
        sp_fn_idents(input, pos, end) == sp_fn_idents(
            input,
            sp_parse_expr_list(input, pos, close).next,
            end,
        ),
    decreases rem(input, pos), 0int,
{
    lemma_lexing_terminates(input, pos);
    match lex_step(input, pos) {
        LexStep::Token { t, next } => {
            if t.kind == close {
                lemma_fnids_step(input, pos, end, t, next);
            } else {
                let p1 = clampn(input, pos, next);
                let e = sp_parse_expr_tok(input, t, p1);
                lemma_bounds_expr_tok(input, t, p1);
                let p2 = clampn(input, pos, e.next);
                lemma_bounds_expr_list_rest(input, p2, close);
                lemma_fnids_step(input, pos, end, t, next);
                lemma_fnids_expr_tok(input, t, p1, end);
                lemma_fnids_expr_list_rest(input, p2, close, end);
            }
        },
        _ => {},
    }
}

/// The continuation of an expression list contains no function
/// declarations.
proof fn lemma_fnids_expr_list_rest(input: Seq<char>, pos: nat, close: TokenKind, end: nat)
    requires
        pos <= input.len(),
        close != TokenKind::Fn,
        sp_parse_expr_list_rest(input, pos, close).res is Ok,
        sp_parse_expr_list_rest(input, pos, close).next <= end,
    ensures
        sp_fn_idents(input, pos, end) == sp_fn_idents(
            input,
            sp_parse_expr_list_rest(input, pos, close).next,
            end,
        ),
    decreases rem(input, pos), 0int,
{
    lemma_lexing_terminates(input, pos);
    match lex_step(input, pos) {
        LexStep::Token { t, next } => {
            if t.kind == close {
                lemma_fnids_step(input, pos, end, t, next);
            } else if t.kind == TokenKind::Comma {
                let p1 = clampn(input, pos, next);
                let e = sp_parse_expr(input, p1);
                lemma_bounds_expr(input, p1);
                let p2 = clampn(input, pos, e.next);
                lemma_bounds_expr_list_rest(input, p2, close);
                lemma_fnids_step(input, pos, end, t, next);
                lemma_fnids_expr(input, p1, end);
                lemma_fnids_expr_list_rest(input, p2, close, end);
            }
        },
        _ => {},
    }
}

/// An object literal contains no function declarations.
proof fn lemma_fnids_entries(
    input: Seq<char>,
    pos: nat,
    acc: Seq<crate::ast::SpecEntry>,
    end: nat,
)
    requires
        pos <= input.len(),
        sp_parse_entries(input, pos, acc).res is Ok,
        sp_parse_entries(input, pos, acc).next <= end,
    ensures
        sp_fn_idents(input, pos, end) == sp_fn_idents(
            input,
            sp_parse_entries(input, pos, acc).next,
            end,
        ),
    decreases rem(input, pos), 0int,
{
    lemma_lexing_terminates(input, pos);
    match lex_step(input, pos) {
        LexStep::Token { t, next } => {
            if t.kind == TokenKind::RPar {
                lemma_fnids_step(input, pos, end, t, next);
            } else if t.kind == TokenKind::Identifier {
                let p1 = clampn(input, pos, next);
                let c = sp_expect(input, p1, TokenKind::Colon);
                lemma_bounds_expect(input, p1, TokenKind::Colon);
                let p2 = clampn(input, pos, c.next);
                let e = sp_parse_expr(input, p2);
                lemma_bounds_expr(input, p2);
                let value = e.res->Ok_0;
                let acc2 = crate::parser::upsert_entry(acc, t.lexeme, value);
                let sep = clampn(input, pos, e.next);
                lemma_lexing_terminates(input, sep);
                match lex_step(input, sep) {
                    LexStep::Token { t: t2, next: n2 } => {
                        let p3 = clampn(input, sep, n2);
                        if t2.kind == TokenKind::Comma {
                            lemma_bounds_entries(input, p3, acc2);
                        }
                        lemma_fnids_step(input, pos, end, t, next);
                        lemma_fnids_expect(input, p1, TokenKind::Colon, end);
                        lemma_fnids_expr(input, p2, end);
                        if t2.kind == TokenKind::Comma {
                            lemma_fnids_step(input, sep, end, t2, n2);
                            lemma_fnids_entries(input, p3, acc2, end);
                        } else if t2.kind == TokenKind::RPar {
                            lemma_fnids_step(input, sep, end, t2, n2);
                        }
                    },
                    _ => {},
                }
            }
        },
        _ => {},
    }
}

/// A parameter list contains no function declarations.
proof fn lemma_fnids_params(input: Seq<char>, pos: nat, end: nat)
    requires
        pos <= input.len(),
        sp_parse_params(input, pos).res is Ok,
        sp_parse_params(input, pos).next <= end,
    ensures
        sp_fn_idents(input, pos, end) == sp_fn_idents(
            input,
            sp_parse_params(input, pos).next,
            end,
        ),
    decreases rem(input, pos), 0int,
{
    lemma_lexing_terminates(input, pos);
    match lex_step(input, pos) {
        LexStep::Token { t, next } => {
            if t.kind == TokenKind::RBrace {
                lemma_fnids_step(input, pos, end, t, next);
            } else if t.kind == TokenKind::Identifier || t.kind == TokenKind::Comma {
                let p1 = clampn(input, pos, next);
                lemma_bounds_params(input, p1);
                lemma_fnids_step(input, pos, end, t, next);
                lemma_fnids_params(input, p1, end);
            }
        },
        _ => {},
    }
}

/// A binding block contains no function declarations.
proof fn lemma_fnids_var_list(input: Seq<char>, pos: nat, end: nat)
    requires
        pos <= input.len(),
        sp_parse_var_list(input, pos).res is Ok,
        sp_parse_var_list(input, pos).next <= end,
    ensures
        sp_fn_idents(input, pos, end) == sp_fn_idents(
            input,
            sp_parse_var_list(input, pos).next,
            end,
        ),
    decreases rem(input, pos), 0int,
{
    lemma_lexing_terminates(input, pos);
    match lex_step(input, pos) {
        LexStep::Token { t, next } => {
            if t.kind == TokenKind::RBrace {
                lemma_fnids_step(input, pos, end, t, next);
            } else if t.kind == TokenKind::Identifier {
                let p1 = clampn(input, pos, next);
                let c = sp_expect(input, p1, TokenKind::Colon);
                lemma_bounds_expect(input, p1, TokenKind::Colon);
                let p2 = clampn(input, pos, c.next);
                let e = sp_parse_expr(input, p2);
                lemma_bounds_expr(input, p2);
                let sep = clampn(input, pos, e.next);
                lemma_lexing_terminates(input, sep);
                match lex_step(input, sep) {
                    LexStep::Token { t: t2, next: n2 } => {
                        let p3 = clampn(input, pos, n2);
                        if t2.kind == TokenKind::Comma {
                            lemma_bounds_var_list(input, p3);
                        }
                        lemma_fnids_step(input, pos, end, t, next);
                        lemma_fnids_expect(input, p1, TokenKind::Colon, end);
                        lemma_fnids_expr(input, p2, end);
                        if t2.kind == TokenKind::Comma {
                            lemma_fnids_step(input, sep, end, t2, n2);
                            lemma_fnids_var_list(input, p3, end);
                        } else if t2.kind == TokenKind::RBrace {
                            lemma_fnids_step(input, sep, end, t2, n2);
                        }
                    },
                    _ => {},
                }
            }
        },
        _ => {},
    }
}

/// A `let` / `set` / `const` statement contains no function
/// declarations.
proof fn lemma_fnids_vars(input: Seq<char>, pos: nat, end: nat)
    requires
        pos <= input.len(),
        sp_parse_vars(input, pos).res is Ok,
        sp_parse_vars(input, pos).next <= end,
    ensures
        sp_fn_idents(input, pos, end) == sp_fn_idents(input, sp_parse_vars(input, pos).next, end),
    decreases rem(input, pos), 2int,
{
    let lb = sp_expect(input, pos, TokenKind::LBrace);
    lemma_bounds_expect(input, pos, TokenKind::LBrace);
    let p1 = clampn(input, pos, lb.next);
    lemma_bounds_var_list(input, p1);
    lemma_fnids_expect(input, pos, TokenKind::LBrace, end);
    lemma_fnids_var_list(input, p1, end);
}


/// The names contributed by a function declaration statement: the
/// identifier after `fn`, then any declarations nested in its body.
#[verifier::rlimit(100)]
#[verifier::spinoff_prover]
proof fn lemma_fnids_fn_stmt(input: Seq<char>, t: crate::lexer::SpecToken, pos: nat, end: nat)
    requires
        pos <= input.len(),
        t.kind == TokenKind::Fn,
        sp_parse_fn_stmt(input, t, pos).res is Ok,
        sp_parse_fn_stmt(input, t, pos).next <= end,
    ensures
        sp_fn_idents_after_fn(input, pos, end) == fn_names(
            sp_parse_fn_stmt(input, t, pos).res->Ok_0,
        ) + sp_fn_idents(input, sp_parse_fn_stmt(input, t, pos).next, end),
    decreases rem(input, pos), 2int,
{
    reveal(sp_fn_idents_after_fn);
    reveal_with_fuel(fn_names, 3);
    let out = sp_parse_fn_stmt(input, t, pos);
    let ns = out.res->Ok_0;
    lemma_lexing_terminates(input, pos);
    let idt = sp_expect(input, pos, TokenKind::Identifier);
    lemma_bounds_expect(input, pos, TokenKind::Identifier);
    let name = idt.res->Ok_0.lexeme;
    let p1 = clampn(input, pos, idt.next);
    lemma_lexing_terminates(input, p1);
    match lex_step(input, p1) {
        LexStep::Token { t: t2, next: n2 } => {
            if t2.kind == TokenKind::Colon {
                let pa = clampn(input, p1, n2);
                let lb = sp_expect(input, pa, TokenKind::LBrace);
                lemma_bounds_expect(input, pa, TokenKind::LBrace);
                assert(lb.res is Ok);
                let pb = clampn(input, p1, lb.next);
                let ps = sp_parse_params(input, pb);
                lemma_bounds_params(input, pb);
                assert(ps.res is Ok);
                let pc = clampn(input, p1, ps.next);
                let lb2 = sp_expect(input, pc, TokenKind::LBrace);
                lemma_bounds_expect(input, pc, TokenKind::LBrace);
                assert(lb2.res is Ok);
                let pd = clampn(input, p1, lb2.next);
                let body = sp_parse_stmts(input, pd, true);
                lemma_bounds_stmts(input, pd, true);
                assert(body.res is Ok);
                let content = body.res->Ok_0;
                assert(out.next == body.next);
                assert(ns == seq![
                    SpecNode::FunctionDeclaration {
                        start: t.column,
                        name,
                        parameters: ps.res->Ok_0,
                        content,
                    },
                ]);
                lemma_fnids_step(input, p1, end, t2, n2);
                lemma_fnids_expect(input, pa, TokenKind::LBrace, end);
                lemma_fnids_params(input, pb, end);
                lemma_fnids_expect(input, pc, TokenKind::LBrace, end);
                lemma_fnids_stmts(input, pd, true, end);
                assert(seq![ns[0]].drop_first() =~= Seq::<SpecNode>::empty());
                assert(ns =~= seq![ns[0]]);
                assert(fn_names(ns) =~= seq![name] + fn_names(content));
                assert(sp_fn_idents_after_fn(input, pos, end) =~= fn_names(ns) + sp_fn_idents(
                    input,
                    out.next,
                    end,
                ));
            } else if t2.kind == TokenKind::LBrace {
                let pd = clampn(input, p1, n2);
                let body = sp_parse_stmts(input, pd, true);
                lemma_bounds_stmts(input, pd, true);
                assert(body.res is Ok);
                let content = body.res->Ok_0;
                assert(out.next == body.next);
                assert(ns == seq![
                    SpecNode::FunctionDeclaration {
                        start: t.column,
                        name,
                        parameters: Seq::empty(),
                        content,
                    },
                ]);
                lemma_fnids_step(input, p1, end, t2, n2);
                lemma_fnids_stmts(input, pd, true, end);
                assert(seq![ns[0]].drop_first() =~= Seq::<SpecNode>::empty());
                assert(ns =~= seq![ns[0]]);
                assert(fn_names(ns) =~= seq![name] + fn_names(content));
                assert(sp_fn_idents_after_fn(input, pos, end) =~= fn_names(ns) + sp_fn_idents(
                    input,
                    out.next,
                    end,
                ));
            }
        },
        _ => {},
    }
}

/// The names contributed by a `when` / `orwhen` statement: those of its
/// branch body.
#[verifier::rlimit(100)]
#[verifier::spinoff_prover]
proof fn lemma_fnids_when_stmt(input: Seq<char>, t: crate::lexer::SpecToken, pos: nat, end: nat)
    requires
        pos <= input.len(),
        t.kind == TokenKind::When || t.kind == TokenKind::OrWhen,
        sp_parse_when_stmt(input, t, pos).res is Ok,
        sp_parse_when_stmt(input, t, pos).next <= end,
    ensures
        sp_fn_idents(input, pos, end) == fn_names(sp_parse_when_stmt(input, t, pos).res->Ok_0)
            + sp_fn_idents(input, sp_parse_when_stmt(input, t, pos).next, end),
    decreases rem(input, pos), 2int,
{
    reveal_with_fuel(fn_names, 3);
    let out = sp_parse_when_stmt(input, t, pos);
    let ns = out.res->Ok_0;
    let c = sp_expect(input, pos, TokenKind::Colon);
    lemma_bounds_expect(input, pos, TokenKind::Colon);
    let p1 = clampn(input, pos, c.next);
    let lb = sp_expect(input, p1, TokenKind::LBrace);
    lemma_bounds_expect(input, p1, TokenKind::LBrace);
    let p2 = clampn(input, pos, lb.next);
    let cond = sp_parse_expr(input, p2);
    lemma_bounds_expr(input, p2);
    let p3 = clampn(input, pos, cond.next);
    let rb = sp_expect(input, p3, TokenKind::RBrace);
    lemma_bounds_expect(input, p3, TokenKind::RBrace);
    let p4 = clampn(input, pos, rb.next);
    let lb2 = sp_expect(input, p4, TokenKind::LBrace);
    lemma_bounds_expect(input, p4, TokenKind::LBrace);
    let p5 = clampn(input, pos, lb2.next);
    let body = sp_parse_stmts(input, p5, true);
    lemma_bounds_stmts(input, p5, true);
    assert(c.res is Ok && lb.res is Ok && cond.res is Ok && rb.res is Ok && lb2.res is Ok
        && body.res is Ok);
    let content = body.res->Ok_0;
    assert(out.next == body.next);
    lemma_fnids_expect(input, pos, TokenKind::Colon, end);
    lemma_fnids_expect(input, p1, TokenKind::LBrace, end);
    lemma_fnids_expr(input, p2, end);
    lemma_fnids_expect(input, p3, TokenKind::RBrace, end);
    lemma_fnids_expect(input, p4, TokenKind::LBrace, end);
    lemma_fnids_stmts(input, p5, true, end);
    assert(seq![ns[0]].drop_first() =~= Seq::<SpecNode>::empty());
    assert(ns =~= seq![ns[0]]);
    assert(fn_names(ns) =~= fn_names(content));
    assert(sp_fn_idents(input, pos, end) =~= fn_names(ns) + sp_fn_idents(input, out.next, end));
}

/// A `call` statement declares no functions.
#[verifier::rlimit(100)]
#[verifier::spinoff_prover]
proof fn lemma_fnids_call_stmt(input: Seq<char>, t: crate::lexer::SpecToken, pos: nat, end: nat)
    requires
        pos <= input.len(),
        t.kind == TokenKind::Call,
        sp_parse_call_stmt(input, t, pos).res is Ok,
        sp_parse_call_stmt(input, t, pos).next <= end,
    ensures
        sp_fn_idents(input, pos, end) == fn_names(sp_parse_call_stmt(input, t, pos).res->Ok_0)
            + sp_fn_idents(input, sp_parse_call_stmt(input, t, pos).next, end),
    decreases rem(input, pos), 2int,
{
    reveal_with_fuel(fn_names, 3);
    let out = sp_parse_call_stmt(input, t, pos);
    let ns = out.res->Ok_0;
    let lb = sp_expect(input, pos, TokenKind::LBrace);
    lemma_bounds_expect(input, pos, TokenKind::LBrace);
    let p1 = clampn(input, pos, lb.next);
    let id = sp_expect(input, p1, TokenKind::Identifier);
    lemma_bounds_expect(input, p1, TokenKind::Identifier);
    let p2 = clampn(input, pos, id.next);
    let c = sp_expect(input, p2, TokenKind::Colon);
    lemma_bounds_expect(input, p2, TokenKind::Colon);
    let p3 = clampn(input, pos, c.next);
    let lb2 = sp_expect(input, p3, TokenKind::LBrace);
    lemma_bounds_expect(input, p3, TokenKind::LBrace);
    let p4 = clampn(input, pos, lb2.next);
    let args = sp_parse_expr_list(input, p4, TokenKind::RBrace);
    lemma_bounds_expr_list(input, p4, TokenKind::RBrace);
    let p5 = clampn(input, pos, args.next);
    lemma_bounds_expect(input, p5, TokenKind::RBrace);
    let rb = sp_expect(input, p5, TokenKind::RBrace);
    assert(lb.res is Ok && id.res is Ok && c.res is Ok && lb2.res is Ok && args.res is Ok
        && rb.res is Ok);
    assert(out.next == rb.next);
    lemma_fnids_expect(input, pos, TokenKind::LBrace, end);
    lemma_fnids_expect(input, p1, TokenKind::Identifier, end);
    lemma_fnids_expect(input, p2, TokenKind::Colon, end);
    lemma_fnids_expect(input, p3, TokenKind::LBrace, end);
    lemma_fnids_expr_list(input, p4, TokenKind::RBrace, end);
    lemma_fnids_expect(input, p5, TokenKind::RBrace, end);
    assert(seq![ns[0]].drop_first() =~= Seq::<SpecNode>::empty());
    assert(ns =~= seq![ns[0]]);
    assert(fn_names(ns) =~= Seq::<Seq<char>>::empty());
    assert(sp_fn_idents(input, pos, end) =~= fn_names(ns) + sp_fn_idents(input, out.next, end));
}

/// The names contributed by one statement (whose leading token is
/// already consumed): for a function declaration the scan continues just
/// past the `fn` keyword, for every other statement at its own start.
#[verifier::rlimit(100)]
#[verifier::spinoff_prover]
proof fn lemma_fnids_stmt(input: Seq<char>, t: crate::lexer::SpecToken, pos: nat, end: nat)
    requires
        pos <= input.len(),
        sp_parse_stmt(input, t, pos).res is Ok,
        sp_parse_stmt(input, t, pos).next <= end,
    ensures
        t.kind == TokenKind::Fn ==> sp_fn_idents_after_fn(input, pos, end) == fn_names(
            sp_parse_stmt(input, t, pos).res->Ok_0,
        ) + sp_fn_idents(input, sp_parse_stmt(input, t, pos).next, end),
        t.kind != TokenKind::Fn ==> sp_fn_idents(input, pos, end) == fn_names(
            sp_parse_stmt(input, t, pos).res->Ok_0,
        ) + sp_fn_idents(input, sp_parse_stmt(input, t, pos).next, end),
    decreases rem(input, pos), 3int,
{
    reveal_with_fuel(fn_names, 3);
    let out = sp_parse_stmt(input, t, pos);
    let ns = out.res->Ok_0;
    if t.kind == TokenKind::Fn {
        lemma_fnids_fn_stmt(input, t, pos, end);
    } else if t.kind == TokenKind::Let || t.kind == TokenKind::SetKw || t.kind
        == TokenKind::Const {
        lemma_fnids_vars(input, pos, end);
        assert(seq![ns[0]].drop_first() =~= Seq::<SpecNode>::empty());
        assert(ns =~= seq![ns[0]]);
        assert(fn_names(ns) =~= Seq::<Seq<char>>::empty());
        assert(sp_fn_idents(input, pos, end) =~= fn_names(ns) + sp_fn_idents(
            input,
            out.next,
            end,
        ));
    } else if t.kind == TokenKind::Return {
        lemma_fnids_expr(input, pos, end);
        assert(seq![ns[0]].drop_first() =~= Seq::<SpecNode>::empty());
        assert(ns =~= seq![ns[0]]);
        assert(fn_names(ns) =~= Seq::<Seq<char>>::empty());
        assert(sp_fn_idents(input, pos, end) =~= fn_names(ns) + sp_fn_idents(
            input,
            out.next,
            end,
        ));
    } else if t.kind == TokenKind::When || t.kind == TokenKind::OrWhen {
        lemma_fnids_when_stmt(input, t, pos, end);
    } else if t.kind == TokenKind::Or {
        lemma_lexing_terminates(input, pos);
        let lb = sp_expect(input, pos, TokenKind::LBrace);
        lemma_bounds_expect(input, pos, TokenKind::LBrace);
        let p1 = clampn(input, pos, lb.next);
        let body = sp_parse_stmts(input, p1, true);
        lemma_bounds_stmts(input, p1, true);
        let content = body.res->Ok_0;
        lemma_fnids_expect(input, pos, TokenKind::LBrace, end);
        lemma_fnids_stmts(input, p1, true, end);
        assert(seq![ns[0]].drop_first() =~= Seq::<SpecNode>::empty());
        assert(ns =~= seq![ns[0]]);
        assert(fn_names(ns) =~= fn_names(content));
        assert(sp_fn_idents(input, pos, end) =~= fn_names(ns) + sp_fn_idents(
            input,
            out.next,
            end,
        ));
    } else if t.kind == TokenKind::Dollar {
        lemma_fnids_expr_tok(input, t, pos, end);
        assert(seq![ns[0]].drop_first() =~= Seq::<SpecNode>::empty());
        assert(ns =~= seq![ns[0]]);
        assert(fn_names(ns) =~= Seq::<Seq<char>>::empty());
        assert(sp_fn_idents(input, pos, end) =~= fn_names(ns) + sp_fn_idents(
            input,
            out.next,
            end,
        ));
    } else if t.kind == TokenKind::Call {
        lemma_fnids_call_stmt(input, t, pos, end);
    } else if t.kind == TokenKind::Semicolon || t.kind == TokenKind::RBrace {
        assert(fn_names(ns) =~= Seq::<Seq<char>>::empty());
        assert(sp_fn_idents(input, pos, end) =~= fn_names(ns) + sp_fn_idents(
            input,
            out.next,
            end,
        ));
    }
}

/// The main case of [`lemma_fnids_stmts`] for a statement that is not a
/// function declaration.
#[verifier::rlimit(100)]
proof fn lemma_fnids_stmts_cons_other(
    input: Seq<char>,
    pos: nat,
    stop: bool,
    end: nat,
    t: crate::lexer::SpecToken,
    next: nat,
)
    requires
        pos <= input.len(),
        lex_step(input, pos) == (LexStep::Token { t, next }),
        !(stop && t.kind == TokenKind::RBrace),
        t.kind != TokenKind::Fn,
        sp_parse_stmts(input, pos, stop).res is Ok,
        sp_parse_stmts(input, pos, stop).next <= end,
    ensures
        sp_fn_idents(input, pos, end) == fn_names(sp_parse_stmts(input, pos, stop).res->Ok_0)
            + sp_fn_idents(input, sp_parse_stmts(input, pos, stop).next, end),
    decreases rem(input, pos), 3int,
{
    reveal_with_fuel(fn_names, 2);
    let out = sp_parse_stmts(input, pos, stop);
    let all = out.res->Ok_0;
    lemma_lexing_terminates(input, pos);
    let p2 = clampn(input, pos, next);
    let s1 = sp_parse_stmt(input, t, p2);
    lemma_bounds_stmt(input, t, p2);
    let ns1 = s1.res->Ok_0;
    let restp = clampn(
        input,
        pos,
        if s1.next > next {
            s1.next
        } else {
            next
        },
    );
    let rest = sp_parse_stmts(input, restp, stop);
    lemma_bounds_stmts(input, restp, stop);
    let more = rest.res->Ok_0;
    lemma_fnids_stmt(input, t, p2, end);
    lemma_fnids_stmts(input, restp, stop, end);
    lemma_fn_names_concat(ns1, more);
    lemma_fnids_step(input, pos, end, t, next);
    assert(sp_fn_idents(input, pos, end) =~= fn_names(all) + sp_fn_idents(
        input,
        out.next,
        end,
    ));
}

/// The main case of [`lemma_fnids_stmts`] for a function declaration.
#[verifier::rlimit(100)]
proof fn lemma_fnids_stmts_cons_fn(
    input: Seq<char>,
    pos: nat,
    stop: bool,
    end: nat,
    t: crate::lexer::SpecToken,
    next: nat,
)
    requires
        pos <= input.len(),
        lex_step(input, pos) == (LexStep::Token { t, next }),
        !(stop && t.kind == TokenKind::RBrace),
        t.kind == TokenKind::Fn,
        sp_parse_stmts(input, pos, stop).res is Ok,
        sp_parse_stmts(input, pos, stop).next <= end,
    ensures
        sp_fn_idents(input, pos, end) == fn_names(sp_parse_stmts(input, pos, stop).res->Ok_0)
            + sp_fn_idents(input, sp_parse_stmts(input, pos, stop).next, end),
    decreases rem(input, pos), 3int,
{
    reveal_with_fuel(fn_names, 2);
    let out = sp_parse_stmts(input, pos, stop);
    let all = out.res->Ok_0;
    lemma_lexing_terminates(input, pos);
    let p2 = clampn(input, pos, next);
    let s1 = sp_parse_stmt(input, t, p2);
    lemma_bounds_stmt(input, t, p2);
    let ns1 = s1.res->Ok_0;
    let restp = clampn(
        input,
        pos,
        if s1.next > next {
            s1.next
        } else {
            next
        },
    );
    let rest = sp_parse_stmts(input, restp, stop);
    lemma_bounds_stmts(input, restp, stop);
    let more = rest.res->Ok_0;
    lemma_fnids_stmt(input, t, p2, end);
    lemma_fnids_stmts(input, restp, stop, end);
    lemma_fn_names_concat(ns1, more);
    assert(next <= end);
    lemma_fnids_step_fn(input, pos, end, t, next);
    assert(sp_fn_idents(input, pos, end) =~= fn_names(all) + sp_fn_idents(
        input,
        out.next,
        end,
    ));
}

/// The names of a parsed statement list are exactly the identifiers that
/// follow the `fn` keywords of the consumed region, in order.
#[verifier::rlimit(100)]
proof fn lemma_fnids_stmts(input: Seq<char>, pos: nat, stop: bool, end: nat)
    requires
        pos <= input.len(),
        sp_parse_stmts(input, pos, stop).res is Ok,
        sp_parse_stmts(input, pos, stop).next <= end,
    ensures
        sp_fn_idents(input, pos, end) == fn_names(sp_parse_stmts(input, pos, stop).res->Ok_0)
            + sp_fn_idents(input, sp_parse_stmts(input, pos, stop).next, end),
    decreases rem(input, pos), 4int,
{
    reveal_with_fuel(fn_names, 2);
    let out = sp_parse_stmts(input, pos, stop);
    let all = out.res->Ok_0;
    lemma_lexing_terminates(input, pos);
    match lex_step(input, pos) {
        LexStep::End { next } => {
            assert(fn_names(all) =~= Seq::<Seq<char>>::empty());
            assert(sp_fn_idents(input, pos, end) =~= fn_names(all) + sp_fn_idents(
                input,
                out.next,
                end,
            )) by {
                reveal(sp_fn_idents);
            }
        },
        LexStep::Token { t, next } => {
            if stop && t.kind == TokenKind::RBrace {
                lemma_fnids_step(input, pos, end, t, next);
                assert(fn_names(all) =~= Seq::<Seq<char>>::empty());
                assert(sp_fn_idents(input, pos, end) =~= fn_names(all) + sp_fn_idents(
                    input,
                    out.next,
                    end,
                ));
            } else if t.kind == TokenKind::Fn {
                lemma_fnids_stmts_cons_fn(input, pos, stop, end, t, next);
            } else {
                lemma_fnids_stmts_cons_other(input, pos, stop, end, t, next);
            }
        },
        _ => {},
    }
}

/// Without `stop_at_rbrace`, a successful parse consumes the whole
/// input.
proof fn lemma_stmts_consume_all(input: Seq<char>, pos: nat)
    requires
        pos <= input.len(),
        sp_parse_stmts(input, pos, false).res is Ok,
    ensures
        sp_parse_stmts(input, pos, false).next == input.len(),
    decreases rem(input, pos), 4int,
{
    lemma_lexing_terminates(input, pos);
    match lex_step(input, pos) {
        LexStep::Token { t, next } => {
            let p2 = clampn(input, pos, next);
            lemma_bounds_stmt(input, t, p2);
            let s1 = sp_parse_stmt(input, t, p2);
            if s1.res is Ok {
                let restp = clampn(
                    input,
                    pos,
                    if s1.next > next {
                        s1.next
                    } else {
                        next
                    },
                );
                lemma_stmts_consume_all(input, restp);
            }
        },
        _ => {},
    }
}

/// Round-trip shape of the front end: a program that parses holds
/// exactly one function declaration per `fn` keyword of its source, in
/// source order, each named by the identifier that follows its `fn`.
/// The code generator in turn renders exactly one `function` header per
/// declaration ([`crate::transpiler::render_node`]), so the emitted text
/// keeps that count and order.
pub proof fn lemma_one_function_per_fn(input: Seq<char>)
    requires
        sp_parse_stmts(input, 0, false).res is Ok,
    ensures
        fn_names(sp_parse_stmts(input, 0, false).res->Ok_0) == sp_fn_idents(
            input,
            0,
            input.len(),
        ),
{
    let out = sp_parse_stmts(input, 0, false);
    lemma_bounds_stmts(input, 0, false);
    lemma_stmts_consume_all(input, 0);
    lemma_fnids_stmts(input, 0, false, input.len());
    crate::lexer::lemma_skip_ws(input, input.len());
    assert(sp_fn_idents(input, input.len(), input.len()) =~= Seq::<Seq<char>>::empty()) by {
        reveal(sp_fn_idents);
    }
    assert(fn_names(out.res->Ok_0) =~= fn_names(out.res->Ok_0) + Seq::<Seq<char>>::empty());
}

} // verus!
