//! Lexical analysis.
//!
//! The lexer turns the immutable character buffer into tokens on demand.
//! Its behaviour is pinned by the spec-level function [`lex_step`], which
//! says, for any buffer and cursor position, exactly which token (if any)
//! starts after the next run of whitespace, what its lexeme, line and
//! column are, and where the cursor stands afterwards.  `next_token` is
//! proved to return precisely what `lex_step` describes.

use vstd::prelude::*;

use crate::error::SpecTranspileError;
use crate::error::TranspileError;

verus! {

/// The closed set of token kinds of the source language.
#[derive(Debug, Clone, Copy, PartialEq, Eq, Structural)]
pub enum TokenKind {
    Fn,
    Return,
    Let,
    SetKw,
    Const,
    Call,
    When,
    OrWhen,
    Or,
    LBrace,
    RBrace,
    LBracket,
    RBracket,
    LPar,
    RPar,
    Colon,
    Comma,
    Semicolon,
    Dot,
    At,
    Dollar,
    Plus,
    Minus,
    Times,
    Divided,
    Gt,
    Lt,
    Equal,
    Identifier,
    Number,
    StringLiteral,
}

/// One token: its kind, its text, and the line and column of its first
/// character (both 1-based).
#[derive(Debug, Clone, PartialEq)]
pub struct Token {
    pub kind: TokenKind,
    pub lexeme: String,
    pub line: usize,
    pub column: usize,
}

/// Mathematical mirror of `Token`.
pub struct SpecToken {
    pub kind: TokenKind,
    pub lexeme: Seq<char>,
    pub line: nat,
    pub column: nat,
}

impl View for Token {
    type V = SpecToken;

    open spec fn view(&self) -> SpecToken {
        SpecToken {
            kind: self.kind,
            lexeme: self.lexeme@,
            line: self.line as nat,
            column: self.column as nat,
        }
    }
}

// ------------------------------------------------------------------
// Character classes
//
// The classes are Unicode properties; what they hold of a given character
// is decided by the standard library.  Each class gets an uninterpreted
// name, and the corresponding `char` method is trusted to return it.
// ------------------------------------------------------------------

pub uninterp spec fn whitespace_char(c: char) -> bool;

pub uninterp spec fn numeric_char(c: char) -> bool;

pub uninterp spec fn alphabetic_char(c: char) -> bool;

pub uninterp spec fn alphanumeric_char(c: char) -> bool;

/// Relies on `char::is_whitespace`: whether `c` has the Unicode whitespace
/// property, a function of `c` alone.
pub assume_specification[ char::is_whitespace ](c: char) -> (r: bool)
    ensures
        r == whitespace_char(c),
;

/// Relies on `char::is_numeric`: whether `c` is in a Unicode number
/// category, a function of `c` alone.
pub assume_specification[ char::is_numeric ](c: char) -> (r: bool)
    ensures
        r == numeric_char(c),
;

/// Relies on `char::is_alphabetic`: whether `c` is Unicode alphabetic,
/// a function of `c` alone.
pub assume_specification[ char::is_alphabetic ](c: char) -> (r: bool)
    ensures
        r == alphabetic_char(c),
;

/// Relies on `char::is_alphanumeric`: whether `c` is alphabetic or
/// numeric, a function of `c` alone.
pub assume_specification[ char::is_alphanumeric ](c: char) -> (r: bool)
    ensures
        r == alphanumeric_char(c),
;

/// Characters that may continue an identifier.
pub open spec fn ident_char(c: char) -> bool {
    alphanumeric_char(c) || c == '_'
}

// ------------------------------------------------------------------
// Cursor geometry
// ------------------------------------------------------------------

/// Characters left in the buffer from `pos` on; the measure every scan
/// decreases.
pub open spec fn rem(input: Seq<char>, pos: nat) -> nat {
    if pos < input.len() {
        (input.len() - pos) as nat
    } else {
        0
    }
}

/// Clamps a claimed successor position into `(pos, input.len()]`, so that
/// recursion over positions has a decreasing measure.  Wherever the model
/// is applied, the claimed position really lies in that range and the
/// clamp is the identity.
pub open spec fn clampn(input: Seq<char>, pos: nat, next: nat) -> nat {
    if pos < next <= input.len() {
        next
    } else {
        input.len()
    }
}

/// 1-based line number of position `pos`: one more than the number of
/// newline characters strictly before it.
#[verifier::opaque]
pub open spec fn line_at(input: Seq<char>, pos: nat) -> nat
    decreases pos,
{
    if pos == 0 {
        1
    } else {
        line_at(input, (pos - 1) as nat) + if input[pos - 1] == '\n' {
            1nat
        } else {
            0nat
        }
    }
}

/// 1-based column of position `pos`: distance to the last newline before
/// it (or to the start of the buffer).
#[verifier::opaque]
pub open spec fn col_at(input: Seq<char>, pos: nat) -> nat
    decreases pos,
{
    if pos == 0 {
        1
    } else if input[pos - 1] == '\n' {
        1
    } else {
        col_at(input, (pos - 1) as nat) + 1
    }
}

pub proof fn lemma_line_col_bounds(input: Seq<char>, pos: nat)
    ensures
        1 <= line_at(input, pos) <= pos + 1,
        1 <= col_at(input, pos) <= pos + 1,
    decreases pos,
{
    reveal(line_at);
    reveal(col_at);
    if pos > 0 {
        lemma_line_col_bounds(input, (pos - 1) as nat);
    }
}

// ------------------------------------------------------------------
// Scanners
// ------------------------------------------------------------------

/// First position at or after `pos` that does not hold whitespace.
#[verifier::opaque]
pub open spec fn skip_ws(input: Seq<char>, pos: nat) -> nat
    decreases rem(input, pos),
{
    if pos < input.len() && whitespace_char(input[pos as int]) {
        skip_ws(input, pos + 1)
    } else {
        pos
    }
}

/// First position at or after `pos` that does not continue an identifier.
#[verifier::opaque]
pub open spec fn scan_ident(input: Seq<char>, pos: nat) -> nat
    decreases rem(input, pos),
{
    if pos < input.len() && ident_char(input[pos as int]) {
        scan_ident(input, pos + 1)
    } else {
        pos
    }
}

/// First position at or after `pos` that does not hold a numeric
/// character.
#[verifier::opaque]
pub open spec fn scan_number(input: Seq<char>, pos: nat) -> nat
    decreases rem(input, pos),
{
    if pos < input.len() && numeric_char(input[pos as int]) {
        scan_number(input, pos + 1)
    } else {
        pos
    }
}

/// Position of the closing quote at or after `pos`, or the end of the
/// buffer if the string literal is unterminated.
#[verifier::opaque]
pub open spec fn scan_string(input: Seq<char>, pos: nat) -> nat
    decreases rem(input, pos),
{
    if pos < input.len() && input[pos as int] != '"' {
        scan_string(input, pos + 1)
    } else {
        pos
    }
}

pub proof fn lemma_skip_ws(input: Seq<char>, pos: nat)
    requires
        pos <= input.len(),
    ensures
        pos <= skip_ws(input, pos) <= input.len(),
        forall|i: int| pos <= i < skip_ws(input, pos) ==> whitespace_char(input[i]),
        skip_ws(input, pos) < input.len() ==> !whitespace_char(
            input[skip_ws(input, pos) as int],
        ),
    decreases rem(input, pos),
{
    reveal(skip_ws);
    if pos < input.len() && whitespace_char(input[pos as int]) {
        lemma_skip_ws(input, pos + 1);
    }
}

pub proof fn lemma_scan_ident(input: Seq<char>, pos: nat)
    requires
        pos <= input.len(),
    ensures
        pos <= scan_ident(input, pos) <= input.len(),
        forall|i: int| pos <= i < scan_ident(input, pos) ==> ident_char(input[i]),
        scan_ident(input, pos) < input.len() ==> !ident_char(
            input[scan_ident(input, pos) as int],
        ),
    decreases rem(input, pos),
{
    reveal(scan_ident);
    if pos < input.len() && ident_char(input[pos as int]) {
        lemma_scan_ident(input, pos + 1);
    }
}

pub proof fn lemma_scan_number(input: Seq<char>, pos: nat)
    requires
        pos <= input.len(),
    ensures
        pos <= scan_number(input, pos) <= input.len(),
        forall|i: int| pos <= i < scan_number(input, pos) ==> numeric_char(input[i]),
        scan_number(input, pos) < input.len() ==> !numeric_char(
            input[scan_number(input, pos) as int],
        ),
    decreases rem(input, pos),
{
    reveal(scan_number);
    if pos < input.len() && numeric_char(input[pos as int]) {
        lemma_scan_number(input, pos + 1);
    }
}

pub proof fn lemma_scan_string(input: Seq<char>, pos: nat)
    requires
        pos <= input.len(),
    ensures
        pos <= scan_string(input, pos) <= input.len(),
        forall|i: int| pos <= i < scan_string(input, pos) ==> input[i] != '"',
        scan_string(input, pos) < input.len() ==> input[scan_string(input, pos) as int] == '"',
    decreases rem(input, pos),
{
    reveal(scan_string);
    if pos < input.len() && input[pos as int] != '"' {
        lemma_scan_string(input, pos + 1);
    }
}

// ------------------------------------------------------------------
// Keywords
// ------------------------------------------------------------------

pub open spec fn kw_fn() -> Seq<char> {
    "fn"@
}

pub open spec fn kw_ret() -> Seq<char> {
    "ret"@
}

pub open spec fn kw_let() -> Seq<char> {
    "let"@
}

pub open spec fn kw_set() -> Seq<char> {
    "set"@
}

pub open spec fn kw_const() -> Seq<char> {
    "const"@
}

pub open spec fn kw_call() -> Seq<char> {
    "call"@
}

pub open spec fn kw_when() -> Seq<char> {
    "when"@
}

pub open spec fn kw_orwhen() -> Seq<char> {
    "orwhen"@
}

pub open spec fn kw_or() -> Seq<char> {
    "or"@
}

/// The lengths of the keyword lexemes.
pub proof fn lemma_kw_lens()
    ensures
        kw_fn().len() == 2,
        kw_ret().len() == 3,
        kw_let().len() == 3,
        kw_set().len() == 3,
        kw_const().len() == 5,
        kw_call().len() == 4,
        kw_when().len() == 4,
        kw_orwhen().len() == 6,
        kw_or().len() == 2,
{
    reveal_strlit("fn");
    reveal_strlit("ret");
    reveal_strlit("let");
    reveal_strlit("set");
    reveal_strlit("const");
    reveal_strlit("call");
    reveal_strlit("when");
    reveal_strlit("orwhen");
    reveal_strlit("or");
}

/// Whether keyword `kw` stands at `pos` and ends at a word boundary: the
/// keyword is recognized only when the character after it (if any) cannot
/// continue a word, so `orwhenever` is an identifier, not `orwhen`+`ever`.
#[verifier::opaque]
pub open spec fn kw_matches(input: Seq<char>, pos: nat, kw: Seq<char>) -> bool {
    &&& pos + kw.len() <= input.len()
    &&& input.subrange(pos as int, (pos + kw.len()) as int) == kw
    &&& (pos + kw.len() == input.len() || !alphanumeric_char(input[(pos + kw.len()) as int]))
}

// ------------------------------------------------------------------
// The lexing step
// ------------------------------------------------------------------

/// Single-character tokens.
#[verifier::opaque]
pub open spec fn punct_kind(c: char) -> Option<TokenKind> {
    if c == '{' {
        Some(TokenKind::LBrace)
    } else if c == '}' {
        Some(TokenKind::RBrace)
    } else if c == ';' {
        Some(TokenKind::Semicolon)
    } else if c == ':' {
        Some(TokenKind::Colon)
    } else if c == ',' {
        Some(TokenKind::Comma)
    } else if c == '+' {
        Some(TokenKind::Plus)
    } else if c == '-' {
        Some(TokenKind::Minus)
    } else if c == '*' {
        Some(TokenKind::Times)
    } else if c == '/' {
        Some(TokenKind::Divided)
    } else if c == '>' {
        Some(TokenKind::Gt)
    } else if c == '<' {
        Some(TokenKind::Lt)
    } else if c == '=' {
        Some(TokenKind::Equal)
    } else if c == '[' {
        Some(TokenKind::LBracket)
    } else if c == ']' {
        Some(TokenKind::RBracket)
    } else if c == '(' {
        Some(TokenKind::LPar)
    } else if c == ')' {
        Some(TokenKind::RPar)
    } else if c == '.' {
        Some(TokenKind::Dot)
    } else if c == '@' {
        Some(TokenKind::At)
    } else if c == '$' {
        Some(TokenKind::Dollar)
    } else {
        None
    }
}

/// One outcome of pulling a token.
pub enum LexStep {
    /// Only whitespace was left; the cursor stands at the end.
    End { next: nat },
    /// A token was produced; the cursor stands just past its text.
    Token { t: SpecToken, next: nat },
    /// An unrecognized character stands at `next`.
    Bad { line: nat, column: nat, next: nat },
}

/// Builds the `Token` outcome for a token starting at `p`.
pub open spec fn tok_at(
    input: Seq<char>,
    p: nat,
    kind: TokenKind,
    lexeme: Seq<char>,
    next: nat,
) -> LexStep {
    LexStep::Token {
        t: SpecToken { kind, lexeme, line: line_at(input, p), column: col_at(input, p) },
        next,
    }
}

/// What one call of `Lexer::next_token` does at position `pos`: skip
/// whitespace, then recognize, in this order, a keyword at a word
/// boundary, a single-character token, a string literal, a number, or an
/// identifier.
pub open spec fn lex_step(input: Seq<char>, pos: nat) -> LexStep {
    let p = skip_ws(input, pos);
    if pos >= input.len() || p >= input.len() {
        LexStep::End { next: p }
    } else if kw_matches(input, p, kw_fn()) {
        tok_at(input, p, TokenKind::Fn, kw_fn(), p + kw_fn().len())
    } else if kw_matches(input, p, kw_ret()) {
        tok_at(input, p, TokenKind::Return, kw_ret(), p + kw_ret().len())
    } else if kw_matches(input, p, kw_let()) {
        tok_at(input, p, TokenKind::Let, kw_let(), p + kw_let().len())
    } else if kw_matches(input, p, kw_set()) {
        tok_at(input, p, TokenKind::SetKw, kw_set(), p + kw_set().len())
    } else if kw_matches(input, p, kw_const()) {
        tok_at(input, p, TokenKind::Const, kw_const(), p + kw_const().len())
    } else if kw_matches(input, p, kw_call()) {
        tok_at(input, p, TokenKind::Call, kw_call(), p + kw_call().len())
    } else if kw_matches(input, p, kw_when()) {
        tok_at(input, p, TokenKind::When, kw_when(), p + kw_when().len())
    } else if kw_matches(input, p, kw_orwhen()) {
        tok_at(input, p, TokenKind::OrWhen, kw_orwhen(), p + kw_orwhen().len())
    } else if kw_matches(input, p, kw_or()) {
        tok_at(input, p, TokenKind::Or, kw_or(), p + kw_or().len())
    } else {
        let c = input[p as int];
        match punct_kind(c) {
            Some(k) => tok_at(input, p, k, seq![c], p + 1),
            None => {
                if c == '"' {
                    let q = scan_string(input, p + 1);
                    let next = if q < input.len() {
                        q + 1
                    } else {
                        q
                    };
                    tok_at(
                        input,
                        p,
                        TokenKind::StringLiteral,
                        input.subrange((p + 1) as int, q as int),
                        next,
                    )
                } else if numeric_char(c) {
                    let e = scan_number(input, p + 1);
                    tok_at(input, p, TokenKind::Number, input.subrange(p as int, e as int), e)
                } else if alphabetic_char(c) {
                    let e = scan_ident(input, p + 1);
                    tok_at(input, p, TokenKind::Identifier, input.subrange(p as int, e as int), e)
                } else {
                    LexStep::Bad { line: line_at(input, p), column: col_at(input, p), next: p }
                }
            },
        }
    }
}

/// Lexing terminates exactly at the end of the input: every produced
/// token strictly advances the cursor, the cursor never leaves the
/// buffer, and `End` is reached precisely when nothing but whitespace is
/// left.  Since the cursor is bounded by the input length, repeatedly
/// pulling tokens reaches `End` (that is, `next_token` returns
/// `Ok(None)`) after at most `input.len()` steps.
pub proof fn lemma_lexing_terminates(input: Seq<char>, pos: nat)
    requires
        pos <= input.len(),
    ensures
        match lex_step(input, pos) {
            LexStep::End { next } => next == input.len() && (forall|i: int|
                pos <= i < input.len() ==> whitespace_char(input[i])),
            LexStep::Token { t, next } => pos < next <= input.len(),
            LexStep::Bad { line, column, next } => pos <= next < input.len(),
        },
{
    reveal(kw_matches);
    let p = skip_ws(input, pos);
    lemma_skip_ws(input, pos);
    lemma_kw_lens();
    if p < input.len() {
        let c = input[p as int];
        if punct_kind(c) is None {
            if c == '"' {
                lemma_scan_string(input, p + 1);
            } else if numeric_char(c) {
                lemma_scan_number(input, p + 1);
            } else if alphabetic_char(c) {
                lemma_scan_ident(input, p + 1);
            }
        }
    }
}


// ------------------------------------------------------------------
// The executable lexer
// ------------------------------------------------------------------

/// Stateless sequence production over an immutable character buffer: a
/// cursor position plus the line and column it stands at.
pub struct Lexer {
    pub input: String,
    pub position: usize,
    pub line: usize,
    pub column: usize,
}

impl Lexer {
    /// The character buffer.
    pub open spec fn src(&self) -> Seq<char> {
        self.input@
    }

    /// The cursor position, in characters.
    pub open spec fn pos(&self) -> nat {
        self.position as nat
    }

    /// Well-formedness: the cursor is inside the buffer and the line and
    /// column fields agree with its position.
    pub open spec fn wf(&self) -> bool {
        &&& self.input@.len() < usize::MAX
        &&& self.position <= self.input@.len()
        &&& self.line == line_at(self.input@, self.position as nat)
        &&& self.column == col_at(self.input@, self.position as nat)
    }

    /// Creates a lexer at the start of `input`.  The length bound is a
    /// machine limit: line and column numbers are tracked in `usize`.
    pub fn new(input: String) -> (r: Lexer)
        requires
            input@.len() < usize::MAX,
        ensures
            r.wf(),
            r.src() == input@,
            r.pos() == 0,
    {
        proof {
            reveal(line_at);
            reveal(col_at);
        }
        Lexer { input, position: 0, line: 1, column: 1 }
    }

    fn input_len(&self) -> (n: usize)
        ensures
            n == self.src().len(),
    {
        self.input.as_str().unicode_len()
    }

    /// Moves the cursor `n` characters forward (stopping at the end of the
    /// buffer), keeping line and column in step.
    fn advance(&mut self, n: usize)
        requires
            old(self).wf(),
        ensures
            final(self).wf(),
            final(self).src() == old(self).src(),
            old(self).pos() + n <= old(self).src().len() ==> final(self).pos() == old(self).pos()
                + n,
            old(self).pos() + n > old(self).src().len() ==> final(self).pos() == old(
                self,
            ).src().len(),
    {
        let len = self.input_len();
        let mut i: usize = 0;
        while i < n && self.position < len
            invariant
                self.wf(),
                self.src() == old(self).src(),
                len == self.src().len(),
                i <= n,
                self.pos() == old(self).pos() + i,
            decreases n - i,
        {
            let c = self.input.as_str().get_char(self.position);
            proof {
                reveal(line_at);
                reveal(col_at);
                lemma_line_col_bounds(self.src(), self.pos());
            }
            if c == '\n' {
                self.line = self.line + 1;
                self.column = 1;
            } else {
                self.column = self.column + 1;
            }
            self.position = self.position + 1;
            i = i + 1;
        }
    }

    /// Moves the cursor past the run of whitespace it stands on.
    fn skip_whitespace(&mut self)
        requires
            old(self).wf(),
        ensures
            final(self).wf(),
            final(self).src() == old(self).src(),
            final(self).pos() == skip_ws(old(self).src(), old(self).pos()),
    {
        proof {
            reveal(skip_ws);
        }
        let len = self.input_len();
        while self.position < len && self.input.as_str().get_char(self.position).is_whitespace()
            invariant
                self.wf(),
                self.src() == old(self).src(),
                len == self.src().len(),
                skip_ws(self.src(), old(self).pos()) == skip_ws(self.src(), self.pos()),
            decreases len - self.position,
        {
            proof {
                reveal(skip_ws);
            }
            self.advance(1);
        }
        proof {
            reveal(skip_ws);
        }
    }

    /// Whether `kw` stands at the cursor and ends at a word boundary.
    fn lookup_ahead(&self, kw: &str) -> (r: bool)
        requires
            self.wf(),
        ensures
            r == kw_matches(self.src(), self.pos(), kw@),
    {
        proof {
            reveal(kw_matches);
        }
        let len = self.input_len();
        let klen = kw.unicode_len();
        if klen > len - self.position {
            return false;
        }
        let mut i: usize = 0;
        while i < klen
            invariant
                self.wf(),
                i <= klen,
                klen == kw@.len(),
                len == self.src().len(),
                self.position + klen <= len,
                forall|j: int| 0 <= j < i ==> self.src()[self.position + j] == kw@[j],
            decreases klen - i,
        {
            if self.input.as_str().get_char(self.position + i) != kw.get_char(i) {
                proof {
                    reveal(kw_matches);
                    assert(self.src().subrange(
                        self.pos() as int,
                        (self.pos() + kw@.len()) as int,
                    )[i as int] == self.src()[self.pos() + i]);
                }
                return false;
            }
            i = i + 1;
        }
        proof {
            reveal(kw_matches);
            assert(self.src().subrange(self.pos() as int, (self.pos() + kw@.len()) as int) =~= kw@);
        }
        if self.position + klen == len {
            true
        } else {
            !self.input.as_str().get_char(self.position + klen).is_alphanumeric()
        }
    }

    /// Whether `c` may continue an identifier.
    fn is_ident_char(c: char) -> (r: bool)
        ensures
            r == ident_char(c),
    {
        c.is_alphanumeric() || c == '_'
    }

    /// Advances past `lexeme` and packages it as a token that started at
    /// `line`/`column`.
    fn new_token(&mut self, kind: TokenKind, lexeme: &str, line: usize, column: usize) -> (t:
        Token)
        requires
            old(self).wf(),
            old(self).pos() + lexeme@.len() <= old(self).src().len(),
        ensures
            final(self).wf(),
            final(self).src() == old(self).src(),
            final(self).pos() == old(self).pos() + lexeme@.len(),
            t@ == (SpecToken {
                kind,
                lexeme: lexeme@,
                line: line as nat,
                column: column as nat,
            }),
    {
        let n = lexeme.unicode_len();
        self.advance(n);
        Token { kind, lexeme: lexeme.to_owned(), line, column }
    }

    /// Pulls the next token, or `Ok(None)` at the end of the input, or a
    /// `LexError` on an unrecognized character: exactly what
    /// [`lex_step`] describes at the current position.
    pub fn next_token(&mut self) -> (r: Result<Option<Token>, TranspileError>)
        requires
            old(self).wf(),
        ensures
            final(self).wf(),
            final(self).src() == old(self).src(),
            old(self).pos() <= final(self).pos(),
            match lex_step(old(self).src(), old(self).pos()) {
                LexStep::End { next } => (match r {
                    Ok(opt) => opt is None,
                    _ => false,
                }) && final(self).pos() == next,
                LexStep::Token { t, next } => (match r {
                    Ok(Some(tok)) => tok@ == t,
                    _ => false,
                }) && final(self).pos() == next,
                LexStep::Bad { line, column, next } => (match r {
                    Err(e) => e@ == (SpecTranspileError::LexError { line, column }),
                    _ => false,
                }) && final(self).pos() == next,
            },
    {
        proof {
            reveal(kw_matches);
            reveal(punct_kind);
            reveal(scan_string);
            reveal(scan_number);
            reveal(scan_ident);
            lemma_skip_ws(self.src(), self.pos());
            lemma_kw_lens();
        }
        self.skip_whitespace();
        let len = self.input_len();
        let line = self.line;
        let column = self.column;
        if self.position == len {
            return Ok(None);
        }
        if self.lookup_ahead("fn") {
            return Ok(Some(self.new_token(TokenKind::Fn, "fn", line, column)));
        }
        if self.lookup_ahead("ret") {
            return Ok(Some(self.new_token(TokenKind::Return, "ret", line, column)));
        }
        if self.lookup_ahead("let") {
            return Ok(Some(self.new_token(TokenKind::Let, "let", line, column)));
        }
        if self.lookup_ahead("set") {
            return Ok(Some(self.new_token(TokenKind::SetKw, "set", line, column)));
        }
        if self.lookup_ahead("const") {
            return Ok(Some(self.new_token(TokenKind::Const, "const", line, column)));
        }
        if self.lookup_ahead("call") {
            return Ok(Some(self.new_token(TokenKind::Call, "call", line, column)));
        }
        if self.lookup_ahead("when") {
            return Ok(Some(self.new_token(TokenKind::When, "when", line, column)));
        }
        if self.lookup_ahead("orwhen") {
            return Ok(Some(self.new_token(TokenKind::OrWhen, "orwhen", line, column)));
        }
        if self.lookup_ahead("or") {
            return Ok(Some(self.new_token(TokenKind::Or, "or", line, column)));
        }
        let c = self.input.as_str().get_char(self.position);
        let kind_opt = match c {
            '{' => Some(TokenKind::LBrace),
            '}' => Some(TokenKind::RBrace),
            ';' => Some(TokenKind::Semicolon),
            ':' => Some(TokenKind::Colon),
            ',' => Some(TokenKind::Comma),
            '+' => Some(TokenKind::Plus),
            '-' => Some(TokenKind::Minus),
            '*' => Some(TokenKind::Times),
            '/' => Some(TokenKind::Divided),
            '>' => Some(TokenKind::Gt),
            '<' => Some(TokenKind::Lt),
            '=' => Some(TokenKind::Equal),
            '[' => Some(TokenKind::LBracket),
            ']' => Some(TokenKind::RBracket),
            '(' => Some(TokenKind::LPar),
            ')' => Some(TokenKind::RPar),
            '.' => Some(TokenKind::Dot),
            '@' => Some(TokenKind::At),
            '$' => Some(TokenKind::Dollar),
            _ => None,
        };
        if let Some(kind) = kind_opt {
            let lex = self.input.as_str().substring_char(
                self.position,
                self.position + 1,
            ).to_owned();
            proof {
                assert(self.src().subrange(self.pos() as int, self.pos() + 1int) =~= seq![c]);
            }
            return Ok(Some(self.new_token(kind, lex.as_str(), line, column)));
        }
        if c == '"' {
            let mut q = self.position + 1;
            while q < len && self.input.as_str().get_char(q) != '"'
                invariant
                    self.wf(),
                    len == self.src().len(),
                    self.position + 1 <= q <= len,
                    self.position < len,
                    scan_string(self.src(), (self.position + 1) as nat) == scan_string(
                        self.src(),
                        q as nat,
                    ),
                decreases len - q,
            {
                proof {
                    reveal(scan_string);
                }
                q = q + 1;
            }
            let content = self.input.as_str().substring_char(self.position + 1, q).to_owned();
            let next = if q < len {
                q + 1
            } else {
                q
            };
            let dist = next - self.position;
            self.advance(dist);
            return Ok(
                Some(Token { kind: TokenKind::StringLiteral, lexeme: content, line, column }),
            );
        }
        if c.is_numeric() {
            let mut e = self.position + 1;
            while e < len && self.input.as_str().get_char(e).is_numeric()
                invariant
                    self.wf(),
                    len == self.src().len(),
                    self.position + 1 <= e <= len,
                    self.position < len,
                    scan_number(self.src(), (self.position + 1) as nat) == scan_number(
                        self.src(),
                        e as nat,
                    ),
                decreases len - e,
            {
                proof {
                    reveal(scan_number);
                }
                e = e + 1;
            }
            let lexm = self.input.as_str().substring_char(self.position, e).to_owned();
            let dist = e - self.position;
            self.advance(dist);
            return Ok(Some(Token { kind: TokenKind::Number, lexeme: lexm, line, column }));
        }
        if c.is_alphabetic() {
            let mut e = self.position + 1;
            while e < len && Lexer::is_ident_char(self.input.as_str().get_char(e))
                invariant
                    self.wf(),
                    len == self.src().len(),
                    self.position + 1 <= e <= len,
                    self.position < len,
                    scan_ident(self.src(), (self.position + 1) as nat) == scan_ident(
                        self.src(),
                        e as nat,
                    ),
                decreases len - e,
            {
                proof {
                    reveal(scan_ident);
                }
                e = e + 1;
            }
            let lexm = self.input.as_str().substring_char(self.position, e).to_owned();
            let dist = e - self.position;
            self.advance(dist);
            return Ok(Some(Token { kind: TokenKind::Identifier, lexeme: lexm, line, column }));
        }
        Err(TranspileError::LexError { line, column })
    }
}


/// The source text is reconstructible from what lexing consumes: the span
/// a step consumes is the skipped whitespace followed by the token's
/// lexeme, where a string literal's lexeme is re-quoted (the closing
/// quote is present exactly when the literal is terminated before the end
/// of the input).
pub proof fn lemma_lexing_reconstructs(input: Seq<char>, pos: nat)
    requires
        pos <= input.len(),
    ensures
        match lex_step(input, pos) {
            LexStep::Token { t, next } => {
                let p = skip_ws(input, pos);
                let q = scan_string(input, p + 1);
                &&& pos <= p <= next <= input.len()
                &&& (forall|i: int| pos <= i < p ==> whitespace_char(input[i]))
                &&& (t.kind != TokenKind::StringLiteral ==> input.subrange(p as int, next as int)
                    == t.lexeme)
                &&& (t.kind == TokenKind::StringLiteral && q < input.len() ==> input.subrange(
                    p as int,
                    next as int,
                ) == seq!['"'] + t.lexeme + seq!['"'])
                &&& (t.kind == TokenKind::StringLiteral && q >= input.len() ==> input.subrange(
                    p as int,
                    next as int,
                ) == seq!['"'] + t.lexeme)
            },
            _ => true,
        },
{
    reveal(kw_matches);
    reveal(punct_kind);
    reveal(scan_string);
    reveal(scan_number);
    reveal(scan_ident);
    let p = skip_ws(input, pos);
    lemma_skip_ws(input, pos);
    lemma_kw_lens();
    if p < input.len() {
        let c = input[p as int];
        if punct_kind(c) is Some {
            assert(input.subrange(p as int, p + 1int) =~= seq![c]);
        } else if c == '"' {
            let q = scan_string(input, p + 1);
            lemma_scan_string(input, p + 1);
            let lexeme = input.subrange((p + 1) as int, q as int);
            if q < input.len() {
                assert(input.subrange(p as int, (q + 1) as int) =~= seq!['"'] + lexeme
                    + seq!['"']);
            } else {
                assert(input.subrange(p as int, q as int) =~= seq!['"'] + lexeme);
            }
        } else if numeric_char(c) {
            lemma_scan_number(input, p + 1);
        } else if alphabetic_char(c) {
            lemma_scan_ident(input, p + 1);
        }
    }
}

} // verus!
