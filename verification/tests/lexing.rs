use whenlang::lexer::Lexer;
use whenlang::lexer::Token;
use whenlang::lexer::TokenKind;

fn lex_all(src: &str) -> Vec<Token> {
    let mut lexer = Lexer::new(String::from(src));
    let mut tokens = Vec::new();
    while let Some(tok) = lexer.next_token().expect("no lex error expected") {
        tokens.push(tok);
    }
    tokens
}

#[test]
fn orwhenever_is_a_single_identifier() {
    let tokens = lex_all("orwhenever");
    assert_eq!(tokens.len(), 1);
    assert_eq!(tokens[0].kind, TokenKind::Identifier);
    assert_eq!(tokens[0].lexeme, "orwhenever");
}

#[test]
fn keyword_at_word_boundary_is_recognized() {
    let tokens = lex_all("orwhen ever");
    assert_eq!(tokens.len(), 2);
    assert_eq!(tokens[0].kind, TokenKind::OrWhen);
    assert_eq!(tokens[0].lexeme, "orwhen");
    assert_eq!(tokens[1].kind, TokenKind::Identifier);
    assert_eq!(tokens[1].lexeme, "ever");
}

#[test]
fn forward_is_not_fn_plus_orward() {
    let tokens = lex_all("forward");
    assert_eq!(tokens.len(), 1);
    assert_eq!(tokens[0].kind, TokenKind::Identifier);
    assert_eq!(tokens[0].lexeme, "forward");
}

#[test]
fn every_keyword_lexes() {
    let kinds: Vec<TokenKind> = lex_all("fn ret let set const call when orwhen or")
        .into_iter()
        .map(|t| t.kind)
        .collect();
    assert_eq!(
        kinds,
        vec![
            TokenKind::Fn,
            TokenKind::Return,
            TokenKind::Let,
            TokenKind::SetKw,
            TokenKind::Const,
            TokenKind::Call,
            TokenKind::When,
            TokenKind::OrWhen,
            TokenKind::Or,
        ]
    );
}

#[test]
fn keyword_at_end_of_input_is_recognized() {
    let tokens = lex_all("ret");
    assert_eq!(tokens.len(), 1);
    assert_eq!(tokens[0].kind, TokenKind::Return);
}

#[test]
fn punctuation_lexes_by_exact_character() {
    let kinds: Vec<TokenKind> = lex_all("{ } [ ] ( ) : , ; . @ $ + - * / > < =")
        .into_iter()
        .map(|t| t.kind)
        .collect();
    assert_eq!(
        kinds,
        vec![
            TokenKind::LBrace,
            TokenKind::RBrace,
            TokenKind::LBracket,
            TokenKind::RBracket,
            TokenKind::LPar,
            TokenKind::RPar,
            TokenKind::Colon,
            TokenKind::Comma,
            TokenKind::Semicolon,
            TokenKind::Dot,
            TokenKind::At,
            TokenKind::Dollar,
            TokenKind::Plus,
            TokenKind::Minus,
            TokenKind::Times,
            TokenKind::Divided,
            TokenKind::Gt,
            TokenKind::Lt,
            TokenKind::Equal,
        ]
    );
}

#[test]
fn string_literal_content_is_verbatim() {
    let tokens = lex_all("\"a { } ; b\"");
    assert_eq!(tokens.len(), 1);
    assert_eq!(tokens[0].kind, TokenKind::StringLiteral);
    assert_eq!(tokens[0].lexeme, "a { } ; b");
}

#[test]
fn number_lexes_consecutive_digits() {
    let tokens = lex_all("123 45");
    assert_eq!(tokens.len(), 2);
    assert_eq!(tokens[0].lexeme, "123");
    assert_eq!(tokens[1].lexeme, "45");
    assert_eq!(tokens[0].kind, TokenKind::Number);
}

#[test]
fn identifier_allows_digits_and_underscores_after_first() {
    let tokens = lex_all("a1_b");
    assert_eq!(tokens.len(), 1);
    assert_eq!(tokens[0].kind, TokenKind::Identifier);
    assert_eq!(tokens[0].lexeme, "a1_b");
}

#[test]
fn tokens_carry_line_and_column_of_first_character() {
    let tokens = lex_all("ab\n  cd");
    assert_eq!(tokens.len(), 2);
    assert_eq!((tokens[0].line, tokens[0].column), (1, 1));
    assert_eq!((tokens[1].line, tokens[1].column), (2, 3));
}

#[test]
fn lexing_terminates_exactly_at_end_of_input() {
    let mut lexer = Lexer::new(String::from("let {a: 1}  "));
    let mut count = 0;
    while lexer.next_token().unwrap().is_some() {
        count += 1;
    }
    assert_eq!(count, 6);
    assert!(lexer.next_token().unwrap().is_none());
}

#[test]
fn consumed_lexemes_plus_whitespace_reconstruct_the_source() {
    let src = "fn main { ret +{a, 25}; }";
    let tokens = lex_all(src);
    let mut rebuilt = String::new();
    let mut chars: Vec<char> = Vec::new();
    for c in src.chars() {
        chars.push(c);
    }
    let mut pos = 0;
    for tok in &tokens {
        while pos < chars.len() && chars[pos].is_whitespace() {
            rebuilt.push(chars[pos]);
            pos += 1;
        }
        rebuilt.push_str(&tok.lexeme);
        pos += tok.lexeme.chars().count();
    }
    assert_eq!(rebuilt, src);
}

#[test]
fn unexpected_character_stops_lexing() {
    let mut lexer = Lexer::new(String::from("ab ?"));
    assert!(lexer.next_token().unwrap().is_some());
    assert!(lexer.next_token().is_err());
}

#[test]
fn unterminated_string_takes_the_rest_of_the_input() {
    let tokens = lex_all("\"abc");
    assert_eq!(tokens.len(), 1);
    assert_eq!(tokens[0].kind, TokenKind::StringLiteral);
    assert_eq!(tokens[0].lexeme, "abc");
}

#[test]
fn reconstruction_requotes_string_literals() {
    let src = "let {x: \"a b\"} ;";
    let tokens = lex_all(src);
    let mut rebuilt = String::new();
    let mut chars: Vec<char> = Vec::new();
    for c in src.chars() {
        chars.push(c);
    }
    let mut pos = 0;
    for tok in &tokens {
        while pos < chars.len() && chars[pos].is_whitespace() {
            rebuilt.push(chars[pos]);
            pos += 1;
        }
        if tok.kind == TokenKind::StringLiteral {
            rebuilt.push('"');
            rebuilt.push_str(&tok.lexeme);
            rebuilt.push('"');
            pos += tok.lexeme.chars().count() + 2;
        } else {
            rebuilt.push_str(&tok.lexeme);
            pos += tok.lexeme.chars().count();
        }
    }
    assert_eq!(rebuilt, src);
}
