use whenlang::error::TranspileError;
use whenlang::transpile;

fn run(src: &str) -> Result<String, TranspileError> {
    transpile(String::from(src))
}

fn ok(src: &str) -> String {
    run(src).expect("program should transpile")
}

#[test]
fn empty_input_gives_empty_output() {
    assert_eq!(ok(""), "");
}

#[test]
fn whitespace_only_gives_empty_output() {
    assert_eq!(ok("  \n\t  "), "");
}

#[test]
fn main_function_with_let_and_return() {
    let out = ok("fn main { let {a: 25, b: 30}; ret +{a, b}; }");
    assert_eq!(out, "function main() {\nlet a=25,b=30;\nreturn (a+b);\n}");
}

#[test]
fn string_value_keeps_quotes() {
    assert_eq!(ok("let {x: \"hi\"}"), "let x=\"hi\";");
}

#[test]
fn string_value_with_spaces() {
    assert_eq!(ok("let {x: \"a b c\"}"), "let x=\"a b c\";");
}

#[test]
fn numeric_overflow_is_reported() {
    match run("let {x: 40000}") {
        Err(TranspileError::NumericOverflow { line, column, lexeme }) => {
            assert_eq!(line, 1);
            assert_eq!(column, 9);
            assert_eq!(lexeme, "40000");
        },
        other => panic!("expected NumericOverflow, got {:?}", other),
    }
}

#[test]
fn largest_number_fits() {
    assert_eq!(ok("ret 32767;"), "return 32767;");
}

#[test]
fn smallest_overflow_is_rejected() {
    assert!(matches!(
        run("ret 32768;"),
        Err(TranspileError::NumericOverflow { .. })
    ));
}

#[test]
fn leading_zeros_render_as_value() {
    assert_eq!(ok("ret 007;"), "return 7;");
}

#[test]
fn array_index_transpiles_to_brackets() {
    assert_eq!(ok("ret @{arr, 0};"), "return arr[0];");
}

#[test]
fn property_access_transpiles_to_dot() {
    assert_eq!(ok("ret .{obj, name};"), "return obj.name;");
}

#[test]
fn each_operator_renders() {
    assert_eq!(ok("ret +{a, b};"), "return (a+b);");
    assert_eq!(ok("ret -{a, b};"), "return (a-b);");
    assert_eq!(ok("ret *{a, b};"), "return (a*b);");
    assert_eq!(ok("ret /{a, b};"), "return (a/b);");
    assert_eq!(ok("ret >{a, b};"), "return (a>b);");
    assert_eq!(ok("ret <{a, b};"), "return (a<b);");
}

#[test]
fn equal_operator_renders_as_comparison() {
    assert_eq!(ok("ret ={a, b};"), "return (a==b);");
}

#[test]
fn nested_operators_render() {
    assert_eq!(ok("ret +{*{a, b}, 2};"), "return ((a*b)+2);");
}

#[test]
fn dollar_call_is_a_one_argument_call() {
    assert_eq!(ok("${f: x};"), "f(x);");
}

#[test]
fn dollar_call_with_empty_object_collapses() {
    assert_eq!(ok("${f: ()};"), "f();");
}

#[test]
fn call_statement_takes_variadic_arguments() {
    assert_eq!(ok("call {f: {1, 2, 3}}"), "f(1,2,3);");
}

#[test]
fn call_statement_with_no_arguments() {
    assert_eq!(ok("call {f: {}}"), "f();");
}

#[test]
fn array_literal_renders() {
    assert_eq!(ok("let {a: [1, 2, 3]}"), "let a=[1,2,3];");
}

#[test]
fn empty_array_literal_renders() {
    assert_eq!(ok("let {a: []}"), "let a=[];");
}

#[test]
fn object_literal_keeps_declared_order() {
    assert_eq!(ok("let {o: (a: 1, b: \"s\")}"), "let o={a: 1,b: \"s\"};");
}

#[test]
fn repeated_object_key_keeps_last_value_in_place() {
    assert_eq!(ok("let {o: (a: 1, b: 2, a: 3)}"), "let o={a: 3,b: 2};");
}

#[test]
fn set_statement_is_semicolon_joined() {
    assert_eq!(ok("set {a: 1, b: 2}"), "a=1;b=2;");
}

#[test]
fn const_statement_is_comma_joined() {
    assert_eq!(ok("const {a: 1, b: 2}"), "const a=1,b=2;");
}

#[test]
fn when_orwhen_or_chain_transpiles_to_if_chain() {
    let out = ok("when: {a} { ret 1; } orwhen: {b} { ret 2; } or { ret 3; }");
    assert_eq!(
        out,
        "if (a) {\nreturn 1;\n}\nelse if (b) {\nreturn 2;\n}\nelse {\nreturn 3;\n}"
    );
}

#[test]
fn bare_when_transpiles_to_bare_if() {
    assert_eq!(ok("when: {a} { ret 1; }"), "if (a) {\nreturn 1;\n}");
}

#[test]
fn statement_between_when_and_orwhen_breaks_the_chain() {
    let out = ok("when: {a} { ret 1; } let {x: 2}; orwhen: {b} { ret 2; }");
    assert_eq!(
        out,
        "if (a) {\nreturn 1;\n}\nlet x=2;\nelse if (b) {\nreturn 2;\n}"
    );
}

#[test]
fn one_function_per_fn_in_declaration_order() {
    let out = ok("fn first { ret 1; } fn second { ret 2; }");
    assert_eq!(
        out,
        "function first() {\nreturn 1;\n}\nfunction second() {\nreturn 2;\n}"
    );
    let head = out.find("function first").unwrap();
    let tail = out.find("function second").unwrap();
    assert!(head < tail);
    assert_eq!(out.matches("function ").count(), 2);
}

#[test]
fn function_with_parameters() {
    let out = ok("fn add: {a, b} { ret +{a, b}; }");
    assert_eq!(out, "function add(a,b) {\nreturn (a+b);\n}");
}

#[test]
fn empty_function_body() {
    assert_eq!(ok("fn f { }"), "function f() {\n}");
}

#[test]
fn conditional_inside_function() {
    let out = ok("fn f { when: {x} { ret 1; } }");
    assert_eq!(out, "function f() {\nif (x) {\nreturn 1;\n}\n}");
}

#[test]
fn nested_function_declarations() {
    let out = ok("fn outer { fn inner { ret 1; } }");
    assert_eq!(out, "function outer() {\nfunction inner() {\nreturn 1;\n}\n}");
}

#[test]
fn unexpected_character_is_a_lex_error() {
    match run("#") {
        Err(TranspileError::LexError { line, column }) => {
            assert_eq!(line, 1);
            assert_eq!(column, 1);
        },
        other => panic!("expected LexError, got {:?}", other),
    }
}

#[test]
fn lex_error_carries_line_and_column() {
    match run("let {x: 1}\n  #") {
        Err(TranspileError::LexError { line, column }) => {
            assert_eq!(line, 2);
            assert_eq!(column, 3);
        },
        other => panic!("expected LexError, got {:?}", other),
    }
}

#[test]
fn missing_identifier_after_fn_is_a_parse_error() {
    match run("fn 5") {
        Err(TranspileError::ParseError { line, column, lexeme }) => {
            assert_eq!(line, 1);
            assert_eq!(column, 4);
            assert_eq!(lexeme, "5");
        },
        other => panic!("expected ParseError, got {:?}", other),
    }
}

#[test]
fn missing_brace_after_let_is_a_parse_error() {
    assert!(matches!(
        run("let x"),
        Err(TranspileError::ParseError { .. })
    ));
}

#[test]
fn unterminated_var_block_is_a_parse_error() {
    match run("let {x: 1") {
        Err(TranspileError::ParseError { lexeme, .. }) => {
            assert_eq!(lexeme, "");
        },
        other => panic!("expected ParseError at end of input, got {:?}", other),
    }
}

#[test]
fn stray_closing_brace_is_skipped() {
    assert_eq!(ok("} let {a: 1}"), "let a=1;");
}

#[test]
fn error_descriptions_name_the_failure() {
    let lex = run("#").unwrap_err();
    assert_eq!(lex.describe(), "unexpected character");
    let parse = run("fn 5").unwrap_err();
    assert_eq!(parse.describe(), "unexpected token");
    let overflow = run("ret 40000;").unwrap_err();
    assert_eq!(overflow.describe(), "numeric literal out of range");
}
