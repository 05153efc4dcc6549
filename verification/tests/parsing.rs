use whenlang::ast::ASTNode;
use whenlang::ast::Expression;
use whenlang::ast::Operator;
use whenlang::ast::Value;
use whenlang::ast::Variable;
use whenlang::lexer::Lexer;
use whenlang::parser::Parser;
use whenlang::transpiler::Transpiler;

fn parse(src: &str) -> Vec<ASTNode> {
    let mut parser = Parser::new(Lexer::new(String::from(src)));
    parser.parse(false).expect("program should parse")
}

#[test]
fn main_function_parses_to_expected_tree() {
    let nodes = parse("fn main { let {a: 25, b: 30}; ret +{a, b}; }");
    let expected = vec![ASTNode::FunctionDeclaration {
        start: 1,
        name: String::from("main"),
        parameters: vec![],
        content: vec![
            ASTNode::VariableDeclaration {
                start: 11,
                vars: vec![
                    Variable(String::from("a"), Expression::Value(Value::Number(25))),
                    Variable(String::from("b"), Expression::Value(Value::Number(30))),
                ],
            },
            ASTNode::ReturnExpression {
                start: 31,
                expression: Expression::Binary {
                    left: Box::new(Expression::Identifier(String::from("a"))),
                    op: Operator::Plus,
                    right: Box::new(Expression::Identifier(String::from("b"))),
                },
            },
        ],
    }];
    assert_eq!(nodes, expected);
}

#[test]
fn array_index_parses_to_expected_tree() {
    let nodes = parse("ret @{arr, 0};");
    let expected = vec![ASTNode::ReturnExpression {
        start: 1,
        expression: Expression::ArrayIndex {
            array: Box::new(Expression::Identifier(String::from("arr"))),
            index: Box::new(Expression::Value(Value::Number(0))),
        },
    }];
    assert_eq!(nodes, expected);
}

#[test]
fn array_index_expression_transpiles_to_brackets() {
    let expr = Expression::ArrayIndex {
        array: Box::new(Expression::Identifier(String::from("arr"))),
        index: Box::new(Expression::Value(Value::Number(0))),
    };
    assert_eq!(Transpiler::transpile_expression(&expr), "arr[0]");
}

#[test]
fn dollar_statement_parses_to_one_argument_call() {
    let nodes = parse("${f: x};");
    let expected = vec![ASTNode::Expression(Expression::FunctionCall {
        function: Box::new(Expression::Identifier(String::from("f"))),
        parameters: vec![Expression::Identifier(String::from("x"))],
    })];
    assert_eq!(nodes, expected);
}

#[test]
fn parse_stops_at_closing_brace_when_asked() {
    let mut parser = Parser::new(Lexer::new(String::from("ret 1; } ret 2;")));
    let inner = parser.parse(true).expect("block should parse");
    assert_eq!(inner.len(), 1);
    let rest = parser.parse(false).expect("rest should parse");
    assert_eq!(rest.len(), 1);
}

#[test]
fn semicolons_are_no_op_statements() {
    let nodes = parse(";;; ret 1; ;;");
    assert_eq!(nodes.len(), 1);
}

#[test]
fn transpile_node_renders_a_single_statement() {
    let node = ASTNode::ReturnExpression {
        start: 1,
        expression: Expression::Value(Value::Number(-5)),
    };
    assert_eq!(Transpiler::transpile_node(&node), "return -5;");
}

#[test]
fn transpile_block_appends_line_breaks() {
    let nodes = vec![
        ASTNode::Expression(Expression::Identifier(String::from("a"))),
        ASTNode::Expression(Expression::Identifier(String::from("b"))),
    ];
    assert_eq!(Transpiler::transpile_block(&nodes), "a;\nb;\n");
    let empty: Vec<ASTNode> = vec![];
    assert_eq!(Transpiler::transpile_block(&empty), "");
}

#[test]
fn transpiler_renders_negative_numbers() {
    let t = Transpiler::new(vec![ASTNode::Expression(Expression::Value(Value::Number(
        -32768,
    )))]);
    assert_eq!(t.transpile(), "-32768;");
}

#[test]
fn when_chain_parses_to_adjacent_nodes() {
    let nodes = parse("when: {a} { } orwhen: {b} { } or { }");
    assert_eq!(nodes.len(), 3);
    assert!(matches!(nodes[0], ASTNode::WhenExpression { .. }));
    assert!(matches!(nodes[1], ASTNode::OrWhenExpression { .. }));
    assert!(matches!(nodes[2], ASTNode::OrExpression { .. }));
}
