//! Abstract syntax of the source language, together with the mathematical
//! mirror types (`Spec*`) that contracts and proofs speak about.
//!
//! Every executable type has a view function mapping it to its mirror:
//! strings become `Seq<char>`, vectors become `Seq`, and machine integers
//! become unbounded integers.

use vstd::prelude::*;

verus! {

/// A literal value: either a string literal or a 16-bit signed number.
#[derive(Debug, PartialEq)]
pub enum Value {
    Literal(String),
    Number(i16),
}

/// One `name: initializer` binding of a `let`, `set` or `const` statement.
#[derive(Debug, PartialEq)]
pub struct Variable(pub String, pub Expression);

/// The binary operators of the source language.  The grammar is fully
/// prefix (`+{a, b}`), so there are no precedence levels.
#[derive(Debug, PartialEq, Eq, Clone, Copy, Structural)]
pub enum Operator {
    Plus,
    Minus,
    Times,
    Divided,
    Gt,
    Lt,
    Equal,
}

/// One `key: value` entry of an object literal.  Entries keep their source
/// order; the parser keeps keys unique by updating the entry of a repeated
/// key in place.
#[derive(Debug, PartialEq)]
pub struct ObjectEntry {
    pub key: String,
    pub value: Expression,
}

/// An expression tree.  Ownership is strictly tree-shaped: every
/// sub-expression has exactly one parent.
#[derive(Debug, PartialEq)]
pub enum Expression {
    Value(Value),
    Identifier(String),
    Binary { left: Box<Expression>, op: Operator, right: Box<Expression> },
    FunctionCall { function: Box<Expression>, parameters: Vec<Expression> },
    ArrayExpression(Vec<Expression>),
    ObjectExpression(Vec<ObjectEntry>),
    PropertyAccess { object: String, property: Box<Expression> },
    ArrayIndex { array: Box<Expression>, index: Box<Expression> },
}

/// A statement.  `start` is the column of the statement's leading keyword,
/// kept for diagnostics only.
#[derive(Debug, PartialEq)]
pub enum ASTNode {
    FunctionDeclaration {
        start: usize,
        name: String,
        parameters: Vec<String>,
        content: Vec<ASTNode>,
    },
    VariableDeclaration { start: usize, vars: Vec<Variable> },
    ConstDeclaration { start: usize, vars: Vec<Variable> },
    VariableSetting { start: usize, vars: Vec<Variable> },
    ReturnExpression { start: usize, expression: Expression },
    Expression(Expression),
    WhenExpression { start: usize, expression: Expression, content: Vec<ASTNode> },
    OrWhenExpression { start: usize, expression: Expression, content: Vec<ASTNode> },
    OrExpression { start: usize, content: Vec<ASTNode> },
}

// ------------------------------------------------------------------
// Mathematical mirrors
// ------------------------------------------------------------------

pub enum SpecValue {
    Literal(Seq<char>),
    Number(int),
}

pub struct SpecVariable {
    pub name: Seq<char>,
    pub init: SpecExpression,
}

pub struct SpecEntry {
    pub key: Seq<char>,
    pub value: SpecExpression,
}

pub enum SpecExpression {
    Value(SpecValue),
    Identifier(Seq<char>),
    Binary { left: Box<SpecExpression>, op: Operator, right: Box<SpecExpression> },
    FunctionCall { function: Box<SpecExpression>, parameters: Seq<SpecExpression> },
    ArrayExpression(Seq<SpecExpression>),
    ObjectExpression(Seq<SpecEntry>),
    PropertyAccess { object: Seq<char>, property: Box<SpecExpression> },
    ArrayIndex { array: Box<SpecExpression>, index: Box<SpecExpression> },
}

pub enum SpecNode {
    FunctionDeclaration {
        start: nat,
        name: Seq<char>,
        parameters: Seq<Seq<char>>,
        content: Seq<SpecNode>,
    },
    VariableDeclaration { start: nat, vars: Seq<SpecVariable> },
    ConstDeclaration { start: nat, vars: Seq<SpecVariable> },
    VariableSetting { start: nat, vars: Seq<SpecVariable> },
    ReturnExpression { start: nat, expression: SpecExpression },
    Expression(SpecExpression),
    WhenExpression { start: nat, expression: SpecExpression, content: Seq<SpecNode> },
    OrWhenExpression { start: nat, expression: SpecExpression, content: Seq<SpecNode> },
    OrExpression { start: nat, content: Seq<SpecNode> },
}

// ------------------------------------------------------------------
// View functions
// ------------------------------------------------------------------

pub open spec fn view_value(v: Value) -> SpecValue {
    match v {
        Value::Literal(s) => SpecValue::Literal(s@),
        Value::Number(n) => SpecValue::Number(n as int),
    }
}

pub open spec fn view_expression(e: Expression) -> SpecExpression
    decreases e, 0int,
{
    match e {
        Expression::Value(v) => SpecExpression::Value(view_value(v)),
        Expression::Identifier(s) => SpecExpression::Identifier(s@),
        Expression::Binary { left, op, right } => SpecExpression::Binary {
            left: Box::new(view_expression(*left)),
            op,
            right: Box::new(view_expression(*right)),
        },
        Expression::FunctionCall { function, parameters } => SpecExpression::FunctionCall {
            function: Box::new(view_expression(*function)),
            parameters: view_exprs(parameters@),
        },
        Expression::ArrayExpression(items) => SpecExpression::ArrayExpression(view_exprs(items@)),
        Expression::ObjectExpression(entries) => SpecExpression::ObjectExpression(
            view_entries(entries@),
        ),
        Expression::PropertyAccess { object, property } => SpecExpression::PropertyAccess {
            object: object@,
            property: Box::new(view_expression(*property)),
        },
        Expression::ArrayIndex { array, index } => SpecExpression::ArrayIndex {
            array: Box::new(view_expression(*array)),
            index: Box::new(view_expression(*index)),
        },
    }
}

pub open spec fn view_exprs(s: Seq<Expression>) -> Seq<SpecExpression>
    decreases s, 1int,
{
    Seq::new(
        s.len(),
        |i: int|
            if 0 <= i < s.len() {
                view_expression(s[i])
            } else {
                arbitrary()
            },
    )
}

pub open spec fn view_entries(s: Seq<ObjectEntry>) -> Seq<SpecEntry>
    decreases s, 1int,
{
    Seq::new(
        s.len(),
        |i: int|
            if 0 <= i < s.len() {
                SpecEntry { key: s[i].key@, value: view_expression(s[i].value) }
            } else {
                arbitrary()
            },
    )
}

pub open spec fn view_variable(v: Variable) -> SpecVariable {
    SpecVariable { name: v.0@, init: view_expression(v.1) }
}

pub open spec fn view_vars(s: Seq<Variable>) -> Seq<SpecVariable> {
    Seq::new(s.len(), |i: int| view_variable(s[i]))
}

pub open spec fn view_names(s: Seq<String>) -> Seq<Seq<char>> {
    Seq::new(s.len(), |i: int| s[i]@)
}

pub open spec fn view_node(n: ASTNode) -> SpecNode
    decreases n, 0int,
{
    match n {
        ASTNode::FunctionDeclaration { start, name, parameters, content } =>
            SpecNode::FunctionDeclaration {
                start: start as nat,
                name: name@,
                parameters: view_names(parameters@),
                content: view_nodes(content@),
            },
        ASTNode::VariableDeclaration { start, vars } => SpecNode::VariableDeclaration {
            start: start as nat,
            vars: view_vars(vars@),
        },
        ASTNode::ConstDeclaration { start, vars } => SpecNode::ConstDeclaration {
            start: start as nat,
            vars: view_vars(vars@),
        },
        ASTNode::VariableSetting { start, vars } => SpecNode::VariableSetting {
            start: start as nat,
            vars: view_vars(vars@),
        },
        ASTNode::ReturnExpression { start, expression } => SpecNode::ReturnExpression {
            start: start as nat,
            expression: view_expression(expression),
        },
        ASTNode::Expression(e) => SpecNode::Expression(view_expression(e)),
        ASTNode::WhenExpression { start, expression, content } => SpecNode::WhenExpression {
            start: start as nat,
            expression: view_expression(expression),
            content: view_nodes(content@),
        },
        ASTNode::OrWhenExpression { start, expression, content } => SpecNode::OrWhenExpression {
            start: start as nat,
            expression: view_expression(expression),
            content: view_nodes(content@),
        },
        ASTNode::OrExpression { start, content } => SpecNode::OrExpression {
            start: start as nat,
            content: view_nodes(content@),
        },
    }
}

pub open spec fn view_nodes(s: Seq<ASTNode>) -> Seq<SpecNode>
    decreases s, 1int,
{
    Seq::new(
        s.len(),
        |i: int|
            if 0 <= i < s.len() {
                view_node(s[i])
            } else {
                arbitrary()
            },
    )
}

impl View for Value {
    type V = SpecValue;

    open spec fn view(&self) -> SpecValue {
        view_value(*self)
    }
}

impl View for Variable {
    type V = SpecVariable;

    open spec fn view(&self) -> SpecVariable {
        view_variable(*self)
    }
}

impl View for ObjectEntry {
    type V = SpecEntry;

    open spec fn view(&self) -> SpecEntry {
        SpecEntry { key: self.key@, value: view_expression(self.value) }
    }
}

impl View for Expression {
    type V = SpecExpression;

    open spec fn view(&self) -> SpecExpression {
        view_expression(*self)
    }
}

impl View for ASTNode {
    type V = SpecNode;

    open spec fn view(&self) -> SpecNode {
        view_node(*self)
    }
}

} // verus!
