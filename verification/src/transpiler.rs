//! Code generation.
//!
//! The transpiler walks the statement list bottom-up and renders target
//! text by syntax-directed string composition.  What it emits is pinned
//! by the spec-level functions [`render_node`], [`render_expr`] and
//! [`render_stmts`]; every executable function is proved to return
//! exactly the text those functions describe.  Every node and expression
//! kind is handled by an explicit match arm: nothing is silently skipped.

use vstd::prelude::*;

use crate::ast::ASTNode;
use crate::ast::Expression;
use crate::ast::ObjectEntry;
use crate::ast::Operator;
use crate::ast::SpecEntry;
use crate::ast::SpecExpression;
use crate::ast::SpecNode;
use crate::ast::SpecValue;
use crate::ast::SpecVariable;
use crate::ast::Value;
use crate::ast::Variable;
use crate::ast::view_entries;
use crate::ast::view_exprs;
use crate::ast::view_names;
use crate::ast::view_nodes;
use crate::ast::view_vars;

verus! {

// ------------------------------------------------------------------
// Decimal rendering
// ------------------------------------------------------------------

/// The one-character text of a decimal digit.
pub open spec fn digit_str(d: int) -> Seq<char> {
    if d == 0 {
        "0"@
    } else if d == 1 {
        "1"@
    } else if d == 2 {
        "2"@
    } else if d == 3 {
        "3"@
    } else if d == 4 {
        "4"@
    } else if d == 5 {
        "5"@
    } else if d == 6 {
        "6"@
    } else if d == 7 {
        "7"@
    } else if d == 8 {
        "8"@
    } else {
        "9"@
    }
}

/// Decimal text of a natural number, without leading zeros (except for 0
/// itself).
pub open spec fn dec_nat(n: nat) -> Seq<char>
    decreases n,
{
    if n < 10 {
        digit_str(n as int)
    } else {
        dec_nat(n / 10) + digit_str((n % 10) as int)
    }
}

/// Decimal text of an integer: a minus sign for negative values, then
/// the digits of the magnitude.
pub open spec fn dec_int(n: int) -> Seq<char> {
    if n < 0 {
        "-"@ + dec_nat((-n) as nat)
    } else {
        dec_nat(n as nat)
    }
}

// ------------------------------------------------------------------
// The rendering model
// ------------------------------------------------------------------

/// Target text of a binary operator.  `Equal` renders as the comparison
/// `==`, like its peers `Gt` and `Lt`.
pub open spec fn render_op(op: Operator) -> Seq<char> {
    match op {
        Operator::Plus => "+"@,
        Operator::Minus => "-"@,
        Operator::Times => "*"@,
        Operator::Divided => "/"@,
        Operator::Gt => ">"@,
        Operator::Lt => "<"@,
        Operator::Equal => "=="@,
    }
}

/// Target text of a literal value: string literals keep their quotes.
pub open spec fn render_value(v: SpecValue) -> Seq<char> {
    match v {
        SpecValue::Literal(s) => "\""@ + s + "\""@,
        SpecValue::Number(n) => dec_int(n),
    }
}

/// Target text of an expression.
pub open spec fn render_expr(e: SpecExpression) -> Seq<char>
    decreases e, 0int,
{
    match e {
        SpecExpression::Value(v) => render_value(v),
        SpecExpression::Identifier(s) => s,
        SpecExpression::Binary { left, op, right } => "("@ + render_expr(*left) + render_op(op)
            + render_expr(*right) + ")"@,
        SpecExpression::FunctionCall { function, parameters } => {
            let args = render_exprs(parameters);
            let shown = if args == "{}"@ {
                Seq::<char>::empty()
            } else {
                args
            };
            render_expr(*function) + "("@ + shown + ")"@
        },
        SpecExpression::ArrayExpression(items) => "["@ + render_exprs(items) + "]"@,
        SpecExpression::ObjectExpression(entries) => "{"@ + render_entries(entries) + "}"@,
        SpecExpression::PropertyAccess { object, property } => object + "."@ + render_expr(
            *property,
        ),
        SpecExpression::ArrayIndex { array, index } => render_expr(*array) + "["@ + render_expr(
            *index,
        ) + "]"@,
    }
}

/// Comma-joined expression list.
pub open spec fn render_exprs(items: Seq<SpecExpression>) -> Seq<char>
    decreases items, 1int,
{
    if items.len() == 0 {
        Seq::empty()
    } else if items.len() == 1 {
        render_expr(items[0])
    } else {
        render_expr(items[0]) + ","@ + render_exprs(items.drop_first())
    }
}

/// Comma-joined `key: value` entries of an object literal.
pub open spec fn render_entries(entries: Seq<SpecEntry>) -> Seq<char>
    decreases entries, 1int,
{
    if entries.len() == 0 {
        Seq::empty()
    } else if entries.len() == 1 {
        entries[0].key + ": "@ + render_expr(entries[0].value)
    } else {
        entries[0].key + ": "@ + render_expr(entries[0].value) + ","@ + render_entries(
            entries.drop_first(),
        )
    }
}

/// One `name=initializer` binding.
pub open spec fn render_var(v: SpecVariable) -> Seq<char> {
    v.name + "="@ + render_expr(v.init)
}

/// Bindings joined by `sep` (`,` in declarations, `;` in settings).
pub open spec fn render_vars(vars: Seq<SpecVariable>, sep: Seq<char>) -> Seq<char>
    decreases vars,
{
    if vars.len() == 0 {
        Seq::empty()
    } else if vars.len() == 1 {
        render_var(vars[0])
    } else {
        render_var(vars[0]) + sep + render_vars(vars.drop_first(), sep)
    }
}

/// Comma-joined parameter names.
pub open spec fn render_params(params: Seq<Seq<char>>) -> Seq<char>
    decreases params,
{
    if params.len() == 0 {
        Seq::empty()
    } else if params.len() == 1 {
        params[0]
    } else {
        params[0] + ","@ + render_params(params.drop_first())
    }
}

/// Target text of one statement.  An `orwhen` or `or` node renders as its
/// own `else if` / `else` text wherever it stands; standing directly
/// after a `when` (or an `else if`) it completes that chain, anywhere
/// else it appears detached, with no `if` attached to it.
pub open spec fn render_node(n: SpecNode) -> Seq<char>
    decreases n, 0int,
{
    match n {
        SpecNode::FunctionDeclaration { start, name, parameters, content } => "function "@ + name
            + "("@ + render_params(parameters) + ") {\n"@ + render_block(content) + "}"@,
        SpecNode::VariableDeclaration { start, vars } => "let "@ + render_vars(vars, ","@) + ";"@,
        SpecNode::ConstDeclaration { start, vars } => "const "@ + render_vars(vars, ","@) + ";"@,
        SpecNode::VariableSetting { start, vars } => render_vars(vars, ";"@) + ";"@,
        SpecNode::ReturnExpression { start, expression } => "return "@ + render_expr(expression)
            + ";"@,
        SpecNode::Expression(e) => render_expr(e) + ";"@,
        SpecNode::WhenExpression { start, expression, content } => "if ("@ + render_expr(
            expression,
        ) + ") {\n"@ + render_block(content) + "}"@,
        SpecNode::OrWhenExpression { start, expression, content } => "else if ("@ + render_expr(
            expression,
        ) + ") {\n"@ + render_block(content) + "}"@,
        SpecNode::OrExpression { start, content } => "else {\n"@ + render_block(content) + "}"@,
    }
}

/// Statements joined by line breaks, without a trailing break.
pub open spec fn render_stmts(nodes: Seq<SpecNode>) -> Seq<char>
    decreases nodes, 1int,
{
    if nodes.len() == 0 {
        Seq::empty()
    } else if nodes.len() == 1 {
        render_node(nodes[0])
    } else {
        render_node(nodes[0]) + "\n"@ + render_stmts(nodes.drop_first())
    }
}

/// A braced body: its statements with a line break after each, nothing
/// for an empty body.
pub open spec fn render_block(nodes: Seq<SpecNode>) -> Seq<char>
    decreases nodes, 2int,
{
    if nodes.len() == 0 {
        Seq::empty()
    } else {
        render_stmts(nodes) + "\n"@
    }
}

// ------------------------------------------------------------------
// The executable transpiler
// ------------------------------------------------------------------

/// Tree-directed code generator over a parsed statement list.
pub struct Transpiler {
    pub nodes: Vec<ASTNode>,
}

impl Transpiler {
    pub fn new(nodes: Vec<ASTNode>) -> (r: Transpiler)
        ensures
            r.nodes == nodes,
    {
        Transpiler { nodes }
    }

    /// Renders the whole statement list: exactly
    /// `render_stmts(view_nodes(self.nodes@))`.
    pub fn transpile(&self) -> (r: String)
        ensures
            r@ == render_stmts(view_nodes(self.nodes@)),
    {
        let mut out = String::new();
        Transpiler::push_stmts_from(&mut out, &self.nodes, 0);
        proof {
            assert(view_nodes(self.nodes@).skip(0) =~= view_nodes(self.nodes@));
        }
        out
    }

    /// Renders one statement: exactly `render_node(node@)`.
    pub fn transpile_node(node: &ASTNode) -> (r: String)
        ensures
            r@ == render_node(node@),
    {
        let mut out = String::new();
        Transpiler::push_node(&mut out, node);
        out
    }

    /// Renders one expression: exactly `render_expr(expression@)`.
    pub fn transpile_expression(expression: &Expression) -> (r: String)
        ensures
            r@ == render_expr(expression@),
    {
        let mut out = String::new();
        Transpiler::push_expression(&mut out, expression);
        out
    }

    /// Renders a braced body: exactly `render_block(view_nodes(nodes@))`.
    pub fn transpile_block(nodes: &Vec<ASTNode>) -> (r: String)
        ensures
            r@ == render_block(view_nodes(nodes@)),
    {
        let mut out = String::new();
        Transpiler::push_block(&mut out, nodes);
        out
    }

    fn push_decimal(out: &mut String, n: i16)
        ensures
            final(out)@ == old(out)@ + dec_int(n as int),
    {
        let m: u16;
        if n < 0 {
            out.append("-");
            m = (-(n as i32)) as u16;
        } else {
            m = n as u16;
        }
        Transpiler::push_u16(out, m);
    }

    fn push_u16(out: &mut String, n: u16)
        ensures
            final(out)@ == old(out)@ + dec_nat(n as nat),
        decreases n,
    {
        if n >= 10 {
            Transpiler::push_u16(out, n / 10);
        }
        let d = n % 10;
        if d == 0 {
            out.append("0");
        } else if d == 1 {
            out.append("1");
        } else if d == 2 {
            out.append("2");
        } else if d == 3 {
            out.append("3");
        } else if d == 4 {
            out.append("4");
        } else if d == 5 {
            out.append("5");
        } else if d == 6 {
            out.append("6");
        } else if d == 7 {
            out.append("7");
        } else if d == 8 {
            out.append("8");
        } else {
            out.append("9");
        }
    }

    fn push_value(out: &mut String, v: &Value)
        ensures
            final(out)@ == old(out)@ + render_value(v@),
    {
        match v {
            Value::Literal(s) => {
                out.append("\"");
                out.append(s.as_str());
                out.append("\"");
            },
            Value::Number(n) => {
                Transpiler::push_decimal(out, *n);
            },
        }
    }

    fn push_expression(out: &mut String, e: &Expression)
        ensures
            final(out)@ == old(out)@ + render_expr(e@),
        decreases e, 0int, 0int,
    {
        match e {
            Expression::Value(v) => {
                Transpiler::push_value(out, v);
            },
            Expression::Identifier(s) => {
                out.append(s.as_str());
            },
            Expression::Binary { left, op, right } => {
                out.append("(");
                Transpiler::push_expression(out, left);
                match op {
                    Operator::Plus => out.append("+"),
                    Operator::Minus => out.append("-"),
                    Operator::Times => out.append("*"),
                    Operator::Divided => out.append("/"),
                    Operator::Gt => out.append(">"),
                    Operator::Lt => out.append("<"),
                    Operator::Equal => out.append("=="),
                }
                Transpiler::push_expression(out, right);
                out.append(")");
            },
            Expression::FunctionCall { function, parameters } => {
                Transpiler::push_expression(out, function);
                out.append("(");
                let mut args = String::new();
                Transpiler::push_exprs_from(&mut args, parameters, 0);
                proof {
                    assert(view_exprs(parameters@).skip(0) =~= view_exprs(parameters@));
                }
                if !(args == String::from_str("{}")) {
                    out.append(args.as_str());
                }
                out.append(")");
            },
            Expression::ArrayExpression(items) => {
                out.append("[");
                Transpiler::push_exprs_from(out, items, 0);
                proof {
                    assert(view_exprs(items@).skip(0) =~= view_exprs(items@));
                }
                out.append("]");
            },
            Expression::ObjectExpression(entries) => {
                out.append("{");
                Transpiler::push_entries_from(out, entries, 0);
                proof {
                    assert(view_entries(entries@).skip(0) =~= view_entries(entries@));
                }
                out.append("}");
            },
            Expression::PropertyAccess { object, property } => {
                out.append(object.as_str());
                out.append(".");
                Transpiler::push_expression(out, property);
            },
            Expression::ArrayIndex { array, index } => {
                Transpiler::push_expression(out, array);
                out.append("[");
                Transpiler::push_expression(out, index);
                out.append("]");
            },
        }
    }

    fn push_exprs_from(out: &mut String, items: &Vec<Expression>, i: usize)
        requires
            i <= items@.len(),
        ensures
            final(out)@ == old(out)@ + render_exprs(view_exprs(items@).skip(i as int)),
        decreases items, 1int, items@.len() - i,
    {
        if i < items.len() {
            Transpiler::push_expression(out, &items[i]);
            if i + 1 < items.len() {
                out.append(",");
            }
            proof {
                assert(view_exprs(items@).skip(i as int).drop_first() =~= view_exprs(
                    items@,
                ).skip(i + 1int));
            }
            Transpiler::push_exprs_from(out, items, i + 1);
        }
    }

    fn push_entries_from(out: &mut String, entries: &Vec<ObjectEntry>, i: usize)
        requires
            i <= entries@.len(),
        ensures
            final(out)@ == old(out)@ + render_entries(view_entries(entries@).skip(i as int)),
        decreases entries, 1int, entries@.len() - i,
    {
        if i < entries.len() {
            out.append(entries[i].key.as_str());
            out.append(": ");
            Transpiler::push_expression(out, &entries[i].value);
            if i + 1 < entries.len() {
                out.append(",");
            }
            proof {
                assert(view_entries(entries@).skip(i as int).drop_first() =~= view_entries(
                    entries@,
                ).skip(i + 1int));
            }
            Transpiler::push_entries_from(out, entries, i + 1);
        }
    }

    fn push_vars_from(out: &mut String, vars: &Vec<Variable>, i: usize, sep: &str)
        requires
            i <= vars@.len(),
        ensures
            final(out)@ == old(out)@ + render_vars(view_vars(vars@).skip(i as int), sep@),
        decreases vars@.len() - i,
    {
        if i < vars.len() {
            out.append(vars[i].0.as_str());
            out.append("=");
            Transpiler::push_expression(out, &vars[i].1);
            if i + 1 < vars.len() {
                out.append(sep);
            }
            proof {
                assert(view_vars(vars@).skip(i as int).drop_first() =~= view_vars(vars@).skip(
                    i + 1int,
                ));
            }
            Transpiler::push_vars_from(out, vars, i + 1, sep);
        }
    }

    fn push_params_from(out: &mut String, params: &Vec<String>, i: usize)
        requires
            i <= params@.len(),
        ensures
            final(out)@ == old(out)@ + render_params(view_names(params@).skip(i as int)),
        decreases params@.len() - i,
    {
        if i < params.len() {
            out.append(params[i].as_str());
            if i + 1 < params.len() {
                out.append(",");
            }
            proof {
                assert(view_names(params@).skip(i as int).drop_first() =~= view_names(
                    params@,
                ).skip(i + 1int));
            }
            Transpiler::push_params_from(out, params, i + 1);
        }
    }

    #[verifier::rlimit(60)]
    fn push_node(out: &mut String, n: &ASTNode)
        ensures
            final(out)@ == old(out)@ + render_node(n@),
        decreases n, 0int, 0int,
    {
        match n {
            ASTNode::FunctionDeclaration { start, name, parameters, content } => {
                out.append("function ");
                out.append(name.as_str());
                out.append("(");
                Transpiler::push_params_from(out, parameters, 0);
                proof {
                    assert(view_names(parameters@).skip(0) =~= view_names(parameters@));
                }
                out.append(") {\n");
                Transpiler::push_block(out, content);
                out.append("}");
            },
            ASTNode::VariableDeclaration { start, vars } => {
                out.append("let ");
                Transpiler::push_vars_from(out, vars, 0, ",");
                proof {
                    assert(view_vars(vars@).skip(0) =~= view_vars(vars@));
                }
                out.append(";");
            },
            ASTNode::ConstDeclaration { start, vars } => {
                out.append("const ");
                Transpiler::push_vars_from(out, vars, 0, ",");
                proof {
                    assert(view_vars(vars@).skip(0) =~= view_vars(vars@));
                }
                out.append(";");
            },
            ASTNode::VariableSetting { start, vars } => {
                Transpiler::push_vars_from(out, vars, 0, ";");
                proof {
                    assert(view_vars(vars@).skip(0) =~= view_vars(vars@));
                }
                out.append(";");
            },
            ASTNode::ReturnExpression { start, expression } => {
                out.append("return ");
                Transpiler::push_expression(out, expression);
                out.append(";");
            },
            ASTNode::Expression(e) => {
                Transpiler::push_expression(out, e);
                out.append(";");
            },
            ASTNode::WhenExpression { start, expression, content } => {
                out.append("if (");
                Transpiler::push_expression(out, expression);
                out.append(") {\n");
                Transpiler::push_block(out, content);
                out.append("}");
            },
            ASTNode::OrWhenExpression { start, expression, content } => {
                out.append("else if (");
                Transpiler::push_expression(out, expression);
                out.append(") {\n");
                Transpiler::push_block(out, content);
                out.append("}");
            },
            ASTNode::OrExpression { start, content } => {
                out.append("else {\n");
                Transpiler::push_block(out, content);
                out.append("}");
            },
        }
    }

    fn push_stmts_from(out: &mut String, nodes: &Vec<ASTNode>, i: usize)
        requires
            i <= nodes@.len(),
        ensures
            final(out)@ == old(out)@ + render_stmts(view_nodes(nodes@).skip(i as int)),
        decreases nodes, 1int, nodes@.len() - i,
    {
        if i < nodes.len() {
            Transpiler::push_node(out, &nodes[i]);
            if i + 1 < nodes.len() {
                out.append("\n");
            }
            proof {
                assert(view_nodes(nodes@).skip(i as int).drop_first() =~= view_nodes(
                    nodes@,
                ).skip(i + 1int));
            }
            Transpiler::push_stmts_from(out, nodes, i + 1);
        }
    }

    fn push_block(out: &mut String, nodes: &Vec<ASTNode>)
        ensures
            final(out)@ == old(out)@ + render_block(view_nodes(nodes@)),
        decreases nodes, 2int, 0int,
    {
        if nodes.len() > 0 {
            Transpiler::push_stmts_from(out, nodes, 0);
            proof {
                assert(view_nodes(nodes@).skip(0) =~= view_nodes(nodes@));
            }
            out.append("\n");
        }
    }
}


// ------------------------------------------------------------------
// Laws of the conditional chain
// ------------------------------------------------------------------

/// A `when {..} {..} orwhen {..} {..} or {..}` statement run transpiles
/// to a single `if (..) {..} else if (..) {..} else {..}` chain, the
/// pieces joined by line breaks with no other text between them.
pub proof fn lemma_when_chain(
    s1: nat,
    c1: SpecExpression,
    b1: Seq<SpecNode>,
    s2: nat,
    c2: SpecExpression,
    b2: Seq<SpecNode>,
    s3: nat,
    b3: Seq<SpecNode>,
)
    ensures
        render_stmts(
            seq![
                SpecNode::WhenExpression { start: s1, expression: c1, content: b1 },
                SpecNode::OrWhenExpression { start: s2, expression: c2, content: b2 },
                SpecNode::OrExpression { start: s3, content: b3 },
            ],
        ) == "if ("@ + render_expr(c1) + ") {\n"@ + render_block(b1) + "}"@ + "\n"@ + "else if ("@
            + render_expr(c2) + ") {\n"@ + render_block(b2) + "}"@ + "\n"@ + "else {\n"@
            + render_block(b3) + "}"@,
{
    let nodes = seq![
        SpecNode::WhenExpression { start: s1, expression: c1, content: b1 },
        SpecNode::OrWhenExpression { start: s2, expression: c2, content: b2 },
        SpecNode::OrExpression { start: s3, content: b3 },
    ];
    reveal_with_fuel(render_stmts, 4);
    assert(nodes.drop_first() =~= seq![
        SpecNode::OrWhenExpression { start: s2, expression: c2, content: b2 },
        SpecNode::OrExpression { start: s3, content: b3 },
    ]);
    assert(nodes.drop_first().drop_first() =~= seq![
        SpecNode::OrExpression { start: s3, content: b3 },
    ]);
    assert(render_stmts(nodes) =~= "if ("@ + render_expr(c1) + ") {\n"@ + render_block(b1) + "}"@
        + "\n"@ + "else if ("@ + render_expr(c2) + ") {\n"@ + render_block(b2) + "}"@ + "\n"@
        + "else {\n"@ + render_block(b3) + "}"@);
}

/// A statement standing between a `when` and an `orwhen` breaks the
/// chain: the `when` still closes after its own body, the intervening
/// statement renders on a line of its own, and the `orwhen` transpiles
/// detached — as `else if` text with no `if` attached to it.
pub proof fn lemma_broken_chain(
    s1: nat,
    c1: SpecExpression,
    b1: Seq<SpecNode>,
    mid: SpecNode,
    s2: nat,
    c2: SpecExpression,
    b2: Seq<SpecNode>,
)
    ensures
        render_stmts(
            seq![
                SpecNode::WhenExpression { start: s1, expression: c1, content: b1 },
                mid,
                SpecNode::OrWhenExpression { start: s2, expression: c2, content: b2 },
            ],
        ) == "if ("@ + render_expr(c1) + ") {\n"@ + render_block(b1) + "}"@ + "\n"@
            + render_node(mid) + "\n"@ + "else if ("@ + render_expr(c2) + ") {\n"@
            + render_block(b2) + "}"@,
{
    let nodes = seq![
        SpecNode::WhenExpression { start: s1, expression: c1, content: b1 },
        mid,
        SpecNode::OrWhenExpression { start: s2, expression: c2, content: b2 },
    ];
    reveal_with_fuel(render_stmts, 4);
    assert(nodes.drop_first() =~= seq![
        mid,
        SpecNode::OrWhenExpression { start: s2, expression: c2, content: b2 },
    ]);
    assert(nodes.drop_first().drop_first() =~= seq![
        SpecNode::OrWhenExpression { start: s2, expression: c2, content: b2 },
    ]);
    assert(render_stmts(nodes) =~= "if ("@ + render_expr(c1) + ") {\n"@ + render_block(b1) + "}"@
        + "\n"@ + render_node(mid) + "\n"@ + "else if ("@ + render_expr(c2) + ") {\n"@
        + render_block(b2) + "}"@);
}

} // verus!
