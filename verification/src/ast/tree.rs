//! The syntax tree that the parser builds.

use vstd::prelude::*;

use super::model::BinaryOp;
use super::model::Expr;
use super::model::Invocation;
use super::model::Lit;
use super::model::Params;
use super::model::Radix;
use super::model::Stmt;
use super::model::Unit;
use super::model::Val;

verus! {

/// A name.
#[derive(Debug)]
pub struct Identifier(pub String);

/// A numeric literal as it was written: its notation and its digits,
/// without the radix prefix.
#[derive(Debug)]
pub struct Number {
    pub radix: Radix,
    pub digits: String,
}

#[derive(Debug)]
pub enum Literal {
    Numeric(Number),
    Boolean(bool),
    String(String),
    Char(char),
    Undefined,
}

#[derive(Debug)]
pub enum Value {
    Ident(Identifier),
    Literal(Literal),
    Expr(Box<Expression>),
    Call(Call),
    Negative(Box<Value>),
    Not(Box<Value>),
    Inverted(Box<Value>),
}

/// A call of a function by its name.
#[derive(Debug)]
pub struct Call {
    pub name: Identifier,
    pub arguments: CommaList,
}

/// Expressions separated by commas.
#[derive(Debug)]
pub struct CommaList(pub Vec<Expression>);

#[derive(Debug)]
pub enum Expression {
    Plus(Box<Expression>, Box<Expression>),
    Minus(Box<Expression>, Box<Expression>),
    Times(Box<Expression>, Box<Expression>),
    Slash(Box<Expression>, Box<Expression>),
    Pct(Box<Expression>, Box<Expression>),
    Exp(Box<Expression>, Box<Expression>),
    Mod(Box<Expression>, Box<Expression>),
    Div(Box<Expression>, Box<Expression>),
    LShift(Box<Expression>, Box<Expression>),
    RShift(Box<Expression>, Box<Expression>),
    And(Box<Expression>, Box<Expression>),
    Or(Box<Expression>, Box<Expression>),
    Xor(Box<Expression>, Box<Expression>),
    BAnd(Box<Expression>, Box<Expression>),
    BOr(Box<Expression>, Box<Expression>),
    Eq(Box<Expression>, Box<Expression>),
    Neq(Box<Expression>, Box<Expression>),
    Lt(Box<Expression>, Box<Expression>),
    Gt(Box<Expression>, Box<Expression>),
    Leq(Box<Expression>, Box<Expression>),
    Geq(Box<Expression>, Box<Expression>),
    Pipe(Box<Expression>, Call),
    Ternary(Box<Expression>, Box<Expression>, Box<Expression>),
    Value(Value),
}

/// What can stand on the left of an assignment.
#[derive(Debug)]
pub enum LValue {
    Identifier(Identifier),
}

#[derive(Debug)]
pub enum Assignment {
    Eq(LValue, Expression),
}

#[derive(Debug)]
pub enum Statement {
    Noop,
    Assignment(Assignment),
    Expression(Expression),
    VarDecl(Identifier),
    VarDeclAssign(Identifier, Expression),
    GlobalvarDecl(Identifier),
    GlobalvarDeclAssign(Identifier, Expression),
    If(Expression, Box<Statement>, Option<Box<Statement>>),
    While(Expression, Box<Statement>),
    DoWhile(Box<Statement>, Expression),
    Until(Expression, Box<Statement>),
    DoUntil(Box<Statement>, Expression),
    Repeat(Expression, Box<Statement>),
    For(Box<Statement>, Expression, Box<Statement>, Box<Statement>),
    Block(Vec<Statement>),
    Return(Option<Expression>),
    Break,
    Exit,
    Continue,
}

/// The top level list of statements.
#[derive(Debug)]
pub struct Statements(pub Vec<Statement>);

#[derive(Debug)]
pub enum ArgumentList {
    Argument(Identifier, Box<ArgumentList>),
    DefaultArgument(Identifier, Expression, Box<ArgumentList>),
    OptionalArgument(Identifier, Box<ArgumentList>),
    VariadicArgument(Identifier),
    End,
}

/// The doc comment lines at the head of a unit.
#[derive(Debug)]
pub struct DocComment(pub Vec<String>);

#[derive(Debug)]
pub struct Code {
    pub docs: DocComment,
    pub args: ArgumentList,
    pub body: Statements,
}

impl View for Identifier {
    type V = Seq<char>;

    open spec fn view(&self) -> Seq<char> {
        self.0@
    }
}

impl View for Literal {
    type V = Lit;

    open spec fn view(&self) -> Lit {
        match self {
            Literal::Numeric(number) => Lit::Numeric(number.radix, number.digits@),
            Literal::Boolean(b) => Lit::Boolean(*b),
            Literal::String(text) => Lit::Text(text@),
            Literal::Char(c) => Lit::Char(*c),
            Literal::Undefined => Lit::Undefined,
        }
    }
}

/// What a value stands for.
pub open spec fn val_of(value: Value) -> Val
    decreases value,
{
    match value {
        Value::Ident(ident) => Val::Ident(ident@),
        Value::Literal(literal) => Val::Literal(literal@),
        Value::Expr(expr) => Val::Expr(Box::new(expr_of(*expr))),
        Value::Call(call) => Val::Call(invocation_of(call)),
        Value::Negative(inner) => Val::Negative(Box::new(val_of(*inner))),
        Value::Not(inner) => Val::Not(Box::new(val_of(*inner))),
        Value::Inverted(inner) => Val::Inverted(Box::new(val_of(*inner))),
    }
}

/// What a call stands for.
pub open spec fn invocation_of(call: Call) -> Invocation
    decreases call,
{
    Invocation { name: call.name@, arguments: expressions(call.arguments.0@) }
}

/// What the expressions of a list stand for.
pub open spec fn expressions(list: Seq<Expression>) -> Seq<Expr>
    decreases list,
{
    Seq::new(
        list.len(),
        |i: int|
            if 0 <= i < list.len() {
                expr_of(list[i])
            } else {
                arbitrary()
            },
    )
}

/// What an expression stands for.
pub open spec fn expr_of(expr: Expression) -> Expr
    decreases expr,
{
    match expr {
        Expression::Plus(l, r) => Expr::Binary(
            BinaryOp::Plus,
            Box::new(expr_of(*l)),
            Box::new(expr_of(*r)),
        ),
        Expression::Minus(l, r) => Expr::Binary(
            BinaryOp::Minus,
            Box::new(expr_of(*l)),
            Box::new(expr_of(*r)),
        ),
        Expression::Times(l, r) => Expr::Binary(
            BinaryOp::Times,
            Box::new(expr_of(*l)),
            Box::new(expr_of(*r)),
        ),
        Expression::Slash(l, r) => Expr::Binary(
            BinaryOp::Slash,
            Box::new(expr_of(*l)),
            Box::new(expr_of(*r)),
        ),
        Expression::Pct(l, r) => Expr::Binary(
            BinaryOp::Pct,
            Box::new(expr_of(*l)),
            Box::new(expr_of(*r)),
        ),
        Expression::Exp(l, r) => Expr::Binary(
            BinaryOp::Exp,
            Box::new(expr_of(*l)),
            Box::new(expr_of(*r)),
        ),
        Expression::Mod(l, r) => Expr::Binary(
            BinaryOp::Mod,
            Box::new(expr_of(*l)),
            Box::new(expr_of(*r)),
        ),
        Expression::Div(l, r) => Expr::Binary(
            BinaryOp::Div,
            Box::new(expr_of(*l)),
            Box::new(expr_of(*r)),
        ),
        Expression::LShift(l, r) => Expr::Binary(
            BinaryOp::LShift,
            Box::new(expr_of(*l)),
            Box::new(expr_of(*r)),
        ),
        Expression::RShift(l, r) => Expr::Binary(
            BinaryOp::RShift,
            Box::new(expr_of(*l)),
            Box::new(expr_of(*r)),
        ),
        Expression::And(l, r) => Expr::Binary(
            BinaryOp::And,
            Box::new(expr_of(*l)),
            Box::new(expr_of(*r)),
        ),
        Expression::Or(l, r) => Expr::Binary(
            BinaryOp::Or,
            Box::new(expr_of(*l)),
            Box::new(expr_of(*r)),
        ),
        Expression::Xor(l, r) => Expr::Binary(
            BinaryOp::Xor,
            Box::new(expr_of(*l)),
            Box::new(expr_of(*r)),
        ),
        Expression::BAnd(l, r) => Expr::Binary(
            BinaryOp::BAnd,
            Box::new(expr_of(*l)),
            Box::new(expr_of(*r)),
        ),
        Expression::BOr(l, r) => Expr::Binary(
            BinaryOp::BOr,
            Box::new(expr_of(*l)),
            Box::new(expr_of(*r)),
        ),
        Expression::Eq(l, r) => Expr::Binary(
            BinaryOp::Eq,
            Box::new(expr_of(*l)),
            Box::new(expr_of(*r)),
        ),
        Expression::Neq(l, r) => Expr::Binary(
            BinaryOp::Neq,
            Box::new(expr_of(*l)),
            Box::new(expr_of(*r)),
        ),
        Expression::Lt(l, r) => Expr::Binary(
            BinaryOp::Lt,
            Box::new(expr_of(*l)),
            Box::new(expr_of(*r)),
        ),
        Expression::Gt(l, r) => Expr::Binary(
            BinaryOp::Gt,
            Box::new(expr_of(*l)),
            Box::new(expr_of(*r)),
        ),
        Expression::Leq(l, r) => Expr::Binary(
            BinaryOp::Leq,
            Box::new(expr_of(*l)),
            Box::new(expr_of(*r)),
        ),
        Expression::Geq(l, r) => Expr::Binary(
            BinaryOp::Geq,
            Box::new(expr_of(*l)),
            Box::new(expr_of(*r)),
        ),
        Expression::Pipe(l, call) => Expr::Pipe(Box::new(expr_of(*l)), invocation_of(call)),
        Expression::Ternary(c, a, b) => Expr::Ternary(
            Box::new(expr_of(*c)),
            Box::new(expr_of(*a)),
            Box::new(expr_of(*b)),
        ),
        Expression::Value(value) => Expr::Value(val_of(value)),
    }
}

impl View for Value {
    type V = Val;

    open spec fn view(&self) -> Val {
        val_of(*self)
    }
}

impl View for Call {
    type V = Invocation;

    open spec fn view(&self) -> Invocation {
        invocation_of(*self)
    }
}

impl View for CommaList {
    type V = Seq<Expr>;

    open spec fn view(&self) -> Seq<Expr> {
        expressions(self.0@)
    }
}

impl View for Expression {
    type V = Expr;

    open spec fn view(&self) -> Expr {
        expr_of(*self)
    }
}

impl View for LValue {
    type V = Seq<char>;

    open spec fn view(&self) -> Seq<char> {
        match self {
            LValue::Identifier(ident) => ident@,
        }
    }
}

impl View for Assignment {
    type V = (Seq<char>, Expr);

    open spec fn view(&self) -> (Seq<char>, Expr) {
        match self {
            Assignment::Eq(lvalue, expr) => (lvalue@, expr@),
        }
    }
}

/// What the statements of a list stand for.
pub open spec fn statements(list: Seq<Statement>) -> Seq<Stmt>
    decreases list,
{
    Seq::new(
        list.len(),
        |i: int|
            if 0 <= i < list.len() {
                stmt_of(list[i])
            } else {
                arbitrary()
            },
    )
}

/// What a statement stands for.
pub open spec fn stmt_of(statement: Statement) -> Stmt
    decreases statement,
{
    match statement {
        Statement::Noop => Stmt::Noop,
        Statement::Assignment(assignment) => Stmt::Assignment(assignment@.0, assignment@.1),
        Statement::Expression(expr) => Stmt::Expression(expr@),
        Statement::VarDecl(ident) => Stmt::VarDecl(ident@),
        Statement::VarDeclAssign(ident, expr) => Stmt::VarDeclAssign(ident@, expr@),
        Statement::GlobalvarDecl(ident) => Stmt::GlobalvarDecl(ident@),
        Statement::GlobalvarDeclAssign(ident, expr) => Stmt::GlobalvarDeclAssign(ident@, expr@),
        Statement::If(cond, body, None) => Stmt::If(cond@, Box::new(stmt_of(*body)), None),
        Statement::If(cond, body, Some(otherwise)) => Stmt::If(
            cond@,
            Box::new(stmt_of(*body)),
            Some(Box::new(stmt_of(*otherwise))),
        ),
        Statement::While(cond, body) => Stmt::While(cond@, Box::new(stmt_of(*body))),
        Statement::DoWhile(body, cond) => Stmt::DoWhile(Box::new(stmt_of(*body)), cond@),
        Statement::Until(cond, body) => Stmt::Until(cond@, Box::new(stmt_of(*body))),
        Statement::DoUntil(body, cond) => Stmt::DoUntil(Box::new(stmt_of(*body)), cond@),
        Statement::Repeat(times, body) => Stmt::Repeat(times@, Box::new(stmt_of(*body))),
        Statement::For(init, cond, update, body) => Stmt::For(
            Box::new(stmt_of(*init)),
            cond@,
            Box::new(stmt_of(*update)),
            Box::new(stmt_of(*body)),
        ),
        Statement::Block(list) => Stmt::Block(statements(list@)),
        Statement::Return(None) => Stmt::Return(None),
        Statement::Return(Some(expr)) => Stmt::Return(Some(expr@)),
        Statement::Break => Stmt::Break,
        Statement::Exit => Stmt::Exit,
        Statement::Continue => Stmt::Continue,
    }
}

impl View for Statement {
    type V = Stmt;

    open spec fn view(&self) -> Stmt {
        stmt_of(*self)
    }
}

impl View for Statements {
    type V = Seq<Stmt>;

    open spec fn view(&self) -> Seq<Stmt> {
        statements(self.0@)
    }
}

/// What a chain of formal arguments stands for.
pub open spec fn params_of(args: ArgumentList) -> Params
    decreases args,
{
    match args {
        ArgumentList::Argument(ident, rest) => Params::Argument(ident@, Box::new(params_of(*rest))),
        ArgumentList::DefaultArgument(ident, expr, rest) => Params::DefaultArgument(
            ident@,
            expr@,
            Box::new(params_of(*rest)),
        ),
        ArgumentList::OptionalArgument(ident, rest) => Params::OptionalArgument(
            ident@,
            Box::new(params_of(*rest)),
        ),
        ArgumentList::VariadicArgument(ident) => Params::VariadicArgument(ident@),
        ArgumentList::End => Params::End,
    }
}

impl View for ArgumentList {
    type V = Params;

    open spec fn view(&self) -> Params {
        params_of(*self)
    }
}

/// The lines of a doc comment as the contracts see them.
pub open spec fn lines(list: Seq<String>) -> Seq<Seq<char>> {
    list.map_values(|line: String| line@)
}

impl View for DocComment {
    type V = Seq<Seq<char>>;

    open spec fn view(&self) -> Seq<Seq<char>> {
        lines(self.0@)
    }
}

impl View for Code {
    type V = Unit;

    open spec fn view(&self) -> Unit {
        Unit { docs: self.docs@, args: self.args@, body: self.body@ }
    }
}

} // verus!
