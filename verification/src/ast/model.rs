//! The syntax tree as the contracts see it: the same shapes as the tree
//! that the parser builds, over mathematical sequences.

use vstd::prelude::*;

verus! {

/// The notation of a numeric literal.
#[derive(Clone, Copy, PartialEq, Eq, Debug, Structural)]
pub enum Radix {
    Binary,
    Hexadecimal,
    Decimal,
}

/// The binary operators.
#[derive(Clone, Copy, PartialEq, Eq, Debug, Structural)]
pub enum BinaryOp {
    Plus,
    Minus,
    Times,
    Slash,
    Pct,
    Exp,
    Mod,
    Div,
    LShift,
    RShift,
    And,
    Or,
    Xor,
    BAnd,
    BOr,
    Eq,
    Neq,
    Lt,
    Gt,
    Leq,
    Geq,
}

/// A literal.
pub enum Lit {
    Numeric(Radix, Seq<char>),
    Boolean(bool),
    Text(Seq<char>),
    Char(char),
    Undefined,
}

/// A value: the leaf of an expression.
pub enum Val {
    Ident(Seq<char>),
    Literal(Lit),
    Expr(Box<Expr>),
    Call(Invocation),
    Negative(Box<Val>),
    Not(Box<Val>),
    Inverted(Box<Val>),
}

/// A function call.
pub struct Invocation {
    pub name: Seq<char>,
    pub arguments: Seq<Expr>,
}

/// An expression.
pub enum Expr {
    Binary(BinaryOp, Box<Expr>, Box<Expr>),
    Pipe(Box<Expr>, Invocation),
    Ternary(Box<Expr>, Box<Expr>, Box<Expr>),
    Value(Val),
}

/// A statement.
pub enum Stmt {
    Noop,
    Assignment(Seq<char>, Expr),
    Expression(Expr),
    VarDecl(Seq<char>),
    VarDeclAssign(Seq<char>, Expr),
    GlobalvarDecl(Seq<char>),
    GlobalvarDeclAssign(Seq<char>, Expr),
    If(Expr, Box<Stmt>, Option<Box<Stmt>>),
    While(Expr, Box<Stmt>),
    DoWhile(Box<Stmt>, Expr),
    Until(Expr, Box<Stmt>),
    DoUntil(Box<Stmt>, Expr),
    Repeat(Expr, Box<Stmt>),
    For(Box<Stmt>, Expr, Box<Stmt>, Box<Stmt>),
    Block(Seq<Stmt>),
    Return(Option<Expr>),
    Break,
    Exit,
    Continue,
}

/// The formal arguments of a unit, as a chain.
pub enum Params {
    Argument(Seq<char>, Box<Params>),
    DefaultArgument(Seq<char>, Expr, Box<Params>),
    OptionalArgument(Seq<char>, Box<Params>),
    VariadicArgument(Seq<char>),
    End,
}

/// A whole unit of code: its doc comment lines, its formal arguments and
/// its statements.
pub struct Unit {
    pub docs: Seq<Seq<char>>,
    pub args: Params,
    pub body: Seq<Stmt>,
}

} // verus!
