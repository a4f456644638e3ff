//! The printed form: the text that stands for each tree.

use vstd::prelude::*;

use super::model::BinaryOp;
use super::model::Expr;
use super::model::Invocation;
use super::model::Lit;
use super::model::Params;
use super::model::Radix;
use super::model::Stmt;
use super::model::Unit;
use super::model::Val;

verus! {

/// The width of one step of indentation.
pub const INDENT: usize = 4;

/// A run of `n` blanks.
pub open spec fn spaces(n: nat) -> Seq<char> {
    Seq::new(n, |i: int| ' ')
}

/// A numeric literal in the notation it was written in.
pub open spec fn number_text(radix: Radix, digits: Seq<char>) -> Seq<char> {
    match radix {
        Radix::Binary => "0b"@ + digits,
        Radix::Hexadecimal => "0x"@ + digits,
        Radix::Decimal => digits,
    }
}

/// A character as it stands between the quotes of a character literal:
/// a line feed, a tabulator, a backslash and a single quote are written as
/// escape sequences, every other character as itself.
pub open spec fn char_text(c: char) -> Seq<char> {
    if c == '\n' {
        seq!['\\', 'n']
    } else if c == '\t' {
        seq!['\\', 't']
    } else if c == '\\' {
        seq!['\\', '\\']
    } else if c == '\'' {
        seq!['\\', '\'']
    } else {
        seq![c]
    }
}

/// A literal. The text of a string literal stands between double quotes
/// as it was read.
pub open spec fn literal_text(literal: Lit) -> Seq<char> {
    match literal {
        Lit::Numeric(radix, digits) => number_text(radix, digits),
        Lit::Boolean(b) => if b {
            "true"@
        } else {
            "false"@
        },
        Lit::Text(text) => seq!['"'] + text + seq!['"'],
        Lit::Char(c) => seq!['\''] + char_text(c) + seq!['\''],
        Lit::Undefined => "undefined"@,
    }
}

/// The sign of a binary operator.
pub open spec fn operator_text(op: BinaryOp) -> Seq<char> {
    match op {
        BinaryOp::Plus => "+"@,
        BinaryOp::Minus => "-"@,
        BinaryOp::Times => "*"@,
        BinaryOp::Slash => "/"@,
        BinaryOp::Pct => "%"@,
        BinaryOp::Exp => "**"@,
        BinaryOp::Mod => "mod"@,
        BinaryOp::Div => "div"@,
        BinaryOp::LShift => "<<"@,
        BinaryOp::RShift => ">>"@,
        BinaryOp::And => "&"@,
        BinaryOp::Or => "|"@,
        BinaryOp::Xor => "^"@,
        BinaryOp::BAnd => "&&"@,
        BinaryOp::BOr => "||"@,
        BinaryOp::Eq => "=="@,
        BinaryOp::Neq => "!="@,
        BinaryOp::Lt => "<"@,
        BinaryOp::Gt => ">"@,
        BinaryOp::Leq => "<="@,
        BinaryOp::Geq => ">="@,
    }
}

/// A value. A blank keeps two minus signs apart, which would else be
/// read as one token.
pub open spec fn value_text(value: Val) -> Seq<char>
    decreases value,
{
    match value {
        Val::Ident(name) => name,
        Val::Literal(literal) => literal_text(literal),
        Val::Expr(expr) => seq!['('] + expression_text(*expr) + seq![')'],
        Val::Call(invocation) => invocation_text(invocation),
        Val::Negative(inner) => seq!['-'] + (if *inner is Negative {
            seq![' ']
        } else {
            Seq::empty()
        }) + value_text(*inner),
        Val::Not(inner) => seq!['!'] + value_text(*inner),
        Val::Inverted(inner) => seq!['~'] + value_text(*inner),
    }
}

/// A call: the name, and the arguments between parentheses.
pub open spec fn invocation_text(invocation: Invocation) -> Seq<char>
    decreases invocation,
{
    invocation.name + seq!['('] + list_text(invocation.arguments) + seq![')']
}

/// The expressions of a list, each with a comma and a blank behind it.
pub open spec fn list_text(list: Seq<Expr>) -> Seq<char>
    decreases list,
{
    if list.len() == 0 {
        Seq::empty()
    } else {
        list_text(list.drop_last()) + expression_text(list.last()) + ", "@
    }
}

/// An expression. The operands of an operator stand on its two sides with
/// a blank between each and the operator.
pub open spec fn expression_text(expr: Expr) -> Seq<char>
    decreases expr,
{
    match expr {
        Expr::Binary(op, lhs, rhs) => expression_text(*lhs) + seq![' '] + operator_text(op)
            + seq![' '] + expression_text(*rhs),
        Expr::Pipe(lhs, invocation) => expression_text(*lhs) + " |> "@ + invocation_text(
            invocation,
        ),
        Expr::Ternary(cond, first, second) => expression_text(*cond) + " ? "@ + expression_text(
            *first,
        ) + " : "@ + expression_text(*second),
        Expr::Value(value) => value_text(value),
    }
}

/// A statement without the blanks in front of its first line and without
/// the line feed behind its last, where the statement itself is indented
/// by `indent` blanks.
pub open spec fn statement_text(statement: Stmt, indent: nat) -> Seq<char>
    decreases statement, 0nat,
{
    match statement {
        Stmt::Noop => ";"@,
        Stmt::Assignment(name, expr) => name + " = "@ + expression_text(expr) + ";"@,
        Stmt::Expression(expr) => expression_text(expr) + ";"@,
        Stmt::VarDecl(name) => "var "@ + name + ";"@,
        Stmt::VarDeclAssign(name, expr) => "var "@ + name + " = "@ + expression_text(expr)
            + ";"@,
        Stmt::GlobalvarDecl(name) => "globalvar "@ + name + ";"@,
        Stmt::GlobalvarDeclAssign(name, expr) => "globalvar "@ + name + " = "@
            + expression_text(expr) + ";"@,
        Stmt::If(cond, body, None) => "if ("@ + expression_text(cond) + ")"@ + branch_text(
            *body,
            indent,
        ),
        Stmt::If(cond, body, Some(otherwise)) => "if ("@ + expression_text(cond) + ")"@
            + branch_text(*body, indent) + (if *body is Block {
            " else"@
        } else {
            "\n"@ + spaces(indent) + "else"@
        }) + branch_text(*otherwise, indent),
        Stmt::While(cond, body) => "while ("@ + expression_text(cond) + ")"@ + body_text(
            *body,
            indent,
        ),
        Stmt::Until(cond, body) => "until ("@ + expression_text(cond) + ")"@ + body_text(
            *body,
            indent,
        ),
        Stmt::Repeat(times, body) => "repeat ("@ + expression_text(times) + ")"@ + body_text(
            *body,
            indent,
        ),
        Stmt::DoWhile(body, cond) => "do"@ + do_text(*body, indent) + "while ("@
            + expression_text(cond) + ")"@ + (if *body == Stmt::Noop {
            ";"@
        } else {
            Seq::empty()
        }),
        Stmt::DoUntil(body, cond) => "do"@ + do_text(*body, indent) + "until ("@
            + expression_text(cond) + ")"@ + (if *body == Stmt::Noop {
            ";"@
        } else {
            Seq::empty()
        }),
        Stmt::For(init, cond, update, body) => "for ("@ + statement_text(*init, indent) + " "@
            + expression_text(cond) + " "@ + statement_text(*update, indent) + ")"@ + body_text(
            *body,
            indent,
        ),
        Stmt::Block(list) => "{\n"@ + lines_text(list, indent + INDENT as nat) + spaces(indent)
            + "}"@,
        Stmt::Return(None) => "return;"@,
        Stmt::Return(Some(expr)) => "return "@ + expression_text(expr) + ";"@,
        Stmt::Break => "break;"@,
        Stmt::Exit => "exit;"@,
        Stmt::Continue => "continue;"@,
    }
}

/// The branch of an `if` behind its condition, or behind `else`: a block
/// goes on in the same line, any other statement stands in a line of its
/// own, one step further in.
pub open spec fn branch_text(body: Stmt, indent: nat) -> Seq<char>
    decreases body, 1nat,
{
    if body is Block {
        " "@ + statement_text(body, indent)
    } else {
        "\n"@ + spaces(indent + INDENT as nat) + statement_text(body, indent + INDENT as nat)
    }
}

/// The body of a loop behind its head: a statement that does nothing is
/// kept as a semicolon, and any other body is laid out as a branch is.
pub open spec fn body_text(body: Stmt, indent: nat) -> Seq<char>
    decreases body, 2nat,
{
    if body == Stmt::Noop {
        ";"@
    } else {
        branch_text(body, indent)
    }
}

/// The body of a loop between `do` and the keyword of its condition.
pub open spec fn do_text(body: Stmt, indent: nat) -> Seq<char>
    decreases body, 2nat,
{
    if body == Stmt::Noop {
        "; "@
    } else if body is Block {
        " "@ + statement_text(body, indent) + " "@
    } else {
        branch_text(body, indent) + "\n"@ + spaces(indent)
    }
}

/// A statement as a line of its own, or as several: `indent` blanks in
/// front, and a line feed behind.
pub open spec fn line_text(statement: Stmt, indent: nat) -> Seq<char>
    decreases statement, 3nat,
{
    spaces(indent) + statement_text(statement, indent) + "\n"@
}

/// The statements of a list, each as a line of its own; those that do
/// nothing are left out.
pub open spec fn lines_text(list: Seq<Stmt>, indent: nat) -> Seq<char>
    decreases list, 0nat,
{
    if list.len() == 0 {
        Seq::empty()
    } else {
        lines_text(list.drop_last(), indent) + (if list.last() == Stmt::Noop {
            Seq::empty()
        } else {
            line_text(list.last(), indent)
        })
    }
}

/// The formal arguments of a unit, one in each line.
pub open spec fn params_text(params: Params) -> Seq<char>
    decreases params,
{
    match params {
        Params::Argument(name, rest) => "argument "@ + name + "\n"@ + params_text(*rest),
        Params::DefaultArgument(name, default, rest) => "argument "@ + name + " = "@
            + expression_text(default) + "\n"@ + params_text(*rest),
        Params::OptionalArgument(name, rest) => "argument "@ + name + "?\n"@ + params_text(*rest),
        Params::VariadicArgument(name) => "argument ..."@ + name + "\n"@,
        Params::End => Seq::empty(),
    }
}

/// The lines of a doc comment, each behind the doc comment marker and as
/// it was read.
pub open spec fn docs_text(docs: Seq<Seq<char>>) -> Seq<char>
    decreases docs.len(),
{
    if docs.len() == 0 {
        Seq::empty()
    } else {
        docs_text(docs.drop_last()) + "///"@ + docs.last() + "\n"@
    }
}

/// A whole unit: its doc comment, its formal arguments, and its
/// statements.
pub open spec fn unit_text(unit: Unit) -> Seq<char> {
    docs_text(unit.docs) + params_text(unit.args) + lines_text(unit.body, 0)
}

} // verus!
