//! The grammar: what each production reads from a token sequence.
//!
//! A production is a function of the tokens and of the position at which
//! it begins. It gives the tree that it reads together with the position
//! of the first token behind it, or the error on which it fails.

use vstd::prelude::*;

use super::model::BinaryOp;
use super::model::Expr;
use super::model::Invocation;
use super::model::Lit;
use super::model::Params;
use super::model::Radix;
use super::model::Stmt;
use super::model::Unit;
use super::model::Val;
use crate::error::Error;
use crate::error::ParseError;
use crate::tokenizer::token::Lexeme;
use crate::tokenizer::token::TokenKind;
use crate::tokenizer::tokens::kind_at;
use crate::tokenizer::tokens::text_at;

verus! {

/// What a production gives: a tree and the position behind it, or an
/// error.
pub type Parsed<T> = Result<(T, nat), Error>;

/// How tightly an operator binds, from the loosest to the tightest.
#[derive(Clone, Copy, PartialEq, Eq, Debug, Structural)]
pub enum Precedence {
    Zero,
    Pipe,
    Ternary,
    BoolOr,
    BoolAnd,
    Comparison,
    BitOr,
    BitXor,
    BitAnd,
    Shift,
    DivMod,
    AddSub,
    MultDivPct,
    Exp,
    Max,
}

/// What an operator token joins.
#[derive(Clone, Copy, PartialEq, Eq, Debug, Structural)]
pub enum Operator {
    Pipe,
    Ternary,
    Binary(BinaryOp),
}

impl Precedence {
    /// The place of a precedence in the order, from 0 for `Zero`.
    pub open spec fn level(self) -> nat {
        match self {
            Precedence::Zero => 0,
            Precedence::Pipe => 1,
            Precedence::Ternary => 2,
            Precedence::BoolOr => 3,
            Precedence::BoolAnd => 4,
            Precedence::Comparison => 5,
            Precedence::BitOr => 6,
            Precedence::BitXor => 7,
            Precedence::BitAnd => 8,
            Precedence::Shift => 9,
            Precedence::DivMod => 10,
            Precedence::AddSub => 11,
            Precedence::MultDivPct => 12,
            Precedence::Exp => 13,
            Precedence::Max => 14,
        }
    }
}

/// The operator that a token of the given category is, if it is one.
pub open spec fn operator(kind: TokenKind) -> Option<Operator> {
    match kind {
        TokenKind::Pipe => Some(Operator::Pipe),
        TokenKind::Question => Some(Operator::Ternary),
        TokenKind::BOr => Some(Operator::Binary(BinaryOp::BOr)),
        TokenKind::BAnd => Some(Operator::Binary(BinaryOp::BAnd)),
        TokenKind::Equal => Some(Operator::Binary(BinaryOp::Eq)),
        TokenKind::NotEqual => Some(Operator::Binary(BinaryOp::Neq)),
        TokenKind::Less => Some(Operator::Binary(BinaryOp::Lt)),
        TokenKind::More => Some(Operator::Binary(BinaryOp::Gt)),
        TokenKind::LessEqual => Some(Operator::Binary(BinaryOp::Leq)),
        TokenKind::MoreEqual => Some(Operator::Binary(BinaryOp::Geq)),
        TokenKind::Or => Some(Operator::Binary(BinaryOp::Or)),
        TokenKind::Xor => Some(Operator::Binary(BinaryOp::Xor)),
        TokenKind::And => Some(Operator::Binary(BinaryOp::And)),
        TokenKind::LShift => Some(Operator::Binary(BinaryOp::LShift)),
        TokenKind::RShift => Some(Operator::Binary(BinaryOp::RShift)),
        TokenKind::Div => Some(Operator::Binary(BinaryOp::Div)),
        TokenKind::Mod => Some(Operator::Binary(BinaryOp::Mod)),
        TokenKind::Plus => Some(Operator::Binary(BinaryOp::Plus)),
        TokenKind::Minus => Some(Operator::Binary(BinaryOp::Minus)),
        TokenKind::Star => Some(Operator::Binary(BinaryOp::Times)),
        TokenKind::Slash => Some(Operator::Binary(BinaryOp::Slash)),
        TokenKind::Pct => Some(Operator::Binary(BinaryOp::Pct)),
        TokenKind::Exp => Some(Operator::Binary(BinaryOp::Exp)),
        _ => None,
    }
}

/// How tightly each operator binds.
pub open spec fn precedence(op: Operator) -> Precedence {
    match op {
        Operator::Pipe => Precedence::Pipe,
        Operator::Ternary => Precedence::Ternary,
        Operator::Binary(binary) => match binary {
            BinaryOp::BOr => Precedence::BoolOr,
            BinaryOp::BAnd => Precedence::BoolAnd,
            BinaryOp::Eq
            | BinaryOp::Neq
            | BinaryOp::Lt
            | BinaryOp::Gt
            | BinaryOp::Leq
            | BinaryOp::Geq => Precedence::Comparison,
            BinaryOp::Or => Precedence::BitOr,
            BinaryOp::Xor => Precedence::BitXor,
            BinaryOp::And => Precedence::BitAnd,
            BinaryOp::LShift | BinaryOp::RShift => Precedence::Shift,
            BinaryOp::Div | BinaryOp::Mod => Precedence::DivMod,
            BinaryOp::Plus | BinaryOp::Minus => Precedence::AddSub,
            BinaryOp::Times | BinaryOp::Slash | BinaryOp::Pct => Precedence::MultDivPct,
            BinaryOp::Exp => Precedence::Exp,
        },
    }
}

/// The precedence of a token of the given category, and `None` for a token
/// that is no operator.
pub open spec fn precedence_of(kind: TokenKind) -> Option<Precedence> {
    match operator(kind) {
        Some(op) => Some(precedence(op)),
        None => None,
    }
}

/// The operator at a position, if a token is there and it is one.
pub open spec fn operator_at(tokens: Seq<Lexeme>, pos: nat) -> Option<Operator> {
    match kind_at(tokens, pos as int) {
        Some(kind) => operator(kind),
        None => None,
    }
}

/// The failure of a production on something that it expected.
pub open spec fn expected<T>(what: ParseError) -> Parsed<T> {
    Err(Error::ParseError(what))
}

/// Whether the token at `pos` is of the given category.
pub open spec fn at(tokens: Seq<Lexeme>, pos: nat, kind: TokenKind) -> bool {
    kind_at(tokens, pos as int) == Some(kind)
}

/// The number of tokens from `pos` to the end of the sequence.
pub open spec fn remaining(tokens: Seq<Lexeme>, pos: nat) -> nat {
    if pos <= tokens.len() {
        (tokens.len() - pos) as nat
    } else {
        0
    }
}

/// The result of a production that began at `from`, if it ends behind
/// `from`.
///
/// Every production that succeeds reads at least one token, so this keeps
/// each of their results as it is. It stands where the grammar goes on
/// behind a production, and is what makes the recursion of the grammar
/// well-founded.
pub open spec fn forward<T>(from: nat, parsed: Parsed<T>) -> Parsed<T> {
    match parsed {
        Ok((_, end)) => if from < end {
            parsed
        } else {
            Err(Error::UnexpectedEOF)
        },
        Err(_) => parsed,
    }
}

/// The end of a statement: a semicolon and an end of line together, or
/// either of them alone.
pub open spec fn terminator(tokens: Seq<Lexeme>, pos: nat) -> Result<nat, ParseError> {
    if at(tokens, pos, TokenKind::Semi) && at(tokens, pos + 1, TokenKind::EOL) {
        Ok(pos + 2)
    } else if at(tokens, pos, TokenKind::Semi) || at(tokens, pos, TokenKind::EOL) {
        Ok(pos + 1)
    } else {
        Err(ParseError::ExpectedEndOfStatement)
    }
}

/// A tree with the terminator behind it.
pub open spec fn terminated<T>(tokens: Seq<Lexeme>, tree: T, pos: nat) -> Parsed<T> {
    match terminator(tokens, pos) {
        Ok(end) => Ok((tree, end)),
        Err(error) => Err(Error::ParseError(error)),
    }
}

/// An identifier.
pub open spec fn identifier(tokens: Seq<Lexeme>, pos: nat) -> Parsed<Seq<char>> {
    if at(tokens, pos, TokenKind::Identifier) {
        Ok((text_at(tokens, pos as int), pos + 1))
    } else {
        expected(ParseError::ExpectedIdentifier)
    }
}

/// The character that stands behind a backslash in a character literal.
pub open spec fn escaped(c: char) -> Option<char> {
    if c == 'n' {
        Some('\n')
    } else if c == 't' {
        Some('\t')
    } else if c == '\\' || c == '\'' || c == '"' {
        Some(c)
    } else {
        None
    }
}

/// The character that the text between the quotes of a character literal
/// denotes: the character itself, or the one that an escape sequence
/// stands for.
pub open spec fn character(text: Seq<char>) -> Option<char> {
    if text.len() == 1 && text[0] != '\\' {
        Some(text[0])
    } else if text.len() == 2 && text[0] == '\\' {
        escaped(text[1])
    } else {
        None
    }
}

/// A literal.
pub open spec fn literal(tokens: Seq<Lexeme>, pos: nat) -> Parsed<Lit> {
    let text = text_at(tokens, pos as int);
    match kind_at(tokens, pos as int) {
        Some(TokenKind::BinLiteral) => Ok((Lit::Numeric(Radix::Binary, text), pos + 1)),
        Some(TokenKind::HexLiteral) => Ok((Lit::Numeric(Radix::Hexadecimal, text), pos + 1)),
        Some(TokenKind::DecLiteral) => Ok((Lit::Numeric(Radix::Decimal, text), pos + 1)),
        Some(TokenKind::BoolLiteral) => Ok((Lit::Boolean(text == "true"@), pos + 1)),
        Some(TokenKind::StrLiteral) => Ok((Lit::Text(text), pos + 1)),
        Some(TokenKind::CharLiteral) => match character(text) {
            Some(c) => Ok((Lit::Char(c), pos + 1)),
            None => expected(ParseError::ExpectedLiteral),
        },
        Some(TokenKind::UndefinedLiteral) => Ok((Lit::Undefined, pos + 1)),
        _ => expected(ParseError::ExpectedLiteral),
    }
}

/// Whether a literal begins with a token of this category.
pub open spec fn begins_literal(kind: TokenKind) -> bool {
    ||| kind == TokenKind::BinLiteral
    ||| kind == TokenKind::HexLiteral
    ||| kind == TokenKind::DecLiteral
    ||| kind == TokenKind::StrLiteral
    ||| kind == TokenKind::CharLiteral
    ||| kind == TokenKind::BoolLiteral
    ||| kind == TokenKind::UndefinedLiteral
}

/// A value: a call, an identifier, a literal, an expression in
/// parentheses, or a value with a sign in front of it.
pub open spec fn value(tokens: Seq<Lexeme>, pos: nat) -> Parsed<Val>
    decreases remaining(tokens, pos), 3nat,
{
    match kind_at(tokens, pos as int) {
        Some(TokenKind::Identifier) => if at(tokens, pos + 1, TokenKind::LParen) {
            match call(tokens, pos) {
                Ok((invocation, end)) => Ok((Val::Call(invocation), end)),
                Err(error) => Err(error),
            }
        } else {
            Ok((Val::Ident(text_at(tokens, pos as int)), pos + 1))
        },
        Some(TokenKind::LParen) => match parenthesized(tokens, pos) {
            Ok((expr, end)) => Ok((Val::Expr(Box::new(expr)), end)),
            Err(error) => Err(error),
        },
        Some(TokenKind::Minus) => match value(tokens, pos + 1) {
            Ok((inner, end)) => Ok((Val::Negative(Box::new(inner)), end)),
            Err(error) => Err(error),
        },
        Some(TokenKind::Bang) => match value(tokens, pos + 1) {
            Ok((inner, end)) => Ok((Val::Not(Box::new(inner)), end)),
            Err(error) => Err(error),
        },
        Some(TokenKind::Inv) => match value(tokens, pos + 1) {
            Ok((inner, end)) => Ok((Val::Inverted(Box::new(inner)), end)),
            Err(error) => Err(error),
        },
        Some(kind) => if begins_literal(kind) {
            match literal(tokens, pos) {
                Ok((lit, end)) => Ok((Val::Literal(lit), end)),
                Err(error) => Err(error),
            }
        } else {
            expected(ParseError::ExpectedValue)
        },
        None => expected(ParseError::ExpectedValue),
    }
}

/// An expression between parentheses.
pub open spec fn parenthesized(tokens: Seq<Lexeme>, pos: nat) -> Parsed<Expr>
    decreases remaining(tokens, pos), 2nat,
{
    if !at(tokens, pos, TokenKind::LParen) {
        expected(ParseError::ExpectedParentheses)
    } else {
        match expression(tokens, pos + 1) {
            Err(error) => Err(error),
            Ok((expr, end)) => if at(tokens, end, TokenKind::RParen) {
                Ok((expr, end + 1))
            } else {
                expected(ParseError::MismatchedParentheses)
            },
        }
    }
}

/// A call: a name, and its arguments between parentheses.
pub open spec fn call(tokens: Seq<Lexeme>, pos: nat) -> Parsed<Invocation>
    decreases remaining(tokens, pos), 2nat,
{
    if !at(tokens, pos, TokenKind::Identifier) {
        expected(ParseError::ExpectedIdentifier)
    } else if !at(tokens, pos + 1, TokenKind::LParen) {
        expected(ParseError::ExpectedFunctionCall)
    } else {
        let (arguments, end) = comma_list(tokens, pos + 2);
        if at(tokens, end, TokenKind::RParen) {
            Ok((Invocation { name: text_at(tokens, pos as int), arguments }, end + 1))
        } else {
            expected(ParseError::ExpectedArgument)
        }
    }
}

/// Expressions separated by commas. The list ends in front of the first
/// token that begins no expression, so it never fails; one comma may
/// stand behind the last expression.
pub open spec fn comma_list(tokens: Seq<Lexeme>, pos: nat) -> (Seq<Expr>, nat)
    decreases remaining(tokens, pos), 5nat,
{
    match forward(pos, expression(tokens, pos)) {
        Err(_) => (Seq::empty(), pos),
        Ok((expr, end)) => if at(tokens, end, TokenKind::Comma) {
            let (rest, last) = comma_list(tokens, end + 1);
            (seq![expr] + rest, last)
        } else {
            (seq![expr], end)
        },
    }
}

/// An expression: a value, and the operators and operands behind it.
pub open spec fn expression(tokens: Seq<Lexeme>, pos: nat) -> Parsed<Expr>
    decreases remaining(tokens, pos), 4nat,
{
    match forward(pos, value(tokens, pos)) {
        Err(error) => Err(error),
        Ok((first, end)) => climb(tokens, end, Expr::Value(first), Precedence::Zero),
    }
}

/// The expression that begins with `lhs`, which ends in front of `pos`,
/// and takes in every operator of at least the precedence `min` that
/// follows. It ends in front of the first token that is no such operator.
pub open spec fn climb(tokens: Seq<Lexeme>, pos: nat, lhs: Expr, min: Precedence) -> Parsed<Expr>
    decreases remaining(tokens, pos), 1nat,
{
    match operator_at(tokens, pos) {
        Some(op) => if precedence(op).level() >= min.level() {
            match forward(pos, combine(tokens, pos, lhs)) {
                Err(error) => Err(error),
                Ok((joined, end)) => climb(tokens, end, joined, min),
            }
        } else {
            Ok((lhs, pos))
        },
        None => Ok((lhs, pos)),
    }
}

/// `lhs` joined by the operator at `pos` to what that operator takes on
/// its right: one call for a pipe, two expressions with a colon between
/// them for a question mark, and for a binary operator a value with every
/// operator behind it that binds tighter.
pub open spec fn combine(tokens: Seq<Lexeme>, pos: nat, lhs: Expr) -> Parsed<Expr>
    decreases remaining(tokens, pos), 0nat,
{
    match operator_at(tokens, pos) {
        None => Ok((lhs, pos)),
        Some(Operator::Pipe) => match call(tokens, pos + 1) {
            Err(error) => Err(error),
            Ok((invocation, end)) => Ok((Expr::Pipe(Box::new(lhs), invocation), end)),
        },
        Some(Operator::Ternary) => match forward(pos + 1, expression(tokens, pos + 1)) {
            Err(error) => Err(error),
            Ok((first, colon)) => if at(tokens, colon, TokenKind::Colon) {
                match expression(tokens, colon + 1) {
                    Err(error) => Err(error),
                    Ok((second, end)) => Ok(
                        (Expr::Ternary(Box::new(lhs), Box::new(first), Box::new(second)), end),
                    ),
                }
            } else {
                expected(ParseError::IncompleteTernaryOperator)
            },
        },
        Some(Operator::Binary(op)) => match forward(pos + 1, value(tokens, pos + 1)) {
            Err(error) => Err(error),
            Ok((first, end)) => match tighten(
                tokens,
                end,
                Expr::Value(first),
                precedence(Operator::Binary(op)),
            ) {
                Err(error) => Err(error),
                Ok((rhs, last)) => Ok((Expr::Binary(op, Box::new(lhs), Box::new(rhs)), last)),
            },
        },
    }
}

/// The right operand of a binary operator of the precedence `level`: `rhs`
/// with every operator behind it that binds tighter than `level`.
pub open spec fn tighten(tokens: Seq<Lexeme>, pos: nat, rhs: Expr, level: Precedence) -> Parsed<
    Expr,
>
    decreases remaining(tokens, pos), 2nat,
{
    match operator_at(tokens, pos) {
        Some(op) => if precedence(op).level() > level.level() {
            match forward(pos, climb(tokens, pos, rhs, precedence(op))) {
                Err(error) => Err(error),
                Ok((bound, end)) => tighten(tokens, end, bound, level),
            }
        } else {
            Ok((rhs, pos))
        },
        None => Ok((rhs, pos)),
    }
}

/// An assignment: a name, `=`, and an expression.
pub open spec fn assignment(tokens: Seq<Lexeme>, pos: nat) -> Parsed<(Seq<char>, Expr)> {
    match identifier(tokens, pos) {
        Err(error) => Err(error),
        Ok((name, end)) => if at(tokens, end, TokenKind::Assign) {
            match expression(tokens, end + 1) {
                Err(error) => Err(error),
                Ok((expr, last)) => Ok(((name, expr), last)),
            }
        } else {
            expected(ParseError::ExpectedStatement)
        },
    }
}

/// A declaration of a variable, of the given scope, behind its keyword.
pub open spec fn declaration(tokens: Seq<Lexeme>, pos: nat, global: bool) -> Parsed<Stmt> {
    match identifier(tokens, pos) {
        Err(error) => Err(error),
        Ok((name, end)) => if at(tokens, end, TokenKind::Assign) {
            match expression(tokens, end + 1) {
                Err(error) => Err(error),
                Ok((expr, last)) => terminated(
                    tokens,
                    if global {
                        Stmt::GlobalvarDeclAssign(name, expr)
                    } else {
                        Stmt::VarDeclAssign(name, expr)
                    },
                    last,
                ),
            }
        } else {
            terminated(
                tokens,
                if global {
                    Stmt::GlobalvarDecl(name)
                } else {
                    Stmt::VarDecl(name)
                },
                end,
            )
        },
    }
}

/// What stands behind `return`: the end of the statement, or a value and
/// then the end of the statement.
pub open spec fn returned(tokens: Seq<Lexeme>, pos: nat) -> Parsed<Stmt> {
    match terminator(tokens, pos) {
        Ok(end) => Ok((Stmt::Return(None), end)),
        Err(_) => match expression(tokens, pos) {
            Err(error) => Err(error),
            Ok((expr, end)) => terminated(tokens, Stmt::Return(Some(expr)), end),
        },
    }
}

/// A statement that begins with no keyword: an expression and the end of
/// the statement, or else an assignment and the end of the statement.
pub open spec fn plain(tokens: Seq<Lexeme>, pos: nat) -> Parsed<Stmt> {
    let as_expression = match expression(tokens, pos) {
        Err(error) => Err(error),
        Ok((expr, end)) => terminated(tokens, Stmt::Expression(expr), end),
    };
    let as_assignment = match assignment(tokens, pos) {
        Err(error) => Err(error),
        Ok(((name, expr), end)) => terminated(tokens, Stmt::Assignment(name, expr), end),
    };
    if as_expression.is_ok() {
        as_expression
    } else if as_assignment.is_ok() {
        as_assignment
    } else {
        expected(ParseError::ExpectedStatement)
    }
}

/// A statement. The first token decides which.
pub open spec fn statement(tokens: Seq<Lexeme>, pos: nat) -> Parsed<Stmt>
    decreases remaining(tokens, pos), 7nat,
{
    match kind_at(tokens, pos as int) {
        Some(TokenKind::Semi) => terminated(tokens, Stmt::Noop, pos),
        Some(TokenKind::Var) => declaration(tokens, pos + 1, false),
        Some(TokenKind::Globalvar) => declaration(tokens, pos + 1, true),
        Some(TokenKind::If) => conditional(tokens, pos),
        Some(TokenKind::Do) => post_loop(tokens, pos),
        Some(TokenKind::For) => for_loop(tokens, pos),
        Some(TokenKind::Repeat) => pre_loop(tokens, pos),
        Some(TokenKind::While) => pre_loop(tokens, pos),
        Some(TokenKind::Until) => pre_loop(tokens, pos),
        Some(TokenKind::Break) => terminated(tokens, Stmt::Break, pos + 1),
        Some(TokenKind::Continue) => terminated(tokens, Stmt::Continue, pos + 1),
        Some(TokenKind::Exit) => terminated(tokens, Stmt::Exit, pos + 1),
        Some(TokenKind::Return) => returned(tokens, pos + 1),
        Some(TokenKind::LBrace) => block(tokens, pos),
        _ => plain(tokens, pos),
    }
}

/// An `if` statement, whose keyword is at `pos`: a condition between
/// parentheses, a statement, and then, if `else` follows, a second
/// statement.
pub open spec fn conditional(tokens: Seq<Lexeme>, pos: nat) -> Parsed<Stmt>
    decreases remaining(tokens, pos), 6nat,
{
    if pos >= tokens.len() {
        expected(ParseError::ExpectedStatement)
    } else {
        match forward(pos + 1, parenthesized(tokens, pos + 1)) {
            Err(error) => Err(error),
            Ok((cond, then)) => match forward(then, statement(tokens, then)) {
                Err(error) => Err(error),
                Ok((body, end)) => if at(tokens, end, TokenKind::Else) {
                    match statement(tokens, end + 1) {
                        Err(error) => Err(error),
                        Ok((otherwise, last)) => Ok(
                            (Stmt::If(cond, Box::new(body), Some(Box::new(otherwise))), last),
                        ),
                    }
                } else {
                    Ok((Stmt::If(cond, Box::new(body), None), end))
                },
            },
        }
    }
}

/// A loop with its condition behind its body, whose keyword `do` is at
/// `pos`: a statement, `while` or `until`, and a condition between
/// parentheses.
pub open spec fn post_loop(tokens: Seq<Lexeme>, pos: nat) -> Parsed<Stmt>
    decreases remaining(tokens, pos), 6nat,
{
    if pos >= tokens.len() {
        expected(ParseError::ExpectedStatement)
    } else {
        match statement(tokens, pos + 1) {
            Err(error) => Err(error),
            Ok((body, end)) => if at(tokens, end, TokenKind::While) {
                match parenthesized(tokens, end + 1) {
                    Err(error) => Err(error),
                    Ok((cond, last)) => Ok((Stmt::DoWhile(Box::new(body), cond), last)),
                }
            } else if at(tokens, end, TokenKind::Until) {
                match parenthesized(tokens, end + 1) {
                    Err(error) => Err(error),
                    Ok((cond, last)) => Ok((Stmt::DoUntil(Box::new(body), cond), last)),
                }
            } else {
                expected(ParseError::ExpectedKeyword)
            },
        }
    }
}

/// A `for` loop, whose keyword is at `pos`: between parentheses a
/// statement, an expression and a second statement, and behind them the
/// body. Each of the two statements in the parentheses ends with its own
/// terminator, and nothing stands between the expression and the second
/// statement.
pub open spec fn for_loop(tokens: Seq<Lexeme>, pos: nat) -> Parsed<Stmt>
    decreases remaining(tokens, pos), 6nat,
{
    if pos >= tokens.len() {
        expected(ParseError::ExpectedStatement)
    } else if !at(tokens, pos + 1, TokenKind::LParen) {
        expected(ParseError::ExpectedParentheses)
    } else {
        match forward(pos + 2, statement(tokens, pos + 2)) {
            Err(error) => Err(error),
            Ok((init, first)) => match forward(first, expression(tokens, first)) {
                Err(error) => Err(error),
                Ok((cond, second)) => match forward(second, statement(tokens, second)) {
                    Err(error) => Err(error),
                    Ok((update, close)) => if !at(tokens, close, TokenKind::RParen) {
                        expected(ParseError::MismatchedParentheses)
                    } else {
                        match statement(tokens, close + 1) {
                            Err(error) => Err(error),
                            Ok((body, last)) => Ok(
                                (
                                    Stmt::For(
                                        Box::new(init),
                                        cond,
                                        Box::new(update),
                                        Box::new(body),
                                    ),
                                    last,
                                ),
                            ),
                        }
                    },
                },
            },
        }
    }
}

/// A loop with its condition, or its count, in front of its body, whose
/// keyword is at `pos`: a condition between parentheses and a statement.
/// The keyword decides whether it is a `repeat`, a `while` or an `until`
/// loop.
pub open spec fn pre_loop(tokens: Seq<Lexeme>, pos: nat) -> Parsed<Stmt>
    decreases remaining(tokens, pos), 6nat,
{
    if pos >= tokens.len() {
        expected(ParseError::ExpectedStatement)
    } else {
        match forward(pos + 1, parenthesized(tokens, pos + 1)) {
            Err(error) => Err(error),
            Ok((cond, then)) => match statement(tokens, then) {
                Err(error) => Err(error),
                Ok((body, last)) => if at(tokens, pos, TokenKind::Repeat) {
                    Ok((Stmt::Repeat(cond, Box::new(body)), last))
                } else if at(tokens, pos, TokenKind::While) {
                    Ok((Stmt::While(cond, Box::new(body)), last))
                } else {
                    Ok((Stmt::Until(cond, Box::new(body)), last))
                },
            },
        }
    }
}

/// A block, whose opening brace is at `pos`: statements up to the closing
/// brace.
pub open spec fn block(tokens: Seq<Lexeme>, pos: nat) -> Parsed<Stmt>
    decreases remaining(tokens, pos), 6nat,
{
    if pos >= tokens.len() {
        expected(ParseError::ExpectedStatement)
    } else {
        match sequence(tokens, pos + 1, TokenKind::RBrace) {
            Err(error) => Err(error),
            Ok((list, close)) => Ok((Stmt::Block(list), close + 1)),
        }
    }
}

/// Statements up to a token of the category `closing`, in front of which
/// the sequence ends. Where the tokens end before that, a statement is
/// missing.
pub open spec fn sequence(tokens: Seq<Lexeme>, pos: nat, closing: TokenKind) -> Parsed<Seq<Stmt>>
    decreases remaining(tokens, pos), 8nat,
{
    if at(tokens, pos, closing) {
        Ok((Seq::empty(), pos))
    } else if pos >= tokens.len() {
        expected(ParseError::ExpectedStatement)
    } else {
        match forward(pos, statement(tokens, pos)) {
            Err(error) => Err(error),
            Ok((first, end)) => match sequence(tokens, end, closing) {
                Err(error) => Err(error),
                Ok((rest, last)) => Ok((seq![first] + rest, last)),
            },
        }
    }
}

/// The formal arguments of a unit: a chain of `argument` declarations,
/// which ends behind a variadic one or in front of the first token that is
/// not `argument`.
pub open spec fn arguments(tokens: Seq<Lexeme>, pos: nat) -> Parsed<Params>
    decreases remaining(tokens, pos),
{
    if !at(tokens, pos, TokenKind::Argument) {
        Ok((Params::End, pos))
    } else if at(tokens, pos + 1, TokenKind::DotDotDot) {
        match identifier(tokens, pos + 2) {
            Err(error) => Err(error),
            Ok((name, end)) => Ok((Params::VariadicArgument(name), end)),
        }
    } else {
        match identifier(tokens, pos + 1) {
            Err(error) => Err(error),
            Ok((name, end)) => if at(tokens, end, TokenKind::Question) {
                match arguments(tokens, end + 1) {
                    Err(error) => Err(error),
                    Ok((rest, last)) => Ok((Params::OptionalArgument(name, Box::new(rest)), last)),
                }
            } else if at(tokens, end, TokenKind::Assign) {
                match forward(end + 1, expression(tokens, end + 1)) {
                    Err(error) => Err(error),
                    Ok((default, then)) => match arguments(tokens, then) {
                        Err(error) => Err(error),
                        Ok((rest, last)) => Ok(
                            (Params::DefaultArgument(name, default, Box::new(rest)), last),
                        ),
                    },
                }
            } else {
                match arguments(tokens, end) {
                    Err(error) => Err(error),
                    Ok((rest, last)) => Ok((Params::Argument(name, Box::new(rest)), last)),
                }
            },
        }
    }
}

/// The doc comment lines at the head of a unit: each a doc comment token
/// with an end of line behind it.
pub open spec fn doc_comment(tokens: Seq<Lexeme>, pos: nat) -> (Seq<Seq<char>>, nat)
    decreases remaining(tokens, pos),
{
    if at(tokens, pos, TokenKind::DocComment) && at(tokens, pos + 1, TokenKind::EOL) {
        let (rest, end) = doc_comment(tokens, pos + 2);
        (seq![text_at(tokens, pos as int)] + rest, end)
    } else {
        (Seq::empty(), pos)
    }
}

/// A unit of code, which begins behind the begin-of-file token at `pos`:
/// doc comment lines, formal arguments, and statements up to the
/// end-of-file token.
pub open spec fn code(tokens: Seq<Lexeme>, pos: nat) -> Parsed<Unit> {
    let (docs, head) = doc_comment(tokens, pos + 1);
    match arguments(tokens, head) {
        Err(error) => Err(error),
        Ok((args, then)) => match sequence(tokens, then, TokenKind::EOF) {
            Err(error) => Err(error),
            Ok((body, end)) => Ok((Unit { docs, args, body }, end)),
        },
    }
}

} // verus!
