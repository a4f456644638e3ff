//! The parsers of expressions and of what expressions are made of.
//!
//! Each parser reads the production of the same name in the grammar. On
//! success the cursor stands behind what was read; on failure it stands
//! where it stood before.

use vstd::prelude::*;
use vstd::string::StrSliceExecFns;

use super::grammar::call;
use super::grammar::character;
use super::grammar::climb;
use super::grammar::combine;
use super::grammar::comma_list;
use super::grammar::escaped;
use super::grammar::expression;
use super::grammar::identifier;
use super::grammar::literal;
use super::grammar::operator;
use super::grammar::operator_at;
use super::grammar::precedence;
use super::grammar::precedence_of;
use super::grammar::remaining;
use super::grammar::tighten;
use super::grammar::value;
use super::helpers::here;
use super::helpers::parenthesized;
use super::grammar::Operator;
use super::grammar::Parsed;
use super::grammar::Precedence;
use super::model::BinaryOp;
use super::model::Expr;
use super::model::Radix;
use super::tree::expressions;
use super::tree::Call;
use super::tree::CommaList;
use super::tree::Expression;
use super::tree::Identifier;
use super::tree::Literal;
use super::tree::Number;
use super::tree::Value;
use crate::chars::same_text;
use crate::error::Error;
use crate::error::ParseError;
use crate::tokenizer::token::Token;
use crate::tokenizer::token::TokenKind;
use crate::tokenizer::tokens::Tokens;

verus! {

/// What a parser owes: the token sequence is left as it was, and the
/// result and the cursor are those of the production. On success the tree
/// is the one that the production reads and the cursor stands behind it;
/// on failure the error is the production's and the cursor is back where
/// it stood.
pub open spec fn outcome<T: View>(
    r: Result<T, Error>,
    parsed: Parsed<T::V>,
    before: Tokens,
    after: Tokens,
) -> bool {
    &&& after@ == before@
    &&& match parsed {
        Ok((tree, end)) => r matches Ok(found) && found@ == tree && after.position() == end,
        Err(error) => r matches Err(e) && e == error && after.position() == before.position(),
    }
}

impl Precedence {
    /// The place of the precedence in the order.
    pub fn rank(&self) -> (r: u8)
        ensures
            r == self.level(),
    {
        match self {
            Precedence::Zero => 0,
            Precedence::Pipe => 1,
            Precedence::Ternary => 2,
            Precedence::BoolOr => 3,
            Precedence::BoolAnd => 4,
            Precedence::Comparison => 5,
            Precedence::BitOr => 6,
            Precedence::BitXor => 7,
            Precedence::BitAnd => 8,
            Precedence::Shift => 9,
            Precedence::DivMod => 10,
            Precedence::AddSub => 11,
            Precedence::MultDivPct => 12,
            Precedence::Exp => 13,
            Precedence::Max => 14,
        }
    }

    /// The precedence of a token, if it is an operator.
    pub fn of(token: &Token) -> (r: Option<Self>)
        ensures
            r == precedence_of(token@.kind),
    {
        match Operator::of(token.kind()) {
            Some(op) => Some(op.precedence()),
            None => None,
        }
    }
}

impl Default for Precedence {
    fn default() -> (r: Self)
        ensures
            r == Precedence::Zero,
    {
        Precedence::Zero
    }
}

impl Operator {
    /// The operator that a token of the given category is, if it is one.
    pub fn of(kind: TokenKind) -> (r: Option<Self>)
        ensures
            r == operator(kind),
    {
        match kind {
            TokenKind::Pipe => Some(Operator::Pipe),
            TokenKind::Question => Some(Operator::Ternary),
            TokenKind::BOr => Some(Operator::Binary(BinaryOp::BOr)),
            TokenKind::BAnd => Some(Operator::Binary(BinaryOp::BAnd)),
            TokenKind::Equal => Some(Operator::Binary(BinaryOp::Eq)),
            TokenKind::NotEqual => Some(Operator::Binary(BinaryOp::Neq)),
            TokenKind::Less => Some(Operator::Binary(BinaryOp::Lt)),
            TokenKind::More => Some(Operator::Binary(BinaryOp::Gt)),
            TokenKind::LessEqual => Some(Operator::Binary(BinaryOp::Leq)),
            TokenKind::MoreEqual => Some(Operator::Binary(BinaryOp::Geq)),
            TokenKind::Or => Some(Operator::Binary(BinaryOp::Or)),
            TokenKind::Xor => Some(Operator::Binary(BinaryOp::Xor)),
            TokenKind::And => Some(Operator::Binary(BinaryOp::And)),
            TokenKind::LShift => Some(Operator::Binary(BinaryOp::LShift)),
            TokenKind::RShift => Some(Operator::Binary(BinaryOp::RShift)),
            TokenKind::Div => Some(Operator::Binary(BinaryOp::Div)),
            TokenKind::Mod => Some(Operator::Binary(BinaryOp::Mod)),
            TokenKind::Plus => Some(Operator::Binary(BinaryOp::Plus)),
            TokenKind::Minus => Some(Operator::Binary(BinaryOp::Minus)),
            TokenKind::Star => Some(Operator::Binary(BinaryOp::Times)),
            TokenKind::Slash => Some(Operator::Binary(BinaryOp::Slash)),
            TokenKind::Pct => Some(Operator::Binary(BinaryOp::Pct)),
            TokenKind::Exp => Some(Operator::Binary(BinaryOp::Exp)),
            _ => None,
        }
    }

    /// How tightly the operator binds.
    pub fn precedence(&self) -> (r: Precedence)
        ensures
            r == precedence(*self),
    {
        match self {
            Operator::Pipe => Precedence::Pipe,
            Operator::Ternary => Precedence::Ternary,
            Operator::Binary(binary) => match binary {
                BinaryOp::BOr => Precedence::BoolOr,
                BinaryOp::BAnd => Precedence::BoolAnd,
                BinaryOp::Eq
                | BinaryOp::Neq
                | BinaryOp::Lt
                | BinaryOp::Gt
                | BinaryOp::Leq
                | BinaryOp::Geq => Precedence::Comparison,
                BinaryOp::Or => Precedence::BitOr,
                BinaryOp::Xor => Precedence::BitXor,
                BinaryOp::And => Precedence::BitAnd,
                BinaryOp::LShift | BinaryOp::RShift => Precedence::Shift,
                BinaryOp::Div | BinaryOp::Mod => Precedence::DivMod,
                BinaryOp::Plus | BinaryOp::Minus => Precedence::AddSub,
                BinaryOp::Times | BinaryOp::Slash | BinaryOp::Pct => Precedence::MultDivPct,
                BinaryOp::Exp => Precedence::Exp,
            },
        }
    }
}

/// Whether an expression that takes in operators from the precedence
/// `min` on takes in the operator found.
pub open spec fn takes(found: Option<Operator>, min: Precedence) -> bool {
    match found {
        Some(op) => precedence(op).level() >= min.level(),
        None => false,
    }
}

/// The operator at the cursor, if a token is there and it is one.
fn operator_here(tokens: &Tokens) -> (r: Option<Operator>)
    ensures
        r == operator_at(tokens@, tokens.position()),
        tokens@.len() <= usize::MAX,
{
    match tokens.kind(0) {
        Some(kind) => Operator::of(kind),
        None => None,
    }
}

impl Identifier {
    /// Reads an identifier.
    pub fn parse(tokens: &mut Tokens) -> (r: Result<Self, Error>)
        ensures
            outcome(
                r,
                identifier(old(tokens)@, old(tokens).position()),
                *old(tokens),
                *final(tokens),
            ),
            r.is_ok() ==> old(tokens).position() < final(tokens).position(),
    {
        if here(tokens, TokenKind::Identifier) {
            Ok(Identifier(tokens.next().into_text()))
        } else {
            Err(Error::ParseError(ParseError::ExpectedIdentifier))
        }
    }
}

/// The character that stands behind a backslash.
fn unescape(c: char) -> (r: Option<char>)
    ensures
        r == escaped(c),
{
    if c == 'n' {
        Some('\n')
    } else if c == 't' {
        Some('\t')
    } else if c == '\\' || c == '\'' || c == '"' {
        Some(c)
    } else {
        None
    }
}

/// The character that the text of a character literal denotes.
fn decode(text: &str) -> (r: Option<char>)
    ensures
        r == character(text@),
{
    let len: usize = text.unicode_len();
    if len == 1 {
        let c = text.get_char(0);
        if c != '\\' {
            Some(c)
        } else {
            None
        }
    } else if len == 2 {
        if text.get_char(0) == '\\' {
            unescape(text.get_char(1))
        } else {
            None
        }
    } else {
        None
    }
}

impl Literal {
    /// Reads a literal.
    pub fn parse(tokens: &mut Tokens) -> (r: Result<Self, Error>)
        ensures
            outcome(
                r,
                literal(old(tokens)@, old(tokens).position()),
                *old(tokens),
                *final(tokens),
            ),
            r.is_ok() ==> old(tokens).position() < final(tokens).position(),
    {
        match tokens.kind(0) {
            Some(TokenKind::BinLiteral) => Ok(
                Literal::Numeric(Number { radix: Radix::Binary, digits: tokens.next().into_text() }),
            ),
            Some(TokenKind::HexLiteral) => Ok(
                Literal::Numeric(
                    Number { radix: Radix::Hexadecimal, digits: tokens.next().into_text() },
                ),
            ),
            Some(TokenKind::DecLiteral) => Ok(
                Literal::Numeric(
                    Number { radix: Radix::Decimal, digits: tokens.next().into_text() },
                ),
            ),
            Some(TokenKind::BoolLiteral) => {
                let text = tokens.next().into_text();
                Ok(Literal::Boolean(same_text(text.as_str(), "true")))
            },
            Some(TokenKind::StrLiteral) => Ok(Literal::String(tokens.next().into_text())),
            Some(TokenKind::CharLiteral) => {
                let text = tokens.peek().into_text();
                match decode(text.as_str()) {
                    Some(c) => {
                        tokens.skip(1);
                        Ok(Literal::Char(c))
                    },
                    None => Err(Error::ParseError(ParseError::ExpectedLiteral)),
                }
            },
            Some(TokenKind::UndefinedLiteral) => {
                tokens.skip(1);
                Ok(Literal::Undefined)
            },
            _ => Err(Error::ParseError(ParseError::ExpectedLiteral)),
        }
    }
}

impl Value {
    /// Reads a value.
    pub fn parse(tokens: &mut Tokens) -> (r: Result<Self, Error>)
        ensures
            outcome(r, value(old(tokens)@, old(tokens).position()), *old(tokens), *final(tokens)),
            r.is_ok() ==> old(tokens).position() < final(tokens).position(),
        decreases remaining(old(tokens)@, old(tokens).position()), 3nat,
    {
        let start = tokens.pos();
        match tokens.kind(0) {
            Some(TokenKind::Identifier) => {
                if tokens.kind(1) == Some(TokenKind::LParen) {
                    match Call::parse(tokens) {
                        Ok(call) => Ok(Value::Call(call)),
                        Err(error) => Err(error),
                    }
                } else {
                    Ok(Value::Ident(Identifier(tokens.next().into_text())))
                }
            },
            Some(TokenKind::LParen) => match parenthesized(tokens) {
                Ok(expr) => Ok(Value::Expr(Box::new(expr))),
                Err(error) => Err(error),
            },
            Some(TokenKind::Minus) => {
                tokens.skip(1);
                match Value::parse(tokens) {
                    Ok(inner) => Ok(Value::Negative(Box::new(inner))),
                    Err(error) => {
                        tokens.seek(start);
                        Err(error)
                    },
                }
            },
            Some(TokenKind::Bang) => {
                tokens.skip(1);
                match Value::parse(tokens) {
                    Ok(inner) => Ok(Value::Not(Box::new(inner))),
                    Err(error) => {
                        tokens.seek(start);
                        Err(error)
                    },
                }
            },
            Some(TokenKind::Inv) => {
                tokens.skip(1);
                match Value::parse(tokens) {
                    Ok(inner) => Ok(Value::Inverted(Box::new(inner))),
                    Err(error) => {
                        tokens.seek(start);
                        Err(error)
                    },
                }
            },
            Some(
                TokenKind::BinLiteral
                | TokenKind::HexLiteral
                | TokenKind::DecLiteral
                | TokenKind::StrLiteral
                | TokenKind::CharLiteral
                | TokenKind::BoolLiteral
                | TokenKind::UndefinedLiteral,
            ) => match Literal::parse(tokens) {
                Ok(literal) => Ok(Value::Literal(literal)),
                Err(error) => Err(error),
            },
            _ => Err(Error::ParseError(ParseError::ExpectedValue)),
        }
    }
}

impl Call {
    /// Reads a call.
    pub fn parse(tokens: &mut Tokens) -> (r: Result<Self, Error>)
        ensures
            outcome(r, call(old(tokens)@, old(tokens).position()), *old(tokens), *final(tokens)),
            r.is_ok() ==> old(tokens).position() < final(tokens).position(),
        decreases remaining(old(tokens)@, old(tokens).position()), 2nat,
    {
        let start = tokens.pos();
        if !here(tokens, TokenKind::Identifier) {
            return Err(Error::ParseError(ParseError::ExpectedIdentifier));
        }
        if tokens.kind(1) != Some(TokenKind::LParen) {
            return Err(Error::ParseError(ParseError::ExpectedFunctionCall));
        }
        let name = Identifier(tokens.next().into_text());
        tokens.skip(1);
        let arguments = CommaList::parse(tokens);
        if here(tokens, TokenKind::RParen) {
            tokens.skip(1);
            Ok(Call { name, arguments })
        } else {
            tokens.seek(start);
            Err(Error::ParseError(ParseError::ExpectedArgument))
        }
    }
}

impl CommaList {
    /// Reads expressions separated by commas, as many as there are.
    pub fn parse(tokens: &mut Tokens) -> (r: Self)
        ensures
            final(tokens)@ == old(tokens)@,
            r@ == comma_list(old(tokens)@, old(tokens).position()).0,
            final(tokens).position() == comma_list(old(tokens)@, old(tokens).position()).1,
            old(tokens).position() <= final(tokens).position(),
        decreases remaining(old(tokens)@, old(tokens).position()), 5nat,
    {
        let mut items: Vec<Expression> = Vec::new();
        let ghost whole = comma_list(old(tokens)@, old(tokens).position());
        loop
            invariant_except_break
                tokens@ == old(tokens)@,
                old(tokens).position() <= tokens.position(),
                whole == comma_list(old(tokens)@, old(tokens).position()),
                whole.0 == expressions(items@) + comma_list(tokens@, tokens.position()).0,
                whole.1 == comma_list(tokens@, tokens.position()).1,
            ensures
                tokens@ == old(tokens)@,
                old(tokens).position() <= tokens.position(),
                whole.0 == expressions(items@),
                whole.1 == tokens.position(),
            decreases remaining(tokens@, tokens.position()),
        {
            let ghost before = expressions(items@);
            match Expression::parse(tokens) {
                Ok(expr) => {
                    items.push(expr);
                    assert(expressions(items@) =~= before + seq![expr@]);
                },
                Err(_) => {
                    assert(before + Seq::<Expr>::empty() =~= before);
                    break ;
                },
            }
            if here(tokens, TokenKind::Comma) {
                tokens.skip(1);
                assert(whole.0 =~= expressions(items@) + comma_list(
                    tokens@,
                    tokens.position(),
                ).0);
            } else {
                break ;
            }
        }
        CommaList(items)
    }
}

/// The node that joins two expressions by a binary operator.
fn join(op: BinaryOp, lhs: Expression, rhs: Expression) -> (r: Expression)
    ensures
        r@ == Expr::Binary(op, Box::new(lhs@), Box::new(rhs@)),
{
    let l = Box::new(lhs);
    let r = Box::new(rhs);
    match op {
        BinaryOp::Plus => Expression::Plus(l, r),
        BinaryOp::Minus => Expression::Minus(l, r),
        BinaryOp::Times => Expression::Times(l, r),
        BinaryOp::Slash => Expression::Slash(l, r),
        BinaryOp::Pct => Expression::Pct(l, r),
        BinaryOp::Exp => Expression::Exp(l, r),
        BinaryOp::Mod => Expression::Mod(l, r),
        BinaryOp::Div => Expression::Div(l, r),
        BinaryOp::LShift => Expression::LShift(l, r),
        BinaryOp::RShift => Expression::RShift(l, r),
        BinaryOp::And => Expression::And(l, r),
        BinaryOp::Or => Expression::Or(l, r),
        BinaryOp::Xor => Expression::Xor(l, r),
        BinaryOp::BAnd => Expression::BAnd(l, r),
        BinaryOp::BOr => Expression::BOr(l, r),
        BinaryOp::Eq => Expression::Eq(l, r),
        BinaryOp::Neq => Expression::Neq(l, r),
        BinaryOp::Lt => Expression::Lt(l, r),
        BinaryOp::Gt => Expression::Gt(l, r),
        BinaryOp::Leq => Expression::Leq(l, r),
        BinaryOp::Geq => Expression::Geq(l, r),
    }
}

impl Expression {
    /// Reads an expression.
    pub fn parse(tokens: &mut Tokens) -> (r: Result<Self, Error>)
        ensures
            outcome(
                r,
                expression(old(tokens)@, old(tokens).position()),
                *old(tokens),
                *final(tokens),
            ),
            r.is_ok() ==> old(tokens).position() < final(tokens).position(),
        decreases remaining(old(tokens)@, old(tokens).position()), 4nat,
    {
        let start = tokens.pos();
        let first = match Value::parse(tokens) {
            Ok(first) => first,
            Err(error) => {
                return Err(error);
            },
        };
        match Self::prec_parse(tokens, Expression::Value(first), Precedence::Zero) {
            Ok(expr) => Ok(expr),
            Err(error) => {
                tokens.seek(start);
                Err(error)
            },
        }
    }

    /// Goes on behind `lhs` with every operator of at least the precedence
    /// `min_prec`.
    pub fn prec_parse(tokens: &mut Tokens, lhs: Expression, min_prec: Precedence) -> (r: Result<
        Self,
        Error,
    >)
        ensures
            outcome(
                r,
                climb(old(tokens)@, old(tokens).position(), lhs@, min_prec),
                *old(tokens),
                *final(tokens),
            ),
            old(tokens).position() <= final(tokens).position(),
            r.is_ok() && takes(operator_at(old(tokens)@, old(tokens).position()), min_prec)
                ==> old(tokens).position() < final(tokens).position(),
        decreases remaining(old(tokens)@, old(tokens).position()), 1nat,
    {
        let start = tokens.pos();
        match operator_here(tokens) {
            Some(op) => {
                if op.precedence().rank() >= min_prec.rank() {
                    let joined = match Self::combine(tokens, lhs) {
                        Ok(joined) => joined,
                        Err(error) => {
                            return Err(error);
                        },
                    };
                    match Self::prec_parse(tokens, joined, min_prec) {
                        Ok(expr) => Ok(expr),
                        Err(error) => {
                            tokens.seek(start);
                            Err(error)
                        },
                    }
                } else {
                    Ok(lhs)
                }
            },
            None => Ok(lhs),
        }
    }

    /// Joins `lhs` by the operator at the cursor to what the operator takes
    /// on its right.
    fn combine(tokens: &mut Tokens, lhs: Expression) -> (r: Result<Self, Error>)
        ensures
            outcome(
                r,
                combine(old(tokens)@, old(tokens).position(), lhs@),
                *old(tokens),
                *final(tokens),
            ),
            operator_at(old(tokens)@, old(tokens).position()).is_some() && r.is_ok()
                ==> old(tokens).position() < final(tokens).position(),
        decreases remaining(old(tokens)@, old(tokens).position()), 0nat,
    {
        let start = tokens.pos();
        match operator_here(tokens) {
            None => Ok(lhs),
            Some(Operator::Pipe) => {
                tokens.skip(1);
                match Call::parse(tokens) {
                    Ok(call) => Ok(Expression::Pipe(Box::new(lhs), call)),
                    Err(error) => {
                        tokens.seek(start);
                        Err(error)
                    },
                }
            },
            Some(Operator::Ternary) => {
                tokens.skip(1);
                let first = match Expression::parse(tokens) {
                    Ok(first) => first,
                    Err(error) => {
                        tokens.seek(start);
                        return Err(error);
                    },
                };
                if !here(tokens, TokenKind::Colon) {
                    tokens.seek(start);
                    return Err(Error::ParseError(ParseError::IncompleteTernaryOperator));
                }
                tokens.skip(1);
                match Expression::parse(tokens) {
                    Ok(second) => Ok(
                        Expression::Ternary(Box::new(lhs), Box::new(first), Box::new(second)),
                    ),
                    Err(error) => {
                        tokens.seek(start);
                        Err(error)
                    },
                }
            },
            Some(Operator::Binary(op)) => {
                tokens.skip(1);
                let first = match Value::parse(tokens) {
                    Ok(first) => first,
                    Err(error) => {
                        tokens.seek(start);
                        return Err(error);
                    },
                };
                match Self::tighten(
                    tokens,
                    Expression::Value(first),
                    Operator::Binary(op).precedence(),
                ) {
                    Ok(rhs) => Ok(join(op, lhs, rhs)),
                    Err(error) => {
                        tokens.seek(start);
                        Err(error)
                    },
                }
            },
        }
    }

    /// Completes the right operand of a binary operator of the precedence
    /// `level`.
    fn tighten(tokens: &mut Tokens, rhs: Expression, level: Precedence) -> (r: Result<Self, Error>)
        ensures
            outcome(
                r,
                tighten(old(tokens)@, old(tokens).position(), rhs@, level),
                *old(tokens),
                *final(tokens),
            ),
            old(tokens).position() <= final(tokens).position(),
        decreases remaining(old(tokens)@, old(tokens).position()), 2nat,
    {
        let start = tokens.pos();
        match operator_here(tokens) {
            Some(op) => {
                if op.precedence().rank() > level.rank() {
                    let bound = match Self::prec_parse(tokens, rhs, op.precedence()) {
                        Ok(bound) => bound,
                        Err(error) => {
                            return Err(error);
                        },
                    };
                    match Self::tighten(tokens, bound, level) {
                        Ok(expr) => Ok(expr),
                        Err(error) => {
                            tokens.seek(start);
                            Err(error)
                        },
                    }
                } else {
                    Ok(rhs)
                }
            },
            None => Ok(rhs),
        }
    }
}

} // verus!
