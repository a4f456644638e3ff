//! From a tree back to tokens, and from those tokens to the same tree.
//!
//! The tokens of a tree are the tokens of its printed form. What the parser
//! has read from any tokens at all, it reads again from the tokens of the
//! tree that it gave.

use vstd::prelude::*;

use super::grammar::arguments;
use super::grammar::assignment;
use super::grammar::at;
use super::grammar::block;
use super::grammar::call;
use super::grammar::character;
use super::grammar::climb;
use super::grammar::code;
use super::grammar::combine;
use super::grammar::comma_list;
use super::grammar::conditional;
use super::grammar::declaration;
use super::grammar::doc_comment;
use super::grammar::expression;
use super::grammar::for_loop;
use super::grammar::forward;
use super::grammar::identifier;
use super::grammar::literal;
use super::grammar::operator;
use super::grammar::operator_at;
use super::grammar::parenthesized;
use super::grammar::plain;
use super::grammar::post_loop;
use super::grammar::pre_loop;
use super::grammar::precedence;
use super::grammar::remaining;
use super::grammar::returned;
use super::grammar::sequence;
use super::grammar::statement;
use super::grammar::terminator;
use super::grammar::tighten;
use super::grammar::value;
use super::grammar::Operator;
use super::grammar::Precedence;
use super::laws::lemma_climb_advances;
use super::model::BinaryOp;
use super::model::Expr;
use super::model::Invocation;
use super::model::Lit;
use super::model::Params;
use super::model::Radix;
use super::model::Stmt;
use super::model::Unit;
use super::model::Val;
use super::render::char_text;
use crate::tokenizer::token::bare;
use crate::tokenizer::token::Lexeme;
use crate::tokenizer::token::TokenKind;
use crate::tokenizer::tokens::kind_at;
use crate::tokenizer::tokens::text_at;

verus! {

/// The token of a name.
pub open spec fn name_token(name: Seq<char>) -> Lexeme {
    Lexeme { kind: TokenKind::Identifier, text: name }
}

/// The token of a literal.
pub open spec fn literal_token(lit: Lit) -> Lexeme {
    match lit {
        Lit::Numeric(Radix::Binary, digits) => Lexeme { kind: TokenKind::BinLiteral, text: digits },
        Lit::Numeric(Radix::Hexadecimal, digits) => Lexeme {
            kind: TokenKind::HexLiteral,
            text: digits,
        },
        Lit::Numeric(Radix::Decimal, digits) => Lexeme {
            kind: TokenKind::DecLiteral,
            text: digits,
        },
        Lit::Boolean(b) => Lexeme {
            kind: TokenKind::BoolLiteral,
            text: if b {
                "true"@
            } else {
                "false"@
            },
        },
        Lit::Text(text) => Lexeme { kind: TokenKind::StrLiteral, text },
        Lit::Char(c) => Lexeme { kind: TokenKind::CharLiteral, text: char_text(c) },
        Lit::Undefined => bare(TokenKind::UndefinedLiteral),
    }
}

/// The category of the token of a binary operator.
pub open spec fn operator_kind(op: BinaryOp) -> TokenKind {
    match op {
        BinaryOp::Plus => TokenKind::Plus,
        BinaryOp::Minus => TokenKind::Minus,
        BinaryOp::Times => TokenKind::Star,
        BinaryOp::Slash => TokenKind::Slash,
        BinaryOp::Pct => TokenKind::Pct,
        BinaryOp::Exp => TokenKind::Exp,
        BinaryOp::Mod => TokenKind::Mod,
        BinaryOp::Div => TokenKind::Div,
        BinaryOp::LShift => TokenKind::LShift,
        BinaryOp::RShift => TokenKind::RShift,
        BinaryOp::And => TokenKind::And,
        BinaryOp::Or => TokenKind::Or,
        BinaryOp::Xor => TokenKind::Xor,
        BinaryOp::BAnd => TokenKind::BAnd,
        BinaryOp::BOr => TokenKind::BOr,
        BinaryOp::Eq => TokenKind::Equal,
        BinaryOp::Neq => TokenKind::NotEqual,
        BinaryOp::Lt => TokenKind::Less,
        BinaryOp::Gt => TokenKind::More,
        BinaryOp::Leq => TokenKind::LessEqual,
        BinaryOp::Geq => TokenKind::MoreEqual,
    }
}

/// The tokens of a value.
pub open spec fn value_tokens(value: Val) -> Seq<Lexeme>
    decreases value,
{
    match value {
        Val::Ident(name) => seq![name_token(name)],
        Val::Literal(lit) => seq![literal_token(lit)],
        Val::Expr(expr) => seq![bare(TokenKind::LParen)] + expression_tokens(*expr) + seq![
            bare(TokenKind::RParen),
        ],
        Val::Call(invocation) => invocation_tokens(invocation),
        Val::Negative(inner) => seq![bare(TokenKind::Minus)] + value_tokens(*inner),
        Val::Not(inner) => seq![bare(TokenKind::Bang)] + value_tokens(*inner),
        Val::Inverted(inner) => seq![bare(TokenKind::Inv)] + value_tokens(*inner),
    }
}

/// The tokens of a call.
pub open spec fn invocation_tokens(invocation: Invocation) -> Seq<Lexeme>
    decreases invocation,
{
    seq![name_token(invocation.name), bare(TokenKind::LParen)] + list_tokens(
        invocation.arguments,
    ) + seq![bare(TokenKind::RParen)]
}

/// The tokens of a list of expressions: a comma stands behind each.
pub open spec fn list_tokens(list: Seq<Expr>) -> Seq<Lexeme>
    decreases list,
{
    if list.len() == 0 {
        Seq::empty()
    } else {
        expression_tokens(list.first()) + seq![bare(TokenKind::Comma)] + list_tokens(
            list.drop_first(),
        )
    }
}

/// The tokens of an expression.
pub open spec fn expression_tokens(expr: Expr) -> Seq<Lexeme>
    decreases expr,
{
    match expr {
        Expr::Binary(op, lhs, rhs) => expression_tokens(*lhs) + seq![bare(operator_kind(op))]
            + expression_tokens(*rhs),
        Expr::Pipe(lhs, invocation) => expression_tokens(*lhs) + seq![bare(TokenKind::Pipe)]
            + invocation_tokens(invocation),
        Expr::Ternary(cond, first, second) => expression_tokens(*cond) + seq![
            bare(TokenKind::Question),
        ] + expression_tokens(*first) + seq![bare(TokenKind::Colon)] + expression_tokens(*second),
        Expr::Value(value) => value_tokens(value),
    }
}

/// Whether `part` stands in `tokens` from the position `pos` on.
pub open spec fn aligned(tokens: Seq<Lexeme>, pos: nat, part: Seq<Lexeme>) -> bool {
    &&& pos + part.len() <= tokens.len()
    &&& tokens.subrange(pos as int, (pos + part.len()) as int) == part
}

/// Whether `part` is the beginning of `whole`.
pub open spec fn begins(whole: Seq<Lexeme>, part: Seq<Lexeme>) -> bool {
    &&& part.len() <= whole.len()
    &&& whole.subrange(0, part.len() as int) == part
}

/// Whether the token at `other_end` in `others` ends an expression in the
/// way in which the token at `end` in `tokens` does: it is the same
/// operator or none either, and it opens a parenthesis only if that one
/// does.
pub open spec fn ends_alike(tokens: Seq<Lexeme>, end: nat, others: Seq<Lexeme>, other_end: nat) -> bool {
    &&& operator_at(others, other_end) == operator_at(tokens, end)
    &&& at(others, other_end, TokenKind::LParen) ==> at(tokens, end, TokenKind::LParen)
}

/// Where two parts stand one behind the other, each of them stands in
/// its place.
pub proof fn lemma_aligned_split(tokens: Seq<Lexeme>, pos: nat, first: Seq<Lexeme>, second: Seq<Lexeme>)
    requires
        aligned(tokens, pos, first + second),
    ensures
        aligned(tokens, pos, first),
        aligned(tokens, pos + first.len(), second),
{
    let whole = first + second;
    assert(tokens.subrange(pos as int, (pos + first.len()) as int) =~= whole.subrange(
        0,
        first.len() as int,
    ));
    assert(whole.subrange(0, first.len() as int) =~= first);
    assert(tokens.subrange((pos + first.len()) as int, (pos + first.len() + second.len()) as int)
        =~= whole.subrange(first.len() as int, whole.len() as int));
    assert(whole.subrange(first.len() as int, whole.len() as int) =~= second);
}

/// Where a part stands, its beginning stands.
pub proof fn lemma_aligned_beginning(tokens: Seq<Lexeme>, pos: nat, whole: Seq<Lexeme>, part: Seq<Lexeme>)
    requires
        aligned(tokens, pos, whole),
        begins(whole, part),
    ensures
        aligned(tokens, pos, part),
{
    assert(tokens.subrange(pos as int, (pos + part.len()) as int) =~= whole.subrange(
        0,
        part.len() as int,
    ));
}

/// The token at each place of a part that stands in `tokens`.
pub proof fn lemma_aligned_token(tokens: Seq<Lexeme>, pos: nat, part: Seq<Lexeme>, i: nat)
    requires
        aligned(tokens, pos, part),
        i < part.len(),
    ensures
        pos + i < tokens.len(),
        tokens[(pos + i) as int] == part[i as int],
        kind_at(tokens, (pos + i) as int) == Some(part[i as int].kind),
        text_at(tokens, (pos + i) as int) == part[i as int].text,
{
    assert(tokens.subrange(pos as int, (pos + part.len()) as int)[i as int] == tokens[(pos + i) as int]);
}

/// The token of a binary operator is read as that operator.
pub proof fn lemma_operator_kind(op: BinaryOp)
    ensures
        operator(operator_kind(op)) == Some(Operator::Binary(op)),
        operator_kind(op) != TokenKind::LParen,
{
}

/// The token of a literal is read as that literal.
pub proof fn lemma_literal_round_trip(tokens: Seq<Lexeme>, pos: nat, lit: Lit)
    requires
        pos < tokens.len(),
        tokens[pos as int] == literal_token(lit),
    ensures
        value(tokens, pos) == Ok::<(Val, nat), crate::error::Error>((Val::Literal(lit), pos + 1)),
{
    reveal_strlit("true");
    reveal_strlit("false");
    assert("true"@.len() != "false"@.len());
    match lit {
        Lit::Char(c) => {
            assert(character(char_text(c)) == Some(c));
        },
        _ => {},
    }
    assert(literal(tokens, pos) == Ok::<(Lit, nat), crate::error::Error>((lit, pos + 1)));
}

/// A value that is read from any tokens is read again from its own
/// tokens, wherever they stand, if what follows them ends the value in
/// the same way.
pub proof fn lemma_value_round_trip(
    tokens: Seq<Lexeme>,
    pos: nat,
    others: Seq<Lexeme>,
    start: nat,
)
    requires
        value(tokens, pos).is_ok(),
        aligned(others, start, value_tokens(value(tokens, pos).unwrap().0)),
        ends_alike(
            tokens,
            value(tokens, pos).unwrap().1,
            others,
            start + value_tokens(value(tokens, pos).unwrap().0).len(),
        ),
    ensures
        value(others, start) == Ok::<(Val, nat), crate::error::Error>(
            (
                value(tokens, pos).unwrap().0,
                start + value_tokens(value(tokens, pos).unwrap().0).len(),
            ),
        ),
    decreases remaining(tokens, pos), 5nat,
{
    let (tree, end) = value(tokens, pos).unwrap();
    let spelled = value_tokens(tree);
    match kind_at(tokens, pos as int) {
        Some(TokenKind::Identifier) => {
            if at(tokens, pos + 1, TokenKind::LParen) {
                lemma_call_round_trip(tokens, pos, others, start);
                let invocation = call(tokens, pos).unwrap().0;
                assert(invocation_tokens(invocation).len() >= 2);
                lemma_aligned_token(others, start, spelled, 0);
                lemma_aligned_token(others, start, spelled, 1);
            } else {
                lemma_aligned_token(others, start, spelled, 0);
            }
        },
        Some(TokenKind::LParen) => {
            assert(parenthesized(tokens, pos).is_ok());
            let (expr, close) = expression(tokens, pos + 1).unwrap();
            let inner = expression_tokens(expr);
            let open = seq![bare(TokenKind::LParen)];
            let shut = seq![bare(TokenKind::RParen)];
            assert(spelled == open + inner + shut);
            lemma_aligned_split(others, start, open + inner, shut);
            lemma_aligned_split(others, start, open, inner);
            lemma_aligned_token(others, start, open, 0);
            lemma_aligned_token(others, start + 1 + inner.len(), shut, 0);
            lemma_expression_round_trip(tokens, pos + 1, others, start + 1);
            assert(parenthesized(others, start) == Ok::<(Expr, nat), crate::error::Error>(
                (expr, start + 1 + inner.len() + 1),
            ));
        },
        Some(TokenKind::Minus) | Some(TokenKind::Bang) | Some(TokenKind::Inv) => {
            let (inner, _) = value(tokens, pos + 1).unwrap();
            let sign = seq![spelled[0]];
            assert(spelled =~= sign + value_tokens(inner));
            lemma_aligned_split(others, start, sign, value_tokens(inner));
            lemma_aligned_token(others, start, sign, 0);
            lemma_value_round_trip(tokens, pos + 1, others, start + 1);
        },
        _ => {
            let (lit, _) = literal(tokens, pos).unwrap();
            lemma_aligned_token(others, start, spelled, 0);
            lemma_literal_round_trip(others, start, lit);
        },
    }
}

/// A call that is read from any tokens is read again from its own
/// tokens.
pub proof fn lemma_call_round_trip(tokens: Seq<Lexeme>, pos: nat, others: Seq<Lexeme>, start: nat)
    requires
        call(tokens, pos).is_ok(),
        aligned(others, start, invocation_tokens(call(tokens, pos).unwrap().0)),
    ensures
        call(others, start) == Ok::<(Invocation, nat), crate::error::Error>(
            (
                call(tokens, pos).unwrap().0,
                start + invocation_tokens(call(tokens, pos).unwrap().0).len(),
            ),
        ),
    decreases remaining(tokens, pos), 4nat,
{
    let (invocation, end) = call(tokens, pos).unwrap();
    let spelled = invocation_tokens(invocation);
    let head = seq![name_token(invocation.name), bare(TokenKind::LParen)];
    let list = list_tokens(invocation.arguments);
    let shut = seq![bare(TokenKind::RParen)];
    assert(spelled == head + list + shut);
    lemma_aligned_split(others, start, head + list, shut);
    lemma_aligned_split(others, start, head, list);
    lemma_aligned_token(others, start, head, 0);
    lemma_aligned_token(others, start, head, 1);
    lemma_aligned_token(others, start + 2 + list.len(), shut, 0);
    lemma_comma_list_round_trip(tokens, pos + 2, others, start + 2);
}

/// A list of expressions that is read from any tokens, up to a closing
/// parenthesis, is read again from its own tokens with a closing
/// parenthesis behind them.
pub proof fn lemma_comma_list_round_trip(
    tokens: Seq<Lexeme>,
    pos: nat,
    others: Seq<Lexeme>,
    start: nat,
)
    requires
        at(tokens, comma_list(tokens, pos).1, TokenKind::RParen),
        aligned(others, start, list_tokens(comma_list(tokens, pos).0)),
        at(others, start + list_tokens(comma_list(tokens, pos).0).len(), TokenKind::RParen),
    ensures
        comma_list(others, start) == (
            comma_list(tokens, pos).0,
            start + list_tokens(comma_list(tokens, pos).0).len(),
        ),
    decreases remaining(tokens, pos), 7nat,
{
    let (list, end) = comma_list(tokens, pos);
    match forward(pos, expression(tokens, pos)) {
        Err(_) => {
            assert(list =~= Seq::<Expr>::empty());
            assert(value(others, start).is_err());
            assert(expression(others, start).is_err());
        },
        Ok((first, then)) => {
            let spelled = expression_tokens(first);
            let comma = seq![bare(TokenKind::Comma)];
            if at(tokens, then, TokenKind::Comma) {
                let (rest, last) = comma_list(tokens, then + 1);
                assert(list == seq![first] + rest);
                assert(list.first() == first);
                assert(list.drop_first() =~= rest);
                assert(list_tokens(list) == spelled + comma + list_tokens(rest));
                lemma_aligned_split(others, start, spelled + comma, list_tokens(rest));
                lemma_aligned_split(others, start, spelled, comma);
                lemma_aligned_token(others, start + spelled.len(), comma, 0);
                lemma_expression_round_trip(tokens, pos, others, start);
                lemma_comma_list_round_trip(tokens, then + 1, others, start + spelled.len() + 1);
            } else {
                assert(list == seq![first]);
                assert(list.first() == first);
                assert(list.drop_first() =~= Seq::<Expr>::empty());
                assert(list_tokens(list.drop_first()) =~= Seq::<Lexeme>::empty());
                assert(list_tokens(list) =~= spelled + comma);
                lemma_aligned_split(others, start, spelled, comma);
                lemma_aligned_token(others, start + spelled.len(), comma, 0);
                lemma_expression_round_trip(tokens, pos, others, start);
                assert(value(others, start + spelled.len() + 1).is_err());
                assert(expression(others, start + spelled.len() + 1).is_err());
                assert(comma_list(others, start + spelled.len() + 1) == (
                    Seq::<Expr>::empty(),
                    start + spelled.len() + 1,
                ));
                assert(seq![first] + Seq::<Expr>::empty() =~= seq![first]);
            }
        },
    }
}

/// An expression that is read from any tokens is read again from its own
/// tokens, wherever they stand, if what follows them ends the expression
/// in the same way.
pub proof fn lemma_expression_round_trip(
    tokens: Seq<Lexeme>,
    pos: nat,
    others: Seq<Lexeme>,
    start: nat,
)
    requires
        expression(tokens, pos).is_ok(),
        aligned(others, start, expression_tokens(expression(tokens, pos).unwrap().0)),
        ends_alike(
            tokens,
            expression(tokens, pos).unwrap().1,
            others,
            start + expression_tokens(expression(tokens, pos).unwrap().0).len(),
        ),
    ensures
        expression(others, start) == Ok::<(Expr, nat), crate::error::Error>(
            (
                expression(tokens, pos).unwrap().0,
                start + expression_tokens(expression(tokens, pos).unwrap().0).len(),
            ),
        ),
    decreases remaining(tokens, pos), 6nat,
{
    let (first, then) = value(tokens, pos).unwrap();
    let (tree, end) = expression(tokens, pos).unwrap();
    lemma_climb_round_trip(tokens, then, Expr::Value(first), Precedence::Zero, others, start);
    lemma_aligned_beginning(others, start, expression_tokens(tree), value_tokens(first));
    lemma_value_round_trip(tokens, pos, others, start);
    assert(value_tokens(first).len() > 0) by {
        super::laws::lemma_value_advances(others, start);
    }
}

/// What is read behind a left operand from any tokens is read again
/// behind that operand from the tokens of the whole.
pub proof fn lemma_climb_round_trip(
    tokens: Seq<Lexeme>,
    pos: nat,
    lhs: Expr,
    min: Precedence,
    others: Seq<Lexeme>,
    start: nat,
)
    requires
        climb(tokens, pos, lhs, min).is_ok(),
        aligned(others, start, expression_tokens(climb(tokens, pos, lhs, min).unwrap().0)),
        ends_alike(
            tokens,
            climb(tokens, pos, lhs, min).unwrap().1,
            others,
            start + expression_tokens(climb(tokens, pos, lhs, min).unwrap().0).len(),
        ),
    ensures
        begins(expression_tokens(climb(tokens, pos, lhs, min).unwrap().0), expression_tokens(lhs)),
        climb(others, start + expression_tokens(lhs).len(), lhs, min) == Ok::<
            (Expr, nat),
            crate::error::Error,
        >(
            (
                climb(tokens, pos, lhs, min).unwrap().0,
                start + expression_tokens(climb(tokens, pos, lhs, min).unwrap().0).len(),
            ),
        ),
        ends_alike(tokens, pos, others, start + expression_tokens(lhs).len()),
    decreases remaining(tokens, pos), 2nat,
{
    let (tree, end) = climb(tokens, pos, lhs, min).unwrap();
    let whole = expression_tokens(tree);
    let left = expression_tokens(lhs);
    let taken = match operator_at(tokens, pos) {
        Some(op) => precedence(op).level() >= min.level(),
        None => false,
    };
    if taken {
        let (joined, then) = combine(tokens, pos, lhs).unwrap();
        let middle = expression_tokens(joined);
        lemma_climb_round_trip(tokens, then, joined, min, others, start);
        lemma_aligned_beginning(others, start, whole, middle);
        lemma_combine_round_trip(tokens, pos, lhs, others, start);
        assert(whole.subrange(0, left.len() as int) =~= middle.subrange(0, left.len() as int));
    } else {
        assert(whole.subrange(0, left.len() as int) =~= left);
    }
}

/// What the round trip of an operator with its right operand comes to:
/// the tokens of the whole begin with those of the left operand, the
/// operator stands behind them, and the whole is read again from there.
pub open spec fn joins(
    tokens: Seq<Lexeme>,
    pos: nat,
    lhs: Expr,
    others: Seq<Lexeme>,
    start: nat,
) -> bool {
    let joined = combine(tokens, pos, lhs).unwrap().0;
    &&& begins(expression_tokens(joined), expression_tokens(lhs))
    &&& expression_tokens(lhs).len() < expression_tokens(joined).len()
    &&& combine(others, start + expression_tokens(lhs).len(), lhs) == Ok::<
        (Expr, nat),
        crate::error::Error,
    >((joined, start + expression_tokens(joined).len()))
    &&& ends_alike(tokens, pos, others, start + expression_tokens(lhs).len())
}

/// An operator with what it takes on its right, read from any tokens, is
/// read again behind the left operand from the tokens of the whole.
pub proof fn lemma_combine_round_trip(
    tokens: Seq<Lexeme>,
    pos: nat,
    lhs: Expr,
    others: Seq<Lexeme>,
    start: nat,
)
    requires
        operator_at(tokens, pos).is_some(),
        combine(tokens, pos, lhs).is_ok(),
        aligned(others, start, expression_tokens(combine(tokens, pos, lhs).unwrap().0)),
        ends_alike(
            tokens,
            combine(tokens, pos, lhs).unwrap().1,
            others,
            start + expression_tokens(combine(tokens, pos, lhs).unwrap().0).len(),
        ),
    ensures
        joins(tokens, pos, lhs, others, start),
    decreases remaining(tokens, pos), 1nat,
{
    match operator_at(tokens, pos) {
        None => {},
        Some(Operator::Pipe) => {
            lemma_pipe_round_trip(tokens, pos, lhs, others, start);
        },
        Some(Operator::Ternary) => {
            lemma_ternary_round_trip(tokens, pos, lhs, others, start);
        },
        Some(Operator::Binary(_)) => {
            lemma_binary_round_trip(tokens, pos, lhs, others, start);
        },
    }
}

/// The round trip of a pipe with the call on its right.
pub proof fn lemma_pipe_round_trip(
    tokens: Seq<Lexeme>,
    pos: nat,
    lhs: Expr,
    others: Seq<Lexeme>,
    start: nat,
)
    requires
        operator_at(tokens, pos) == Some(Operator::Pipe),
        combine(tokens, pos, lhs).is_ok(),
        aligned(others, start, expression_tokens(combine(tokens, pos, lhs).unwrap().0)),
        ends_alike(
            tokens,
            combine(tokens, pos, lhs).unwrap().1,
            others,
            start + expression_tokens(combine(tokens, pos, lhs).unwrap().0).len(),
        ),
    ensures
        joins(tokens, pos, lhs, others, start),
    decreases remaining(tokens, pos), 0nat,
{
    let (joined, end) = combine(tokens, pos, lhs).unwrap();
    let whole = expression_tokens(joined);
    let left = expression_tokens(lhs);
    let from = start + left.len();
    let (invocation, _) = call(tokens, pos + 1).unwrap();
    let sign = seq![bare(TokenKind::Pipe)];
    let right = invocation_tokens(invocation);
    assert(whole == left + sign + right);
    assert(whole.subrange(0, left.len() as int) =~= left);
    lemma_aligned_split(others, start, left + sign, right);
    lemma_aligned_split(others, start, left, sign);
    lemma_aligned_token(others, from, sign, 0);
    lemma_call_round_trip(tokens, pos + 1, others, from + 1);
}

/// The round trip of a question mark with the two expressions on its right.
pub proof fn lemma_ternary_round_trip(
    tokens: Seq<Lexeme>,
    pos: nat,
    lhs: Expr,
    others: Seq<Lexeme>,
    start: nat,
)
    requires
        operator_at(tokens, pos) == Some(Operator::Ternary),
        combine(tokens, pos, lhs).is_ok(),
        aligned(others, start, expression_tokens(combine(tokens, pos, lhs).unwrap().0)),
        ends_alike(
            tokens,
            combine(tokens, pos, lhs).unwrap().1,
            others,
            start + expression_tokens(combine(tokens, pos, lhs).unwrap().0).len(),
        ),
    ensures
        joins(tokens, pos, lhs, others, start),
    decreases remaining(tokens, pos), 0nat,
{
    let (joined, end) = combine(tokens, pos, lhs).unwrap();
    let whole = expression_tokens(joined);
    let left = expression_tokens(lhs);
    let from = start + left.len();
    let (first, colon) = expression(tokens, pos + 1).unwrap();
    let (second, _) = expression(tokens, colon + 1).unwrap();
    let sign = seq![bare(TokenKind::Question)];
    let between = seq![bare(TokenKind::Colon)];
    let one = expression_tokens(first);
    let two = expression_tokens(second);
    assert(whole == left + sign + one + between + two);
    assert(whole.subrange(0, left.len() as int) =~= left);
    lemma_aligned_split(others, start, left + sign + one + between, two);
    lemma_aligned_split(others, start, left + sign + one, between);
    lemma_aligned_split(others, start, left + sign, one);
    lemma_aligned_split(others, start, left, sign);
    lemma_aligned_token(others, from, sign, 0);
    lemma_aligned_token(others, from + 1 + one.len(), between, 0);
    lemma_expression_round_trip(tokens, pos + 1, others, from + 1);
    lemma_expression_round_trip(tokens, colon + 1, others, from + 1 + one.len() + 1);
    super::laws::lemma_expression_advances(others, from + 1);
}

/// The round trip of a binary operator with its right operand.
pub proof fn lemma_binary_round_trip(
    tokens: Seq<Lexeme>,
    pos: nat,
    lhs: Expr,
    others: Seq<Lexeme>,
    start: nat,
)
    requires
        operator_at(tokens, pos) matches Some(Operator::Binary(_)),
        combine(tokens, pos, lhs).is_ok(),
        aligned(others, start, expression_tokens(combine(tokens, pos, lhs).unwrap().0)),
        ends_alike(
            tokens,
            combine(tokens, pos, lhs).unwrap().1,
            others,
            start + expression_tokens(combine(tokens, pos, lhs).unwrap().0).len(),
        ),
    ensures
        joins(tokens, pos, lhs, others, start),
    decreases remaining(tokens, pos), 0nat,
{
    let (joined, end) = combine(tokens, pos, lhs).unwrap();
    let whole = expression_tokens(joined);
    let left = expression_tokens(lhs);
    let from = start + left.len();
    let op = operator_at(tokens, pos).unwrap()->Binary_0;
    let (first, then) = value(tokens, pos + 1).unwrap();
    let level = precedence(Operator::Binary(op));
    let (rhs, _) = tighten(tokens, then, Expr::Value(first), level).unwrap();
    let sign = seq![bare(operator_kind(op))];
    let right = expression_tokens(rhs);
    lemma_operator_kind(op);
    assert(whole == left + sign + right);
    assert(whole.subrange(0, left.len() as int) =~= left);
    lemma_aligned_split(others, start, left + sign, right);
    lemma_aligned_split(others, start, left, sign);
    lemma_aligned_token(others, from, sign, 0);
    lemma_tighten_round_trip(tokens, then, Expr::Value(first), level, others, from + 1);
    lemma_aligned_beginning(others, from + 1, right, value_tokens(first));
    lemma_value_round_trip(tokens, pos + 1, others, from + 1);
    super::laws::lemma_value_advances(others, from + 1);
}

/// The right operand of a binary operator, read from any tokens, is read
/// again behind its first value from the tokens of the whole.
pub proof fn lemma_tighten_round_trip(
    tokens: Seq<Lexeme>,
    pos: nat,
    rhs: Expr,
    level: Precedence,
    others: Seq<Lexeme>,
    start: nat,
)
    requires
        tighten(tokens, pos, rhs, level).is_ok(),
        aligned(others, start, expression_tokens(tighten(tokens, pos, rhs, level).unwrap().0)),
        ends_alike(
            tokens,
            tighten(tokens, pos, rhs, level).unwrap().1,
            others,
            start + expression_tokens(tighten(tokens, pos, rhs, level).unwrap().0).len(),
        ),
    ensures
        begins(
            expression_tokens(tighten(tokens, pos, rhs, level).unwrap().0),
            expression_tokens(rhs),
        ),
        tighten(others, start + expression_tokens(rhs).len(), rhs, level) == Ok::<
            (Expr, nat),
            crate::error::Error,
        >(
            (
                tighten(tokens, pos, rhs, level).unwrap().0,
                start + expression_tokens(tighten(tokens, pos, rhs, level).unwrap().0).len(),
            ),
        ),
        ends_alike(tokens, pos, others, start + expression_tokens(rhs).len()),
    decreases remaining(tokens, pos), 3nat,
{
    let (tree, end) = tighten(tokens, pos, rhs, level).unwrap();
    let whole = expression_tokens(tree);
    let right = expression_tokens(rhs);
    let taken = match operator_at(tokens, pos) {
        Some(op) => precedence(op).level() > level.level(),
        None => false,
    };
    if taken {
        let op = operator_at(tokens, pos).unwrap();
        let (bound, then) = climb(tokens, pos, rhs, precedence(op)).unwrap();
        let middle = expression_tokens(bound);
        lemma_tighten_round_trip(tokens, then, bound, level, others, start);
        lemma_aligned_beginning(others, start, whole, middle);
        lemma_climb_round_trip(tokens, pos, rhs, precedence(op), others, start);
        assert(whole.subrange(0, right.len() as int) =~= middle.subrange(0, right.len() as int));
        lemma_aligned_beginning(others, start, middle, right);
        lemma_climb_advances(others, start + right.len(), rhs, precedence(op));
    } else {
        assert(whole.subrange(0, right.len() as int) =~= right);
    }
}

/// Whether a statement holds no other statement and does something.
pub open spec fn is_simple(statement: Stmt) -> bool {
    match statement {
        Stmt::Assignment(..)
        | Stmt::Expression(..)
        | Stmt::VarDecl(..)
        | Stmt::VarDeclAssign(..)
        | Stmt::GlobalvarDecl(..)
        | Stmt::GlobalvarDeclAssign(..)
        | Stmt::Return(..)
        | Stmt::Break
        | Stmt::Exit
        | Stmt::Continue => true,
        _ => false,
    }
}

/// The semicolon and the end of line behind a statement that is printed
/// as a line.
pub open spec fn line_end() -> Seq<Lexeme> {
    seq![bare(TokenKind::Semi), bare(TokenKind::EOL)]
}

/// The tokens of a simple statement that is printed as a line.
pub open spec fn line_tokens(statement: Stmt) -> Seq<Lexeme> {
    match statement {
        Stmt::Assignment(name, expr) => seq![name_token(name), bare(TokenKind::Assign)]
            + expression_tokens(expr) + line_end(),
        Stmt::Expression(expr) => expression_tokens(expr) + line_end(),
        Stmt::VarDecl(name) => seq![bare(TokenKind::Var), name_token(name)] + line_end(),
        Stmt::VarDeclAssign(name, expr) => seq![
            bare(TokenKind::Var),
            name_token(name),
            bare(TokenKind::Assign),
        ] + expression_tokens(expr) + line_end(),
        Stmt::GlobalvarDecl(name) => seq![bare(TokenKind::Globalvar), name_token(name)]
            + line_end(),
        Stmt::GlobalvarDeclAssign(name, expr) => seq![
            bare(TokenKind::Globalvar),
            name_token(name),
            bare(TokenKind::Assign),
        ] + expression_tokens(expr) + line_end(),
        Stmt::Return(None) => seq![bare(TokenKind::Return)] + line_end(),
        Stmt::Return(Some(expr)) => seq![bare(TokenKind::Return)] + expression_tokens(expr)
            + line_end(),
        Stmt::Break => seq![bare(TokenKind::Break)] + line_end(),
        Stmt::Exit => seq![bare(TokenKind::Exit)] + line_end(),
        Stmt::Continue => seq![bare(TokenKind::Continue)] + line_end(),
        _ => Seq::empty(),
    }
}

/// The tokens of a list of simple statements, each printed as a line.
pub open spec fn lines_tokens(list: Seq<Stmt>) -> Seq<Lexeme>
    decreases list.len(),
{
    if list.len() == 0 {
        Seq::empty()
    } else {
        line_tokens(list.first()) + lines_tokens(list.drop_first())
    }
}

/// The tokens of the lines of a doc comment: each line is a doc comment
/// token with an end of line behind it.
pub open spec fn docs_tokens(docs: Seq<Seq<char>>) -> Seq<Lexeme>
    decreases docs.len(),
{
    if docs.len() == 0 {
        Seq::empty()
    } else {
        seq![Lexeme { kind: TokenKind::DocComment, text: docs.first() }, bare(TokenKind::EOL)]
            + docs_tokens(docs.drop_first())
    }
}

/// Whether a unit is minimal: it has no formal arguments, and each of
/// its statements is simple.
pub open spec fn is_minimal(unit: Unit) -> bool {
    &&& unit.args == Params::End
    &&& forall|i: int| 0 <= i < unit.body.len() ==> is_simple(#[trigger] unit.body[i])
}

/// The tokens of a minimal unit: the begin-of-file token, the lines of
/// the doc comment, the statements as lines, and the end-of-file token.
pub open spec fn unit_tokens(unit: Unit) -> Seq<Lexeme> {
    seq![bare(TokenKind::BOF)] + docs_tokens(unit.docs) + lines_tokens(unit.body) + seq![
        bare(TokenKind::EOF),
    ]
}

/// The end of a statement that was read somewhere ends an expression as
/// the semicolon of a printed line does.
proof fn lemma_line_end_ends_alike(
    tokens: Seq<Lexeme>,
    end: nat,
    others: Seq<Lexeme>,
    other_end: nat,
)
    requires
        terminator(tokens, end).is_ok(),
        aligned(others, other_end, line_end()),
    ensures
        ends_alike(tokens, end, others, other_end),
        terminator(others, other_end) == Ok::<nat, crate::error::ParseError>(other_end + 2),
{
    lemma_aligned_token(others, other_end, line_end(), 0);
    lemma_aligned_token(others, other_end, line_end(), 1);
}

/// The round trip of a declaration, whose keyword stands at `start` in
/// `others` and in front of `pos` in `tokens`.
proof fn lemma_declaration_round_trip(
    tokens: Seq<Lexeme>,
    pos: nat,
    others: Seq<Lexeme>,
    start: nat,
    global: bool,
)
    requires
        declaration(tokens, pos, global).is_ok(),
        aligned(others, start, line_tokens(declaration(tokens, pos, global).unwrap().0)),
    ensures
        declaration(others, start + 1, global) == Ok::<(Stmt, nat), crate::error::Error>(
            (
                declaration(tokens, pos, global).unwrap().0,
                start + line_tokens(declaration(tokens, pos, global).unwrap().0).len(),
            ),
        ),
        at(
            others,
            start,
            if global {
                TokenKind::Globalvar
            } else {
                TokenKind::Var
            },
        ),
{
    let (tree, end) = declaration(tokens, pos, global).unwrap();
    let spelled = line_tokens(tree);
    let keyword = if global {
        bare(TokenKind::Globalvar)
    } else {
        bare(TokenKind::Var)
    };
    let (name, then) = identifier(tokens, pos).unwrap();
    if at(tokens, then, TokenKind::Assign) {
        let (expr, last) = expression(tokens, then + 1).unwrap();
        let head = seq![keyword, name_token(name), bare(TokenKind::Assign)];
        let middle = expression_tokens(expr);
        assert(spelled =~= head + middle + line_end());
        lemma_aligned_split(others, start, head + middle, line_end());
        lemma_aligned_split(others, start, head, middle);
        lemma_aligned_token(others, start, head, 0);
        lemma_aligned_token(others, start, head, 1);
        lemma_aligned_token(others, start, head, 2);
        lemma_line_end_ends_alike(tokens, last, others, start + 3 + middle.len());
        lemma_expression_round_trip(tokens, then + 1, others, start + 3);
        assert(identifier(others, start + 1) == Ok::<(Seq<char>, nat), crate::error::Error>(
            (name, start + 2),
        ));
    } else {
        let head = seq![keyword, name_token(name)];
        assert(spelled =~= head + line_end());
        lemma_aligned_split(others, start, head, line_end());
        lemma_aligned_token(others, start, head, 0);
        lemma_aligned_token(others, start, head, 1);
        lemma_line_end_ends_alike(tokens, then, others, start + 2);
        lemma_aligned_token(others, start + 2, line_end(), 0);
        assert(identifier(others, start + 1) == Ok::<(Seq<char>, nat), crate::error::Error>(
            (name, start + 2),
        ));
    }
}

/// The round trip of a `return` statement, whose keyword stands at
/// `start` in `others` and in front of `pos` in `tokens`.
proof fn lemma_return_round_trip(tokens: Seq<Lexeme>, pos: nat, others: Seq<Lexeme>, start: nat)
    requires
        returned(tokens, pos).is_ok(),
        aligned(others, start, line_tokens(returned(tokens, pos).unwrap().0)),
    ensures
        returned(others, start + 1) == Ok::<(Stmt, nat), crate::error::Error>(
            (
                returned(tokens, pos).unwrap().0,
                start + line_tokens(returned(tokens, pos).unwrap().0).len(),
            ),
        ),
        at(others, start, TokenKind::Return),
{
    let (tree, end) = returned(tokens, pos).unwrap();
    let spelled = line_tokens(tree);
    let word = seq![bare(TokenKind::Return)];
    if terminator(tokens, pos).is_ok() {
        assert(spelled =~= word + line_end());
        lemma_aligned_split(others, start, word, line_end());
        lemma_aligned_token(others, start, word, 0);
        lemma_line_end_ends_alike(tokens, pos, others, start + 1);
    } else {
        let (expr, last) = expression(tokens, pos).unwrap();
        let middle = expression_tokens(expr);
        assert(spelled =~= word + middle + line_end());
        lemma_aligned_split(others, start, word + middle, line_end());
        lemma_aligned_split(others, start, word, middle);
        lemma_aligned_token(others, start, word, 0);
        lemma_line_end_ends_alike(tokens, last, others, start + 1 + middle.len());
        lemma_expression_round_trip(tokens, pos, others, start + 1);
        lemma_expression_begins(expr);
        lemma_aligned_token(others, start + 1, middle, 0);
        assert(terminator(others, start + 1).is_err());
    }
}

/// The round trip of an expression statement.
proof fn lemma_expression_statement_round_trip(
    tokens: Seq<Lexeme>,
    pos: nat,
    others: Seq<Lexeme>,
    start: nat,
)
    requires
        expression(tokens, pos).is_ok(),
        terminator(tokens, expression(tokens, pos).unwrap().1).is_ok(),
        aligned(others, start, line_tokens(Stmt::Expression(expression(tokens, pos).unwrap().0))),
    ensures
        plain(others, start) == Ok::<(Stmt, nat), crate::error::Error>(
            (
                Stmt::Expression(expression(tokens, pos).unwrap().0),
                start + line_tokens(Stmt::Expression(expression(tokens, pos).unwrap().0)).len(),
            ),
        ),
        kind_at(others, start as int) matches Some(kind) && begins_value(kind),
{
    let (expr, then) = expression(tokens, pos).unwrap();
    let middle = expression_tokens(expr);
    let spelled = line_tokens(Stmt::Expression(expr));
    assert(spelled =~= middle + line_end());
    lemma_aligned_split(others, start, middle, line_end());
    lemma_line_end_ends_alike(tokens, then, others, start + middle.len());
    lemma_expression_round_trip(tokens, pos, others, start);
    lemma_expression_begins(expr);
    lemma_aligned_token(others, start, middle, 0);
}

/// The round trip of an assignment statement.
proof fn lemma_assignment_round_trip(tokens: Seq<Lexeme>, pos: nat, others: Seq<Lexeme>, start: nat)
    requires
        assignment(tokens, pos).is_ok(),
        terminator(tokens, assignment(tokens, pos).unwrap().1).is_ok(),
        aligned(
            others,
            start,
            line_tokens(
                Stmt::Assignment(
                    assignment(tokens, pos).unwrap().0.0,
                    assignment(tokens, pos).unwrap().0.1,
                ),
            ),
        ),
    ensures
        plain(others, start) == Ok::<(Stmt, nat), crate::error::Error>(
            (
                Stmt::Assignment(
                    assignment(tokens, pos).unwrap().0.0,
                    assignment(tokens, pos).unwrap().0.1,
                ),
                start + line_tokens(
                    Stmt::Assignment(
                        assignment(tokens, pos).unwrap().0.0,
                        assignment(tokens, pos).unwrap().0.1,
                    ),
                ).len(),
            ),
        ),
        at(others, start, TokenKind::Identifier),
{
    let ((name, expr), last) = assignment(tokens, pos).unwrap();
    let (_, then) = identifier(tokens, pos).unwrap();
    let spelled = line_tokens(Stmt::Assignment(name, expr));
    let head = seq![name_token(name), bare(TokenKind::Assign)];
    let middle = expression_tokens(expr);
    assert(spelled =~= head + middle + line_end());
    lemma_aligned_split(others, start, head + middle, line_end());
    lemma_aligned_split(others, start, head, middle);
    lemma_aligned_token(others, start, head, 0);
    lemma_aligned_token(others, start, head, 1);
    lemma_line_end_ends_alike(tokens, last, others, start + 2 + middle.len());
    lemma_expression_round_trip(tokens, then + 1, others, start + 2);
    // from the tokens of the line, the name alone is no statement
    assert(value(others, start) == Ok::<(Val, nat), crate::error::Error>(
        (Val::Ident(name), start + 1),
    ));
    assert(climb(others, start + 1, Expr::Value(Val::Ident(name)), Precedence::Zero) == Ok::<
        (Expr, nat),
        crate::error::Error,
    >((Expr::Value(Val::Ident(name)), start + 1)));
    assert(expression(others, start) == Ok::<(Expr, nat), crate::error::Error>(
        (Expr::Value(Val::Ident(name)), start + 1),
    ));
    assert(terminator(others, start + 1).is_err());
    assert(identifier(others, start) == Ok::<(Seq<char>, nat), crate::error::Error>(
        (name, start + 1),
    ));
    assert(assignment(others, start) == Ok::<((Seq<char>, Expr), nat), crate::error::Error>(
        ((name, expr), start + 2 + middle.len()),
    ));
}

/// The round trip of a statement that is one word.
proof fn lemma_word_round_trip(tokens: Seq<Lexeme>, pos: nat, others: Seq<Lexeme>, start: nat, kind: TokenKind)
    requires
        terminator(tokens, pos).is_ok(),
        aligned(others, start, seq![bare(kind)] + line_end()),
    ensures
        terminator(others, start + 1) == Ok::<nat, crate::error::ParseError>(start + 3),
        at(others, start, kind),
{
    let word = seq![bare(kind)];
    lemma_aligned_split(others, start, word, line_end());
    lemma_aligned_token(others, start, word, 0);
    lemma_line_end_ends_alike(tokens, pos, others, start + 1);
}

/// Whether a statement begins with a token of this category by the
/// category alone.
pub open spec fn begins_statement(kind: TokenKind) -> bool {
    ||| kind == TokenKind::Semi
    ||| kind == TokenKind::Var
    ||| kind == TokenKind::Globalvar
    ||| kind == TokenKind::If
    ||| kind == TokenKind::Do
    ||| kind == TokenKind::For
    ||| kind == TokenKind::Repeat
    ||| kind == TokenKind::While
    ||| kind == TokenKind::Until
    ||| kind == TokenKind::Break
    ||| kind == TokenKind::Continue
    ||| kind == TokenKind::Exit
    ||| kind == TokenKind::Return
    ||| kind == TokenKind::LBrace
}

/// A statement that begins with a semicolon is not simple.
proof fn lemma_noop_is_not_simple(tokens: Seq<Lexeme>, pos: nat)
    requires
        statement(tokens, pos).is_ok(),
        at(tokens, pos, TokenKind::Semi),
    ensures
        !is_simple(statement(tokens, pos).unwrap().0),
{
}

/// A statement that begins with `if` is not simple.
proof fn lemma_if_is_not_simple(tokens: Seq<Lexeme>, pos: nat)
    requires
        statement(tokens, pos).is_ok(),
        at(tokens, pos, TokenKind::If),
    ensures
        !is_simple(statement(tokens, pos).unwrap().0),
{
    assert(conditional(tokens, pos).is_ok());
}

/// A statement that begins with `do` is not simple.
proof fn lemma_do_is_not_simple(tokens: Seq<Lexeme>, pos: nat)
    requires
        statement(tokens, pos).is_ok(),
        at(tokens, pos, TokenKind::Do),
    ensures
        !is_simple(statement(tokens, pos).unwrap().0),
{
    assert(post_loop(tokens, pos).is_ok());
}

/// A statement that begins with `for` is not simple.
proof fn lemma_for_is_not_simple(tokens: Seq<Lexeme>, pos: nat)
    requires
        statement(tokens, pos).is_ok(),
        at(tokens, pos, TokenKind::For),
    ensures
        !is_simple(statement(tokens, pos).unwrap().0),
{
    assert(for_loop(tokens, pos).is_ok());
}

/// A statement that begins with `repeat` is not simple.
proof fn lemma_repeat_is_not_simple(tokens: Seq<Lexeme>, pos: nat)
    requires
        statement(tokens, pos).is_ok(),
        at(tokens, pos, TokenKind::Repeat),
    ensures
        !is_simple(statement(tokens, pos).unwrap().0),
{
    assert(pre_loop(tokens, pos).is_ok());
}

/// A statement that begins with `while` is not simple.
proof fn lemma_while_is_not_simple(tokens: Seq<Lexeme>, pos: nat)
    requires
        statement(tokens, pos).is_ok(),
        at(tokens, pos, TokenKind::While),
    ensures
        !is_simple(statement(tokens, pos).unwrap().0),
{
    assert(pre_loop(tokens, pos).is_ok());
}

/// A statement that begins with `until` is not simple.
proof fn lemma_until_is_not_simple(tokens: Seq<Lexeme>, pos: nat)
    requires
        statement(tokens, pos).is_ok(),
        at(tokens, pos, TokenKind::Until),
    ensures
        !is_simple(statement(tokens, pos).unwrap().0),
{
    assert(pre_loop(tokens, pos).is_ok());
}

/// A statement that begins with a brace is not simple.
proof fn lemma_block_is_not_simple(tokens: Seq<Lexeme>, pos: nat)
    requires
        statement(tokens, pos).is_ok(),
        at(tokens, pos, TokenKind::LBrace),
    ensures
        !is_simple(statement(tokens, pos).unwrap().0),
{
    assert(block(tokens, pos).is_ok());
}

/// A statement that begins with a semicolon, with the keyword of a
/// conditional or of a loop, or with a brace is not simple.
pub proof fn lemma_compound_is_not_simple(tokens: Seq<Lexeme>, pos: nat)
    requires
        statement(tokens, pos).is_ok(),
        at(tokens, pos, TokenKind::Semi) || at(tokens, pos, TokenKind::If) || at(
            tokens,
            pos,
            TokenKind::Do,
        ) || at(tokens, pos, TokenKind::For) || at(tokens, pos, TokenKind::Repeat) || at(
            tokens,
            pos,
            TokenKind::While,
        ) || at(tokens, pos, TokenKind::Until) || at(tokens, pos, TokenKind::LBrace),
    ensures
        !is_simple(statement(tokens, pos).unwrap().0),
{
    if at(tokens, pos, TokenKind::Semi) {
        lemma_noop_is_not_simple(tokens, pos);
    } else if at(tokens, pos, TokenKind::If) {
        lemma_if_is_not_simple(tokens, pos);
    } else if at(tokens, pos, TokenKind::Do) {
        lemma_do_is_not_simple(tokens, pos);
    } else if at(tokens, pos, TokenKind::For) {
        lemma_for_is_not_simple(tokens, pos);
    } else if at(tokens, pos, TokenKind::Repeat) {
        lemma_repeat_is_not_simple(tokens, pos);
    } else if at(tokens, pos, TokenKind::While) {
        lemma_while_is_not_simple(tokens, pos);
    } else if at(tokens, pos, TokenKind::Until) {
        lemma_until_is_not_simple(tokens, pos);
    } else {
        lemma_block_is_not_simple(tokens, pos);
    }
}

/// The round trip of a statement that begins with `var` or `globalvar`.
proof fn lemma_declared_round_trip(tokens: Seq<Lexeme>, pos: nat, others: Seq<Lexeme>, start: nat)
    requires
        statement(tokens, pos).is_ok(),
        is_simple(statement(tokens, pos).unwrap().0),
        aligned(others, start, line_tokens(statement(tokens, pos).unwrap().0)),
        at(tokens, pos, TokenKind::Var) || at(tokens, pos, TokenKind::Globalvar),
    ensures
        statement(others, start) == Ok::<(Stmt, nat), crate::error::Error>(
            (
                statement(tokens, pos).unwrap().0,
                start + line_tokens(statement(tokens, pos).unwrap().0).len(),
            ),
        ),
{
    if at(tokens, pos, TokenKind::Var) {
        lemma_declaration_round_trip(tokens, pos + 1, others, start, false);
    } else {
        lemma_declaration_round_trip(tokens, pos + 1, others, start, true);
    }
}

/// The round trip of `break`, `continue`, `exit` and `return`.
proof fn lemma_jump_round_trip(tokens: Seq<Lexeme>, pos: nat, others: Seq<Lexeme>, start: nat)
    requires
        statement(tokens, pos).is_ok(),
        is_simple(statement(tokens, pos).unwrap().0),
        aligned(others, start, line_tokens(statement(tokens, pos).unwrap().0)),
        at(tokens, pos, TokenKind::Break) || at(tokens, pos, TokenKind::Continue) || at(
            tokens,
            pos,
            TokenKind::Exit,
        ) || at(tokens, pos, TokenKind::Return),
    ensures
        statement(others, start) == Ok::<(Stmt, nat), crate::error::Error>(
            (
                statement(tokens, pos).unwrap().0,
                start + line_tokens(statement(tokens, pos).unwrap().0).len(),
            ),
        ),
{
    if at(tokens, pos, TokenKind::Break) {
        lemma_word_round_trip(tokens, pos + 1, others, start, TokenKind::Break);
    } else if at(tokens, pos, TokenKind::Continue) {
        lemma_word_round_trip(tokens, pos + 1, others, start, TokenKind::Continue);
    } else if at(tokens, pos, TokenKind::Exit) {
        lemma_word_round_trip(tokens, pos + 1, others, start, TokenKind::Exit);
    } else {
        lemma_return_round_trip(tokens, pos + 1, others, start);
    }
}

/// The round trip of a statement that begins with no keyword.
proof fn lemma_plain_round_trip(tokens: Seq<Lexeme>, pos: nat, others: Seq<Lexeme>, start: nat)
    requires
        statement(tokens, pos).is_ok(),
        is_simple(statement(tokens, pos).unwrap().0),
        aligned(others, start, line_tokens(statement(tokens, pos).unwrap().0)),
        statement(tokens, pos) == plain(tokens, pos),
    ensures
        statement(others, start) == Ok::<(Stmt, nat), crate::error::Error>(
            (
                statement(tokens, pos).unwrap().0,
                start + line_tokens(statement(tokens, pos).unwrap().0).len(),
            ),
        ),
{
    let read_expression = match expression(tokens, pos) {
        Ok((_, then)) => terminator(tokens, then).is_ok(),
        Err(_) => false,
    };
    if read_expression {
        lemma_expression_statement_round_trip(tokens, pos, others, start);
    } else {
        lemma_assignment_round_trip(tokens, pos, others, start);
    }
    assert(!begins_statement(kind_at(others, start as int).unwrap()));
}

/// A simple statement that is read from any tokens is read again from
/// the tokens of its printed line.
pub proof fn lemma_statement_round_trip(
    tokens: Seq<Lexeme>,
    pos: nat,
    others: Seq<Lexeme>,
    start: nat,
)
    requires
        statement(tokens, pos).is_ok(),
        is_simple(statement(tokens, pos).unwrap().0),
        aligned(others, start, line_tokens(statement(tokens, pos).unwrap().0)),
    ensures
        statement(others, start) == Ok::<(Stmt, nat), crate::error::Error>(
            (
                statement(tokens, pos).unwrap().0,
                start + line_tokens(statement(tokens, pos).unwrap().0).len(),
            ),
        ),
{
    match kind_at(tokens, pos as int) {
        Some(kind) => {
            if kind == TokenKind::Var || kind == TokenKind::Globalvar {
                lemma_declared_round_trip(tokens, pos, others, start);
            } else if kind == TokenKind::Break || kind == TokenKind::Continue || kind
                == TokenKind::Exit || kind == TokenKind::Return {
                lemma_jump_round_trip(tokens, pos, others, start);
            } else if begins_statement(kind) {
                lemma_compound_is_not_simple(tokens, pos);
            } else {
                lemma_plain_round_trip(tokens, pos, others, start);
            }
        },
        None => {
            lemma_plain_round_trip(tokens, pos, others, start);
        },
    }
}

/// Simple statements that are read from any tokens, up to the end of the
/// file, are read again from the tokens of their printed lines with an
/// end-of-file token behind them.
pub proof fn lemma_sequence_round_trip(
    tokens: Seq<Lexeme>,
    pos: nat,
    others: Seq<Lexeme>,
    start: nat,
)
    requires
        sequence(tokens, pos, TokenKind::EOF).is_ok(),
        forall|i: int|
            0 <= i < sequence(tokens, pos, TokenKind::EOF).unwrap().0.len() ==> is_simple(
                #[trigger] sequence(tokens, pos, TokenKind::EOF).unwrap().0[i],
            ),
        aligned(others, start, lines_tokens(sequence(tokens, pos, TokenKind::EOF).unwrap().0)),
        at(
            others,
            start + lines_tokens(sequence(tokens, pos, TokenKind::EOF).unwrap().0).len(),
            TokenKind::EOF,
        ),
    ensures
        sequence(others, start, TokenKind::EOF) == Ok::<(Seq<Stmt>, nat), crate::error::Error>(
            (
                sequence(tokens, pos, TokenKind::EOF).unwrap().0,
                start + lines_tokens(sequence(tokens, pos, TokenKind::EOF).unwrap().0).len(),
            ),
        ),
    decreases remaining(tokens, pos),
{
    let (list, end) = sequence(tokens, pos, TokenKind::EOF).unwrap();
    if at(tokens, pos, TokenKind::EOF) {
        assert(list =~= Seq::<Stmt>::empty());
    } else {
        let (first, then) = statement(tokens, pos).unwrap();
        let (rest, _) = sequence(tokens, then, TokenKind::EOF).unwrap();
        assert(list == seq![first] + rest);
        assert(list.first() == first);
        assert(list.drop_first() =~= rest);
        assert(is_simple(list[0]));
        assert forall|i: int| 0 <= i < rest.len() implies is_simple(#[trigger] rest[i]) by {
            assert(rest[i] == list[i + 1]);
        }
        let line = line_tokens(first);
        assert(lines_tokens(list) == line + lines_tokens(rest));
        lemma_aligned_split(others, start, line, lines_tokens(rest));
        lemma_statement_round_trip(tokens, pos, others, start);
        super::laws::lemma_statement_advances(others, start);
        lemma_sequence_round_trip(tokens, then, others, start + line.len());
        lemma_line_begins(first);
        lemma_aligned_token(others, start, line, 0);
    }
}

/// The printed line of a simple statement has at least one token, and
/// begins neither with the end-of-file token nor as a doc comment or a
/// formal argument does.
pub proof fn lemma_line_begins(statement: Stmt)
    requires
        is_simple(statement),
    ensures
        line_tokens(statement).len() > 0,
        line_tokens(statement)[0].kind != TokenKind::EOF,
        line_tokens(statement)[0].kind != TokenKind::DocComment,
        line_tokens(statement)[0].kind != TokenKind::Argument,
{
    match statement {
        Stmt::Expression(expr) => {
            lemma_expression_begins(expr);
        },
        Stmt::Assignment(name, expr) => {},
        _ => {},
    }
}

/// The tokens of an expression begin as a value does.
pub proof fn lemma_expression_begins(expr: Expr)
    ensures
        expression_tokens(expr).len() > 0,
        begins_value(expression_tokens(expr)[0].kind),
    decreases expr,
{
    match expr {
        Expr::Binary(_, lhs, _) => {
            lemma_expression_begins(*lhs);
        },
        Expr::Pipe(lhs, _) => {
            lemma_expression_begins(*lhs);
        },
        Expr::Ternary(cond, _, _) => {
            lemma_expression_begins(*cond);
        },
        Expr::Value(value) => {
            lemma_value_begins(value);
        },
    }
}

/// The tokens of a value begin as a value does.
pub proof fn lemma_value_begins(value: Val)
    ensures
        value_tokens(value).len() > 0,
        begins_value(value_tokens(value)[0].kind),
    decreases value,
{
    match value {
        Val::Call(invocation) => {
            let head = seq![name_token(invocation.name), bare(TokenKind::LParen)];
            assert(invocation_tokens(invocation)[0] == head[0]);
        },
        Val::Expr(expr) => {
            let open = seq![bare(TokenKind::LParen)];
            assert(value_tokens(value)[0] == open[0]);
        },
        Val::Negative(_) | Val::Not(_) | Val::Inverted(_) => {},
        Val::Ident(_) => {},
        Val::Literal(lit) => {},
    }
}

/// Whether a value can begin with a token of this category.
pub open spec fn begins_value(kind: TokenKind) -> bool {
    ||| kind == TokenKind::Identifier
    ||| kind == TokenKind::LParen
    ||| kind == TokenKind::Minus
    ||| kind == TokenKind::Bang
    ||| kind == TokenKind::Inv
    ||| super::grammar::begins_literal(kind)
}

/// The lines of a doc comment that are read from any tokens are read
/// again from their own tokens, if no further line follows those.
pub proof fn lemma_doc_comment_round_trip(
    tokens: Seq<Lexeme>,
    pos: nat,
    others: Seq<Lexeme>,
    start: nat,
)
    requires
        aligned(others, start, docs_tokens(doc_comment(tokens, pos).0)),
        !at(others, start + docs_tokens(doc_comment(tokens, pos).0).len(), TokenKind::DocComment),
    ensures
        doc_comment(others, start) == (
            doc_comment(tokens, pos).0,
            start + docs_tokens(doc_comment(tokens, pos).0).len(),
        ),
    decreases remaining(tokens, pos),
{
    let (docs, end) = doc_comment(tokens, pos);
    if at(tokens, pos, TokenKind::DocComment) && at(tokens, pos + 1, TokenKind::EOL) {
        let (rest, _) = doc_comment(tokens, pos + 2);
        let line = seq![
            Lexeme { kind: TokenKind::DocComment, text: text_at(tokens, pos as int) },
            bare(TokenKind::EOL),
        ];
        assert(docs == seq![text_at(tokens, pos as int)] + rest);
        assert(docs.first() == text_at(tokens, pos as int));
        assert(docs.drop_first() =~= rest);
        assert(docs_tokens(docs) == line + docs_tokens(rest));
        lemma_aligned_split(others, start, line, docs_tokens(rest));
        lemma_aligned_token(others, start, line, 0);
        lemma_aligned_token(others, start, line, 1);
        lemma_doc_comment_round_trip(tokens, pos + 2, others, start + 2);
        assert(seq![text_at(others, start as int)] + rest =~= docs);
    } else {
        assert(docs =~= Seq::<Seq<char>>::empty());
    }
}

/// A minimal unit that the parser has read from any tokens is read again
/// from the tokens of the unit.
pub proof fn lemma_minimal_unit_round_trip(tokens: Seq<Lexeme>)
    requires
        code(tokens, 0).is_ok(),
        is_minimal(code(tokens, 0).unwrap().0),
    ensures
        code(unit_tokens(code(tokens, 0).unwrap().0), 0) == Ok::<(Unit, nat), crate::error::Error>(
            (
                code(tokens, 0).unwrap().0,
                (unit_tokens(code(tokens, 0).unwrap().0).len() - 1) as nat,
            ),
        ),
{
    let (unit, end) = code(tokens, 0).unwrap();
    let others = unit_tokens(unit);
    let (docs, head) = doc_comment(tokens, 1);
    let (args, then) = arguments(tokens, head).unwrap();
    let (body, _) = sequence(tokens, then, TokenKind::EOF).unwrap();
    let bof = seq![bare(TokenKind::BOF)];
    let eof = seq![bare(TokenKind::EOF)];
    let lines = lines_tokens(body);
    let doc_lines = docs_tokens(docs);
    assert(others == bof + doc_lines + lines + eof);
    assert(aligned(others, 0, others)) by {
        assert(others.subrange(0, others.len() as int) =~= others);
    }
    lemma_aligned_split(others, 0, bof + doc_lines + lines, eof);
    lemma_aligned_split(others, 0, bof + doc_lines, lines);
    lemma_aligned_split(others, 0, bof, doc_lines);
    let after_docs = 1 + doc_lines.len();
    lemma_aligned_token(others, after_docs + lines.len(), eof, 0);
    // what stands behind the doc comment is the first statement, or the end of the file
    if body.len() > 0 {
        assert(is_simple(body[0]));
        lemma_line_begins(body.first());
        assert(lines == line_tokens(body.first()) + lines_tokens(body.drop_first()));
        lemma_aligned_split(
            others,
            after_docs,
            line_tokens(body.first()),
            lines_tokens(body.drop_first()),
        );
        lemma_aligned_token(others, after_docs, line_tokens(body.first()), 0);
    } else {
        assert(lines =~= Seq::<Lexeme>::empty());
    }
    lemma_doc_comment_round_trip(tokens, 1, others, 1);
    assert(arguments(tokens, head) == Ok::<(Params, nat), crate::error::Error>((Params::End, then)));
    assert(then == head);
    assert(arguments(others, after_docs) == Ok::<(Params, nat), crate::error::Error>(
        (Params::End, after_docs),
    ));
    lemma_sequence_round_trip(tokens, then, others, after_docs);
}

/// The tokens of a list with one more expression behind it.
pub proof fn lemma_list_tokens_push(list: Seq<Expr>, last: Expr)
    ensures
        list_tokens(list.push(last)) == list_tokens(list) + expression_tokens(last) + seq![
            bare(TokenKind::Comma),
        ],
    decreases list.len(),
{
    let longer = list.push(last);
    let comma = seq![bare(TokenKind::Comma)];
    if list.len() == 0 {
        assert(longer.drop_first() =~= Seq::<Expr>::empty());
        assert(list_tokens(longer.drop_first()) =~= Seq::<Lexeme>::empty());
        assert(list_tokens(longer) =~= list_tokens(list) + expression_tokens(last) + comma);
    } else {
        assert(longer.drop_first() =~= list.drop_first().push(last));
        assert(longer.first() == list.first());
        lemma_list_tokens_push(list.drop_first(), last);
        assert(list_tokens(longer) =~= list_tokens(list) + expression_tokens(last) + comma);
    }
}

/// The tokens of a list of statements with one more statement behind it.
pub proof fn lemma_lines_tokens_push(list: Seq<Stmt>, last: Stmt)
    ensures
        lines_tokens(list.push(last)) == lines_tokens(list) + line_tokens(last),
    decreases list.len(),
{
    let longer = list.push(last);
    if list.len() == 0 {
        assert(longer.drop_first() =~= Seq::<Stmt>::empty());
        assert(lines_tokens(longer.drop_first()) =~= Seq::<Lexeme>::empty());
        assert(lines_tokens(longer) =~= lines_tokens(list) + line_tokens(last));
    } else {
        assert(longer.drop_first() =~= list.drop_first().push(last));
        assert(longer.first() == list.first());
        lemma_lines_tokens_push(list.drop_first(), last);
        assert(lines_tokens(longer) =~= lines_tokens(list) + line_tokens(last));
    }
}

/// The tokens of the lines of a doc comment with one more line behind
/// them.
pub proof fn lemma_docs_tokens_push(docs: Seq<Seq<char>>, last: Seq<char>)
    ensures
        docs_tokens(docs.push(last)) == docs_tokens(docs) + seq![
            Lexeme { kind: TokenKind::DocComment, text: last },
            bare(TokenKind::EOL),
        ],
    decreases docs.len(),
{
    let longer = docs.push(last);
    let line = seq![Lexeme { kind: TokenKind::DocComment, text: last }, bare(TokenKind::EOL)];
    if docs.len() == 0 {
        assert(longer.drop_first() =~= Seq::<Seq<char>>::empty());
        assert(docs_tokens(longer.drop_first()) =~= Seq::<Lexeme>::empty());
        assert(docs_tokens(longer) =~= docs_tokens(docs) + line);
    } else {
        assert(longer.drop_first() =~= docs.drop_first().push(last));
        assert(longer.first() == docs.first());
        lemma_docs_tokens_push(docs.drop_first(), last);
        assert(docs_tokens(longer) =~= docs_tokens(docs) + line);
    }
}

} // verus!
