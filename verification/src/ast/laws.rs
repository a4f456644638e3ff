//! What holds of the grammar as a whole.

use vstd::prelude::*;

use super::grammar::at;
use super::grammar::block;
use super::grammar::call;
use super::grammar::character;
use super::grammar::climb;
use super::grammar::combine;
use super::grammar::comma_list;
use super::grammar::conditional;
use super::grammar::expression;
use super::grammar::for_loop;
use super::grammar::forward;
use super::grammar::operator_at;
use super::grammar::parenthesized;
use super::grammar::post_loop;
use super::grammar::pre_loop;
use super::grammar::precedence;
use super::grammar::remaining;
use super::grammar::sequence;
use super::grammar::statement;
use super::grammar::terminator;
use super::grammar::tighten;
use super::grammar::value;
use super::grammar::Parsed;
use super::grammar::Precedence;
use super::model::Expr;
use super::render::char_text;
use crate::tokenizer::token::Lexeme;
use crate::tokenizer::token::TokenKind;

verus! {

/// A result that, if it is a success, ends behind `from` and within the
/// tokens.
pub open spec fn advances<T>(tokens: Seq<Lexeme>, from: nat, parsed: Parsed<T>) -> bool {
    parsed matches Ok((_, end)) ==> from < end <= tokens.len()
}

/// A result that, if it is a success, ends at `from` or behind it and
/// within the tokens.
pub open spec fn holds_or_advances<T>(tokens: Seq<Lexeme>, from: nat, parsed: Parsed<T>) -> bool {
    parsed matches Ok((_, end)) ==> from <= end <= tokens.len()
}

/// The three ways in which a statement ends: a semicolon with an end of
/// line behind it is one terminator of two tokens, and a semicolon alone
/// or an end of line alone is a terminator of one token. Nothing else
/// ends a statement.
pub proof fn lemma_terminators(tokens: Seq<Lexeme>, pos: nat)
    ensures
        at(tokens, pos, TokenKind::Semi) && at(tokens, pos + 1, TokenKind::EOL) ==> terminator(
            tokens,
            pos,
        ) == Ok::<nat, crate::error::ParseError>(pos + 2),
        at(tokens, pos, TokenKind::Semi) && !at(tokens, pos + 1, TokenKind::EOL) ==> terminator(
            tokens,
            pos,
        ) == Ok::<nat, crate::error::ParseError>(pos + 1),
        at(tokens, pos, TokenKind::EOL) ==> terminator(tokens, pos) == Ok::<
            nat,
            crate::error::ParseError,
        >(pos + 1),
        !at(tokens, pos, TokenKind::Semi) && !at(tokens, pos, TokenKind::EOL) ==> terminator(
            tokens,
            pos,
        ).is_err(),
{
}

/// A character that is printed as a character literal is read back as
/// itself.
pub proof fn lemma_character_round_trip(c: char)
    ensures
        character(char_text(c)) == Some(c),
{
}

/// A value that is read ends behind where it began.
pub proof fn lemma_value_advances(tokens: Seq<Lexeme>, pos: nat)
    ensures
        advances(tokens, pos, value(tokens, pos)),
    decreases remaining(tokens, pos), 3nat,
{
    match crate::tokenizer::tokens::kind_at(tokens, pos as int) {
        Some(TokenKind::Identifier) => {
            if at(tokens, pos + 1, TokenKind::LParen) {
                lemma_call_advances(tokens, pos);
            }
        },
        Some(TokenKind::LParen) => {
            lemma_parenthesized_advances(tokens, pos);
        },
        Some(TokenKind::Minus) | Some(TokenKind::Bang) | Some(TokenKind::Inv) => {
            lemma_value_advances(tokens, pos + 1);
        },
        _ => {},
    }
}

/// An expression between parentheses that is read ends behind where it
/// began.
pub proof fn lemma_parenthesized_advances(tokens: Seq<Lexeme>, pos: nat)
    ensures
        advances(tokens, pos, parenthesized(tokens, pos)),
    decreases remaining(tokens, pos), 2nat,
{
    if at(tokens, pos, TokenKind::LParen) {
        lemma_expression_advances(tokens, pos + 1);
    }
}

/// A call that is read ends behind where it began.
pub proof fn lemma_call_advances(tokens: Seq<Lexeme>, pos: nat)
    ensures
        advances(tokens, pos, call(tokens, pos)),
    decreases remaining(tokens, pos), 2nat,
{
    if at(tokens, pos, TokenKind::Identifier) && at(tokens, pos + 1, TokenKind::LParen) {
        lemma_comma_list_advances(tokens, pos + 2);
    }
}

/// A list of expressions ends where it began or behind that.
pub proof fn lemma_comma_list_advances(tokens: Seq<Lexeme>, pos: nat)
    ensures
        pos <= comma_list(tokens, pos).1,
        pos <= tokens.len() ==> comma_list(tokens, pos).1 <= tokens.len(),
    decreases remaining(tokens, pos), 5nat,
{
    lemma_expression_advances(tokens, pos);
    match forward(pos, expression(tokens, pos)) {
        Err(_) => {},
        Ok((_, end)) => {
            if at(tokens, end, TokenKind::Comma) {
                lemma_comma_list_advances(tokens, end + 1);
            }
        },
    }
}

/// An expression that is read ends behind where it began.
pub proof fn lemma_expression_advances(tokens: Seq<Lexeme>, pos: nat)
    ensures
        advances(tokens, pos, expression(tokens, pos)),
    decreases remaining(tokens, pos), 4nat,
{
    lemma_value_advances(tokens, pos);
    match forward(pos, value(tokens, pos)) {
        Err(_) => {},
        Ok((first, end)) => {
            lemma_climb_advances(tokens, end, Expr::Value(first), Precedence::Zero);
        },
    }
}

/// What is read behind a left operand ends at the operand's end or behind
/// it.
pub proof fn lemma_climb_advances(tokens: Seq<Lexeme>, pos: nat, lhs: Expr, min: Precedence)
    requires
        pos <= tokens.len(),
    ensures
        holds_or_advances(tokens, pos, climb(tokens, pos, lhs, min)),
        operator_at(tokens, pos) matches Some(op) && precedence(op).level() >= min.level()
            ==> advances(tokens, pos, climb(tokens, pos, lhs, min)),
    decreases remaining(tokens, pos), 1nat,
{
    match operator_at(tokens, pos) {
        Some(op) => {
            if precedence(op).level() >= min.level() {
                lemma_combine_advances(tokens, pos, lhs);
                match forward(pos, combine(tokens, pos, lhs)) {
                    Err(_) => {},
                    Ok((joined, end)) => {
                        lemma_climb_advances(tokens, end, joined, min);
                    },
                }
            }
        },
        None => {},
    }
}

/// An operator with what it takes on its right ends behind the operator.
pub proof fn lemma_combine_advances(tokens: Seq<Lexeme>, pos: nat, lhs: Expr)
    requires
        operator_at(tokens, pos).is_some(),
    ensures
        advances(tokens, pos, combine(tokens, pos, lhs)),
    decreases remaining(tokens, pos), 0nat,
{
    match operator_at(tokens, pos) {
        None => {},
        Some(super::grammar::Operator::Pipe) => {
            lemma_call_advances(tokens, pos + 1);
        },
        Some(super::grammar::Operator::Ternary) => {
            lemma_expression_advances(tokens, pos + 1);
            match forward(pos + 1, expression(tokens, pos + 1)) {
                Err(_) => {},
                Ok((_, colon)) => {
                    if at(tokens, colon, TokenKind::Colon) {
                        lemma_expression_advances(tokens, colon + 1);
                    }
                },
            }
        },
        Some(super::grammar::Operator::Binary(op)) => {
            lemma_value_advances(tokens, pos + 1);
            match forward(pos + 1, value(tokens, pos + 1)) {
                Err(_) => {},
                Ok((first, end)) => {
                    lemma_tighten_advances(
                        tokens,
                        end,
                        Expr::Value(first),
                        precedence(super::grammar::Operator::Binary(op)),
                    );
                },
            }
        },
    }
}

/// The right operand of a binary operator ends at its first value's end
/// or behind it.
pub proof fn lemma_tighten_advances(tokens: Seq<Lexeme>, pos: nat, rhs: Expr, level: Precedence)
    requires
        pos <= tokens.len(),
    ensures
        holds_or_advances(tokens, pos, tighten(tokens, pos, rhs, level)),
    decreases remaining(tokens, pos), 2nat,
{
    match operator_at(tokens, pos) {
        Some(op) => {
            if precedence(op).level() > level.level() {
                lemma_climb_advances(tokens, pos, rhs, precedence(op));
                match forward(pos, climb(tokens, pos, rhs, precedence(op))) {
                    Err(_) => {},
                    Ok((bound, end)) => {
                        lemma_tighten_advances(tokens, end, bound, level);
                    },
                }
            }
        },
        None => {},
    }
}

/// A statement that is read ends behind where it began.
pub proof fn lemma_statement_advances(tokens: Seq<Lexeme>, pos: nat)
    ensures
        advances(tokens, pos, statement(tokens, pos)),
    decreases remaining(tokens, pos), 7nat,
{
    match crate::tokenizer::tokens::kind_at(tokens, pos as int) {
        Some(TokenKind::Semi) => {},
        Some(TokenKind::Var) | Some(TokenKind::Globalvar) => {
            lemma_expression_advances(tokens, pos + 3);
        },
        Some(TokenKind::If) => {
            lemma_conditional_advances(tokens, pos);
        },
        Some(TokenKind::Do) => {
            lemma_post_loop_advances(tokens, pos);
        },
        Some(TokenKind::For) => {
            lemma_for_loop_advances(tokens, pos);
        },
        Some(TokenKind::Repeat) | Some(TokenKind::While) | Some(TokenKind::Until) => {
            lemma_pre_loop_advances(tokens, pos);
        },
        Some(TokenKind::Break) | Some(TokenKind::Continue) | Some(TokenKind::Exit) => {},
        Some(TokenKind::Return) => {
            lemma_expression_advances(tokens, pos + 1);
        },
        Some(TokenKind::LBrace) => {
            lemma_block_advances(tokens, pos);
        },
        _ => {
            lemma_expression_advances(tokens, pos);
            lemma_expression_advances(tokens, pos + 2);
        },
    }
}

/// An `if` statement that is read ends behind where it began.
pub proof fn lemma_conditional_advances(tokens: Seq<Lexeme>, pos: nat)
    ensures
        advances(tokens, pos, conditional(tokens, pos)),
    decreases remaining(tokens, pos), 6nat,
{
    if pos < tokens.len() {
        lemma_parenthesized_advances(tokens, pos + 1);
        match forward(pos + 1, parenthesized(tokens, pos + 1)) {
            Err(_) => {},
            Ok((_, then)) => {
                lemma_statement_advances(tokens, then);
                match forward(then, statement(tokens, then)) {
                    Err(_) => {},
                    Ok((_, end)) => {
                        if at(tokens, end, TokenKind::Else) {
                            lemma_statement_advances(tokens, end + 1);
                        }
                    },
                }
            },
        }
    }
}

/// A loop with its condition behind its body that is read ends behind
/// where it began.
pub proof fn lemma_post_loop_advances(tokens: Seq<Lexeme>, pos: nat)
    ensures
        advances(tokens, pos, post_loop(tokens, pos)),
    decreases remaining(tokens, pos), 6nat,
{
    if pos < tokens.len() {
        lemma_statement_advances(tokens, pos + 1);
        match statement(tokens, pos + 1) {
            Err(_) => {},
            Ok((_, end)) => {
                lemma_parenthesized_advances(tokens, end + 1);
            },
        }
    }
}

/// A `for` loop that is read ends behind where it began.
pub proof fn lemma_for_loop_advances(tokens: Seq<Lexeme>, pos: nat)
    ensures
        advances(tokens, pos, for_loop(tokens, pos)),
    decreases remaining(tokens, pos), 6nat,
{
    if pos < tokens.len() && at(tokens, pos + 1, TokenKind::LParen) {
        lemma_statement_advances(tokens, pos + 2);
        match forward(pos + 2, statement(tokens, pos + 2)) {
            Err(_) => {},
            Ok((_, first)) => {
                lemma_expression_advances(tokens, first);
                match forward(first, expression(tokens, first)) {
                    Err(_) => {},
                    Ok((_, second)) => {
                        lemma_statement_advances(tokens, second);
                        match forward(second, statement(tokens, second)) {
                            Err(_) => {},
                            Ok((_, close)) => {
                                if at(tokens, close, TokenKind::RParen) {
                                    lemma_statement_advances(tokens, close + 1);
                                }
                            },
                        }
                    },
                }
            },
        }
    }
}

/// A loop with its condition in front of its body that is read ends
/// behind where it began.
pub proof fn lemma_pre_loop_advances(tokens: Seq<Lexeme>, pos: nat)
    ensures
        advances(tokens, pos, pre_loop(tokens, pos)),
    decreases remaining(tokens, pos), 6nat,
{
    if pos < tokens.len() {
        lemma_parenthesized_advances(tokens, pos + 1);
        match forward(pos + 1, parenthesized(tokens, pos + 1)) {
            Err(_) => {},
            Ok((_, then)) => {
                lemma_statement_advances(tokens, then);
            },
        }
    }
}

/// A block that is read ends behind where it began.
pub proof fn lemma_block_advances(tokens: Seq<Lexeme>, pos: nat)
    ensures
        advances(tokens, pos, block(tokens, pos)),
    decreases remaining(tokens, pos), 6nat,
{
    if pos < tokens.len() {
        lemma_sequence_advances(tokens, pos + 1, TokenKind::RBrace);
    }
}

/// A sequence of statements that is read ends where it began or behind
/// that, in front of a token of the closing category.
pub proof fn lemma_sequence_advances(tokens: Seq<Lexeme>, pos: nat, closing: TokenKind)
    ensures
        sequence(tokens, pos, closing) matches Ok((_, end)) ==> pos <= end < tokens.len() && at(
            tokens,
            end,
            closing,
        ),
    decreases remaining(tokens, pos), 8nat,
{
    if !at(tokens, pos, closing) && pos < tokens.len() {
        lemma_statement_advances(tokens, pos);
        match forward(pos, statement(tokens, pos)) {
            Err(_) => {},
            Ok((_, end)) => {
                lemma_sequence_advances(tokens, end, closing);
            },
        }
    }
}

/// Every production that succeeds reads at least one token, so `forward`
/// leaves the result of each of them as it is, wherever the grammar
/// applies it.
pub proof fn lemma_forward_keeps_results(tokens: Seq<Lexeme>, pos: nat, lhs: Expr)
    ensures
        forward(pos, value(tokens, pos)) == value(tokens, pos),
        forward(pos, parenthesized(tokens, pos)) == parenthesized(tokens, pos),
        forward(pos, expression(tokens, pos)) == expression(tokens, pos),
        forward(pos, statement(tokens, pos)) == statement(tokens, pos),
        operator_at(tokens, pos) matches Some(op) ==> forward(pos, combine(tokens, pos, lhs))
            == combine(tokens, pos, lhs) && forward(
            pos,
            climb(tokens, pos, lhs, precedence(op)),
        ) == climb(tokens, pos, lhs, precedence(op)),
{
    lemma_value_advances(tokens, pos);
    lemma_parenthesized_advances(tokens, pos);
    lemma_expression_advances(tokens, pos);
    lemma_statement_advances(tokens, pos);
    match operator_at(tokens, pos) {
        Some(op) => {
            lemma_combine_advances(tokens, pos, lhs);
            lemma_climb_advances(tokens, pos, lhs, precedence(op));
        },
        None => {},
    }
}

} // verus!
