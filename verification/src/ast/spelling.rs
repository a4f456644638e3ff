//! Trees that are made of what the lexer reads: the names, numbers and
//! strings in them are texts from which the lexer reads a name, a number
//! or a string.

use vstd::prelude::*;

use super::grammar::arguments;
use super::grammar::assignment;
use super::grammar::at;
use super::grammar::call;
use super::grammar::climb;
use super::grammar::code;
use super::grammar::combine;
use super::grammar::comma_list;
use super::grammar::declaration;
use super::grammar::doc_comment;
use super::grammar::expression;
use super::grammar::forward;
use super::grammar::identifier;
use super::grammar::literal;
use super::grammar::operator_at;
use super::grammar::parenthesized;
use super::grammar::plain;
use super::grammar::precedence;
use super::grammar::remaining;
use super::grammar::sequence;
use super::grammar::statement;
use super::grammar::tighten;
use super::grammar::value;
use super::grammar::Operator;
use super::grammar::Precedence;
use super::model::Expr;
use super::model::Invocation;
use super::model::Lit;
use super::model::Radix;
use super::model::Stmt;
use super::model::Unit;
use super::model::Val;
use super::round_trip::begins_statement;
use super::round_trip::is_simple;
use super::round_trip::lemma_compound_is_not_simple;
use crate::tokenizer::laws::all_well_spelled;
use crate::tokenizer::laws::is_doc_line;
use crate::tokenizer::laws::is_name;
use crate::tokenizer::laws::is_number;
use crate::tokenizer::laws::is_string;
use crate::tokenizer::laws::well_spelled;
use crate::tokenizer::token::Lexeme;
use crate::tokenizer::token::TokenKind;
use crate::tokenizer::tokens::kind_at;

verus! {

/// The category of the numeric literals of a notation.
pub open spec fn radix_kind(radix: Radix) -> TokenKind {
    match radix {
        Radix::Binary => TokenKind::BinLiteral,
        Radix::Hexadecimal => TokenKind::HexLiteral,
        Radix::Decimal => TokenKind::DecLiteral,
    }
}

/// Whether a literal is spelled as the lexer reads it.
pub open spec fn spelled_literal(lit: Lit) -> bool {
    match lit {
        Lit::Numeric(radix, digits) => is_number(radix_kind(radix), digits),
        Lit::Text(text) => is_string(text),
        _ => true,
    }
}

/// Whether the names and literals of a value are spelled as the lexer
/// reads them.
pub open spec fn spelled_value(value: Val) -> bool
    decreases value,
{
    match value {
        Val::Ident(name) => is_name(name),
        Val::Literal(lit) => spelled_literal(lit),
        Val::Expr(expr) => spelled_expression(*expr),
        Val::Call(invocation) => spelled_call(invocation),
        Val::Negative(inner) => spelled_value(*inner),
        Val::Not(inner) => spelled_value(*inner),
        Val::Inverted(inner) => spelled_value(*inner),
    }
}

/// Whether the names and literals of a call are spelled as the lexer
/// reads them.
pub open spec fn spelled_call(invocation: Invocation) -> bool
    decreases invocation,
{
    is_name(invocation.name) && spelled_list(invocation.arguments)
}

/// Whether the names and literals of a list of expressions are spelled as
/// the lexer reads them.
pub open spec fn spelled_list(list: Seq<Expr>) -> bool
    decreases list,
{
    if list.len() == 0 {
        true
    } else {
        spelled_list(list.drop_last()) && spelled_expression(list.last())
    }
}

/// Whether the names and literals of an expression are spelled as the
/// lexer reads them.
pub open spec fn spelled_expression(expr: Expr) -> bool
    decreases expr,
{
    match expr {
        Expr::Binary(_, lhs, rhs) => spelled_expression(*lhs) && spelled_expression(*rhs),
        Expr::Pipe(lhs, invocation) => spelled_expression(*lhs) && spelled_call(invocation),
        Expr::Ternary(cond, first, second) => spelled_expression(*cond) && spelled_expression(
            *first,
        ) && spelled_expression(*second),
        Expr::Value(value) => spelled_value(value),
    }
}

/// Whether the names and literals of a simple statement are spelled as
/// the lexer reads them.
pub open spec fn spelled_statement(statement: Stmt) -> bool {
    match statement {
        Stmt::Assignment(name, expr) => is_name(name) && spelled_expression(expr),
        Stmt::Expression(expr) => spelled_expression(expr),
        Stmt::VarDecl(name) => is_name(name),
        Stmt::VarDeclAssign(name, expr) => is_name(name) && spelled_expression(expr),
        Stmt::GlobalvarDecl(name) => is_name(name),
        Stmt::GlobalvarDeclAssign(name, expr) => is_name(name) && spelled_expression(expr),
        Stmt::Return(Some(expr)) => spelled_expression(expr),
        _ => true,
    }
}

/// Whether the doc comment lines and the simple statements of a unit are
/// spelled as the lexer reads them.
pub open spec fn spelled_unit(unit: Unit) -> bool {
    &&& forall|i: int| 0 <= i < unit.docs.len() ==> is_doc_line(#[trigger] unit.docs[i])
    &&& forall|i: int|
        0 <= i < unit.body.len() && is_simple(unit.body[i]) ==> spelled_statement(
            #[trigger] unit.body[i],
        )
}

/// The token at a place of well spelled tokens.
pub proof fn lemma_token_is_well_spelled(tokens: Seq<Lexeme>, pos: nat)
    requires
        all_well_spelled(tokens),
        pos < tokens.len(),
    ensures
        well_spelled(tokens[pos as int]),
{
}

/// A list with one more expression behind it.
pub proof fn lemma_spelled_list_front(first: Expr, rest: Seq<Expr>)
    requires
        spelled_expression(first),
        spelled_list(rest),
    ensures
        spelled_list(seq![first] + rest),
    decreases rest.len(),
{
    let list = seq![first] + rest;
    if rest.len() == 0 {
        assert(list.drop_last() =~= Seq::<Expr>::empty());
        assert(list.last() == first);
        assert(spelled_list(list.drop_last()));
    } else {
        assert(list.drop_last() =~= seq![first] + rest.drop_last());
        assert(list.last() == rest.last());
        lemma_spelled_list_front(first, rest.drop_last());
    }
}

/// A value that is read from well spelled tokens is well spelled.
pub proof fn lemma_value_is_spelled(tokens: Seq<Lexeme>, pos: nat)
    requires
        all_well_spelled(tokens),
    ensures
        value(tokens, pos) matches Ok((tree, _)) ==> spelled_value(tree),
    decreases remaining(tokens, pos), 3nat,
{
    if pos < tokens.len() {
        lemma_token_is_well_spelled(tokens, pos);
        if at(tokens, pos, TokenKind::Identifier) {
            if at(tokens, pos + 1, TokenKind::LParen) {
                lemma_call_is_spelled(tokens, pos);
            }
        } else if at(tokens, pos, TokenKind::LParen) {
            lemma_expression_is_spelled(tokens, pos + 1);
            assert(parenthesized(tokens, pos) matches Ok((tree, _)) ==> spelled_expression(tree));
        } else if at(tokens, pos, TokenKind::Minus) || at(tokens, pos, TokenKind::Bang) || at(
            tokens,
            pos,
            TokenKind::Inv,
        ) {
            lemma_value_is_spelled(tokens, pos + 1);
        } else {
            assert(literal(tokens, pos) matches Ok((lit, _)) ==> spelled_literal(lit));
        }
    }
}

/// A call that is read from well spelled tokens is well spelled.
pub proof fn lemma_call_is_spelled(tokens: Seq<Lexeme>, pos: nat)
    requires
        all_well_spelled(tokens),
    ensures
        call(tokens, pos) matches Ok((tree, _)) ==> spelled_call(tree),
    decreases remaining(tokens, pos), 2nat,
{
    if at(tokens, pos, TokenKind::Identifier) && at(tokens, pos + 1, TokenKind::LParen) {
        lemma_token_is_well_spelled(tokens, pos);
        lemma_comma_list_is_spelled(tokens, pos + 2);
    }
}

/// A list of expressions that is read from well spelled tokens is well
/// spelled.
pub proof fn lemma_comma_list_is_spelled(tokens: Seq<Lexeme>, pos: nat)
    requires
        all_well_spelled(tokens),
    ensures
        spelled_list(comma_list(tokens, pos).0),
    decreases remaining(tokens, pos), 5nat,
{
    lemma_expression_is_spelled(tokens, pos);
    match forward(pos, expression(tokens, pos)) {
        Err(_) => {},
        Ok((first, end)) => {
            if at(tokens, end, TokenKind::Comma) {
                lemma_comma_list_is_spelled(tokens, end + 1);
                lemma_spelled_list_front(first, comma_list(tokens, end + 1).0);
            } else {
                lemma_spelled_list_front(first, Seq::<Expr>::empty());
                assert(seq![first] + Seq::<Expr>::empty() =~= seq![first]);
            }
        },
    }
}

/// An expression that is read from well spelled tokens is well spelled.
pub proof fn lemma_expression_is_spelled(tokens: Seq<Lexeme>, pos: nat)
    requires
        all_well_spelled(tokens),
    ensures
        expression(tokens, pos) matches Ok((tree, _)) ==> spelled_expression(tree),
    decreases remaining(tokens, pos), 4nat,
{
    lemma_value_is_spelled(tokens, pos);
    match forward(pos, value(tokens, pos)) {
        Err(_) => {},
        Ok((first, end)) => {
            lemma_climb_is_spelled(tokens, end, Expr::Value(first), Precedence::Zero);
        },
    }
}

/// What is read behind a well spelled left operand is well spelled with
/// it.
pub proof fn lemma_climb_is_spelled(tokens: Seq<Lexeme>, pos: nat, lhs: Expr, min: Precedence)
    requires
        all_well_spelled(tokens),
        spelled_expression(lhs),
    ensures
        climb(tokens, pos, lhs, min) matches Ok((tree, _)) ==> spelled_expression(tree),
    decreases remaining(tokens, pos), 1nat,
{
    match operator_at(tokens, pos) {
        Some(op) => {
            if precedence(op).level() >= min.level() {
                lemma_combine_is_spelled(tokens, pos, lhs);
                match forward(pos, combine(tokens, pos, lhs)) {
                    Err(_) => {},
                    Ok((joined, end)) => {
                        lemma_climb_is_spelled(tokens, end, joined, min);
                    },
                }
            }
        },
        None => {},
    }
}

/// An operator with what it takes on its right is well spelled with its
/// left operand.
pub proof fn lemma_combine_is_spelled(tokens: Seq<Lexeme>, pos: nat, lhs: Expr)
    requires
        all_well_spelled(tokens),
        spelled_expression(lhs),
    ensures
        combine(tokens, pos, lhs) matches Ok((tree, _)) ==> spelled_expression(tree),
    decreases remaining(tokens, pos), 0nat,
{
    match operator_at(tokens, pos) {
        None => {},
        Some(Operator::Pipe) => {
            lemma_call_is_spelled(tokens, pos + 1);
        },
        Some(Operator::Ternary) => {
            lemma_expression_is_spelled(tokens, pos + 1);
            match forward(pos + 1, expression(tokens, pos + 1)) {
                Err(_) => {},
                Ok((_, colon)) => {
                    if at(tokens, colon, TokenKind::Colon) {
                        lemma_expression_is_spelled(tokens, colon + 1);
                    }
                },
            }
        },
        Some(Operator::Binary(op)) => {
            lemma_value_is_spelled(tokens, pos + 1);
            match forward(pos + 1, value(tokens, pos + 1)) {
                Err(_) => {},
                Ok((first, end)) => {
                    lemma_tighten_is_spelled(
                        tokens,
                        end,
                        Expr::Value(first),
                        precedence(Operator::Binary(op)),
                    );
                },
            }
        },
    }
}

/// The right operand of a binary operator is well spelled with its first
/// value.
pub proof fn lemma_tighten_is_spelled(tokens: Seq<Lexeme>, pos: nat, rhs: Expr, level: Precedence)
    requires
        all_well_spelled(tokens),
        spelled_expression(rhs),
    ensures
        tighten(tokens, pos, rhs, level) matches Ok((tree, _)) ==> spelled_expression(tree),
    decreases remaining(tokens, pos), 2nat,
{
    match operator_at(tokens, pos) {
        Some(op) => {
            if precedence(op).level() > level.level() {
                lemma_climb_is_spelled(tokens, pos, rhs, precedence(op));
                match forward(pos, climb(tokens, pos, rhs, precedence(op))) {
                    Err(_) => {},
                    Ok((bound, end)) => {
                        lemma_tighten_is_spelled(tokens, end, bound, level);
                    },
                }
            }
        },
        None => {},
    }
}

/// A simple statement that is read from well spelled tokens is well
/// spelled.
pub proof fn lemma_statement_is_spelled(tokens: Seq<Lexeme>, pos: nat)
    requires
        all_well_spelled(tokens),
    ensures
        statement(tokens, pos) matches Ok((tree, _)) ==> (is_simple(tree) ==> spelled_statement(
            tree,
        )),
{
    if statement(tokens, pos).is_ok() {
        match kind_at(tokens, pos as int) {
            Some(kind) => {
                if kind == TokenKind::Var || kind == TokenKind::Globalvar {
                    lemma_declaration_is_spelled(tokens, pos + 1, kind == TokenKind::Globalvar);
                } else if kind == TokenKind::Return {
                    lemma_expression_is_spelled(tokens, pos + 1);
                } else if kind == TokenKind::Break || kind == TokenKind::Continue || kind
                    == TokenKind::Exit {
                } else if begins_statement(kind) {
                    lemma_compound_is_not_simple(tokens, pos);
                } else {
                    lemma_plain_is_spelled(tokens, pos);
                }
            },
            None => {
                lemma_plain_is_spelled(tokens, pos);
            },
        }
    }
}

/// A declaration that is read from well spelled tokens is well spelled.
pub proof fn lemma_declaration_is_spelled(tokens: Seq<Lexeme>, pos: nat, global: bool)
    requires
        all_well_spelled(tokens),
    ensures
        declaration(tokens, pos, global) matches Ok((tree, _)) ==> spelled_statement(tree),
{
    if identifier(tokens, pos).is_ok() {
        let (name, then) = identifier(tokens, pos).unwrap();
        lemma_token_is_well_spelled(tokens, pos);
        lemma_expression_is_spelled(tokens, then + 1);
    }
}

/// A statement without a keyword that is read from well spelled tokens is
/// well spelled.
pub proof fn lemma_plain_is_spelled(tokens: Seq<Lexeme>, pos: nat)
    requires
        all_well_spelled(tokens),
    ensures
        plain(tokens, pos) matches Ok((tree, _)) ==> spelled_statement(tree),
{
    lemma_expression_is_spelled(tokens, pos);
    if assignment(tokens, pos).is_ok() {
        let (name, then) = identifier(tokens, pos).unwrap();
        lemma_token_is_well_spelled(tokens, pos);
        lemma_expression_is_spelled(tokens, then + 1);
    }
}

/// The simple statements of a sequence that is read from well spelled
/// tokens are well spelled.
pub proof fn lemma_sequence_is_spelled(tokens: Seq<Lexeme>, pos: nat, closing: TokenKind)
    requires
        all_well_spelled(tokens),
    ensures
        sequence(tokens, pos, closing) matches Ok((list, _)) ==> forall|i: int|
            0 <= i < list.len() && is_simple(list[i]) ==> spelled_statement(#[trigger] list[i]),
    decreases remaining(tokens, pos),
{
    if !at(tokens, pos, closing) && pos < tokens.len() {
        lemma_statement_is_spelled(tokens, pos);
        match forward(pos, statement(tokens, pos)) {
            Err(_) => {},
            Ok((first, end)) => {
                lemma_sequence_is_spelled(tokens, end, closing);
                match sequence(tokens, end, closing) {
                    Ok((rest, _)) => {
                        let list = seq![first] + rest;
                        assert forall|i: int|
                            0 <= i < list.len() && is_simple(list[i]) implies spelled_statement(
                            #[trigger] list[i],
                        ) by {
                            if i > 0 {
                                assert(list[i] == rest[i - 1]);
                            }
                        }
                    },
                    Err(_) => {},
                }
            },
        }
    }
}

/// The lines of a doc comment that is read from well spelled tokens hold
/// no line feed.
pub proof fn lemma_doc_comment_is_spelled(tokens: Seq<Lexeme>, pos: nat)
    requires
        all_well_spelled(tokens),
    ensures
        forall|i: int|
            0 <= i < doc_comment(tokens, pos).0.len() ==> is_doc_line(
                #[trigger] doc_comment(tokens, pos).0[i],
            ),
    decreases remaining(tokens, pos),
{
    if at(tokens, pos, TokenKind::DocComment) && at(tokens, pos + 1, TokenKind::EOL) {
        lemma_token_is_well_spelled(tokens, pos);
        lemma_doc_comment_is_spelled(tokens, pos + 2);
        let rest = doc_comment(tokens, pos + 2).0;
        let docs = doc_comment(tokens, pos).0;
        assert forall|i: int| 0 <= i < docs.len() implies is_doc_line(#[trigger] docs[i]) by {
            if i > 0 {
                assert(docs[i] == rest[i - 1]);
            }
        }
    }
}

/// A unit that is read from well spelled tokens is well spelled.
pub proof fn lemma_unit_is_spelled(tokens: Seq<Lexeme>)
    requires
        all_well_spelled(tokens),
    ensures
        code(tokens, 0) matches Ok((unit, _)) ==> spelled_unit(unit),
{
    lemma_doc_comment_is_spelled(tokens, 1);
    let (_, head) = doc_comment(tokens, 1);
    match arguments(tokens, head) {
        Ok((_, then)) => {
            lemma_sequence_is_spelled(tokens, then, TokenKind::EOF);
        },
        Err(_) => {},
    }
}

} // verus!
