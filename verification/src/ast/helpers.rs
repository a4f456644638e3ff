//! Helpers that several parsers share.

use vstd::prelude::*;

use super::expression::outcome;
use super::grammar;
use super::grammar::at;
use super::grammar::remaining;
use super::grammar::terminator;
use super::tree::Expression;
use crate::error::Error;
use crate::error::ParseError;
use crate::tokenizer::token::TokenKind;
use crate::tokenizer::tokens::Tokens;

verus! {

/// Whether the token at the cursor is of the given category.
pub fn here(tokens: &Tokens, kind: TokenKind) -> (r: bool)
    ensures
        r == at(tokens@, tokens.position(), kind),
        tokens@.len() <= usize::MAX,
{
    match tokens.kind(0) {
        Some(found) => found == kind,
        None => false,
    }
}

/// Reads the end of a statement: a semicolon with an end of line behind
/// it counts as one terminator, and a semicolon alone or an end of line
/// alone is enough.
pub fn semi_or_eol(tokens: &mut Tokens) -> (r: Result<(), ParseError>)
    ensures
        final(tokens)@ == old(tokens)@,
        match terminator(old(tokens)@, old(tokens).position()) {
            Ok(end) => r.is_ok() && final(tokens).position() == end,
            Err(error) => r == Err::<(), ParseError>(error)
                && final(tokens).position() == old(tokens).position(),
        },
{
    if here(tokens, TokenKind::Semi) && tokens.kind(1) == Some(TokenKind::EOL) {
        tokens.skip(2);
        Ok(())
    } else if here(tokens, TokenKind::Semi) || here(tokens, TokenKind::EOL) {
        tokens.skip(1);
        Ok(())
    } else {
        Err(ParseError::ExpectedEndOfStatement)
    }
}

/// Reads an expression between parentheses.
pub fn parenthesized(tokens: &mut Tokens) -> (r: Result<Expression, Error>)
    ensures
        outcome(
            r,
            grammar::parenthesized(old(tokens)@, old(tokens).position()),
            *old(tokens),
            *final(tokens),
        ),
        r.is_ok() ==> old(tokens).position() < final(tokens).position(),
    decreases remaining(old(tokens)@, old(tokens).position()), 2nat,
{
    let start = tokens.pos();
    if !here(tokens, TokenKind::LParen) {
        return Err(Error::ParseError(ParseError::ExpectedParentheses));
    }
    tokens.skip(1);
    match Expression::parse(tokens) {
        Err(error) => {
            tokens.seek(start);
            Err(error)
        },
        Ok(expr) => {
            if here(tokens, TokenKind::RParen) {
                tokens.skip(1);
                Ok(expr)
            } else {
                tokens.seek(start);
                Err(Error::ParseError(ParseError::MismatchedParentheses))
            }
        },
    }
}

} // verus!
