//! A token sequence with a position in it.

use vstd::prelude::*;
use vstd::slice::slice_subrange;

use super::token::Lexeme;
use super::token::Token;
use super::token::TokenKind;

verus! {

/// The tokens of a sequence as the contracts see them.
pub open spec fn lexemes(tokens: Seq<Token>) -> Seq<Lexeme> {
    tokens.map_values(|t: Token| t@)
}

/// A sequence of tokens with a marker at the current position.
///
/// The sequence never changes; the position is moved by the parser and may
/// stand anywhere, also behind the last token.
pub struct Tokens {
    tokens: Vec<Token>,
    pos: usize,
}

impl View for Tokens {
    type V = Seq<Lexeme>;

    closed spec fn view(&self) -> Seq<Lexeme> {
        lexemes(self.tokens@)
    }
}

impl Tokens {
    /// The current position, counted from the first token.
    pub closed spec fn position(&self) -> nat {
        self.pos as nat
    }

    /// Creates a new instance, positioned at the first token.
    pub fn new(tokens: Vec<Token>) -> (r: Self)
        ensures
            r@ == lexemes(tokens@),
            r.position() == 0,
    {
        Tokens { tokens, pos: 0 }
    }

    /// The number of tokens in the sequence.
    pub fn len(&self) -> (r: usize)
        ensures
            r == self@.len(),
    {
        self.tokens.len()
    }

    /// The token at an absolute position.
    pub fn get(&self, at: usize) -> (r: Option<&Token>)
        ensures
            at < self@.len() ==> r.is_some() && r.unwrap()@ == self@[at as int],
            at >= self@.len() ==> r.is_none(),
    {
        if at < self.tokens.len() {
            Some(&self.tokens[at])
        } else {
            None
        }
    }

    /// Returns the token at the current position.
    pub fn peek(&self) -> (r: Token)
        requires
            self.position() < self@.len(),
        ensures
            r@ == self@[self.position() as int],
    {
        self.tokens[self.pos].clone()
    }

    /// Returns the current token, and moves the position on by one.
    pub fn next(&mut self) -> (r: Token)
        requires
            old(self).position() < old(self)@.len(),
        ensures
            final(self)@ == old(self)@,
            final(self).position() == old(self).position() + 1,
            r@ == old(self)@[old(self).position() as int],
    {
        assert(self@.len() == self.tokens.len());
        self.pos = self.pos + 1;
        self.tokens[self.pos - 1].clone()
    }

    /// Moves the position forward by some amount.
    pub fn skip(&mut self, n: usize)
        requires
            old(self).position() + n <= usize::MAX,
        ensures
            final(self)@ == old(self)@,
            final(self).position() == old(self).position() + n,
    {
        self.pos = self.pos + n;
    }

    /// Moves the position back by some amount.
    pub fn back(&mut self, n: usize)
        requires
            n <= old(self).position(),
        ensures
            final(self)@ == old(self)@,
            final(self).position() == old(self).position() - n,
    {
        self.pos = self.pos - n;
    }

    /// The current position.
    pub fn pos(&self) -> (r: usize)
        ensures
            r == self.position(),
    {
        self.pos
    }

    /// Moves to an absolute position, such as one that `pos` returned.
    pub fn seek(&mut self, pos: usize)
        ensures
            final(self)@ == old(self)@,
            final(self).position() == pos,
    {
        self.pos = pos;
    }

    /// The token `offset` places after the current position.
    pub fn index(&self, offset: usize) -> (r: &Token)
        requires
            self.position() + offset < self@.len(),
        ensures
            r@ == self@[self.position() + offset],
    {
        assert(self@.len() == self.tokens.len());
        &self.tokens[self.pos + offset]
    }

    /// The `n` tokens that start at the current position.
    pub fn run(&self, n: usize) -> (r: &[Token])
        requires
            self.position() + n <= self@.len(),
        ensures
            lexemes(r@) == self@.subrange(
                self.position() as int,
                self.position() + n,
            ),
    {
        assert(self@.len() == self.tokens.len());
        let r = slice_subrange(self.tokens.as_slice(), self.pos, self.pos + n);
        assert(lexemes(r@) =~= self@.subrange(self.position() as int, self.position() + n));
        r
    }

    /// The category of the token `offset` places after the current
    /// position, and `None` where the sequence has no such token.
    pub fn kind(&self, offset: usize) -> (r: Option<TokenKind>)
        ensures
            r == kind_at(self@, self.position() + offset),
            self@.len() <= usize::MAX,
    {
        if offset < self.tokens.len() && self.pos < self.tokens.len() - offset {
            Some(self.tokens[self.pos + offset].kind())
        } else {
            None
        }
    }
}

/// The category of the token at `at`, and `None` outside the sequence.
pub open spec fn kind_at(tokens: Seq<Lexeme>, at: int) -> Option<TokenKind> {
    if 0 <= at < tokens.len() {
        Some(tokens[at].kind)
    } else {
        None
    }
}

/// The text of the token at `at`, and no text outside the sequence.
pub open spec fn text_at(tokens: Seq<Lexeme>, at: int) -> Seq<char> {
    if 0 <= at < tokens.len() {
        tokens[at].text
    } else {
        Seq::empty()
    }
}

} // verus!
