//! The lexer: from characters to tokens.

use vstd::prelude::*;

use crate::error::Error;

pub mod laws;
pub mod state;
pub mod token;
pub mod tokens;

pub use self::state::State;
pub use self::token::Lexeme;
pub use self::token::Token;
pub use self::token::TokenKind;
pub use self::tokens::Tokens;

use self::token::bare;
use self::token::lexeme_of;
use self::tokens::lexemes;

verus! {

/// The lexer between two characters: the state it is in, the characters
/// of the token it is reading, and the tokens it has completed.
pub struct Lexing {
    pub state: State,
    pub text: Seq<char>,
    pub tokens: Seq<Lexeme>,
}

/// The lexer before the first character: a begin-of-file token has been
/// put out, and no token is being read.
pub open spec fn begin() -> Lexing {
    Lexing { state: State::Start, text: Seq::empty(), tokens: seq![bare(TokenKind::BOF)] }
}

/// The completed tokens once the token being read is put out. Plain
/// comments are dropped here; doc comments stay.
pub open spec fn emitted(lexing: Lexing) -> Seq<Lexeme> {
    match lexeme_of(lexing.state, lexing.text) {
        Some(lexeme) => if lexeme.kind == TokenKind::Comment {
            lexing.tokens
        } else {
            lexing.tokens.push(lexeme)
        },
        None => lexing.tokens,
    }
}

/// The state in which the token that begins with `c` is read. `Start`
/// itself absorbs white space, so this is `Start` again for a blank; no
/// character completes a token there.
pub open spec fn opening(c: char) -> Result<State, Error> {
    match State::Start.step(c) {
        Ok(Some(state)) => Ok(state),
        Ok(None) => Ok(State::Start),
        Err(error) => Err(error),
    }
}

/// The lexer after one more character.
///
/// Where the state absorbs the character, the character joins the text of
/// the token being read. Where the token was complete before it, the token
/// is put out and the character opens the next one.
pub open spec fn feed(lexing: Lexing, c: char) -> Result<Lexing, Error> {
    match lexing.state.step(c) {
        Err(error) => Err(error),
        Ok(Some(next)) => Ok(
            Lexing {
                state: next,
                text: if next != State::Start {
                    lexing.text.push(c)
                } else {
                    lexing.text
                },
                tokens: lexing.tokens,
            },
        ),
        Ok(None) => match opening(c) {
            Err(error) => Err(error),
            Ok(next) => Ok(
                Lexing {
                    state: next,
                    text: if next != State::Start {
                        seq![c]
                    } else {
                        Seq::empty()
                    },
                    tokens: emitted(lexing),
                },
            ),
        },
    }
}

/// The lexer after the first `n` characters of `input`.
pub open spec fn feed_all(input: Seq<char>, n: nat) -> Result<Lexing, Error>
    decreases n,
{
    if n == 0 || n > input.len() {
        Ok(begin())
    } else {
        match feed_all(input, (n - 1) as nat) {
            Err(error) => Err(error),
            Ok(lexing) => feed(lexing, input[n - 1]),
        }
    }
}

/// The tokens once the input has ended. A token that is still being read
/// is offered a line feed: it is put out if the line feed completes it or
/// is part of an end of line, and the input has ended too early in every
/// other case.
pub open spec fn finish(lexing: Lexing) -> Result<Seq<Lexeme>, Error> {
    if lexing.state == State::Start {
        Ok(lexing.tokens)
    } else {
        match lexing.state.step('\n') {
            Ok(None) | Ok(Some(State::EOL)) => Ok(emitted(lexing)),
            _ => Err(Error::UnexpectedEOF),
        }
    }
}

/// The tokens of a source text: a begin-of-file token, the tokens of the
/// text in the order of the source without the plain comments, and an
/// end-of-file token; or the first lexical error.
pub open spec fn lex(input: Seq<char>) -> Result<Seq<Lexeme>, Error> {
    match feed_all(input, input.len()) {
        Err(error) => Err(error),
        Ok(lexing) => match finish(lexing) {
            Err(error) => Err(error),
            Ok(tokens) => Ok(tokens.push(bare(TokenKind::EOF))),
        },
    }
}

/// An error stops the lexer: once a prefix of the input has failed, every
/// longer prefix fails with the same error.
pub proof fn lemma_first_error_stays(input: Seq<char>, n: nat, m: nat)
    requires
        n <= m <= input.len(),
        feed_all(input, n).is_err(),
    ensures
        feed_all(input, m) == feed_all(input, n),
    decreases m,
{
    if n < m {
        lemma_first_error_stays(input, n, (m - 1) as nat);
    }
}

/// Puts the token being read out, unless it is a plain comment.
fn emit(tokens: &mut Vec<Token>, state: State, text: String)
    ensures
        lexemes(final(tokens)@) == emitted(
            Lexing { state, text: text@, tokens: lexemes(old(tokens)@) },
        ),
{
    match Token::new(state, text) {
        Some(token) => {
            if token.kind() != TokenKind::Comment {
                tokens.push(token);
                assert(lexemes(tokens@) =~= lexemes(old(tokens)@).push(token@));
            }
        },
        None => {},
    }
}

/// The state that the first character of a token leads to.
fn open(c: char) -> (r: Result<State, Error>)
    ensures
        r == opening(c),
{
    match State::Start.next(c) {
        Ok(Some(state)) => Ok(state),
        Ok(None) => Ok(State::Start),
        Err(error) => Err(error),
    }
}

/// Splits a source text into tokens.
pub fn tokenize(input: &str) -> (r: Result<Tokens, Error>)
    ensures
        match lex(input@) {
            Ok(tokens) => r.is_ok() && r.unwrap()@ == tokens && r.unwrap().position() == 0,
            Err(error) => r == Err::<Tokens, Error>(error),
        },
{
    let mut state = State::Start;
    let mut text = String::new();
    let mut tokens: Vec<Token> = Vec::new();
    tokens.push(Token::BOF);
    assert(lexemes(tokens@) =~= begin().tokens);
    for c in it: input.chars()
        invariant
            it.seq() == input@,
            feed_all(input@, it.index() as nat) == Ok::<Lexing, Error>(
                Lexing { state, text: text@, tokens: lexemes(tokens@) },
            ),
    {
        proof {
            assert(feed_all(input@, (it.index() + 1) as nat) == feed(
                Lexing { state, text: text@, tokens: lexemes(tokens@) },
                c,
            ));
            if feed_all(input@, (it.index() + 1) as nat).is_err() {
                lemma_first_error_stays(input@, (it.index() + 1) as nat, input@.len());
            }
        }
        match state.next(c) {
            Err(error) => {
                return Err(error);
            },
            Ok(Some(next)) => {
                state = next;
                if state != State::Start {
                    text.push(c);
                }
            },
            Ok(None) => {
                match open(c) {
                    Err(error) => {
                        return Err(error);
                    },
                    Ok(next) => {
                        emit(&mut tokens, state, text);
                        text = String::new();
                        state = next;
                        if state != State::Start {
                            text.push(c);
                        }
                    },
                }
            },
        }
    }
    if state != State::Start {
        match state.next('\n') {
            Ok(None) | Ok(Some(State::EOL)) => {
                emit(&mut tokens, state, text);
            },
            _ => {
                return Err(Error::UnexpectedEOF);
            },
        }
    }
    tokens.push(Token::EOF);
    Ok(Tokens::new(tokens))
}

} // verus!
