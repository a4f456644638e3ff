//! The parsers of statements and of whole units.

use vstd::prelude::*;

use super::expression::outcome;
use super::grammar;
use super::grammar::arguments;
use super::grammar::assignment;
use super::grammar::at;
use super::grammar::code;
use super::grammar::declaration;
use super::grammar::doc_comment;
use super::grammar::plain;
use super::grammar::remaining;
use super::grammar::returned;
use super::grammar::sequence;
use super::grammar::statement;
use super::grammar::terminated;
use super::helpers::here;
use super::helpers::parenthesized;
use super::helpers::semi_or_eol;
use super::model::Stmt;
use super::tree::lines;
use super::tree::statements;
use super::tree::ArgumentList;
use super::tree::Assignment;
use super::tree::Code;
use super::tree::DocComment;
use super::tree::Expression;
use super::tree::Identifier;
use super::tree::LValue;
use super::tree::Statement;
use super::tree::Statements;
use crate::error::Error;
use crate::error::ParseError;
use crate::tokenizer::token::TokenKind;
use crate::tokenizer::tokens::Tokens;

verus! {

impl LValue {
    /// Reads what can stand on the left of an assignment.
    pub fn parse(tokens: &mut Tokens) -> (r: Result<Self, Error>)
        ensures
            outcome(
                r,
                super::grammar::identifier(old(tokens)@, old(tokens).position()),
                *old(tokens),
                *final(tokens),
            ),
            r.is_ok() ==> old(tokens).position() < final(tokens).position(),
    {
        match Identifier::parse(tokens) {
            Ok(ident) => Ok(LValue::Identifier(ident)),
            Err(error) => Err(error),
        }
    }
}

impl Assignment {
    /// Reads an assignment.
    pub fn parse(tokens: &mut Tokens) -> (r: Result<Self, Error>)
        ensures
            outcome(
                r,
                assignment(old(tokens)@, old(tokens).position()),
                *old(tokens),
                *final(tokens),
            ),
            r.is_ok() ==> old(tokens).position() < final(tokens).position(),
    {
        let start = tokens.pos();
        let lvalue = match LValue::parse(tokens) {
            Ok(lvalue) => lvalue,
            Err(error) => {
                return Err(error);
            },
        };
        if !here(tokens, TokenKind::Assign) {
            tokens.seek(start);
            return Err(Error::ParseError(ParseError::ExpectedStatement));
        }
        tokens.skip(1);
        match Expression::parse(tokens) {
            Ok(expr) => Ok(Assignment::Eq(lvalue, expr)),
            Err(error) => {
                tokens.seek(start);
                Err(error)
            },
        }
    }
}

/// Puts the end of a statement behind `statement`, which began at `start`.
fn terminate(tokens: &mut Tokens, statement: Statement, start: usize) -> (r: Result<
    Statement,
    Error,
>)
    ensures
        final(tokens)@ == old(tokens)@,
        match terminated(old(tokens)@, statement@, old(tokens).position()) {
            Ok((tree, end)) => r matches Ok(found) && found@ == tree && final(tokens).position()
                == end && old(tokens).position() < end,
            Err(error) => r matches Err(e) && e == error && final(tokens).position() == start,
        },
{
    match semi_or_eol(tokens) {
        Ok(()) => Ok(statement),
        Err(error) => {
            tokens.seek(start);
            Err(Error::ParseError(error))
        },
    }
}

/// Reads a declaration behind its keyword. On failure the cursor goes
/// back to `start`.
fn declare(tokens: &mut Tokens, global: bool, start: usize) -> (r: Result<Statement, Error>)
    ensures
        final(tokens)@ == old(tokens)@,
        match declaration(old(tokens)@, old(tokens).position(), global) {
            Ok((tree, end)) => r matches Ok(found) && found@ == tree && final(tokens).position()
                == end && old(tokens).position() < end,
            Err(error) => r matches Err(e) && e == error && final(tokens).position() == start,
        },
{
    let ident = match Identifier::parse(tokens) {
        Ok(ident) => ident,
        Err(error) => {
            tokens.seek(start);
            return Err(error);
        },
    };
    if here(tokens, TokenKind::Assign) {
        tokens.skip(1);
        let value = match Expression::parse(tokens) {
            Ok(value) => value,
            Err(error) => {
                tokens.seek(start);
                return Err(error);
            },
        };
        if global {
            terminate(tokens, Statement::GlobalvarDeclAssign(ident, value), start)
        } else {
            terminate(tokens, Statement::VarDeclAssign(ident, value), start)
        }
    } else {
        if global {
            terminate(tokens, Statement::GlobalvarDecl(ident), start)
        } else {
            terminate(tokens, Statement::VarDecl(ident), start)
        }
    }
}

/// Reads what stands behind `return`. On failure the cursor goes back to
/// `start`.
fn give_back(tokens: &mut Tokens, start: usize) -> (r: Result<Statement, Error>)
    ensures
        final(tokens)@ == old(tokens)@,
        match returned(old(tokens)@, old(tokens).position()) {
            Ok((tree, end)) => r matches Ok(found) && found@ == tree && final(tokens).position()
                == end && old(tokens).position() < end,
            Err(error) => r matches Err(e) && e == error && final(tokens).position() == start,
        },
{
    match semi_or_eol(tokens) {
        Ok(()) => Ok(Statement::Return(None)),
        Err(_) => {
            let value = match Expression::parse(tokens) {
                Ok(value) => value,
                Err(error) => {
                    tokens.seek(start);
                    return Err(error);
                },
            };
            terminate(tokens, Statement::Return(Some(value)), start)
        },
    }
}

/// Reads a statement that begins with no keyword.
fn fallback(tokens: &mut Tokens) -> (r: Result<Statement, Error>)
    ensures
        outcome(r, plain(old(tokens)@, old(tokens).position()), *old(tokens), *final(tokens)),
        r.is_ok() ==> old(tokens).position() < final(tokens).position(),
{
    let start = tokens.pos();
    // try for an expression
    match Expression::parse(tokens) {
        Ok(expr) => {
            match terminate(tokens, Statement::Expression(expr), start) {
                Ok(statement) => {
                    return Ok(statement);
                },
                Err(_) => {},
            }
        },
        Err(_) => {},
    }
    // try for an assignment
    match Assignment::parse(tokens) {
        Ok(assignment) => {
            match terminate(tokens, Statement::Assignment(assignment), start) {
                Ok(statement) => {
                    return Ok(statement);
                },
                Err(_) => {},
            }
        },
        Err(_) => {},
    }
    Err(Error::ParseError(ParseError::ExpectedStatement))
}

impl Statement {
    /// Whether the statement does nothing.
    pub fn is_noop(&self) -> (r: bool)
        ensures
            r == (self@ == Stmt::Noop),
    {
        match self {
            Statement::Noop => true,
            _ => false,
        }
    }

    /// Whether the statement is a block.
    pub fn is_block(&self) -> (r: bool)
        ensures
            r == (self@ is Block),
    {
        match self {
            Statement::Block(..) => true,
            _ => false,
        }
    }

    /// Reads a statement.
    pub fn parse(tokens: &mut Tokens) -> (r: Result<Self, Error>)
        ensures
            outcome(
                r,
                statement(old(tokens)@, old(tokens).position()),
                *old(tokens),
                *final(tokens),
            ),
            r.is_ok() ==> old(tokens).position() < final(tokens).position(),
        decreases remaining(old(tokens)@, old(tokens).position()), 7nat,
    {
        let start = tokens.pos();
        match tokens.kind(0) {
            Some(TokenKind::Semi) => terminate(tokens, Statement::Noop, start),
            Some(TokenKind::Var) => {
                tokens.skip(1);
                declare(tokens, false, start)
            },
            Some(TokenKind::Globalvar) => {
                tokens.skip(1);
                declare(tokens, true, start)
            },
            Some(TokenKind::If) => Self::conditional(tokens),
            Some(TokenKind::Do) => Self::post_loop(tokens),
            Some(TokenKind::For) => Self::for_loop(tokens),
            Some(TokenKind::Repeat) => Self::pre_loop(tokens),
            Some(TokenKind::While) => Self::pre_loop(tokens),
            Some(TokenKind::Until) => Self::pre_loop(tokens),
            Some(TokenKind::Break) => {
                tokens.skip(1);
                terminate(tokens, Statement::Break, start)
            },
            Some(TokenKind::Continue) => {
                tokens.skip(1);
                terminate(tokens, Statement::Continue, start)
            },
            Some(TokenKind::Exit) => {
                tokens.skip(1);
                terminate(tokens, Statement::Exit, start)
            },
            Some(TokenKind::Return) => {
                tokens.skip(1);
                give_back(tokens, start)
            },
            Some(TokenKind::LBrace) => Self::block(tokens),
            _ => fallback(tokens),
        }
    }

    /// Reads an `if` statement, with its `else` branch if it has one.
    fn conditional(tokens: &mut Tokens) -> (r: Result<Self, Error>)
        requires
            at(old(tokens)@, old(tokens).position(), TokenKind::If),
        ensures
            outcome(
                r,
                grammar::conditional(old(tokens)@, old(tokens).position()),
                *old(tokens),
                *final(tokens),
            ),
            r.is_ok() ==> old(tokens).position() < final(tokens).position(),
        decreases remaining(old(tokens)@, old(tokens).position()), 6nat,
    {
        let start = tokens.pos();
        let open = here(tokens, TokenKind::If);
        tokens.skip(1);
        let cond = match parenthesized(tokens) {
            Ok(cond) => cond,
            Err(error) => {
                tokens.seek(start);
                return Err(error);
            },
        };
        let body = match Statement::parse(tokens) {
            Ok(body) => body,
            Err(error) => {
                tokens.seek(start);
                return Err(error);
            },
        };
        if here(tokens, TokenKind::Else) {
            tokens.skip(1);
            match Statement::parse(tokens) {
                Ok(otherwise) => Ok(Statement::If(cond, Box::new(body), Some(Box::new(otherwise)))),
                Err(error) => {
                    tokens.seek(start);
                    Err(error)
                },
            }
        } else {
            Ok(Statement::If(cond, Box::new(body), None))
        }
    }

    /// Reads a loop that has its condition behind its body.
    fn post_loop(tokens: &mut Tokens) -> (r: Result<Self, Error>)
        requires
            at(old(tokens)@, old(tokens).position(), TokenKind::Do),
        ensures
            outcome(
                r,
                grammar::post_loop(old(tokens)@, old(tokens).position()),
                *old(tokens),
                *final(tokens),
            ),
            r.is_ok() ==> old(tokens).position() < final(tokens).position(),
        decreases remaining(old(tokens)@, old(tokens).position()), 6nat,
    {
        let start = tokens.pos();
        let open = here(tokens, TokenKind::Do);
        tokens.skip(1);
        let body = match Statement::parse(tokens) {
            Ok(body) => body,
            Err(error) => {
                tokens.seek(start);
                return Err(error);
            },
        };
        let until = if here(tokens, TokenKind::While) {
            false
        } else if here(tokens, TokenKind::Until) {
            true
        } else {
            tokens.seek(start);
            return Err(Error::ParseError(ParseError::ExpectedKeyword));
        };
        tokens.skip(1);
        match parenthesized(tokens) {
            Ok(cond) => if until {
                Ok(Statement::DoUntil(Box::new(body), cond))
            } else {
                Ok(Statement::DoWhile(Box::new(body), cond))
            },
            Err(error) => {
                tokens.seek(start);
                Err(error)
            },
        }
    }

    /// Reads a `for` loop: between the parentheses a statement, an
    /// expression and a statement, and behind them the body.
    fn for_loop(tokens: &mut Tokens) -> (r: Result<Self, Error>)
        requires
            at(old(tokens)@, old(tokens).position(), TokenKind::For),
        ensures
            outcome(
                r,
                grammar::for_loop(old(tokens)@, old(tokens).position()),
                *old(tokens),
                *final(tokens),
            ),
            r.is_ok() ==> old(tokens).position() < final(tokens).position(),
        decreases remaining(old(tokens)@, old(tokens).position()), 6nat,
    {
        let start = tokens.pos();
        if tokens.kind(1) != Some(TokenKind::LParen) {
            return Err(Error::ParseError(ParseError::ExpectedParentheses));
        }
        tokens.skip(2);
        let init = match Statement::parse(tokens) {
            Ok(init) => init,
            Err(error) => {
                tokens.seek(start);
                return Err(error);
            },
        };
        let cond = match Expression::parse(tokens) {
            Ok(cond) => cond,
            Err(error) => {
                tokens.seek(start);
                return Err(error);
            },
        };
        let update = match Statement::parse(tokens) {
            Ok(update) => update,
            Err(error) => {
                tokens.seek(start);
                return Err(error);
            },
        };
        if !here(tokens, TokenKind::RParen) {
            tokens.seek(start);
            return Err(Error::ParseError(ParseError::MismatchedParentheses));
        }
        tokens.skip(1);
        match Statement::parse(tokens) {
            Ok(body) => Ok(Statement::For(Box::new(init), cond, Box::new(update), Box::new(body))),
            Err(error) => {
                tokens.seek(start);
                Err(error)
            },
        }
    }

    /// Reads a loop that has its condition, or its count, in front of its
    /// body.
    fn pre_loop(tokens: &mut Tokens) -> (r: Result<Self, Error>)
        requires
            at(old(tokens)@, old(tokens).position(), TokenKind::Repeat) || at(
                old(tokens)@,
                old(tokens).position(),
                TokenKind::While,
            ) || at(old(tokens)@, old(tokens).position(), TokenKind::Until),
        ensures
            outcome(
                r,
                grammar::pre_loop(old(tokens)@, old(tokens).position()),
                *old(tokens),
                *final(tokens),
            ),
            r.is_ok() ==> old(tokens).position() < final(tokens).position(),
        decreases remaining(old(tokens)@, old(tokens).position()), 6nat,
    {
        let start = tokens.pos();
        let keyword = tokens.kind(0);
        tokens.skip(1);
        let cond = match parenthesized(tokens) {
            Ok(cond) => cond,
            Err(error) => {
                tokens.seek(start);
                return Err(error);
            },
        };
        match Statement::parse(tokens) {
            Ok(body) => match keyword {
                Some(TokenKind::Repeat) => Ok(Statement::Repeat(cond, Box::new(body))),
                Some(TokenKind::While) => Ok(Statement::While(cond, Box::new(body))),
                _ => Ok(Statement::Until(cond, Box::new(body))),
            },
            Err(error) => {
                tokens.seek(start);
                Err(error)
            },
        }
    }

    /// Reads a block: statements between braces.
    fn block(tokens: &mut Tokens) -> (r: Result<Self, Error>)
        requires
            at(old(tokens)@, old(tokens).position(), TokenKind::LBrace),
        ensures
            outcome(
                r,
                grammar::block(old(tokens)@, old(tokens).position()),
                *old(tokens),
                *final(tokens),
            ),
            r.is_ok() ==> old(tokens).position() < final(tokens).position(),
        decreases remaining(old(tokens)@, old(tokens).position()), 6nat,
    {
        let start = tokens.pos();
        let open = here(tokens, TokenKind::LBrace);
        tokens.skip(1);
        match Statement::parse_all(tokens, TokenKind::RBrace) {
            Ok(list) => {
                let closed = here(tokens, TokenKind::RBrace);
                tokens.skip(1);
                Ok(Statement::Block(list))
            },
            Err(error) => {
                tokens.seek(start);
                Err(error)
            },
        }
    }

    /// Reads statements up to a token of the category `closing`, in front
    /// of which the cursor is left.
    pub fn parse_all(tokens: &mut Tokens, closing: TokenKind) -> (r: Result<Vec<Self>, Error>)
        ensures
            final(tokens)@ == old(tokens)@,
            match sequence(old(tokens)@, old(tokens).position(), closing) {
                Ok((list, end)) => r matches Ok(found) && statements(found@) == list
                    && final(tokens).position() == end && at(old(tokens)@, end, closing),
                Err(error) => r matches Err(e) && e == error
                    && final(tokens).position() == old(tokens).position(),
            },
            old(tokens).position() <= final(tokens).position(),
        decreases remaining(old(tokens)@, old(tokens).position()), 8nat,
    {
        let start = tokens.pos();
        let mut list: Vec<Statement> = Vec::new();
        let ghost whole = sequence(old(tokens)@, old(tokens).position(), closing);
        loop
            invariant_except_break
                tokens@ == old(tokens)@,
                old(tokens).position() == start,
                start <= tokens.position(),
                whole == sequence(old(tokens)@, old(tokens).position(), closing),
                whole == match sequence(tokens@, tokens.position(), closing) {
                    Ok((rest, end)) => Ok((statements(list@) + rest, end)),
                    Err(error) => Err(error),
                },
            ensures
                tokens@ == old(tokens)@,
                start <= tokens.position(),
                whole == Ok::<(Seq<Stmt>, nat), Error>((statements(list@), tokens.position())),
                at(tokens@, tokens.position(), closing),
            decreases remaining(tokens@, tokens.position()),
        {
            if here(tokens, closing) {
                assert(statements(list@) + Seq::<Stmt>::empty() =~= statements(list@));
                break ;
            }
            if tokens.pos() >= tokens.len() {
                tokens.seek(start);
                return Err(Error::ParseError(ParseError::ExpectedStatement));
            }
            let ghost before = statements(list@);
            let ghost from = tokens.position();
            match Statement::parse(tokens) {
                Ok(statement) => {
                    list.push(statement);
                    proof {
                        assert(statements(list@) =~= before + seq![statement@]);
                        match sequence(tokens@, tokens.position(), closing) {
                            Ok((rest, end)) => {
                                assert(before + (seq![statement@] + rest) =~= statements(list@)
                                    + rest);
                            },
                            Err(_) => {},
                        }
                    }
                },
                Err(error) => {
                    tokens.seek(start);
                    return Err(error);
                },
            }
        }
        Ok(list)
    }
}

impl Statements {
    /// Reads the statements of a unit, up to the end-of-file token.
    pub fn parse(tokens: &mut Tokens) -> (r: Result<Self, Error>)
        ensures
            outcome(
                r,
                sequence(old(tokens)@, old(tokens).position(), TokenKind::EOF),
                *old(tokens),
                *final(tokens),
            ),
    {
        match Statement::parse_all(tokens, TokenKind::EOF) {
            Ok(list) => Ok(Statements(list)),
            Err(error) => Err(error),
        }
    }
}

impl ArgumentList {
    /// Reads the formal arguments of a unit.
    pub fn parse(tokens: &mut Tokens) -> (r: Result<Self, Error>)
        ensures
            outcome(
                r,
                arguments(old(tokens)@, old(tokens).position()),
                *old(tokens),
                *final(tokens),
            ),
            old(tokens).position() <= final(tokens).position(),
        decreases remaining(old(tokens)@, old(tokens).position()),
    {
        let start = tokens.pos();
        if !here(tokens, TokenKind::Argument) {
            return Ok(ArgumentList::End);
        }
        if tokens.kind(1) == Some(TokenKind::DotDotDot) {
            tokens.skip(2);
            return match Identifier::parse(tokens) {
                Ok(ident) => Ok(ArgumentList::VariadicArgument(ident)),
                Err(error) => {
                    tokens.seek(start);
                    Err(error)
                },
            };
        }
        tokens.skip(1);
        let ident = match Identifier::parse(tokens) {
            Ok(ident) => ident,
            Err(error) => {
                tokens.seek(start);
                return Err(error);
            },
        };
        if here(tokens, TokenKind::Question) {
            tokens.skip(1);
            match ArgumentList::parse(tokens) {
                Ok(rest) => Ok(ArgumentList::OptionalArgument(ident, Box::new(rest))),
                Err(error) => {
                    tokens.seek(start);
                    Err(error)
                },
            }
        } else if here(tokens, TokenKind::Assign) {
            tokens.skip(1);
            let default = match Expression::parse(tokens) {
                Ok(default) => default,
                Err(error) => {
                    tokens.seek(start);
                    return Err(error);
                },
            };
            match ArgumentList::parse(tokens) {
                Ok(rest) => Ok(ArgumentList::DefaultArgument(ident, default, Box::new(rest))),
                Err(error) => {
                    tokens.seek(start);
                    Err(error)
                },
            }
        } else {
            match ArgumentList::parse(tokens) {
                Ok(rest) => Ok(ArgumentList::Argument(ident, Box::new(rest))),
                Err(error) => {
                    tokens.seek(start);
                    Err(error)
                },
            }
        }
    }
}

impl DocComment {
    /// Reads the doc comment lines at the cursor, as many as there are.
    pub fn parse(tokens: &mut Tokens) -> (r: Self)
        ensures
            final(tokens)@ == old(tokens)@,
            r@ == doc_comment(old(tokens)@, old(tokens).position()).0,
            final(tokens).position() == doc_comment(old(tokens)@, old(tokens).position()).1,
    {
        let mut comments: Vec<String> = Vec::new();
        let ghost whole = doc_comment(old(tokens)@, old(tokens).position());
        while here(tokens, TokenKind::DocComment) && tokens.kind(1) == Some(TokenKind::EOL)
            invariant
                tokens@ == old(tokens)@,
                whole.0 == lines(comments@) + doc_comment(tokens@, tokens.position()).0,
                whole.1 == doc_comment(tokens@, tokens.position()).1,
            decreases remaining(tokens@, tokens.position()),
        {
            let ghost before = lines(comments@);
            let ghost from = tokens.position();
            let line = tokens.next().into_text();
            comments.push(line);
            tokens.skip(1);
            proof {
                assert(lines(comments@) =~= before + seq![line@]);
                assert(before + (seq![line@] + doc_comment(tokens@, tokens.position()).0)
                    =~= lines(comments@) + doc_comment(tokens@, tokens.position()).0);
            }
        }
        assert(lines(comments@) + Seq::<Seq<char>>::empty() =~= lines(comments@));
        DocComment(comments)
    }
}

impl Code {
    /// Reads a whole unit, which begins with the begin-of-file token at
    /// the cursor.
    pub fn parse(tokens: &mut Tokens) -> (r: Result<Self, Error>)
        requires
            at(old(tokens)@, old(tokens).position(), TokenKind::BOF),
        ensures
            outcome(r, code(old(tokens)@, old(tokens).position()), *old(tokens), *final(tokens)),
    {
        let start = tokens.pos();
        let bof = here(tokens, TokenKind::BOF);
        tokens.skip(1);
        let docs = DocComment::parse(tokens);
        let args = match ArgumentList::parse(tokens) {
            Ok(args) => args,
            Err(error) => {
                tokens.seek(start);
                return Err(error);
            },
        };
        match Statements::parse(tokens) {
            Ok(body) => Ok(Code { docs, args, body }),
            Err(error) => {
                tokens.seek(start);
                Err(error)
            },
        }
    }
}

} // verus!
