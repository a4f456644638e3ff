//! The syntax tree, its grammar and its printed form.

use vstd::prelude::*;

use crate::error::Error;
use crate::tokenizer::laws::lemma_tokens_begin_with_bof;
use crate::tokenizer::lex;
use crate::tokenizer::tokenize;

pub mod expression;
pub mod grammar;
pub mod helpers;
pub mod laws;
pub mod model;
pub mod printer;
pub mod reading;
pub mod render;
pub mod round_trip;
pub mod spelling;
pub mod statement;
pub mod tree;

pub use self::tree::ArgumentList;
pub use self::tree::Assignment;
pub use self::tree::Call;
pub use self::tree::Code;
pub use self::tree::CommaList;
pub use self::tree::DocComment;
pub use self::tree::Expression;
pub use self::tree::Identifier;
pub use self::tree::LValue;
pub use self::tree::Literal;
pub use self::tree::Number;
pub use self::tree::Statement;
pub use self::tree::Statements;
pub use self::tree::Value;

use self::grammar::code;
use self::model::Unit;
use self::render::unit_text;

verus! {

/// The abstract syntax tree of a gmlpp program.
#[derive(Debug)]
pub struct AST(pub Code);

/// The unit that a source text denotes: the tokens of the text, read as a
/// unit of code from the first token on; or the first error.
pub open spec fn parsed(input: Seq<char>) -> Result<Unit, Error> {
    match lex(input) {
        Err(error) => Err(error),
        Ok(tokens) => match code(tokens, 0) {
            Err(error) => Err(error),
            Ok((unit, _)) => Ok(unit),
        },
    }
}

/// The text that a source text compiles to: the printed form of the unit
/// that it denotes; or the first error.
pub open spec fn compiled(input: Seq<char>) -> Result<Seq<char>, Error> {
    match parsed(input) {
        Err(error) => Err(error),
        Ok(unit) => Ok(unit_text(unit)),
    }
}

impl View for AST {
    type V = Unit;

    open spec fn view(&self) -> Unit {
        self.0@
    }
}

impl AST {
    /// Wraps a unit of code.
    pub fn new(code: Code) -> (r: Self)
        ensures
            r@ == code@,
    {
        AST(code)
    }

    /// Creates the tree of a unit by lexing and parsing its source text.
    pub fn from_source(text: &str) -> (r: Result<Self, Error>)
        ensures
            match parsed(text@) {
                Ok(unit) => r matches Ok(tree) && tree@ == unit,
                Err(error) => r matches Err(e) && e == error,
            },
    {
        let mut tokens = match tokenize(text) {
            Ok(tokens) => tokens,
            Err(error) => {
                return Err(error);
            },
        };
        proof {
            lemma_tokens_begin_with_bof(text@);
        }
        match Code::parse(&mut tokens) {
            Ok(code) => Ok(AST(code)),
            Err(error) => Err(error),
        }
    }

    /// Prints the GML code that this tree stands for.
    pub fn print(&self) -> (r: String)
        ensures
            r@ == unit_text(self@),
    {
        self.0.print()
    }
}

} // verus!
