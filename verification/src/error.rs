//! The errors of the front end.

use vstd::prelude::*;

verus! {

/// What the parser expected and did not find.
#[derive(Clone, Copy, Debug, PartialEq, Eq, Structural)]
pub enum ParseError {
    ExpectedValue,
    ExpectedLiteral,
    ExpectedIdentifier,
    ExpectedFunctionCall,
    ExpectedArgument,
    ExpectedKeyword,
    ExpectedStatement,
    ExpectedParentheses,
    IncompleteTernaryOperator,
    MismatchedParentheses,
    ExpectedEndOfStatement,
}

/// Why a source text could not be compiled.
#[derive(Clone, Copy, Debug, PartialEq, Eq, Structural)]
pub enum Error {
    InvalidCharacter,
    UnexpectedCharacter,
    MalformedNumericLiteral,
    CommentNestingDepth,
    InvalidPreprocessorDirective,
    UnexpectedEOF,
    ParseError(ParseError),
}

impl ParseError {
    /// The message that goes with each variant.
    pub open spec fn message(self) -> Seq<char> {
        match self {
            ParseError::ExpectedValue => "Expected value"@,
            ParseError::ExpectedLiteral => "Expected literal"@,
            ParseError::ExpectedIdentifier => "Expected identifier"@,
            ParseError::ExpectedFunctionCall => "Expected function call"@,
            ParseError::ExpectedArgument => "Expected argument"@,
            ParseError::ExpectedKeyword => "Expected keyword"@,
            ParseError::ExpectedStatement => "Expected statement"@,
            ParseError::ExpectedParentheses => "Expected parentheses"@,
            ParseError::IncompleteTernaryOperator => "Incomplete ternary operator"@,
            ParseError::MismatchedParentheses => "Mismatched parentheses"@,
            ParseError::ExpectedEndOfStatement => "Expected end of statement"@,
        }
    }

    /// A short description of the error.
    pub fn description(&self) -> (r: &'static str)
        ensures
            r@ == self.message(),
    {
        match self {
            ParseError::ExpectedValue => "Expected value",
            ParseError::ExpectedLiteral => "Expected literal",
            ParseError::ExpectedIdentifier => "Expected identifier",
            ParseError::ExpectedFunctionCall => "Expected function call",
            ParseError::ExpectedArgument => "Expected argument",
            ParseError::ExpectedKeyword => "Expected keyword",
            ParseError::ExpectedStatement => "Expected statement",
            ParseError::ExpectedParentheses => "Expected parentheses",
            ParseError::IncompleteTernaryOperator => "Incomplete ternary operator",
            ParseError::MismatchedParentheses => "Mismatched parentheses",
            ParseError::ExpectedEndOfStatement => "Expected end of statement",
        }
    }
}

impl Error {
    /// The message that goes with each variant; a syntax error has the
    /// message of what was expected.
    pub open spec fn message(self) -> Seq<char> {
        match self {
            Error::InvalidCharacter => "Invalid character in source file"@,
            Error::UnexpectedCharacter => "Unexpected character in source file"@,
            Error::MalformedNumericLiteral => "Malformed numeric literal"@,
            Error::CommentNestingDepth => "Comment nesting is too deep"@,
            Error::InvalidPreprocessorDirective => "Invalid preprocessor directive"@,
            Error::UnexpectedEOF => "Unexpected end of input"@,
            Error::ParseError(error) => error.message(),
        }
    }

    /// A short description of the error.
    pub fn description(&self) -> (r: &'static str)
        ensures
            r@ == self.message(),
    {
        match self {
            Error::InvalidCharacter => "Invalid character in source file",
            Error::UnexpectedCharacter => "Unexpected character in source file",
            Error::MalformedNumericLiteral => "Malformed numeric literal",
            Error::CommentNestingDepth => "Comment nesting is too deep",
            Error::InvalidPreprocessorDirective => "Invalid preprocessor directive",
            Error::UnexpectedEOF => "Unexpected end of input",
            Error::ParseError(error) => error.description(),
        }
    }
}

} // verus!
