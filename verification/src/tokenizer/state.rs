//! The lexer's states and its transition function.

use vstd::prelude::*;

use crate::chars::binary_digit;
use crate::chars::decimal_digit;
use crate::chars::hex_digit;
use crate::chars::is_binary_digit;
use crate::chars::is_decimal_digit;
use crate::chars::is_hex_digit;
use crate::chars::is_letter;
use crate::chars::is_letter_or_numeral;
use crate::chars::is_numeral;
use crate::chars::is_space;
use crate::chars::letter;
use crate::chars::letter_or_numeral;
use crate::chars::numeral;
use crate::chars::space;
use crate::error::Error;

verus! {

/// What the lexer has seen of the token it is reading.
///
/// The three block-comment states carry the number of comments that are
/// open at that point.
#[derive(Clone, Copy, PartialEq, Eq, Debug, Structural)]
pub enum State {
    Start,
    // comments
    SlashSlash,
    SlashSlashSlash,
    LineComment,
    DocComment,
    SlashStar(u8),
    SlashStarSlash(u8),
    SlashStarStar(u8),
    // numbers
    Zero,
    ZeroX,
    ZeroB,
    Hex,
    Bin,
    Dec,
    DecFloat,
    DecE,
    DecEMinus,
    DecExp,
    // strings
    CharStart,
    CharX,
    CharSlash,
    Char,
    StrStart,
    StrSlash,
    Str,
    // arithmetic operators
    Minus,
    Plus,
    PlusEqual,
    MinusEqual,
    Star,
    StarStar,
    Slash,
    Percent,
    StarEqual,
    StarStarEqual,
    SlashEqual,
    PercentEqual,
    PlusPlus,
    MinusMinus,
    // comparison operators
    Equal,
    EqualEqual,
    NotEqual,
    Less,
    LessEqual,
    More,
    MoreEqual,
    // boolean and bitwise operators
    And,
    AndAnd,
    Bar,
    BarBar,
    Xor,
    AndEqual,
    BarEqual,
    XorEqual,
    Tilde,
    Bang,
    LShift,
    LShiftEqual,
    RShift,
    RShiftEqual,
    // symbols
    Question,
    Colon,
    Hash,
    At,
    Underscore,
    BarMore,
    Dot,
    Comma,
    Semi,
    DotDot,
    DotDotDot,
    // preprocessor
    HashM,
    HashMa,
    HashMac,
    HashMacr,
    HashMacro,
    HashP,
    HashPr,
    HashPra,
    HashPrag,
    HashPragm,
    HashPragma,
    // whitespace
    EOL,
    // brackets
    LParen,
    RParen,
    LBrack,
    RBrack,
    LBrace,
    RBrace,
    // identifier
    Identifier,
}

/// The outcome of one transition: the state that absorbs the character,
/// `None` when the token was complete before it, or a lexical error.
pub type Transition = Result<Option<State>, Error>;

/// The character is absorbed and the lexer goes on in `state`.
pub open spec fn absorb(state: State) -> Transition {
    Ok(Some(state))
}

/// The token ended before the character.
pub open spec fn complete() -> Transition {
    Ok(None)
}

/// The transition out of `Start`, where every token begins.
pub open spec fn start_step(c: char) -> Transition {
    if c == '0' {
        absorb(State::Zero)
    } else if c == '(' {
        absorb(State::LParen)
    } else if c == ')' {
        absorb(State::RParen)
    } else if c == '{' {
        absorb(State::LBrace)
    } else if c == '}' {
        absorb(State::RBrace)
    } else if c == '[' {
        absorb(State::LBrack)
    } else if c == ']' {
        absorb(State::RBrack)
    } else if c == '+' {
        absorb(State::Plus)
    } else if c == '-' {
        absorb(State::Minus)
    } else if c == '*' {
        absorb(State::Star)
    } else if c == '/' {
        absorb(State::Slash)
    } else if c == '%' {
        absorb(State::Percent)
    } else if c == '=' {
        absorb(State::Equal)
    } else if c == '|' {
        absorb(State::Bar)
    } else if c == '&' {
        absorb(State::And)
    } else if c == '^' {
        absorb(State::Xor)
    } else if c == '~' {
        absorb(State::Tilde)
    } else if c == '<' {
        absorb(State::Less)
    } else if c == '>' {
        absorb(State::More)
    } else if c == '!' {
        absorb(State::Bang)
    } else if c == '#' {
        absorb(State::Hash)
    } else if c == '@' {
        absorb(State::At)
    } else if c == '.' {
        absorb(State::Dot)
    } else if c == ',' {
        absorb(State::Comma)
    } else if c == '\n' {
        absorb(State::EOL)
    } else if c == '\'' {
        absorb(State::CharStart)
    } else if c == '"' {
        absorb(State::StrStart)
    } else if c == ';' {
        absorb(State::Semi)
    } else if c == '_' {
        absorb(State::Underscore)
    } else if c == '?' {
        absorb(State::Question)
    } else if c == ':' {
        absorb(State::Colon)
    } else if is_space(c) {
        absorb(State::Start)
    } else if is_decimal_digit(c) {
        absorb(State::Dec)
    } else if is_letter(c) {
        absorb(State::Identifier)
    } else {
        Err(Error::InvalidCharacter)
    }
}

/// How a numeric literal ends: any character that is neither a letter nor
/// a number closes it, and a letter or a number that the state has no use
/// for spoils it.
pub open spec fn end_of_number(c: char) -> Transition {
    if !is_letter_or_numeral(c) {
        complete()
    } else {
        Err(Error::MalformedNumericLiteral)
    }
}

/// The next letter of a preprocessor keyword must be `expected`.
pub open spec fn directive_letter(c: char, expected: char, next: State) -> Transition {
    if c == expected {
        absorb(next)
    } else {
        Err(Error::InvalidPreprocessorDirective)
    }
}

/// A preprocessor keyword must not run on into a longer word.
pub open spec fn end_of_directive(c: char) -> Transition {
    if c == '_' || is_letter_or_numeral(c) {
        Err(Error::InvalidPreprocessorDirective)
    } else {
        complete()
    }
}

impl State {
    /// The state in which every token begins.
    pub open spec fn initial() -> State {
        State::Start
    }

    /// The transition function of the lexer.
    pub open spec fn step(self, c: char) -> Transition {
        match self {
            State::Start => start_step(c),
            // numbers
            State::Zero => if c == 'x' {
                absorb(State::ZeroX)
            } else if c == 'b' {
                absorb(State::ZeroB)
            } else if c == '_' {
                absorb(State::Dec)
            } else if c == '.' {
                absorb(State::DecFloat)
            } else if c == 'e' {
                absorb(State::DecE)
            } else if is_decimal_digit(c) {
                absorb(State::Dec)
            } else {
                end_of_number(c)
            },
            State::ZeroX => if c == '_' {
                absorb(State::ZeroX)
            } else if is_hex_digit(c) {
                absorb(State::Hex)
            } else {
                Err(Error::MalformedNumericLiteral)
            },
            State::Hex => if c == '_' || is_hex_digit(c) {
                absorb(State::Hex)
            } else {
                end_of_number(c)
            },
            State::ZeroB => if c == '_' {
                absorb(State::ZeroB)
            } else if is_binary_digit(c) {
                absorb(State::Bin)
            } else {
                Err(Error::MalformedNumericLiteral)
            },
            State::Bin => if c == '_' || is_binary_digit(c) {
                absorb(State::Bin)
            } else {
                end_of_number(c)
            },
            State::Dec => if c == '_' {
                absorb(State::Dec)
            } else if c == '.' {
                absorb(State::DecFloat)
            } else if c == 'e' {
                absorb(State::DecE)
            } else if is_decimal_digit(c) {
                absorb(State::Dec)
            } else {
                end_of_number(c)
            },
            State::DecFloat => if c == '_' {
                absorb(State::DecFloat)
            } else if c == 'e' {
                absorb(State::DecE)
            } else if is_decimal_digit(c) {
                absorb(State::DecFloat)
            } else {
                end_of_number(c)
            },
            State::DecE => if c == '_' {
                absorb(State::DecE)
            } else if c == '-' {
                absorb(State::DecEMinus)
            } else if is_decimal_digit(c) {
                absorb(State::DecExp)
            } else {
                Err(Error::MalformedNumericLiteral)
            },
            State::DecEMinus => if c == '_' {
                absorb(State::DecEMinus)
            } else if is_decimal_digit(c) {
                absorb(State::DecExp)
            } else {
                Err(Error::MalformedNumericLiteral)
            },
            State::DecExp => if c == '_' || is_decimal_digit(c) {
                absorb(State::DecExp)
            } else {
                end_of_number(c)
            },
            // comments
            State::Slash => if c == '/' {
                absorb(State::SlashSlash)
            } else if c == '=' {
                absorb(State::SlashEqual)
            } else if c == '*' {
                absorb(State::SlashStar(1))
            } else {
                complete()
            },
            State::SlashSlash => if c == '/' {
                absorb(State::SlashSlashSlash)
            } else if c == '\n' {
                complete()
            } else {
                absorb(State::LineComment)
            },
            State::SlashSlashSlash | State::DocComment => if c == '\n' {
                complete()
            } else {
                absorb(State::DocComment)
            },
            State::LineComment => if c == '\n' {
                complete()
            } else {
                absorb(State::LineComment)
            },
            State::SlashStar(depth) => if depth == 0 {
                complete()
            } else if c == '/' {
                absorb(State::SlashStarSlash(depth))
            } else if c == '*' {
                absorb(State::SlashStarStar(depth))
            } else {
                absorb(State::SlashStar(depth))
            },
            State::SlashStarStar(depth) => if c == '/' {
                absorb(State::SlashStar(if depth == 0 { 0 } else { (depth - 1) as u8 }))
            } else if c == '*' {
                absorb(State::SlashStarStar(depth))
            } else {
                absorb(State::SlashStar(depth))
            },
            State::SlashStarSlash(depth) => if c == '/' {
                absorb(State::SlashStarSlash(depth))
            } else if c == '*' {
                if depth == u8::MAX {
                    Err(Error::CommentNestingDepth)
                } else {
                    absorb(State::SlashStar((depth + 1) as u8))
                }
            } else {
                absorb(State::SlashStar(depth))
            },
            // character and string literals
            State::CharStart => if c == '\\' {
                absorb(State::CharSlash)
            } else if c == '\'' {
                Err(Error::UnexpectedCharacter)
            } else {
                absorb(State::CharX)
            },
            State::CharX => if c == '\'' {
                absorb(State::Char)
            } else {
                Err(Error::UnexpectedCharacter)
            },
            State::CharSlash => absorb(State::CharX),
            State::StrStart => if c == '"' {
                absorb(State::Str)
            } else if c == '\\' {
                absorb(State::StrSlash)
            } else {
                absorb(State::StrStart)
            },
            State::StrSlash => absorb(State::StrStart),
            // operators that a further character may lengthen
            State::Plus => if c == '+' {
                absorb(State::PlusPlus)
            } else if c == '=' {
                absorb(State::PlusEqual)
            } else {
                complete()
            },
            State::Minus => if c == '-' {
                absorb(State::MinusMinus)
            } else if c == '=' {
                absorb(State::MinusEqual)
            } else {
                complete()
            },
            State::Star => if c == '*' {
                absorb(State::StarStar)
            } else if c == '=' {
                absorb(State::StarEqual)
            } else {
                complete()
            },
            State::StarStar => if c == '=' {
                absorb(State::StarStarEqual)
            } else {
                complete()
            },
            State::Percent => if c == '=' {
                absorb(State::PercentEqual)
            } else {
                complete()
            },
            State::Bar => if c == '|' {
                absorb(State::BarBar)
            } else if c == '=' {
                absorb(State::BarEqual)
            } else if c == '>' {
                absorb(State::BarMore)
            } else {
                complete()
            },
            State::And => if c == '&' {
                absorb(State::AndAnd)
            } else if c == '=' {
                absorb(State::AndEqual)
            } else {
                complete()
            },
            State::Xor => if c == '=' {
                absorb(State::XorEqual)
            } else {
                complete()
            },
            State::Bang => if c == '=' {
                absorb(State::NotEqual)
            } else {
                complete()
            },
            State::Equal => if c == '=' {
                absorb(State::EqualEqual)
            } else {
                complete()
            },
            State::Less => if c == '<' {
                absorb(State::LShift)
            } else if c == '=' {
                absorb(State::LessEqual)
            } else {
                complete()
            },
            State::LShift => if c == '=' {
                absorb(State::LShiftEqual)
            } else {
                complete()
            },
            State::More => if c == '>' {
                absorb(State::RShift)
            } else if c == '=' {
                absorb(State::MoreEqual)
            } else {
                complete()
            },
            State::RShift => if c == '=' {
                absorb(State::RShiftEqual)
            } else {
                complete()
            },
            State::Hash => if c == 'm' {
                absorb(State::HashM)
            } else if c == 'p' {
                absorb(State::HashP)
            } else {
                complete()
            },
            State::Underscore => if is_letter_or_numeral(c) {
                absorb(State::Identifier)
            } else {
                complete()
            },
            State::Dot => if c == '.' {
                absorb(State::DotDot)
            } else if is_numeral(c) {
                absorb(State::DecFloat)
            } else {
                complete()
            },
            State::DotDot => if c == '.' {
                absorb(State::DotDotDot)
            } else {
                Err(Error::UnexpectedCharacter)
            },
            State::DotDotDot => if c == '.' {
                Err(Error::UnexpectedCharacter)
            } else {
                complete()
            },
            // preprocessor keywords
            State::HashM => directive_letter(c, 'a', State::HashMa),
            State::HashMa => directive_letter(c, 'c', State::HashMac),
            State::HashMac => directive_letter(c, 'r', State::HashMacr),
            State::HashMacr => directive_letter(c, 'o', State::HashMacro),
            State::HashP => directive_letter(c, 'r', State::HashPr),
            State::HashPr => directive_letter(c, 'a', State::HashPra),
            State::HashPra => directive_letter(c, 'g', State::HashPrag),
            State::HashPrag => directive_letter(c, 'm', State::HashPragm),
            State::HashPragm => directive_letter(c, 'a', State::HashPragma),
            State::HashMacro | State::HashPragma => end_of_directive(c),
            // whitespace
            State::EOL => if is_space(c) {
                absorb(State::EOL)
            } else {
                complete()
            },
            // identifier
            State::Identifier => if c == '_' || is_letter_or_numeral(c) {
                absorb(State::Identifier)
            } else {
                complete()
            },
            // tokens that no character lengthens
            State::Char
            | State::Str
            | State::PlusPlus
            | State::PlusEqual
            | State::MinusMinus
            | State::MinusEqual
            | State::StarEqual
            | State::StarStarEqual
            | State::SlashEqual
            | State::PercentEqual
            | State::BarBar
            | State::BarEqual
            | State::BarMore
            | State::AndAnd
            | State::AndEqual
            | State::XorEqual
            | State::Tilde
            | State::NotEqual
            | State::EqualEqual
            | State::LShiftEqual
            | State::LessEqual
            | State::RShiftEqual
            | State::MoreEqual
            | State::Question
            | State::Colon
            | State::At
            | State::Comma
            | State::Semi
            | State::LParen
            | State::RParen
            | State::LBrack
            | State::RBrack
            | State::LBrace
            | State::RBrace => complete(),
        }
    }

    /// Transitions to the next state, given a character.
    pub fn next(self, c: char) -> (r: Transition)
        ensures
            r == self.step(c),
    {
        match self {
            State::Start => start(c),
            State::Zero => if c == 'x' {
                Ok(Some(State::ZeroX))
            } else if c == 'b' {
                Ok(Some(State::ZeroB))
            } else if c == '_' {
                Ok(Some(State::Dec))
            } else if c == '.' {
                Ok(Some(State::DecFloat))
            } else if c == 'e' {
                Ok(Some(State::DecE))
            } else if decimal_digit(c) {
                Ok(Some(State::Dec))
            } else {
                number_ends(c)
            },
            State::ZeroX => if c == '_' {
                Ok(Some(State::ZeroX))
            } else if hex_digit(c) {
                Ok(Some(State::Hex))
            } else {
                Err(Error::MalformedNumericLiteral)
            },
            State::Hex => if c == '_' || hex_digit(c) {
                Ok(Some(State::Hex))
            } else {
                number_ends(c)
            },
            State::ZeroB => if c == '_' {
                Ok(Some(State::ZeroB))
            } else if binary_digit(c) {
                Ok(Some(State::Bin))
            } else {
                Err(Error::MalformedNumericLiteral)
            },
            State::Bin => if c == '_' || binary_digit(c) {
                Ok(Some(State::Bin))
            } else {
                number_ends(c)
            },
            State::Dec => if c == '_' {
                Ok(Some(State::Dec))
            } else if c == '.' {
                Ok(Some(State::DecFloat))
            } else if c == 'e' {
                Ok(Some(State::DecE))
            } else if decimal_digit(c) {
                Ok(Some(State::Dec))
            } else {
                number_ends(c)
            },
            State::DecFloat => if c == '_' {
                Ok(Some(State::DecFloat))
            } else if c == 'e' {
                Ok(Some(State::DecE))
            } else if decimal_digit(c) {
                Ok(Some(State::DecFloat))
            } else {
                number_ends(c)
            },
            State::DecE => if c == '_' {
                Ok(Some(State::DecE))
            } else if c == '-' {
                Ok(Some(State::DecEMinus))
            } else if decimal_digit(c) {
                Ok(Some(State::DecExp))
            } else {
                Err(Error::MalformedNumericLiteral)
            },
            State::DecEMinus => if c == '_' {
                Ok(Some(State::DecEMinus))
            } else if decimal_digit(c) {
                Ok(Some(State::DecExp))
            } else {
                Err(Error::MalformedNumericLiteral)
            },
            State::DecExp => if c == '_' || decimal_digit(c) {
                Ok(Some(State::DecExp))
            } else {
                number_ends(c)
            },
            State::Slash => if c == '/' {
                Ok(Some(State::SlashSlash))
            } else if c == '=' {
                Ok(Some(State::SlashEqual))
            } else if c == '*' {
                Ok(Some(State::SlashStar(1)))
            } else {
                Ok(None)
            },
            State::SlashSlash => if c == '/' {
                Ok(Some(State::SlashSlashSlash))
            } else if c == '\n' {
                Ok(None)
            } else {
                Ok(Some(State::LineComment))
            },
            State::SlashSlashSlash | State::DocComment => if c == '\n' {
                Ok(None)
            } else {
                Ok(Some(State::DocComment))
            },
            State::LineComment => if c == '\n' {
                Ok(None)
            } else {
                Ok(Some(State::LineComment))
            },
            State::SlashStar(depth) => if depth == 0 {
                Ok(None)
            } else if c == '/' {
                Ok(Some(State::SlashStarSlash(depth)))
            } else if c == '*' {
                Ok(Some(State::SlashStarStar(depth)))
            } else {
                Ok(Some(State::SlashStar(depth)))
            },
            State::SlashStarStar(depth) => if c == '/' {
                Ok(Some(State::SlashStar(if depth == 0 { 0 } else { depth - 1 })))
            } else if c == '*' {
                Ok(Some(State::SlashStarStar(depth)))
            } else {
                Ok(Some(State::SlashStar(depth)))
            },
            State::SlashStarSlash(depth) => if c == '/' {
                Ok(Some(State::SlashStarSlash(depth)))
            } else if c == '*' {
                if depth == u8::MAX {
                    Err(Error::CommentNestingDepth)
                } else {
                    Ok(Some(State::SlashStar(depth + 1)))
                }
            } else {
                Ok(Some(State::SlashStar(depth)))
            },
            State::CharStart => if c == '\\' {
                Ok(Some(State::CharSlash))
            } else if c == '\'' {
                Err(Error::UnexpectedCharacter)
            } else {
                Ok(Some(State::CharX))
            },
            State::CharX => if c == '\'' {
                Ok(Some(State::Char))
            } else {
                Err(Error::UnexpectedCharacter)
            },
            State::CharSlash => Ok(Some(State::CharX)),
            State::StrStart => if c == '"' {
                Ok(Some(State::Str))
            } else if c == '\\' {
                Ok(Some(State::StrSlash))
            } else {
                Ok(Some(State::StrStart))
            },
            State::StrSlash => Ok(Some(State::StrStart)),
            State::Plus => if c == '+' {
                Ok(Some(State::PlusPlus))
            } else if c == '=' {
                Ok(Some(State::PlusEqual))
            } else {
                Ok(None)
            },
            State::Minus => if c == '-' {
                Ok(Some(State::MinusMinus))
            } else if c == '=' {
                Ok(Some(State::MinusEqual))
            } else {
                Ok(None)
            },
            State::Star => if c == '*' {
                Ok(Some(State::StarStar))
            } else if c == '=' {
                Ok(Some(State::StarEqual))
            } else {
                Ok(None)
            },
            State::StarStar => if c == '=' {
                Ok(Some(State::StarStarEqual))
            } else {
                Ok(None)
            },
            State::Percent => if c == '=' {
                Ok(Some(State::PercentEqual))
            } else {
                Ok(None)
            },
            State::Bar => if c == '|' {
                Ok(Some(State::BarBar))
            } else if c == '=' {
                Ok(Some(State::BarEqual))
            } else if c == '>' {
                Ok(Some(State::BarMore))
            } else {
                Ok(None)
            },
            State::And => if c == '&' {
                Ok(Some(State::AndAnd))
            } else if c == '=' {
                Ok(Some(State::AndEqual))
            } else {
                Ok(None)
            },
            State::Xor => if c == '=' {
                Ok(Some(State::XorEqual))
            } else {
                Ok(None)
            },
            State::Bang => if c == '=' {
                Ok(Some(State::NotEqual))
            } else {
                Ok(None)
            },
            State::Equal => if c == '=' {
                Ok(Some(State::EqualEqual))
            } else {
                Ok(None)
            },
            State::Less => if c == '<' {
                Ok(Some(State::LShift))
            } else if c == '=' {
                Ok(Some(State::LessEqual))
            } else {
                Ok(None)
            },
            State::LShift => if c == '=' {
                Ok(Some(State::LShiftEqual))
            } else {
                Ok(None)
            },
            State::More => if c == '>' {
                Ok(Some(State::RShift))
            } else if c == '=' {
                Ok(Some(State::MoreEqual))
            } else {
                Ok(None)
            },
            State::RShift => if c == '=' {
                Ok(Some(State::RShiftEqual))
            } else {
                Ok(None)
            },
            State::Hash => if c == 'm' {
                Ok(Some(State::HashM))
            } else if c == 'p' {
                Ok(Some(State::HashP))
            } else {
                Ok(None)
            },
            State::Underscore => if letter_or_numeral(c) {
                Ok(Some(State::Identifier))
            } else {
                Ok(None)
            },
            State::Dot => if c == '.' {
                Ok(Some(State::DotDot))
            } else if numeral(c) {
                Ok(Some(State::DecFloat))
            } else {
                Ok(None)
            },
            State::DotDot => if c == '.' {
                Ok(Some(State::DotDotDot))
            } else {
                Err(Error::UnexpectedCharacter)
            },
            State::DotDotDot => if c == '.' {
                Err(Error::UnexpectedCharacter)
            } else {
                Ok(None)
            },
            State::HashM => directive(c, 'a', State::HashMa),
            State::HashMa => directive(c, 'c', State::HashMac),
            State::HashMac => directive(c, 'r', State::HashMacr),
            State::HashMacr => directive(c, 'o', State::HashMacro),
            State::HashP => directive(c, 'r', State::HashPr),
            State::HashPr => directive(c, 'a', State::HashPra),
            State::HashPra => directive(c, 'g', State::HashPrag),
            State::HashPrag => directive(c, 'm', State::HashPragm),
            State::HashPragm => directive(c, 'a', State::HashPragma),
            State::HashMacro | State::HashPragma => if c == '_' || letter_or_numeral(c) {
                Err(Error::InvalidPreprocessorDirective)
            } else {
                Ok(None)
            },
            State::EOL => if space(c) {
                Ok(Some(State::EOL))
            } else {
                Ok(None)
            },
            State::Identifier => if c == '_' || letter_or_numeral(c) {
                Ok(Some(State::Identifier))
            } else {
                Ok(None)
            },
            State::Char
            | State::Str
            | State::PlusPlus
            | State::PlusEqual
            | State::MinusMinus
            | State::MinusEqual
            | State::StarEqual
            | State::StarStarEqual
            | State::SlashEqual
            | State::PercentEqual
            | State::BarBar
            | State::BarEqual
            | State::BarMore
            | State::AndAnd
            | State::AndEqual
            | State::XorEqual
            | State::Tilde
            | State::NotEqual
            | State::EqualEqual
            | State::LShiftEqual
            | State::LessEqual
            | State::RShiftEqual
            | State::MoreEqual
            | State::Question
            | State::Colon
            | State::At
            | State::Comma
            | State::Semi
            | State::LParen
            | State::RParen
            | State::LBrack
            | State::RBrack
            | State::LBrace
            | State::RBrace => Ok(None),
        }
    }
}

impl Default for State {
    fn default() -> (r: Self)
        ensures
            r == State::initial(),
    {
        State::Start
    }
}

/// The transition out of `Start`.
fn start(c: char) -> (r: Transition)
    ensures
        r == start_step(c),
{
    if c == '0' {
        Ok(Some(State::Zero))
    } else if c == '(' {
        Ok(Some(State::LParen))
    } else if c == ')' {
        Ok(Some(State::RParen))
    } else if c == '{' {
        Ok(Some(State::LBrace))
    } else if c == '}' {
        Ok(Some(State::RBrace))
    } else if c == '[' {
        Ok(Some(State::LBrack))
    } else if c == ']' {
        Ok(Some(State::RBrack))
    } else if c == '+' {
        Ok(Some(State::Plus))
    } else if c == '-' {
        Ok(Some(State::Minus))
    } else if c == '*' {
        Ok(Some(State::Star))
    } else if c == '/' {
        Ok(Some(State::Slash))
    } else if c == '%' {
        Ok(Some(State::Percent))
    } else if c == '=' {
        Ok(Some(State::Equal))
    } else if c == '|' {
        Ok(Some(State::Bar))
    } else if c == '&' {
        Ok(Some(State::And))
    } else if c == '^' {
        Ok(Some(State::Xor))
    } else if c == '~' {
        Ok(Some(State::Tilde))
    } else if c == '<' {
        Ok(Some(State::Less))
    } else if c == '>' {
        Ok(Some(State::More))
    } else if c == '!' {
        Ok(Some(State::Bang))
    } else if c == '#' {
        Ok(Some(State::Hash))
    } else if c == '@' {
        Ok(Some(State::At))
    } else if c == '.' {
        Ok(Some(State::Dot))
    } else if c == ',' {
        Ok(Some(State::Comma))
    } else if c == '\n' {
        Ok(Some(State::EOL))
    } else if c == '\'' {
        Ok(Some(State::CharStart))
    } else if c == '"' {
        Ok(Some(State::StrStart))
    } else if c == ';' {
        Ok(Some(State::Semi))
    } else if c == '_' {
        Ok(Some(State::Underscore))
    } else if c == '?' {
        Ok(Some(State::Question))
    } else if c == ':' {
        Ok(Some(State::Colon))
    } else if space(c) {
        Ok(Some(State::Start))
    } else if decimal_digit(c) {
        Ok(Some(State::Dec))
    } else if letter(c) {
        Ok(Some(State::Identifier))
    } else {
        Err(Error::InvalidCharacter)
    }
}

/// Closes a numeric literal, or rejects it.
fn number_ends(c: char) -> (r: Transition)
    ensures
        r == end_of_number(c),
{
    if !letter_or_numeral(c) {
        Ok(None)
    } else {
        Err(Error::MalformedNumericLiteral)
    }
}

/// Accepts the next letter of a preprocessor keyword.
fn directive(c: char, expected: char, next: State) -> (r: Transition)
    ensures
        r == directive_letter(c, expected, next),
{
    if c == expected {
        Ok(Some(next))
    } else {
        Err(Error::InvalidPreprocessorDirective)
    }
}

} // verus!
