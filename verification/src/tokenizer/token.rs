//! The token vocabulary, and the token that each final state of the lexer
//! stands for.

use vstd::prelude::*;
use vstd::string::StrSliceExecFns;
use vstd::string::StringExecFns;

use super::state::State;
use crate::chars::same_text;

verus! {

/// The lexical categories.
#[derive(Clone, Copy, PartialEq, Eq, Debug, Structural)]
pub enum TokenKind {
    // values
    Identifier,
    BinLiteral,
    HexLiteral,
    DecLiteral,
    StrLiteral,
    CharLiteral,
    BoolLiteral,
    UndefinedLiteral,
    // comments
    Comment,
    DocComment,
    // bitwise operators
    And,
    Or,
    Xor,
    Inv,
    LShift,
    RShift,
    AndEqual,
    OrEqual,
    XorEqual,
    LShiftEqual,
    RShiftEqual,
    // boolean operators
    BAnd,
    BOr,
    Bang,
    // arithmetic operators
    Plus,
    Minus,
    Star,
    Slash,
    Pct,
    Exp,
    PlusEqual,
    MinusEqual,
    StarEqual,
    SlashEqual,
    PctEqual,
    ExpEqual,
    PlusPlus,
    MinusMinus,
    // comparison operators
    Equal,
    Less,
    More,
    NotEqual,
    LessEqual,
    MoreEqual,
    Assign,
    // accessors
    Hash,
    At,
    // control flow
    Question,
    Colon,
    Pipe,
    Underscore,
    // delimiters
    LBrack,
    RBrack,
    LParen,
    RParen,
    RBrace,
    LBrace,
    Comma,
    Dot,
    DotDotDot,
    Semi,
    EOL,
    BOF,
    EOF,
    // keywords
    For,
    Do,
    While,
    Until,
    Repeat,
    Loop,
    With,
    If,
    Else,
    Switch,
    Case,
    Default,
    Break,
    Continue,
    Return,
    Exit,
    Var,
    Globalvar,
    Enum,
    Global,
    HashMacro,
    HashPragma,
    Div,
    Mod,
    Argument,
    // reserved words
    Public,
    Protected,
    Private,
    Let,
    Const,
    Property,
    Method,
    Function,
    Local,
    Struct,
    Class,
    Trait,
    Interface,
    Protocol,
    Extension,
    Implementation,
    Type,
    Data,
    In,
    Is,
    Of,
    TypeOf,
    InstanceOf,
    Match,
    Otherwise,
    Throw,
    Catch,
    Try,
    Unreachable,
    Null,
}

/// One token. Identifiers, literals and doc comments carry the text they
/// were read from; every other token is a bare tag.
#[derive(Debug, PartialEq, Eq)]
pub enum Token {
    // values
    Identifier(String),
    BinLiteral(String),
    HexLiteral(String),
    DecLiteral(String),
    StrLiteral(String),
    CharLiteral(String),
    BoolLiteral(String),
    UndefinedLiteral,
    // comments
    Comment,
    DocComment(String),
    // bitwise operators
    And,
    Or,
    Xor,
    Inv,
    LShift,
    RShift,
    AndEqual,
    OrEqual,
    XorEqual,
    LShiftEqual,
    RShiftEqual,
    // boolean operators
    BAnd,
    BOr,
    Bang,
    // arithmetic operators
    Plus,
    Minus,
    Star,
    Slash,
    Pct,
    Exp,
    PlusEqual,
    MinusEqual,
    StarEqual,
    SlashEqual,
    PctEqual,
    ExpEqual,
    PlusPlus,
    MinusMinus,
    // comparison operators
    Equal,
    Less,
    More,
    NotEqual,
    LessEqual,
    MoreEqual,
    Assign,
    // accessors
    Hash,
    At,
    // control flow
    Question,
    Colon,
    Pipe,
    Underscore,
    // delimiters
    LBrack,
    RBrack,
    LParen,
    RParen,
    RBrace,
    LBrace,
    Comma,
    Dot,
    DotDotDot,
    Semi,
    EOL,
    BOF,
    EOF,
    // keywords
    For,
    Do,
    While,
    Until,
    Repeat,
    Loop,
    With,
    If,
    Else,
    Switch,
    Case,
    Default,
    Break,
    Continue,
    Return,
    Exit,
    Var,
    Globalvar,
    Enum,
    Global,
    HashMacro,
    HashPragma,
    Div,
    Mod,
    Argument,
    // reserved words
    Public,
    Protected,
    Private,
    Let,
    Const,
    Property,
    Method,
    Function,
    Local,
    Struct,
    Class,
    Trait,
    Interface,
    Protocol,
    Extension,
    Implementation,
    Type,
    Data,
    In,
    Is,
    Of,
    TypeOf,
    InstanceOf,
    Match,
    Otherwise,
    Throw,
    Catch,
    Try,
    Unreachable,
    Null,
}

/// A token as the contracts see it: its category, and its text, which is
/// empty for a bare tag.
pub struct Lexeme {
    pub kind: TokenKind,
    pub text: Seq<char>,
}

impl View for Token {
    type V = Lexeme;

    open spec fn view(&self) -> Lexeme {
        Lexeme { kind: self.category(), text: self.content() }
    }
}

impl Clone for Token {
    fn clone(&self) -> (r: Self)
        ensures
            r@ == self@,
    {
        match self {
            Token::Identifier(text) => Token::Identifier(text.clone()),
            Token::BinLiteral(text) => Token::BinLiteral(text.clone()),
            Token::HexLiteral(text) => Token::HexLiteral(text.clone()),
            Token::DecLiteral(text) => Token::DecLiteral(text.clone()),
            Token::StrLiteral(text) => Token::StrLiteral(text.clone()),
            Token::CharLiteral(text) => Token::CharLiteral(text.clone()),
            Token::BoolLiteral(text) => Token::BoolLiteral(text.clone()),
            Token::DocComment(text) => Token::DocComment(text.clone()),
            other => Token::bare(other.kind()),
        }
    }
}

/// Whether the tokens of a category carry the text they were read from.
pub open spec fn carries_text(kind: TokenKind) -> bool {
    ||| kind == TokenKind::Identifier
    ||| kind == TokenKind::BinLiteral
    ||| kind == TokenKind::HexLiteral
    ||| kind == TokenKind::DecLiteral
    ||| kind == TokenKind::StrLiteral
    ||| kind == TokenKind::CharLiteral
    ||| kind == TokenKind::BoolLiteral
    ||| kind == TokenKind::DocComment
}

/// A token that carries no text.
pub open spec fn bare(kind: TokenKind) -> Lexeme {
    Lexeme { kind, text: Seq::empty() }
}

/// `text` without its first `front` and its last `back` characters, and
/// nothing where it is shorter than that.
pub open spec fn trimmed(text: Seq<char>, front: nat, back: nat) -> Seq<char> {
    if front + back <= text.len() {
        text.subrange(front as int, text.len() - back)
    } else {
        Seq::empty()
    }
}

/// The category of a reserved word, and `None` for any other text.
pub open spec fn keyword(text: Seq<char>) -> Option<TokenKind> {
    if text == "for"@ {
        Some(TokenKind::For)
    } else if text == "do"@ {
        Some(TokenKind::Do)
    } else if text == "while"@ {
        Some(TokenKind::While)
    } else if text == "until"@ {
        Some(TokenKind::Until)
    } else if text == "repeat"@ {
        Some(TokenKind::Repeat)
    } else if text == "loop"@ {
        Some(TokenKind::Loop)
    } else if text == "with"@ {
        Some(TokenKind::With)
    } else if text == "if"@ {
        Some(TokenKind::If)
    } else if text == "else"@ {
        Some(TokenKind::Else)
    } else if text == "switch"@ {
        Some(TokenKind::Switch)
    } else if text == "case"@ {
        Some(TokenKind::Case)
    } else if text == "default"@ {
        Some(TokenKind::Default)
    } else if text == "break"@ {
        Some(TokenKind::Break)
    } else if text == "continue"@ {
        Some(TokenKind::Continue)
    } else if text == "return"@ {
        Some(TokenKind::Return)
    } else if text == "exit"@ {
        Some(TokenKind::Exit)
    } else if text == "var"@ {
        Some(TokenKind::Var)
    } else if text == "globalvar"@ {
        Some(TokenKind::Globalvar)
    } else if text == "enum"@ {
        Some(TokenKind::Enum)
    } else if text == "global"@ {
        Some(TokenKind::Global)
    } else if text == "div"@ {
        Some(TokenKind::Div)
    } else if text == "mod"@ {
        Some(TokenKind::Mod)
    } else if text == "argument"@ {
        Some(TokenKind::Argument)
    } else if text == "public"@ {
        Some(TokenKind::Public)
    } else if text == "protected"@ {
        Some(TokenKind::Protected)
    } else if text == "private"@ {
        Some(TokenKind::Private)
    } else if text == "let"@ {
        Some(TokenKind::Let)
    } else if text == "const"@ {
        Some(TokenKind::Const)
    } else if text == "property"@ {
        Some(TokenKind::Property)
    } else if text == "method"@ {
        Some(TokenKind::Method)
    } else if text == "function"@ {
        Some(TokenKind::Function)
    } else if text == "local"@ {
        Some(TokenKind::Local)
    } else if text == "struct"@ {
        Some(TokenKind::Struct)
    } else if text == "class"@ {
        Some(TokenKind::Class)
    } else if text == "trait"@ {
        Some(TokenKind::Trait)
    } else if text == "interface"@ {
        Some(TokenKind::Interface)
    } else if text == "protocol"@ {
        Some(TokenKind::Protocol)
    } else if text == "extension"@ {
        Some(TokenKind::Extension)
    } else if text == "implementation"@ {
        Some(TokenKind::Implementation)
    } else if text == "type"@ {
        Some(TokenKind::Type)
    } else if text == "data"@ {
        Some(TokenKind::Data)
    } else if text == "in"@ {
        Some(TokenKind::In)
    } else if text == "is"@ {
        Some(TokenKind::Is)
    } else if text == "of"@ {
        Some(TokenKind::Of)
    } else if text == "typeof"@ {
        Some(TokenKind::TypeOf)
    } else if text == "instanceof"@ {
        Some(TokenKind::InstanceOf)
    } else if text == "match"@ {
        Some(TokenKind::Match)
    } else if text == "otherwise"@ {
        Some(TokenKind::Otherwise)
    } else if text == "throw"@ {
        Some(TokenKind::Throw)
    } else if text == "catch"@ {
        Some(TokenKind::Catch)
    } else if text == "try"@ {
        Some(TokenKind::Try)
    } else if text == "unreachable"@ {
        Some(TokenKind::Unreachable)
    } else if text == "null"@ {
        Some(TokenKind::Null)
    } else {
        None
    }
}

/// The token for a text that the lexer read as an identifier: a boolean or
/// `undefined` literal, a reserved word, or an identifier.
pub open spec fn word(text: Seq<char>) -> Lexeme {
    if text == "true"@ || text == "false"@ {
        Lexeme { kind: TokenKind::BoolLiteral, text }
    } else if text == "undefined"@ {
        bare(TokenKind::UndefinedLiteral)
    } else {
        match keyword(text) {
            Some(kind) => bare(kind),
            None => Lexeme { kind: TokenKind::Identifier, text },
        }
    }
}

/// The category of each state that stands for one fixed token.
pub open spec fn fixed_kind(state: State) -> Option<TokenKind> {
    match state {
        State::Plus => Some(TokenKind::Plus),
        State::Minus => Some(TokenKind::Minus),
        State::Star => Some(TokenKind::Star),
        State::Slash => Some(TokenKind::Slash),
        State::Percent => Some(TokenKind::Pct),
        State::StarStar => Some(TokenKind::Exp),
        State::PlusEqual => Some(TokenKind::PlusEqual),
        State::MinusEqual => Some(TokenKind::MinusEqual),
        State::StarEqual => Some(TokenKind::StarEqual),
        State::SlashEqual => Some(TokenKind::SlashEqual),
        State::PercentEqual => Some(TokenKind::PctEqual),
        State::StarStarEqual => Some(TokenKind::ExpEqual),
        State::PlusPlus => Some(TokenKind::PlusPlus),
        State::MinusMinus => Some(TokenKind::MinusMinus),
        State::Equal => Some(TokenKind::Assign),
        State::EqualEqual => Some(TokenKind::Equal),
        State::NotEqual => Some(TokenKind::NotEqual),
        State::Less => Some(TokenKind::Less),
        State::LessEqual => Some(TokenKind::LessEqual),
        State::More => Some(TokenKind::More),
        State::MoreEqual => Some(TokenKind::MoreEqual),
        State::And => Some(TokenKind::And),
        State::AndAnd => Some(TokenKind::BAnd),
        State::Bar => Some(TokenKind::Or),
        State::BarBar => Some(TokenKind::BOr),
        State::Xor => Some(TokenKind::Xor),
        State::AndEqual => Some(TokenKind::AndEqual),
        State::BarEqual => Some(TokenKind::OrEqual),
        State::XorEqual => Some(TokenKind::XorEqual),
        State::Tilde => Some(TokenKind::Inv),
        State::Bang => Some(TokenKind::Bang),
        State::LShift => Some(TokenKind::LShift),
        State::LShiftEqual => Some(TokenKind::LShiftEqual),
        State::RShift => Some(TokenKind::RShift),
        State::RShiftEqual => Some(TokenKind::RShiftEqual),
        State::Question => Some(TokenKind::Question),
        State::Colon => Some(TokenKind::Colon),
        State::Hash => Some(TokenKind::Hash),
        State::At => Some(TokenKind::At),
        State::Underscore => Some(TokenKind::Underscore),
        State::BarMore => Some(TokenKind::Pipe),
        State::Dot => Some(TokenKind::Dot),
        State::Comma => Some(TokenKind::Comma),
        State::Semi => Some(TokenKind::Semi),
        State::DotDotDot => Some(TokenKind::DotDotDot),
        State::HashMacro => Some(TokenKind::HashMacro),
        State::HashPragma => Some(TokenKind::HashPragma),
        State::EOL => Some(TokenKind::EOL),
        State::LParen => Some(TokenKind::LParen),
        State::RParen => Some(TokenKind::RParen),
        State::LBrack => Some(TokenKind::LBrack),
        State::RBrack => Some(TokenKind::RBrack),
        State::LBrace => Some(TokenKind::LBrace),
        State::RBrace => Some(TokenKind::RBrace),
        _ => None,
    }
}

/// The token that is complete when the lexer leaves `state` having read
/// `text`, and `None` for a state in which no token is complete.
///
/// Numeric literals lose their radix prefix, string and character literals
/// their quotes, and doc comments their marker; comments keep no text.
pub open spec fn lexeme_of(state: State, text: Seq<char>) -> Option<Lexeme> {
    match state {
        State::Identifier => Some(word(text)),
        State::Zero | State::Dec | State::DecFloat | State::DecExp => Some(
            Lexeme { kind: TokenKind::DecLiteral, text },
        ),
        State::Hex => Some(Lexeme { kind: TokenKind::HexLiteral, text: trimmed(text, 2, 0) }),
        State::Bin => Some(Lexeme { kind: TokenKind::BinLiteral, text: trimmed(text, 2, 0) }),
        State::Str => Some(Lexeme { kind: TokenKind::StrLiteral, text: trimmed(text, 1, 1) }),
        State::Char => Some(Lexeme { kind: TokenKind::CharLiteral, text: trimmed(text, 1, 1) }),
        State::SlashSlashSlash | State::DocComment => Some(
            Lexeme { kind: TokenKind::DocComment, text: trimmed(text, 3, 0) },
        ),
        State::SlashSlash | State::LineComment => Some(bare(TokenKind::Comment)),
        State::SlashStar(depth) => if depth == 0 {
            Some(bare(TokenKind::Comment))
        } else {
            None
        },
        _ => match fixed_kind(state) {
            Some(kind) => Some(bare(kind)),
            None => None,
        },
    }
}

/// Looks a word up among the reserved words.
fn reserved(text: &str) -> (r: Option<TokenKind>)
    ensures
        r == keyword(text@),
{
    if same_text(text, "for") {
        Some(TokenKind::For)
    } else if same_text(text, "do") {
        Some(TokenKind::Do)
    } else if same_text(text, "while") {
        Some(TokenKind::While)
    } else if same_text(text, "until") {
        Some(TokenKind::Until)
    } else if same_text(text, "repeat") {
        Some(TokenKind::Repeat)
    } else if same_text(text, "loop") {
        Some(TokenKind::Loop)
    } else if same_text(text, "with") {
        Some(TokenKind::With)
    } else if same_text(text, "if") {
        Some(TokenKind::If)
    } else if same_text(text, "else") {
        Some(TokenKind::Else)
    } else if same_text(text, "switch") {
        Some(TokenKind::Switch)
    } else if same_text(text, "case") {
        Some(TokenKind::Case)
    } else if same_text(text, "default") {
        Some(TokenKind::Default)
    } else if same_text(text, "break") {
        Some(TokenKind::Break)
    } else if same_text(text, "continue") {
        Some(TokenKind::Continue)
    } else if same_text(text, "return") {
        Some(TokenKind::Return)
    } else if same_text(text, "exit") {
        Some(TokenKind::Exit)
    } else if same_text(text, "var") {
        Some(TokenKind::Var)
    } else if same_text(text, "globalvar") {
        Some(TokenKind::Globalvar)
    } else if same_text(text, "enum") {
        Some(TokenKind::Enum)
    } else if same_text(text, "global") {
        Some(TokenKind::Global)
    } else if same_text(text, "div") {
        Some(TokenKind::Div)
    } else if same_text(text, "mod") {
        Some(TokenKind::Mod)
    } else if same_text(text, "argument") {
        Some(TokenKind::Argument)
    } else if same_text(text, "public") {
        Some(TokenKind::Public)
    } else if same_text(text, "protected") {
        Some(TokenKind::Protected)
    } else if same_text(text, "private") {
        Some(TokenKind::Private)
    } else if same_text(text, "let") {
        Some(TokenKind::Let)
    } else if same_text(text, "const") {
        Some(TokenKind::Const)
    } else if same_text(text, "property") {
        Some(TokenKind::Property)
    } else if same_text(text, "method") {
        Some(TokenKind::Method)
    } else if same_text(text, "function") {
        Some(TokenKind::Function)
    } else if same_text(text, "local") {
        Some(TokenKind::Local)
    } else if same_text(text, "struct") {
        Some(TokenKind::Struct)
    } else if same_text(text, "class") {
        Some(TokenKind::Class)
    } else if same_text(text, "trait") {
        Some(TokenKind::Trait)
    } else if same_text(text, "interface") {
        Some(TokenKind::Interface)
    } else if same_text(text, "protocol") {
        Some(TokenKind::Protocol)
    } else if same_text(text, "extension") {
        Some(TokenKind::Extension)
    } else if same_text(text, "implementation") {
        Some(TokenKind::Implementation)
    } else if same_text(text, "type") {
        Some(TokenKind::Type)
    } else if same_text(text, "data") {
        Some(TokenKind::Data)
    } else if same_text(text, "in") {
        Some(TokenKind::In)
    } else if same_text(text, "is") {
        Some(TokenKind::Is)
    } else if same_text(text, "of") {
        Some(TokenKind::Of)
    } else if same_text(text, "typeof") {
        Some(TokenKind::TypeOf)
    } else if same_text(text, "instanceof") {
        Some(TokenKind::InstanceOf)
    } else if same_text(text, "match") {
        Some(TokenKind::Match)
    } else if same_text(text, "otherwise") {
        Some(TokenKind::Otherwise)
    } else if same_text(text, "throw") {
        Some(TokenKind::Throw)
    } else if same_text(text, "catch") {
        Some(TokenKind::Catch)
    } else if same_text(text, "try") {
        Some(TokenKind::Try)
    } else if same_text(text, "unreachable") {
        Some(TokenKind::Unreachable)
    } else if same_text(text, "null") {
        Some(TokenKind::Null)
    } else {
        None
    }
}

/// Cuts `front` characters off the start of `text` and `back` off its end.
fn trim(text: &str, front: usize, back: usize) -> (r: String)
    requires
        front + back <= usize::MAX,
    ensures
        r@ == trimmed(text@, front as nat, back as nat),
{
    let len: usize = text.unicode_len();
    if front + back <= len {
        String::from_str(text.substring_char(front, len - back))
    } else {
        String::new()
    }
}

/// The category of a state that stands for one fixed token.
fn fixed(state: State) -> (r: Option<TokenKind>)
    ensures
        r == fixed_kind(state),
{
    match state {
        State::Plus => Some(TokenKind::Plus),
        State::Minus => Some(TokenKind::Minus),
        State::Star => Some(TokenKind::Star),
        State::Slash => Some(TokenKind::Slash),
        State::Percent => Some(TokenKind::Pct),
        State::StarStar => Some(TokenKind::Exp),
        State::PlusEqual => Some(TokenKind::PlusEqual),
        State::MinusEqual => Some(TokenKind::MinusEqual),
        State::StarEqual => Some(TokenKind::StarEqual),
        State::SlashEqual => Some(TokenKind::SlashEqual),
        State::PercentEqual => Some(TokenKind::PctEqual),
        State::StarStarEqual => Some(TokenKind::ExpEqual),
        State::PlusPlus => Some(TokenKind::PlusPlus),
        State::MinusMinus => Some(TokenKind::MinusMinus),
        State::Equal => Some(TokenKind::Assign),
        State::EqualEqual => Some(TokenKind::Equal),
        State::NotEqual => Some(TokenKind::NotEqual),
        State::Less => Some(TokenKind::Less),
        State::LessEqual => Some(TokenKind::LessEqual),
        State::More => Some(TokenKind::More),
        State::MoreEqual => Some(TokenKind::MoreEqual),
        State::And => Some(TokenKind::And),
        State::AndAnd => Some(TokenKind::BAnd),
        State::Bar => Some(TokenKind::Or),
        State::BarBar => Some(TokenKind::BOr),
        State::Xor => Some(TokenKind::Xor),
        State::AndEqual => Some(TokenKind::AndEqual),
        State::BarEqual => Some(TokenKind::OrEqual),
        State::XorEqual => Some(TokenKind::XorEqual),
        State::Tilde => Some(TokenKind::Inv),
        State::Bang => Some(TokenKind::Bang),
        State::LShift => Some(TokenKind::LShift),
        State::LShiftEqual => Some(TokenKind::LShiftEqual),
        State::RShift => Some(TokenKind::RShift),
        State::RShiftEqual => Some(TokenKind::RShiftEqual),
        State::Question => Some(TokenKind::Question),
        State::Colon => Some(TokenKind::Colon),
        State::Hash => Some(TokenKind::Hash),
        State::At => Some(TokenKind::At),
        State::Underscore => Some(TokenKind::Underscore),
        State::BarMore => Some(TokenKind::Pipe),
        State::Dot => Some(TokenKind::Dot),
        State::Comma => Some(TokenKind::Comma),
        State::Semi => Some(TokenKind::Semi),
        State::DotDotDot => Some(TokenKind::DotDotDot),
        State::HashMacro => Some(TokenKind::HashMacro),
        State::HashPragma => Some(TokenKind::HashPragma),
        State::EOL => Some(TokenKind::EOL),
        State::LParen => Some(TokenKind::LParen),
        State::RParen => Some(TokenKind::RParen),
        State::LBrack => Some(TokenKind::LBrack),
        State::RBrack => Some(TokenKind::RBrack),
        State::LBrace => Some(TokenKind::LBrace),
        State::RBrace => Some(TokenKind::RBrace),
        _ => None,
    }
}

impl Token {
    /// The category of the token.
    pub open spec fn category(self) -> TokenKind {
        match self {
            Token::Identifier(_) => TokenKind::Identifier,
            Token::BinLiteral(_) => TokenKind::BinLiteral,
            Token::HexLiteral(_) => TokenKind::HexLiteral,
            Token::DecLiteral(_) => TokenKind::DecLiteral,
            Token::StrLiteral(_) => TokenKind::StrLiteral,
            Token::CharLiteral(_) => TokenKind::CharLiteral,
            Token::BoolLiteral(_) => TokenKind::BoolLiteral,
            Token::UndefinedLiteral => TokenKind::UndefinedLiteral,
            Token::Comment => TokenKind::Comment,
            Token::DocComment(_) => TokenKind::DocComment,
            Token::And => TokenKind::And,
            Token::Or => TokenKind::Or,
            Token::Xor => TokenKind::Xor,
            Token::Inv => TokenKind::Inv,
            Token::LShift => TokenKind::LShift,
            Token::RShift => TokenKind::RShift,
            Token::AndEqual => TokenKind::AndEqual,
            Token::OrEqual => TokenKind::OrEqual,
            Token::XorEqual => TokenKind::XorEqual,
            Token::LShiftEqual => TokenKind::LShiftEqual,
            Token::RShiftEqual => TokenKind::RShiftEqual,
            Token::BAnd => TokenKind::BAnd,
            Token::BOr => TokenKind::BOr,
            Token::Bang => TokenKind::Bang,
            Token::Plus => TokenKind::Plus,
            Token::Minus => TokenKind::Minus,
            Token::Star => TokenKind::Star,
            Token::Slash => TokenKind::Slash,
            Token::Pct => TokenKind::Pct,
            Token::Exp => TokenKind::Exp,
            Token::PlusEqual => TokenKind::PlusEqual,
            Token::MinusEqual => TokenKind::MinusEqual,
            Token::StarEqual => TokenKind::StarEqual,
            Token::SlashEqual => TokenKind::SlashEqual,
            Token::PctEqual => TokenKind::PctEqual,
            Token::ExpEqual => TokenKind::ExpEqual,
            Token::PlusPlus => TokenKind::PlusPlus,
            Token::MinusMinus => TokenKind::MinusMinus,
            Token::Equal => TokenKind::Equal,
            Token::Less => TokenKind::Less,
            Token::More => TokenKind::More,
            Token::NotEqual => TokenKind::NotEqual,
            Token::LessEqual => TokenKind::LessEqual,
            Token::MoreEqual => TokenKind::MoreEqual,
            Token::Assign => TokenKind::Assign,
            Token::Hash => TokenKind::Hash,
            Token::At => TokenKind::At,
            Token::Question => TokenKind::Question,
            Token::Colon => TokenKind::Colon,
            Token::Pipe => TokenKind::Pipe,
            Token::Underscore => TokenKind::Underscore,
            Token::LBrack => TokenKind::LBrack,
            Token::RBrack => TokenKind::RBrack,
            Token::LParen => TokenKind::LParen,
            Token::RParen => TokenKind::RParen,
            Token::RBrace => TokenKind::RBrace,
            Token::LBrace => TokenKind::LBrace,
            Token::Comma => TokenKind::Comma,
            Token::Dot => TokenKind::Dot,
            Token::DotDotDot => TokenKind::DotDotDot,
            Token::Semi => TokenKind::Semi,
            Token::EOL => TokenKind::EOL,
            Token::BOF => TokenKind::BOF,
            Token::EOF => TokenKind::EOF,
            Token::For => TokenKind::For,
            Token::Do => TokenKind::Do,
            Token::While => TokenKind::While,
            Token::Until => TokenKind::Until,
            Token::Repeat => TokenKind::Repeat,
            Token::Loop => TokenKind::Loop,
            Token::With => TokenKind::With,
            Token::If => TokenKind::If,
            Token::Else => TokenKind::Else,
            Token::Switch => TokenKind::Switch,
            Token::Case => TokenKind::Case,
            Token::Default => TokenKind::Default,
            Token::Break => TokenKind::Break,
            Token::Continue => TokenKind::Continue,
            Token::Return => TokenKind::Return,
            Token::Exit => TokenKind::Exit,
            Token::Var => TokenKind::Var,
            Token::Globalvar => TokenKind::Globalvar,
            Token::Enum => TokenKind::Enum,
            Token::Global => TokenKind::Global,
            Token::HashMacro => TokenKind::HashMacro,
            Token::HashPragma => TokenKind::HashPragma,
            Token::Div => TokenKind::Div,
            Token::Mod => TokenKind::Mod,
            Token::Argument => TokenKind::Argument,
            Token::Public => TokenKind::Public,
            Token::Protected => TokenKind::Protected,
            Token::Private => TokenKind::Private,
            Token::Let => TokenKind::Let,
            Token::Const => TokenKind::Const,
            Token::Property => TokenKind::Property,
            Token::Method => TokenKind::Method,
            Token::Function => TokenKind::Function,
            Token::Local => TokenKind::Local,
            Token::Struct => TokenKind::Struct,
            Token::Class => TokenKind::Class,
            Token::Trait => TokenKind::Trait,
            Token::Interface => TokenKind::Interface,
            Token::Protocol => TokenKind::Protocol,
            Token::Extension => TokenKind::Extension,
            Token::Implementation => TokenKind::Implementation,
            Token::Type => TokenKind::Type,
            Token::Data => TokenKind::Data,
            Token::In => TokenKind::In,
            Token::Is => TokenKind::Is,
            Token::Of => TokenKind::Of,
            Token::TypeOf => TokenKind::TypeOf,
            Token::InstanceOf => TokenKind::InstanceOf,
            Token::Match => TokenKind::Match,
            Token::Otherwise => TokenKind::Otherwise,
            Token::Throw => TokenKind::Throw,
            Token::Catch => TokenKind::Catch,
            Token::Try => TokenKind::Try,
            Token::Unreachable => TokenKind::Unreachable,
            Token::Null => TokenKind::Null,
        }
    }

    /// The text that the token carries.
    pub open spec fn content(self) -> Seq<char> {
        match self {
            Token::Identifier(text)
            | Token::BinLiteral(text)
            | Token::HexLiteral(text)
            | Token::DecLiteral(text)
            | Token::StrLiteral(text)
            | Token::CharLiteral(text)
            | Token::BoolLiteral(text)
            | Token::DocComment(text) => text@,
            _ => Seq::empty(),
        }
    }

    /// The category of the token.
    pub fn kind(&self) -> (r: TokenKind)
        ensures
            r == self@.kind,
    {
        match self {
            Token::Identifier(_) => TokenKind::Identifier,
            Token::BinLiteral(_) => TokenKind::BinLiteral,
            Token::HexLiteral(_) => TokenKind::HexLiteral,
            Token::DecLiteral(_) => TokenKind::DecLiteral,
            Token::StrLiteral(_) => TokenKind::StrLiteral,
            Token::CharLiteral(_) => TokenKind::CharLiteral,
            Token::BoolLiteral(_) => TokenKind::BoolLiteral,
            Token::UndefinedLiteral => TokenKind::UndefinedLiteral,
            Token::Comment => TokenKind::Comment,
            Token::DocComment(_) => TokenKind::DocComment,
            Token::And => TokenKind::And,
            Token::Or => TokenKind::Or,
            Token::Xor => TokenKind::Xor,
            Token::Inv => TokenKind::Inv,
            Token::LShift => TokenKind::LShift,
            Token::RShift => TokenKind::RShift,
            Token::AndEqual => TokenKind::AndEqual,
            Token::OrEqual => TokenKind::OrEqual,
            Token::XorEqual => TokenKind::XorEqual,
            Token::LShiftEqual => TokenKind::LShiftEqual,
            Token::RShiftEqual => TokenKind::RShiftEqual,
            Token::BAnd => TokenKind::BAnd,
            Token::BOr => TokenKind::BOr,
            Token::Bang => TokenKind::Bang,
            Token::Plus => TokenKind::Plus,
            Token::Minus => TokenKind::Minus,
            Token::Star => TokenKind::Star,
            Token::Slash => TokenKind::Slash,
            Token::Pct => TokenKind::Pct,
            Token::Exp => TokenKind::Exp,
            Token::PlusEqual => TokenKind::PlusEqual,
            Token::MinusEqual => TokenKind::MinusEqual,
            Token::StarEqual => TokenKind::StarEqual,
            Token::SlashEqual => TokenKind::SlashEqual,
            Token::PctEqual => TokenKind::PctEqual,
            Token::ExpEqual => TokenKind::ExpEqual,
            Token::PlusPlus => TokenKind::PlusPlus,
            Token::MinusMinus => TokenKind::MinusMinus,
            Token::Equal => TokenKind::Equal,
            Token::Less => TokenKind::Less,
            Token::More => TokenKind::More,
            Token::NotEqual => TokenKind::NotEqual,
            Token::LessEqual => TokenKind::LessEqual,
            Token::MoreEqual => TokenKind::MoreEqual,
            Token::Assign => TokenKind::Assign,
            Token::Hash => TokenKind::Hash,
            Token::At => TokenKind::At,
            Token::Question => TokenKind::Question,
            Token::Colon => TokenKind::Colon,
            Token::Pipe => TokenKind::Pipe,
            Token::Underscore => TokenKind::Underscore,
            Token::LBrack => TokenKind::LBrack,
            Token::RBrack => TokenKind::RBrack,
            Token::LParen => TokenKind::LParen,
            Token::RParen => TokenKind::RParen,
            Token::RBrace => TokenKind::RBrace,
            Token::LBrace => TokenKind::LBrace,
            Token::Comma => TokenKind::Comma,
            Token::Dot => TokenKind::Dot,
            Token::DotDotDot => TokenKind::DotDotDot,
            Token::Semi => TokenKind::Semi,
            Token::EOL => TokenKind::EOL,
            Token::BOF => TokenKind::BOF,
            Token::EOF => TokenKind::EOF,
            Token::For => TokenKind::For,
            Token::Do => TokenKind::Do,
            Token::While => TokenKind::While,
            Token::Until => TokenKind::Until,
            Token::Repeat => TokenKind::Repeat,
            Token::Loop => TokenKind::Loop,
            Token::With => TokenKind::With,
            Token::If => TokenKind::If,
            Token::Else => TokenKind::Else,
            Token::Switch => TokenKind::Switch,
            Token::Case => TokenKind::Case,
            Token::Default => TokenKind::Default,
            Token::Break => TokenKind::Break,
            Token::Continue => TokenKind::Continue,
            Token::Return => TokenKind::Return,
            Token::Exit => TokenKind::Exit,
            Token::Var => TokenKind::Var,
            Token::Globalvar => TokenKind::Globalvar,
            Token::Enum => TokenKind::Enum,
            Token::Global => TokenKind::Global,
            Token::HashMacro => TokenKind::HashMacro,
            Token::HashPragma => TokenKind::HashPragma,
            Token::Div => TokenKind::Div,
            Token::Mod => TokenKind::Mod,
            Token::Argument => TokenKind::Argument,
            Token::Public => TokenKind::Public,
            Token::Protected => TokenKind::Protected,
            Token::Private => TokenKind::Private,
            Token::Let => TokenKind::Let,
            Token::Const => TokenKind::Const,
            Token::Property => TokenKind::Property,
            Token::Method => TokenKind::Method,
            Token::Function => TokenKind::Function,
            Token::Local => TokenKind::Local,
            Token::Struct => TokenKind::Struct,
            Token::Class => TokenKind::Class,
            Token::Trait => TokenKind::Trait,
            Token::Interface => TokenKind::Interface,
            Token::Protocol => TokenKind::Protocol,
            Token::Extension => TokenKind::Extension,
            Token::Implementation => TokenKind::Implementation,
            Token::Type => TokenKind::Type,
            Token::Data => TokenKind::Data,
            Token::In => TokenKind::In,
            Token::Is => TokenKind::Is,
            Token::Of => TokenKind::Of,
            Token::TypeOf => TokenKind::TypeOf,
            Token::InstanceOf => TokenKind::InstanceOf,
            Token::Match => TokenKind::Match,
            Token::Otherwise => TokenKind::Otherwise,
            Token::Throw => TokenKind::Throw,
            Token::Catch => TokenKind::Catch,
            Token::Try => TokenKind::Try,
            Token::Unreachable => TokenKind::Unreachable,
            Token::Null => TokenKind::Null,
        }
    }

    /// The text that the token carries, if it is of a category that
    /// carries one.
    pub fn text(&self) -> (r: Option<&String>)
        ensures
            match r {
                Some(text) => carries_text(self@.kind) && text@ == self@.text,
                None => !carries_text(self@.kind) && self@.text == Seq::<char>::empty(),
            },
    {
        match self {
            Token::Identifier(text) | Token::BinLiteral(text) | Token::HexLiteral(text) | Token::DecLiteral(text) | Token::StrLiteral(text) | Token::CharLiteral(text) | Token::BoolLiteral(text) | Token::DocComment(text) => Some(text),
            _ => None,
        }
    }

    /// Takes the text out of the token; a bare tag gives an empty text.
    pub fn into_text(self) -> (r: String)
        ensures
            r@ == self@.text,
    {
        match self {
            Token::Identifier(text) | Token::BinLiteral(text) | Token::HexLiteral(text) | Token::DecLiteral(text) | Token::StrLiteral(text) | Token::CharLiteral(text) | Token::BoolLiteral(text) | Token::DocComment(text) => text,
            _ => String::new(),
        }
    }

    /// A token of the given category without text.
    pub fn bare(kind: TokenKind) -> (r: Token)
        ensures
            r@ == bare(kind),
    {
        match kind {
            TokenKind::Identifier => Token::Identifier(String::new()),
            TokenKind::BinLiteral => Token::BinLiteral(String::new()),
            TokenKind::HexLiteral => Token::HexLiteral(String::new()),
            TokenKind::DecLiteral => Token::DecLiteral(String::new()),
            TokenKind::StrLiteral => Token::StrLiteral(String::new()),
            TokenKind::CharLiteral => Token::CharLiteral(String::new()),
            TokenKind::BoolLiteral => Token::BoolLiteral(String::new()),
            TokenKind::UndefinedLiteral => Token::UndefinedLiteral,
            TokenKind::Comment => Token::Comment,
            TokenKind::DocComment => Token::DocComment(String::new()),
            TokenKind::And => Token::And,
            TokenKind::Or => Token::Or,
            TokenKind::Xor => Token::Xor,
            TokenKind::Inv => Token::Inv,
            TokenKind::LShift => Token::LShift,
            TokenKind::RShift => Token::RShift,
            TokenKind::AndEqual => Token::AndEqual,
            TokenKind::OrEqual => Token::OrEqual,
            TokenKind::XorEqual => Token::XorEqual,
            TokenKind::LShiftEqual => Token::LShiftEqual,
            TokenKind::RShiftEqual => Token::RShiftEqual,
            TokenKind::BAnd => Token::BAnd,
            TokenKind::BOr => Token::BOr,
            TokenKind::Bang => Token::Bang,
            TokenKind::Plus => Token::Plus,
            TokenKind::Minus => Token::Minus,
            TokenKind::Star => Token::Star,
            TokenKind::Slash => Token::Slash,
            TokenKind::Pct => Token::Pct,
            TokenKind::Exp => Token::Exp,
            TokenKind::PlusEqual => Token::PlusEqual,
            TokenKind::MinusEqual => Token::MinusEqual,
            TokenKind::StarEqual => Token::StarEqual,
            TokenKind::SlashEqual => Token::SlashEqual,
            TokenKind::PctEqual => Token::PctEqual,
            TokenKind::ExpEqual => Token::ExpEqual,
            TokenKind::PlusPlus => Token::PlusPlus,
            TokenKind::MinusMinus => Token::MinusMinus,
            TokenKind::Equal => Token::Equal,
            TokenKind::Less => Token::Less,
            TokenKind::More => Token::More,
            TokenKind::NotEqual => Token::NotEqual,
            TokenKind::LessEqual => Token::LessEqual,
            TokenKind::MoreEqual => Token::MoreEqual,
            TokenKind::Assign => Token::Assign,
            TokenKind::Hash => Token::Hash,
            TokenKind::At => Token::At,
            TokenKind::Question => Token::Question,
            TokenKind::Colon => Token::Colon,
            TokenKind::Pipe => Token::Pipe,
            TokenKind::Underscore => Token::Underscore,
            TokenKind::LBrack => Token::LBrack,
            TokenKind::RBrack => Token::RBrack,
            TokenKind::LParen => Token::LParen,
            TokenKind::RParen => Token::RParen,
            TokenKind::RBrace => Token::RBrace,
            TokenKind::LBrace => Token::LBrace,
            TokenKind::Comma => Token::Comma,
            TokenKind::Dot => Token::Dot,
            TokenKind::DotDotDot => Token::DotDotDot,
            TokenKind::Semi => Token::Semi,
            TokenKind::EOL => Token::EOL,
            TokenKind::BOF => Token::BOF,
            TokenKind::EOF => Token::EOF,
            TokenKind::For => Token::For,
            TokenKind::Do => Token::Do,
            TokenKind::While => Token::While,
            TokenKind::Until => Token::Until,
            TokenKind::Repeat => Token::Repeat,
            TokenKind::Loop => Token::Loop,
            TokenKind::With => Token::With,
            TokenKind::If => Token::If,
            TokenKind::Else => Token::Else,
            TokenKind::Switch => Token::Switch,
            TokenKind::Case => Token::Case,
            TokenKind::Default => Token::Default,
            TokenKind::Break => Token::Break,
            TokenKind::Continue => Token::Continue,
            TokenKind::Return => Token::Return,
            TokenKind::Exit => Token::Exit,
            TokenKind::Var => Token::Var,
            TokenKind::Globalvar => Token::Globalvar,
            TokenKind::Enum => Token::Enum,
            TokenKind::Global => Token::Global,
            TokenKind::HashMacro => Token::HashMacro,
            TokenKind::HashPragma => Token::HashPragma,
            TokenKind::Div => Token::Div,
            TokenKind::Mod => Token::Mod,
            TokenKind::Argument => Token::Argument,
            TokenKind::Public => Token::Public,
            TokenKind::Protected => Token::Protected,
            TokenKind::Private => Token::Private,
            TokenKind::Let => Token::Let,
            TokenKind::Const => Token::Const,
            TokenKind::Property => Token::Property,
            TokenKind::Method => Token::Method,
            TokenKind::Function => Token::Function,
            TokenKind::Local => Token::Local,
            TokenKind::Struct => Token::Struct,
            TokenKind::Class => Token::Class,
            TokenKind::Trait => Token::Trait,
            TokenKind::Interface => Token::Interface,
            TokenKind::Protocol => Token::Protocol,
            TokenKind::Extension => Token::Extension,
            TokenKind::Implementation => Token::Implementation,
            TokenKind::Type => Token::Type,
            TokenKind::Data => Token::Data,
            TokenKind::In => Token::In,
            TokenKind::Is => Token::Is,
            TokenKind::Of => Token::Of,
            TokenKind::TypeOf => Token::TypeOf,
            TokenKind::InstanceOf => Token::InstanceOf,
            TokenKind::Match => Token::Match,
            TokenKind::Otherwise => Token::Otherwise,
            TokenKind::Throw => Token::Throw,
            TokenKind::Catch => Token::Catch,
            TokenKind::Try => Token::Try,
            TokenKind::Unreachable => Token::Unreachable,
            TokenKind::Null => Token::Null,
        }
    }

    /// The token that the lexer has read when it leaves `state` with the
    /// characters `text`, if `state` completes one.
    pub fn new(state: State, text: String) -> (r: Option<Token>)
        ensures
            match lexeme_of(state, text@) {
                Some(lexeme) => r.is_some() && r.unwrap()@ == lexeme,
                None => r.is_none(),
            },
    {
        match state {
            State::Identifier => {
                if same_text(text.as_str(), "true") || same_text(text.as_str(), "false") {
                    Some(Token::BoolLiteral(text))
                } else if same_text(text.as_str(), "undefined") {
                    Some(Token::UndefinedLiteral)
                } else {
                    match reserved(text.as_str()) {
                        Some(kind) => Some(Token::bare(kind)),
                        None => Some(Token::Identifier(text)),
                    }
                }
            },
            State::Zero | State::Dec | State::DecFloat | State::DecExp => Some(
                Token::DecLiteral(text),
            ),
            State::Hex => Some(Token::HexLiteral(trim(text.as_str(), 2, 0))),
            State::Bin => Some(Token::BinLiteral(trim(text.as_str(), 2, 0))),
            State::Str => Some(Token::StrLiteral(trim(text.as_str(), 1, 1))),
            State::Char => Some(Token::CharLiteral(trim(text.as_str(), 1, 1))),
            State::SlashSlashSlash | State::DocComment => Some(
                Token::DocComment(trim(text.as_str(), 3, 0)),
            ),
            State::SlashSlash | State::LineComment => Some(Token::Comment),
            State::SlashStar(depth) => if depth == 0 {
                Some(Token::Comment)
            } else {
                None
            },
            _ => match fixed(state) {
                Some(kind) => Some(Token::bare(kind)),
                None => None,
            },
        }
    }
}

} // verus!
