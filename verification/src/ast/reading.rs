//! The printed form, read again: what the lexer reads from the text of a
//! tree are the tokens of the tree.

use vstd::prelude::*;

use super::model::BinaryOp;
use super::model::Expr;
use super::model::Invocation;
use super::model::Lit;
use super::model::Radix;
use super::model::Stmt;
use super::model::Unit;
use super::model::Val;
use super::compiled;
use super::parsed;
use super::render::char_text;
use super::render::docs_text;
use super::render::expression_text;
use super::render::invocation_text;
use super::render::line_text;
use super::render::lines_text;
use super::render::list_text;
use super::render::literal_text;
use super::render::number_text;
use super::render::operator_text;
use super::render::statement_text;
use super::render::unit_text;
use super::render::value_text;
use super::round_trip::docs_tokens;
use super::round_trip::expression_tokens;
use super::round_trip::invocation_tokens;
use super::round_trip::is_minimal;
use super::round_trip::is_simple;
use super::round_trip::line_end;
use super::round_trip::line_tokens;
use super::round_trip::lines_tokens;
use super::round_trip::list_tokens;
use super::round_trip::literal_token;
use super::round_trip::name_token;
use super::round_trip::operator_kind;
use super::round_trip::unit_tokens;
use super::round_trip::value_tokens;
use super::spelling::radix_kind;
use super::spelling::spelled_call;
use super::spelling::spelled_expression;
use super::spelling::spelled_list;
use super::spelling::spelled_literal;
use super::spelling::spelled_statement;
use super::spelling::spelled_unit;
use super::spelling::spelled_value;
use crate::chars::is_ascii_letter;
use crate::chars::is_space;
use crate::tokenizer::begin;
use crate::tokenizer::feed_all;
use crate::tokenizer::laws::closes;
use crate::tokenizer::laws::ends_before_punctuation;
use crate::tokenizer::laws::follows;
use crate::tokenizer::laws::fresh;
use crate::tokenizer::laws::is_doc_line;
use crate::tokenizer::laws::is_name;
use crate::tokenizer::laws::is_number;
use crate::tokenizer::laws::is_string;
use crate::tokenizer::laws::lemma_feed_all_is_feed_seq;
use crate::tokenizer::laws::lemma_letters_spell;
use crate::tokenizer::laws::lemma_reads_add;
use crate::tokenizer::laws::lemma_reads_blank;
use crate::tokenizer::laws::lemma_reads_one;
use crate::tokenizer::laws::lemma_reads_token;
use crate::tokenizer::laws::lemma_reads_two;
use crate::tokenizer::laws::lemma_scan_first;
use crate::tokenizer::laws::lemma_scan_nothing;
use crate::tokenizer::laws::lemma_scan_push;
use crate::tokenizer::laws::lemma_token_begins;
use crate::tokenizer::laws::prefixed;
use crate::tokenizer::laws::reads;
use crate::tokenizer::laws::scan;
use crate::tokenizer::laws::state_after;
use crate::tokenizer::lex;
use crate::tokenizer::state::State;
use crate::tokenizer::token::bare;
use crate::tokenizer::token::keyword;
use crate::tokenizer::token::lexeme_of;
use crate::tokenizer::token::word;
use crate::tokenizer::token::Lexeme;
use crate::tokenizer::token::TokenKind;

verus! {

/// Whether `text` is read as `tokens` and ends as a value does: it is not
/// empty, the last of its tokens is still being read when it ends, a
/// blank, a closing parenthesis, a comma and a semicolon can follow it,
/// and it begins neither with an equals sign nor with white space.
pub open spec fn reads_value(before: Seq<Lexeme>, text: Seq<char>, tokens: Seq<Lexeme>) -> bool {
    &&& text.len() > 0
    &&& reads(before, text, tokens)
    &&& state_after(before, text) != State::Start
    &&& ends_before_punctuation(state_after(before, text))
    &&& text[0] != '='
    &&& !is_space(text[0])
}

/// Whether every character of `text` is an ASCII letter.
pub open spec fn all_letters(text: Seq<char>) -> bool {
    forall|i: int| 0 <= i < text.len() ==> is_ascii_letter(#[trigger] text[i])
}

/// The words that the printer writes are reserved, each for its token,
/// and are made of ASCII letters.
pub proof fn lemma_reserved_words()
    ensures
        word("true"@) == (Lexeme { kind: TokenKind::BoolLiteral, text: "true"@ }),
        word("false"@) == (Lexeme { kind: TokenKind::BoolLiteral, text: "false"@ }),
        word("undefined"@) == bare(TokenKind::UndefinedLiteral),
        word("break"@) == bare(TokenKind::Break),
        word("continue"@) == bare(TokenKind::Continue),
        word("return"@) == bare(TokenKind::Return),
        word("exit"@) == bare(TokenKind::Exit),
        word("var"@) == bare(TokenKind::Var),
        word("globalvar"@) == bare(TokenKind::Globalvar),
        word("div"@) == bare(TokenKind::Div),
        word("mod"@) == bare(TokenKind::Mod),
        all_letters("true"@) && all_letters("false"@) && all_letters("undefined"@) && all_letters(
            "break"@,
        ) && all_letters("continue"@) && all_letters("return"@) && all_letters("exit"@)
            && all_letters("var"@) && all_letters("globalvar"@) && all_letters("div"@)
            && all_letters("mod"@),
        "true"@.len() > 0 && "false"@.len() > 0 && "undefined"@.len() > 0 && "break"@.len() > 0
            && "continue"@.len() > 0 && "return"@.len() > 0 && "exit"@.len() > 0 && "var"@.len()
            > 0 && "globalvar"@.len() > 0 && "div"@.len() > 0 && "mod"@.len() > 0,
{
    reveal_strlit("true");
    reveal_strlit("false");
    reveal_strlit("undefined");
    reveal_strlit("for");
    reveal_strlit("do");
    reveal_strlit("while");
    reveal_strlit("until");
    reveal_strlit("repeat");
    reveal_strlit("loop");
    reveal_strlit("with");
    reveal_strlit("if");
    reveal_strlit("else");
    reveal_strlit("switch");
    reveal_strlit("case");
    reveal_strlit("default");
    reveal_strlit("break");
    reveal_strlit("continue");
    reveal_strlit("return");
    reveal_strlit("exit");
    reveal_strlit("var");
    reveal_strlit("globalvar");
    reveal_strlit("enum");
    reveal_strlit("global");
    reveal_strlit("div");
    reveal_strlit("mod");
    assert("for"@[0] == 'f' && "for"@[1] == 'o' && "for"@[2] == 'r');
    assert("do"@[0] == 'd' && "do"@[1] == 'o');
    assert("while"@[0] == 'w' && "while"@[1] == 'h' && "while"@[2] == 'i');
    assert("until"@[0] == 'u' && "until"@[1] == 'n' && "until"@[2] == 't');
    assert("repeat"@[0] == 'r' && "repeat"@[1] == 'e' && "repeat"@[2] == 'p');
    assert("loop"@[0] == 'l' && "loop"@[1] == 'o' && "loop"@[2] == 'o');
    assert("with"@[0] == 'w' && "with"@[1] == 'i' && "with"@[2] == 't');
    assert("if"@[0] == 'i' && "if"@[1] == 'f');
    assert("else"@[0] == 'e' && "else"@[1] == 'l' && "else"@[2] == 's');
    assert("switch"@[0] == 's' && "switch"@[1] == 'w' && "switch"@[2] == 'i');
    assert("case"@[0] == 'c' && "case"@[1] == 'a' && "case"@[2] == 's');
    assert("default"@[0] == 'd' && "default"@[1] == 'e' && "default"@[2] == 'f');
    assert("break"@[0] == 'b' && "break"@[1] == 'r' && "break"@[2] == 'e');
    assert("continue"@[0] == 'c' && "continue"@[1] == 'o' && "continue"@[2] == 'n');
    assert("return"@[0] == 'r' && "return"@[1] == 'e' && "return"@[2] == 't');
    assert("exit"@[0] == 'e' && "exit"@[1] == 'x' && "exit"@[2] == 'i');
    assert("var"@[0] == 'v' && "var"@[1] == 'a' && "var"@[2] == 'r');
    assert("globalvar"@[0] == 'g' && "globalvar"@[1] == 'l' && "globalvar"@[2] == 'o');
    assert("enum"@[0] == 'e' && "enum"@[1] == 'n' && "enum"@[2] == 'u');
    assert("global"@[0] == 'g' && "global"@[1] == 'l' && "global"@[2] == 'o');
    assert("div"@[0] == 'd' && "div"@[1] == 'i' && "div"@[2] == 'v');
    assert("mod"@[0] == 'm' && "mod"@[1] == 'o' && "mod"@[2] == 'd');
}

/// A reserved word of ASCII letters is read as its token, and a blank, a
/// semicolon and the other punctuation can follow it.
pub proof fn lemma_reads_word(before: Seq<Lexeme>, text: Seq<char>)
    requires
        text.len() > 0,
        all_letters(text),
        word(text).kind != TokenKind::Comment,
    ensures
        reads(before, text, seq![word(text)]),
        state_after(before, text) == State::Identifier,
        ends_before_punctuation(state_after(before, text)),
        !is_space(text[0]),
        text[0] != '=',
        text[0] != '-',
{
    lemma_letters_spell(text, text.len());
    lemma_reads_token(before, text, State::Identifier, word(text));
    assert(is_ascii_letter(text[0]));
    lemma_identifier_ends();
}

/// A blank, a parenthesis, a comma and a semicolon each end an
/// identifier.
pub proof fn lemma_identifier_ends()
    ensures
        ends_before_punctuation(State::Identifier),
        closes(State::Identifier, '('),
{
    assert(!crate::chars::is_letter(' ') && !crate::chars::is_numeral(' '));
    assert(!crate::chars::is_letter(')') && !crate::chars::is_numeral(')'));
    assert(!crate::chars::is_letter(',') && !crate::chars::is_numeral(','));
    assert(!crate::chars::is_letter(';') && !crate::chars::is_numeral(';'));
    assert(!crate::chars::is_letter('(') && !crate::chars::is_numeral('('));
}

/// The sign of a binary operator is read as the token of that operator,
/// and a blank can follow it.
pub proof fn lemma_reads_operator(before: Seq<Lexeme>, op: BinaryOp)
    ensures
        reads(before, operator_text(op), seq![bare(operator_kind(op))]),
        follows(state_after(before, operator_text(op)), ' '),
        operator_text(op).len() > 0,
{
    let lexeme = bare(operator_kind(op));
    match op {
        BinaryOp::Plus => {
            reveal_strlit("+");
            assert("+"@ =~= seq!['+']);
            lemma_reads_one(before, '+', lexeme);
        },
        BinaryOp::Minus => {
            reveal_strlit("-");
            assert("-"@ =~= seq!['-']);
            lemma_reads_one(before, '-', lexeme);
        },
        BinaryOp::Times => {
            reveal_strlit("*");
            assert("*"@ =~= seq!['*']);
            lemma_reads_one(before, '*', lexeme);
        },
        BinaryOp::Slash => {
            reveal_strlit("/");
            assert("/"@ =~= seq!['/']);
            lemma_reads_one(before, '/', lexeme);
        },
        BinaryOp::Pct => {
            reveal_strlit("%");
            assert("%"@ =~= seq!['%']);
            lemma_reads_one(before, '%', lexeme);
        },
        BinaryOp::Exp => {
            reveal_strlit("**");
            assert("**"@ =~= seq!['*', '*']);
            lemma_reads_two(before, '*', '*', lexeme);
        },
        BinaryOp::Mod => {
            lemma_reserved_words();
            lemma_reads_word(before, "mod"@);
        },
        BinaryOp::Div => {
            lemma_reserved_words();
            lemma_reads_word(before, "div"@);
        },
        BinaryOp::LShift => {
            reveal_strlit("<<");
            assert("<<"@ =~= seq!['<', '<']);
            lemma_reads_two(before, '<', '<', lexeme);
        },
        BinaryOp::RShift => {
            reveal_strlit(">>");
            assert(">>"@ =~= seq!['>', '>']);
            lemma_reads_two(before, '>', '>', lexeme);
        },
        BinaryOp::And => {
            reveal_strlit("&");
            assert("&"@ =~= seq!['&']);
            lemma_reads_one(before, '&', lexeme);
        },
        BinaryOp::Or => {
            reveal_strlit("|");
            assert("|"@ =~= seq!['|']);
            lemma_reads_one(before, '|', lexeme);
        },
        BinaryOp::Xor => {
            reveal_strlit("^");
            assert("^"@ =~= seq!['^']);
            lemma_reads_one(before, '^', lexeme);
        },
        BinaryOp::BAnd => {
            reveal_strlit("&&");
            assert("&&"@ =~= seq!['&', '&']);
            lemma_reads_two(before, '&', '&', lexeme);
        },
        BinaryOp::BOr => {
            reveal_strlit("||");
            assert("||"@ =~= seq!['|', '|']);
            lemma_reads_two(before, '|', '|', lexeme);
        },
        BinaryOp::Eq => {
            reveal_strlit("==");
            assert("=="@ =~= seq!['=', '=']);
            lemma_reads_two(before, '=', '=', lexeme);
        },
        BinaryOp::Neq => {
            reveal_strlit("!=");
            assert("!="@ =~= seq!['!', '=']);
            lemma_reads_two(before, '!', '=', lexeme);
        },
        BinaryOp::Lt => {
            reveal_strlit("<");
            assert("<"@ =~= seq!['<']);
            lemma_reads_one(before, '<', lexeme);
        },
        BinaryOp::Gt => {
            reveal_strlit(">");
            assert(">"@ =~= seq!['>']);
            lemma_reads_one(before, '>', lexeme);
        },
        BinaryOp::Leq => {
            reveal_strlit("<=");
            assert("<="@ =~= seq!['<', '=']);
            lemma_reads_two(before, '<', '=', lexeme);
        },
        BinaryOp::Geq => {
            reveal_strlit(">=");
            assert(">="@ =~= seq!['>', '=']);
            lemma_reads_two(before, '>', '=', lexeme);
        },
    }
}

/// A name is read as one identifier, and is no minus sign.
pub proof fn lemma_reads_name(before: Seq<Lexeme>, name: Seq<char>)
    requires
        is_name(name),
    ensures
        reads_value(before, name, seq![name_token(name)]),
        name[0] != '-',
        closes(state_after(before, name), '('),
{
    lemma_reads_token(before, name, State::Identifier, name_token(name));
    lemma_identifier_ends();
    lemma_token_begins(name, State::Identifier);
    lemma_scan_first(name, name.len());
}

/// A blank, a parenthesis, a comma and a semicolon each end a numeric
/// literal.
pub proof fn lemma_number_ends(state: State)
    requires
        state == State::Zero || state == State::Dec || state == State::DecFloat || state
            == State::DecExp || state == State::Hex || state == State::Bin,
    ensures
        ends_before_punctuation(state),
{
    assert(!crate::chars::is_letter(' ') && !crate::chars::is_numeral(' '));
    assert(!crate::chars::is_letter(')') && !crate::chars::is_numeral(')'));
    assert(!crate::chars::is_letter(',') && !crate::chars::is_numeral(','));
    assert(!crate::chars::is_letter(';') && !crate::chars::is_numeral(';'));
}

/// A numeric literal that is spelled as the lexer reads it is read as its
/// token.
pub proof fn lemma_reads_number(before: Seq<Lexeme>, radix: Radix, digits: Seq<char>)
    requires
        is_number(radix_kind(radix), digits),
    ensures
        reads_value(
            before,
            number_text(radix, digits),
            seq![literal_token(Lit::Numeric(radix, digits))],
        ),
        number_text(radix, digits)[0] != '-',
{
    reveal_strlit("0b");
    reveal_strlit("0x");
    let text = number_text(radix, digits);
    assert(text =~= prefixed(radix_kind(radix), digits));
    let state = scan(text, text.len()).unwrap();
    let lexeme = literal_token(Lit::Numeric(radix, digits));
    lemma_reads_token(before, text, state, lexeme);
    lemma_number_ends(state);
    lemma_token_begins(text, state);
    lemma_scan_first(text, text.len());
}

/// A string literal that is spelled as the lexer reads it is read as its
/// token.
pub proof fn lemma_reads_string(before: Seq<Lexeme>, content: Seq<char>)
    requires
        is_string(content),
    ensures
        reads_value(
            before,
            literal_text(Lit::Text(content)),
            seq![literal_token(Lit::Text(content))],
        ),
        literal_text(Lit::Text(content))[0] != '-',
{
    let text = seq!['"'] + content + seq!['"'];
    let lexeme = literal_token(Lit::Text(content));
    assert(text.subrange(1, text.len() - 1) =~= content);
    lemma_reads_token(before, text, State::Str, lexeme);
    assert(!is_space('"'));
}

/// A character literal is read as its token.
pub proof fn lemma_reads_character(before: Seq<Lexeme>, c: char)
    ensures
        reads_value(before, literal_text(Lit::Char(c)), seq![literal_token(Lit::Char(c))]),
        literal_text(Lit::Char(c))[0] != '-',
{
    let quote = seq!['\''];
    let text = quote + char_text(c) + quote;
    let lexeme = literal_token(Lit::Char(c));
    lemma_scan_nothing();
    lemma_scan_push(Seq::<char>::empty(), '\'');
    assert(Seq::<char>::empty().push('\'') =~= quote);
    if c == '\n' || c == '\t' || c == '\\' || c == '\'' {
        let second = char_text(c)[1];
        lemma_scan_push(quote, '\\');
        lemma_scan_push(quote.push('\\'), second);
        lemma_scan_push(quote.push('\\').push(second), '\'');
        assert(quote.push('\\').push(second).push('\'') =~= text);
    } else {
        lemma_scan_push(quote, c);
        lemma_scan_push(quote.push(c), '\'');
        assert(quote.push(c).push('\'') =~= text);
    }
    assert(text.subrange(1, text.len() - 1) =~= char_text(c));
    lemma_reads_token(before, text, State::Char, lexeme);
    assert(!is_space('\''));
}

/// A literal that is spelled as the lexer reads it is read as its token.
pub proof fn lemma_reads_literal(before: Seq<Lexeme>, lit: Lit)
    requires
        spelled_literal(lit),
    ensures
        reads_value(before, literal_text(lit), seq![literal_token(lit)]),
        literal_text(lit)[0] != '-',
{
    match lit {
        Lit::Numeric(radix, digits) => {
            lemma_reads_number(before, radix, digits);
        },
        Lit::Boolean(b) => {
            lemma_reserved_words();
            if b {
                lemma_reads_word(before, "true"@);
            } else {
                lemma_reads_word(before, "false"@);
            }
        },
        Lit::Text(content) => {
            lemma_reads_string(before, content);
        },
        Lit::Char(c) => {
            lemma_reads_character(before, c);
        },
        Lit::Undefined => {
            lemma_reserved_words();
            lemma_reads_word(before, "undefined"@);
        },
    }
}

/// One character that is a token of its own, behind a text that it can
/// follow.
pub proof fn lemma_reads_mark(
    before: Seq<Lexeme>,
    text: Seq<char>,
    tokens: Seq<Lexeme>,
    c: char,
    lexeme: Lexeme,
)
    requires
        reads(before, text, tokens),
        follows(state_after(before, text), c),
        State::Start.step(c) matches Ok(Some(state)) && state != State::Start && lexeme_of(
            state,
            seq![c],
        ) == Some(lexeme),
        lexeme.kind != TokenKind::Comment,
    ensures
        reads(before, text + seq![c], tokens + seq![lexeme]),
        state_after(before, text + seq![c]) == State::Start.step(c).unwrap().unwrap(),
{
    lemma_reads_one(before + tokens, c, lexeme);
    lemma_reads_add(before, text, tokens, seq![c], seq![lexeme]);
}

/// Nothing is read from no text.
pub proof fn lemma_reads_nothing(before: Seq<Lexeme>)
    ensures
        reads(before, Seq::<char>::empty(), Seq::<Lexeme>::empty()),
        state_after(before, Seq::<char>::empty()) == State::Start,
{
    reveal(reads);
    reveal(state_after);
    assert(before + Seq::<Lexeme>::empty() =~= before);
}

/// A value that is spelled as the lexer reads it is read from its text as
/// its tokens.
pub proof fn lemma_reads_value(before: Seq<Lexeme>, value: Val)
    requires
        spelled_value(value),
    ensures
        reads_value(before, value_text(value), value_tokens(value)),
        value_text(value)[0] == '-' ==> value is Negative,
    decreases value,
{
    match value {
        Val::Ident(name) => {
            lemma_reads_name(before, name);
        },
        Val::Literal(lit) => {
            lemma_reads_literal(before, lit);
        },
        Val::Expr(expr) => {
            let open = seq!['('];
            let inner = expression_text(*expr);
            let left = seq![bare(TokenKind::LParen)];
            let middle = expression_tokens(*expr);
            lemma_reads_one(before, '(', bare(TokenKind::LParen));
            lemma_reads_expression(before + left, *expr);
            lemma_reads_add(before, open, left, inner, middle);
            lemma_reads_mark(before, open + inner, left + middle, ')', bare(TokenKind::RParen));
            assert(!is_space('('));
        },
        Val::Call(invocation) => {
            lemma_reads_call(before, invocation);
        },
        Val::Negative(inner) => {
            let sign = seq!['-'];
            let minus = seq![bare(TokenKind::Minus)];
            let rest = value_text(*inner);
            lemma_reads_one(before, '-', bare(TokenKind::Minus));
            lemma_reads_value(before + minus, *inner);
            if *inner is Negative {
                lemma_reads_blank(before, sign, minus);
                lemma_reads_add(before, sign + seq![' '], minus, rest, value_tokens(*inner));
            } else {
                assert(sign + Seq::<char>::empty() =~= sign);
                lemma_reads_add(before, sign, minus, rest, value_tokens(*inner));
            }
            assert(!is_space('-'));
        },
        Val::Not(inner) => {
            let sign = seq!['!'];
            let bang = seq![bare(TokenKind::Bang)];
            lemma_reads_one(before, '!', bare(TokenKind::Bang));
            lemma_reads_value(before + bang, *inner);
            lemma_reads_add(before, sign, bang, value_text(*inner), value_tokens(*inner));
            assert(!is_space('!'));
        },
        Val::Inverted(inner) => {
            let sign = seq!['~'];
            let tilde = seq![bare(TokenKind::Inv)];
            lemma_reads_one(before, '~', bare(TokenKind::Inv));
            lemma_reads_value(before + tilde, *inner);
            lemma_reads_add(before, sign, tilde, value_text(*inner), value_tokens(*inner));
            assert(!is_space('~'));
        },
    }
}

/// A call that is spelled as the lexer reads it is read from its text as
/// its tokens.
pub proof fn lemma_reads_call(before: Seq<Lexeme>, invocation: Invocation)
    requires
        spelled_call(invocation),
    ensures
        reads_value(before, invocation_text(invocation), invocation_tokens(invocation)),
        invocation_text(invocation)[0] != '-',
    decreases invocation,
{
    let name = invocation.name;
    let head = seq![name_token(name)];
    let list = list_text(invocation.arguments);
    let items = list_tokens(invocation.arguments);
    lemma_reads_name(before, name);
    lemma_reads_mark(before, name, head, '(', bare(TokenKind::LParen));
    let opened = head + seq![bare(TokenKind::LParen)];
    lemma_reads_list(before + opened, invocation.arguments);
    lemma_reads_add(before, name + seq!['('], opened, list, items);
    lemma_reads_mark(
        before,
        name + seq!['('] + list,
        opened + items,
        ')',
        bare(TokenKind::RParen),
    );
    assert(opened =~= seq![name_token(name), bare(TokenKind::LParen)]);
}

/// A list of expressions that are spelled as the lexer reads them is read
/// from its text as its tokens, and a blank is the last of the text.
pub proof fn lemma_reads_list(before: Seq<Lexeme>, list: Seq<Expr>)
    requires
        spelled_list(list),
    ensures
        reads(before, list_text(list), list_tokens(list)),
        state_after(before, list_text(list)) == State::Start,
    decreases list,
{
    if list.len() == 0 {
        lemma_reads_nothing(before);
    } else {
        reveal_strlit(", ");
        let front = list.drop_last();
        let last = list.last();
        let text = list_text(front);
        let tokens = list_tokens(front);
        let item = expression_text(last);
        let spelled = expression_tokens(last);
        lemma_reads_list(before, front);
        lemma_reads_expression(before + tokens, last);
        lemma_reads_add(before, text, tokens, item, spelled);
        lemma_reads_mark(before, text + item, tokens + spelled, ',', bare(TokenKind::Comma));
        lemma_reads_blank(
            before,
            text + item + seq![','],
            tokens + spelled + seq![bare(TokenKind::Comma)],
        );
        assert(text + item + seq![','] + seq![' '] =~= text + item + ", "@);
        assert(list =~= front.push(last));
        super::round_trip::lemma_list_tokens_push(front, last);
    }
}

/// A question mark between blanks, behind a text that a blank can
/// follow.
pub proof fn lemma_reads_question(before: Seq<Lexeme>, text: Seq<char>, tokens: Seq<Lexeme>)
    requires
        reads(before, text, tokens),
        follows(state_after(before, text), ' '),
    ensures
        reads(before, text + " ? "@, tokens + seq![bare(TokenKind::Question)]),
        state_after(before, text + " ? "@) == State::Start,
{
    reveal_strlit(" ? ");
    lemma_reads_blank(before, text, tokens);
    lemma_reads_mark(before, text + seq![' '], tokens, '?', bare(TokenKind::Question));
    lemma_reads_blank(
        before,
        text + seq![' '] + seq!['?'],
        tokens + seq![bare(TokenKind::Question)],
    );
    assert(text + seq![' '] + seq!['?'] + seq![' '] =~= text + " ? "@);
}

/// A colon between blanks, behind a text that a blank can follow.
pub proof fn lemma_reads_colon(before: Seq<Lexeme>, text: Seq<char>, tokens: Seq<Lexeme>)
    requires
        reads(before, text, tokens),
        follows(state_after(before, text), ' '),
    ensures
        reads(before, text + " : "@, tokens + seq![bare(TokenKind::Colon)]),
        state_after(before, text + " : "@) == State::Start,
{
    reveal_strlit(" : ");
    lemma_reads_blank(before, text, tokens);
    lemma_reads_mark(before, text + seq![' '], tokens, ':', bare(TokenKind::Colon));
    lemma_reads_blank(before, text + seq![' '] + seq![':'], tokens + seq![bare(TokenKind::Colon)]);
    assert(text + seq![' '] + seq![':'] + seq![' '] =~= text + " : "@);
}

/// An expression that is spelled as the lexer reads it is read from its
/// text as its tokens.
pub proof fn lemma_reads_expression(before: Seq<Lexeme>, expr: Expr)
    requires
        spelled_expression(expr),
    ensures
        reads_value(before, expression_text(expr), expression_tokens(expr)),
    decreases expr,
{
    match expr {
        Expr::Binary(op, lhs, rhs) => {
            let left = expression_text(*lhs);
            let first = expression_tokens(*lhs);
            let sign = operator_text(op);
            let token = seq![bare(operator_kind(op))];
            let right = expression_text(*rhs);
            let second = expression_tokens(*rhs);
            lemma_reads_expression(before, *lhs);
            lemma_reads_blank(before, left, first);
            lemma_reads_operator(before + first, op);
            lemma_reads_add(before, left + seq![' '], first, sign, token);
            lemma_reads_blank(before, left + seq![' '] + sign, first + token);
            lemma_reads_expression(before + (first + token), *rhs);
            lemma_reads_add(
                before,
                left + seq![' '] + sign + seq![' '],
                first + token,
                right,
                second,
            );
        },
        Expr::Pipe(lhs, invocation) => {
            reveal_strlit(" |> ");
            let left = expression_text(*lhs);
            let first = expression_tokens(*lhs);
            let token = seq![bare(TokenKind::Pipe)];
            let right = invocation_text(invocation);
            let second = invocation_tokens(invocation);
            lemma_reads_expression(before, *lhs);
            lemma_reads_blank(before, left, first);
            lemma_reads_two(before + first, '|', '>', bare(TokenKind::Pipe));
            lemma_reads_add(before, left + seq![' '], first, seq!['|', '>'], token);
            lemma_reads_blank(before, left + seq![' '] + seq!['|', '>'], first + token);
            assert(left + seq![' '] + seq!['|', '>'] + seq![' '] =~= left + " |> "@);
            lemma_reads_call(before + (first + token), invocation);
            lemma_reads_add(before, left + " |> "@, first + token, right, second);
        },
        Expr::Ternary(cond, first, second) => {
            let one = expression_text(*cond);
            let two = expression_text(*first);
            let three = expression_text(*second);
            let ones = expression_tokens(*cond);
            let twos = expression_tokens(*first);
            let threes = expression_tokens(*second);
            let question = seq![bare(TokenKind::Question)];
            let colon = seq![bare(TokenKind::Colon)];
            lemma_reads_expression(before, *cond);
            lemma_reads_question(before, one, ones);
            lemma_reads_expression(before + (ones + question), *first);
            lemma_reads_add(before, one + " ? "@, ones + question, two, twos);
            lemma_reads_colon(before, one + " ? "@ + two, ones + question + twos);
            lemma_reads_expression(before + (ones + question + twos + colon), *second);
            lemma_reads_add(
                before,
                one + " ? "@ + two + " : "@,
                ones + question + twos + colon,
                three,
                threes,
            );
        },
        Expr::Value(value) => {
            lemma_reads_value(before, value);
        },
    }
}

/// An equals sign between blanks, behind a text that a blank can follow.
pub proof fn lemma_reads_assign(before: Seq<Lexeme>, text: Seq<char>, tokens: Seq<Lexeme>)
    requires
        reads(before, text, tokens),
        follows(state_after(before, text), ' '),
    ensures
        reads(before, text + " = "@, tokens + seq![bare(TokenKind::Assign)]),
        state_after(before, text + " = "@) == State::Start,
{
    reveal_strlit(" = ");
    lemma_reads_blank(before, text, tokens);
    lemma_reads_mark(before, text + seq![' '], tokens, '=', bare(TokenKind::Assign));
    lemma_reads_blank(before, text + seq![' '] + seq!['='], tokens + seq![bare(TokenKind::Assign)]);
    assert(text + seq![' '] + seq!['='] + seq![' '] =~= text + " = "@);
}

/// A semicolon and a line feed, behind a text that a semicolon can
/// follow: the end of a printed line.
pub proof fn lemma_reads_line_end(before: Seq<Lexeme>, text: Seq<char>, tokens: Seq<Lexeme>)
    requires
        reads(before, text, tokens),
        follows(state_after(before, text), ';'),
    ensures
        reads(before, text + ";"@ + "\n"@, tokens + line_end()),
        state_after(before, text + ";"@ + "\n"@) == State::EOL,
{
    reveal_strlit(";");
    reveal_strlit("\n");
    assert(";"@ =~= seq![';']);
    assert("\n"@ =~= seq!['\n']);
    lemma_reads_mark(before, text, tokens, ';', bare(TokenKind::Semi));
    lemma_reads_mark(
        before,
        text + seq![';'],
        tokens + seq![bare(TokenKind::Semi)],
        '\n',
        bare(TokenKind::EOL),
    );
    assert(tokens + seq![bare(TokenKind::Semi)] + seq![bare(TokenKind::EOL)] =~= tokens
        + line_end());
}

/// A reserved word of ASCII letters with a blank behind it.
pub proof fn lemma_reads_word_blank(before: Seq<Lexeme>, text: Seq<char>)
    requires
        text.len() > 0,
        all_letters(text),
        word(text).kind != TokenKind::Comment,
    ensures
        reads(before, text + seq![' '], seq![word(text)]),
        state_after(before, text + seq![' ']) == State::Start,
        !is_space(text[0]),
{
    lemma_reads_word(before, text);
    lemma_reads_blank(before, text, seq![word(text)]);
}

/// Whether `text` is read as `tokens` and is a line: it is not empty, an
/// end of line is being read when it ends, and it does not begin with
/// white space.
pub open spec fn reads_line(before: Seq<Lexeme>, text: Seq<char>, tokens: Seq<Lexeme>) -> bool {
    &&& text.len() > 0
    &&& reads(before, text, tokens)
    &&& state_after(before, text) == State::EOL
    &&& !is_space(text[0])
}

/// A statement of one reserved word is read from its printed line as the
/// tokens of the line.
pub proof fn lemma_reads_jump(before: Seq<Lexeme>, statement: Stmt)
    requires
        statement == Stmt::Break || statement == Stmt::Exit || statement == Stmt::Continue
            || statement == Stmt::Return(None),
    ensures
        reads_line(before, line_text(statement, 0), line_tokens(statement)),
{
    lemma_reserved_words();
    reveal_strlit("break;");
    reveal_strlit("exit;");
    reveal_strlit("continue;");
    reveal_strlit("return;");
    reveal_strlit("break");
    reveal_strlit("exit");
    reveal_strlit("continue");
    reveal_strlit("return");
    reveal_strlit(";");
    let name = if statement == Stmt::Break {
        "break"@
    } else if statement == Stmt::Exit {
        "exit"@
    } else if statement == Stmt::Continue {
        "continue"@
    } else {
        "return"@
    };
    lemma_reads_word(before, name);
    lemma_reads_line_end(before, name, seq![word(name)]);
    assert(statement_text(statement, 0) =~= name + ";"@);
    assert(line_text(statement, 0) =~= name + ";"@ + "\n"@);
    assert(line_tokens(statement) =~= seq![word(name)] + line_end());
}

/// An expression with the end of a line behind it, behind a text after
/// which the lexer stands between two tokens.
pub proof fn lemma_reads_expression_line(
    before: Seq<Lexeme>,
    text: Seq<char>,
    tokens: Seq<Lexeme>,
    expr: Expr,
)
    requires
        spelled_expression(expr),
        reads(before, text, tokens),
        state_after(before, text) == State::Start,
    ensures
        reads(
            before,
            text + expression_text(expr) + ";"@ + "\n"@,
            tokens + expression_tokens(expr) + line_end(),
        ),
        state_after(before, text + expression_text(expr) + ";"@ + "\n"@) == State::EOL,
{
    lemma_reads_expression(before + tokens, expr);
    lemma_reads_add(before, text, tokens, expression_text(expr), expression_tokens(expr));
    lemma_reads_line_end(before, text + expression_text(expr), tokens + expression_tokens(expr));
}

/// A declaration is read from its printed line as the tokens of the
/// line.
pub proof fn lemma_reads_declaration(before: Seq<Lexeme>, statement: Stmt)
    requires
        statement is VarDecl || statement is VarDeclAssign || statement is GlobalvarDecl
            || statement is GlobalvarDeclAssign,
        spelled_statement(statement),
    ensures
        reads_line(before, line_text(statement, 0), line_tokens(statement)),
{
    lemma_reserved_words();
    reveal_strlit("var ");
    reveal_strlit("globalvar ");
    reveal_strlit("var");
    reveal_strlit("globalvar");
    let global = statement is GlobalvarDecl || statement is GlobalvarDeclAssign;
    let keyword = if global {
        "globalvar"@
    } else {
        "var"@
    };
    let spaced = if global {
        "globalvar "@
    } else {
        "var "@
    };
    assert(spaced =~= keyword + seq![' ']);
    let name = match statement {
        Stmt::VarDecl(name) => name,
        Stmt::VarDeclAssign(name, _) => name,
        Stmt::GlobalvarDecl(name) => name,
        Stmt::GlobalvarDeclAssign(name, _) => name,
        _ => Seq::empty(),
    };
    let head = seq![word(keyword)];
    lemma_reads_word_blank(before, keyword);
    lemma_reads_name(before + head, name);
    lemma_reads_add(before, spaced, head, name, seq![name_token(name)]);
    let named = head + seq![name_token(name)];
    match statement {
        Stmt::VarDeclAssign(_, expr) | Stmt::GlobalvarDeclAssign(_, expr) => {
            lemma_reads_assign(before, spaced + name, named);
            lemma_reads_expression_line(
                before,
                spaced + name + " = "@,
                named + seq![bare(TokenKind::Assign)],
                expr,
            );
            assert(line_text(statement, 0) =~= spaced + name + " = "@ + expression_text(expr)
                + ";"@ + "\n"@);
            assert(line_tokens(statement) =~= named + seq![bare(TokenKind::Assign)]
                + expression_tokens(expr) + line_end());
        },
        _ => {
            lemma_reads_line_end(before, spaced + name, named);
            assert(line_text(statement, 0) =~= spaced + name + ";"@ + "\n"@);
            assert(line_tokens(statement) =~= named + line_end());
        },
    }
    assert(line_text(statement, 0)[0] == keyword[0]);
}

/// A simple statement that is spelled as the lexer reads it is read from
/// its printed line as the tokens of the line.
pub proof fn lemma_reads_statement(before: Seq<Lexeme>, statement: Stmt)
    requires
        is_simple(statement),
        spelled_statement(statement),
    ensures
        reads_line(before, line_text(statement, 0), line_tokens(statement)),
{
    match statement {
        Stmt::Assignment(name, expr) => {
            lemma_reads_name(before, name);
            lemma_reads_assign(before, name, seq![name_token(name)]);
            lemma_reads_expression_line(
                before,
                name + " = "@,
                seq![name_token(name)] + seq![bare(TokenKind::Assign)],
                expr,
            );
            assert(line_text(statement, 0) =~= name + " = "@ + expression_text(expr) + ";"@
                + "\n"@);
            assert(line_tokens(statement) =~= seq![name_token(name)] + seq![
                bare(TokenKind::Assign),
            ] + expression_tokens(expr) + line_end());
            assert(line_text(statement, 0)[0] == name[0]);
        },
        Stmt::Expression(expr) => {
            lemma_reads_nothing(before);
            lemma_reads_expression(before, expr);
            lemma_reads_expression_line(
                before,
                Seq::<char>::empty(),
                Seq::<Lexeme>::empty(),
                expr,
            );
            assert(line_text(statement, 0) =~= Seq::<char>::empty() + expression_text(expr)
                + ";"@ + "\n"@);
            assert(line_tokens(statement) =~= Seq::<Lexeme>::empty() + expression_tokens(expr)
                + line_end());
            assert(line_text(statement, 0)[0] == expression_text(expr)[0]);
        },
        Stmt::Return(Some(expr)) => {
            lemma_reserved_words();
            reveal_strlit("return ");
            reveal_strlit("return");
            assert("return "@ =~= "return"@ + seq![' ']);
            lemma_reads_word_blank(before, "return"@);
            lemma_reads_expression_line(before, "return "@, seq![word("return"@)], expr);
            assert(line_text(statement, 0) =~= "return "@ + expression_text(expr) + ";"@
                + "\n"@);
            assert(line_text(statement, 0)[0] == "return"@[0]);
        },
        Stmt::Return(None) | Stmt::Break | Stmt::Exit | Stmt::Continue => {
            lemma_reads_jump(before, statement);
        },
        _ => {
            lemma_reads_declaration(before, statement);
        },
    }
}

/// Simple statements that are spelled as the lexer reads them are read
/// from their printed lines as the tokens of the lines.
pub proof fn lemma_reads_lines(before: Seq<Lexeme>, list: Seq<Stmt>)
    requires
        forall|i: int| 0 <= i < list.len() ==> is_simple(#[trigger] list[i]),
        forall|i: int| 0 <= i < list.len() ==> spelled_statement(#[trigger] list[i]),
    ensures
        reads(before, lines_text(list, 0), lines_tokens(list)),
        list.len() == 0 ==> lines_text(list, 0).len() == 0 && state_after(
            before,
            lines_text(list, 0),
        ) == State::Start,
        list.len() > 0 ==> reads_line(before, lines_text(list, 0), lines_tokens(list)),
    decreases list.len(),
{
    if list.len() == 0 {
        lemma_reads_nothing(before);
        assert(lines_tokens(list) =~= Seq::<Lexeme>::empty());
        assert(lines_text(list, 0) =~= Seq::<char>::empty());
    } else {
        let front = list.drop_last();
        let last = list.last();
        assert(is_simple(last) && spelled_statement(last));
        assert forall|i: int| 0 <= i < front.len() implies is_simple(#[trigger] front[i])
            && spelled_statement(front[i]) by {
            assert(front[i] == list[i]);
        }
        lemma_reads_lines(before, front);
        lemma_reads_statement(before + lines_tokens(front), last);
        lemma_reads_add(
            before,
            lines_text(front, 0),
            lines_tokens(front),
            line_text(last, 0),
            line_tokens(last),
        );
        assert(list =~= front.push(last));
        super::round_trip::lemma_lines_tokens_push(front, last);
        if front.len() == 0 {
            assert(lines_text(front, 0) + line_text(last, 0) =~= line_text(last, 0));
        } else {
            assert((lines_text(front, 0) + line_text(last, 0))[0] == lines_text(front, 0)[0]);
        }
    }
}

/// The marker of a doc comment with a line without a line feed behind it
/// is read as one doc comment, which a line feed ends.
pub proof fn lemma_doc_line_spells(line: Seq<char>, n: nat)
    requires
        is_doc_line(line),
        n <= line.len(),
    ensures
        scan(seq!['/', '/', '/'] + line, 3 + n) == Some(
            if n == 0 {
                State::SlashSlashSlash
            } else {
                State::DocComment
            },
        ),
    decreases n,
{
    let text = seq!['/', '/', '/'] + line;
    if n == 0 {
        assert(scan(text, 0) == Some(State::Start));
        assert(scan(text, 1) == Some(State::Slash));
        assert(scan(text, 2) == Some(State::SlashSlash));
        assert(scan(text, 3) == Some(State::SlashSlashSlash));
    } else {
        lemma_doc_line_spells(line, (n - 1) as nat);
        assert(text[3 + n - 1] == line[n - 1]);
    }
}

/// The lines of a doc comment, none of which holds a line feed, are read
/// from their printed form as their tokens.
pub proof fn lemma_reads_docs(before: Seq<Lexeme>, docs: Seq<Seq<char>>)
    requires
        forall|i: int| 0 <= i < docs.len() ==> is_doc_line(#[trigger] docs[i]),
    ensures
        reads(before, docs_text(docs), docs_tokens(docs)),
        docs.len() == 0 ==> docs_text(docs).len() == 0 && state_after(before, docs_text(docs))
            == State::Start,
        docs.len() > 0 ==> reads_line(before, docs_text(docs), docs_tokens(docs)),
    decreases docs.len(),
{
    if docs.len() == 0 {
        lemma_reads_nothing(before);
        assert(docs_tokens(docs) =~= Seq::<Lexeme>::empty());
        assert(docs_text(docs) =~= Seq::<char>::empty());
    } else {
        reveal_strlit("///");
        reveal_strlit("\n");
        let front = docs.drop_last();
        let last = docs.last();
        assert(is_doc_line(last));
        assert forall|i: int| 0 <= i < front.len() implies is_doc_line(#[trigger] front[i]) by {
            assert(front[i] == docs[i]);
        }
        lemma_reads_docs(before, front);
        let marked = seq!['/', '/', '/'] + last;
        assert("///"@ + last =~= marked);
        lemma_doc_line_spells(last, last.len());
        let state = scan(marked, marked.len()).unwrap();
        let lexeme = Lexeme { kind: TokenKind::DocComment, text: last };
        assert(marked.subrange(3, marked.len() as int) =~= last);
        let so_far = before + docs_tokens(front);
        lemma_reads_token(so_far, marked, state, lexeme);
        lemma_reads_mark(so_far, marked, seq![lexeme], '\n', bare(TokenKind::EOL));
        assert(!is_space('/'));
        lemma_reads_add(
            before,
            docs_text(front),
            docs_tokens(front),
            marked + seq!['\n'],
            seq![lexeme] + seq![bare(TokenKind::EOL)],
        );
        assert(docs_text(docs) =~= docs_text(front) + (marked + seq!['\n']));
        assert(docs =~= front.push(last));
        super::round_trip::lemma_docs_tokens_push(front, last);
        assert(seq![lexeme] + seq![bare(TokenKind::EOL)] =~= seq![lexeme, bare(TokenKind::EOL)]);
        if front.len() > 0 {
            assert((docs_text(front) + (marked + seq!['\n']))[0] == docs_text(front)[0]);
        } else {
            assert(docs_text(front) + (marked + seq!['\n']) =~= marked + seq!['\n']);
        }
    }
}

/// The text of a minimal unit that is spelled as the lexer reads it is
/// lexed to the tokens of the unit.
pub proof fn lemma_unit_text_lexes(unit: Unit)
    requires
        is_minimal(unit),
        spelled_unit(unit),
    ensures
        lex(unit_text(unit)) == Ok::<Seq<Lexeme>, crate::error::Error>(unit_tokens(unit)),
{
    reveal(reads);
    reveal(state_after);
    let bof = seq![bare(TokenKind::BOF)];
    let text = unit_text(unit);
    let docs = docs_text(unit.docs);
    let lines = lines_text(unit.body, 0);
    let tokens = docs_tokens(unit.docs) + lines_tokens(unit.body);
    assert forall|i: int| 0 <= i < unit.body.len() implies is_simple(#[trigger] unit.body[i])
        && spelled_statement(unit.body[i]) by {}
    lemma_reads_docs(bof, unit.docs);
    lemma_reads_lines(bof + docs_tokens(unit.docs), unit.body);
    lemma_reads_add(bof, docs, docs_tokens(unit.docs), lines, lines_tokens(unit.body));
    assert(text =~= docs + lines);
    lemma_feed_all_is_feed_seq(text, text.len());
    assert(text.take(text.len() as int) =~= text);
    assert(begin() == fresh(bof));
    let lexing = feed_all(text, text.len()).unwrap();
    assert(is_space('\n'));
    assert(unit_tokens(unit) =~= (bof + tokens).push(bare(TokenKind::EOF)));
}

/// A source text that denotes a minimal unit is printed as a text that
/// denotes the same unit; so what it compiles to compiles to itself.
pub proof fn lemma_minimal_program_round_trip(input: Seq<char>)
    requires
        parsed(input).is_ok(),
        is_minimal(parsed(input).unwrap()),
    ensures
        parsed(unit_text(parsed(input).unwrap())) == parsed(input),
        compiled(unit_text(parsed(input).unwrap())) == compiled(input),
{
    let tokens = lex(input).unwrap();
    let unit = parsed(input).unwrap();
    crate::tokenizer::laws::lemma_tokens_are_well_spelled(input);
    super::spelling::lemma_unit_is_spelled(tokens);
    lemma_unit_text_lexes(unit);
    super::round_trip::lemma_minimal_unit_round_trip(tokens);
}

} // verus!
