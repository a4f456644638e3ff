//! What holds of the lexer as a whole: how it reads a text piece by
//! piece, and what the tokens that it puts out were read from.

use vstd::prelude::*;

use super::begin;
use super::finish;
use super::emitted;
use super::feed;
use super::feed_all;
use super::state::State;
use super::lex;
use super::token::bare;
use super::token::lexeme_of;
use super::token::word;
use super::token::Lexeme;
use super::token::TokenKind;
use super::Lexing;
use crate::error::Error;

verus! {

/// The lexer never takes back a token that it has put out: the completed
/// tokens only grow, and the first of them is the begin-of-file token.
pub proof fn lemma_begin_of_file_stays(input: Seq<char>, n: nat)
    requires
        n <= input.len(),
    ensures
        feed_all(input, n) matches Ok(lexing) ==> (lexing.tokens.len() > 0 && lexing.tokens[0]
            == bare(TokenKind::BOF)),
    decreases n,
{
    if n > 0 {
        lemma_begin_of_file_stays(input, (n - 1) as nat);
    }
}

/// The tokens of every source text begin with the begin-of-file token.
pub proof fn lemma_tokens_begin_with_bof(input: Seq<char>)
    ensures
        lex(input) matches Ok(tokens) ==> (tokens.len() >= 2 && tokens[0] == bare(
            TokenKind::BOF,
        )),
{
    lemma_begin_of_file_stays(input, input.len());
}

/// The tokens of every source text end with the end-of-file token.
pub proof fn lemma_tokens_end_with_eof(input: Seq<char>)
    ensures
        lex(input) matches Ok(tokens) ==> tokens.last() == bare(TokenKind::EOF),
{
}

/// Whether none of the tokens is a plain comment or a sentinel.
pub open spec fn plain_tokens(tokens: Seq<Lexeme>) -> bool {
    forall|i: int|
        0 <= i < tokens.len() ==> (#[trigger] tokens[i]).kind != TokenKind::Comment && tokens[i].kind
            != TokenKind::BOF && tokens[i].kind != TokenKind::EOF
}

/// Behind the begin-of-file token, the lexer puts out neither a plain
/// comment nor a sentinel.
pub proof fn lemma_no_comment_is_put_out(input: Seq<char>, n: nat)
    requires
        n <= input.len(),
    ensures
        feed_all(input, n) matches Ok(lexing) ==> plain_tokens(lexing.tokens.drop_first()),
    decreases n,
{
    if n > 0 {
        lemma_no_comment_is_put_out(input, (n - 1) as nat);
        lemma_begin_of_file_stays(input, (n - 1) as nat);
        match feed_all(input, (n - 1) as nat) {
            Ok(before) => {
                match feed(before, input[n - 1]) {
                    Ok(after) => {
                        assert forall|i: int| 0 <= i < after.tokens.drop_first().len() implies (
                        #[trigger] after.tokens.drop_first()[i]).kind != TokenKind::Comment
                            && after.tokens.drop_first()[i].kind != TokenKind::BOF
                            && after.tokens.drop_first()[i].kind != TokenKind::EOF by {
                            if i < before.tokens.drop_first().len() {
                                assert(after.tokens.drop_first()[i] == before.tokens.drop_first()[i]);
                            }
                        }
                    },
                    Err(_) => {},
                }
            },
            Err(_) => {},
        }
    } else {
        assert(begin().tokens.drop_first() =~= Seq::<Lexeme>::empty());
    }
}

/// The tokens of a source text hold no plain comment, and no sentinel but
/// the begin-of-file token at their beginning and the end-of-file token
/// at their end.
pub proof fn lemma_comments_are_dropped(input: Seq<char>)
    ensures
        lex(input) matches Ok(tokens) ==> plain_tokens(tokens.subrange(1, tokens.len() - 1)),
{
    lemma_no_comment_is_put_out(input, input.len());
    lemma_begin_of_file_stays(input, input.len());
    match lex(input) {
        Ok(tokens) => {
            let lexing = feed_all(input, input.len()).unwrap();
            let inner = tokens.subrange(1, tokens.len() - 1);
            let put_out = finish(lexing).unwrap();
            assert(tokens == put_out.push(bare(TokenKind::EOF)));
            assert(inner =~= put_out.drop_first());
            assert forall|i: int| 0 <= i < inner.len() implies (#[trigger] inner[i]).kind
                != TokenKind::Comment && inner[i].kind != TokenKind::BOF && inner[i].kind
                != TokenKind::EOF by {
                if i < lexing.tokens.drop_first().len() {
                    assert(inner[i] == lexing.tokens.drop_first()[i]);
                }
            }
        },
        Err(_) => {},
    }
}

/// The lexer between two tokens, with the tokens that it has completed.
pub open spec fn fresh(tokens: Seq<Lexeme>) -> Lexing {
    Lexing { state: State::Start, text: Seq::empty(), tokens }
}

/// The lexer once the token that it is reading is put out.
pub open spec fn flushed(lexing: Lexing) -> Lexing {
    fresh(emitted(lexing))
}

/// The lexer after the characters of `text`, from `lexing` on.
pub open spec fn feed_seq(lexing: Lexing, text: Seq<char>) -> Result<Lexing, Error>
    decreases text.len(),
{
    if text.len() == 0 {
        Ok(lexing)
    } else {
        match feed_seq(lexing, text.drop_last()) {
            Err(error) => Err(error),
            Ok(before) => feed(before, text.last()),
        }
    }
}

/// The state in which the lexer reads one token whose first `n`
/// characters are those of `text`: each character is absorbed by the
/// state before it, from `Start` on, and none leads back to `Start`.
pub open spec fn scan(text: Seq<char>, n: nat) -> Option<State>
    decreases n,
{
    if n == 0 || n > text.len() {
        Some(State::Start)
    } else {
        match scan(text, (n - 1) as nat) {
            None => None,
            Some(state) => match state.step(text[n - 1]) {
                Ok(Some(next)) => if next != State::Start {
                    Some(next)
                } else {
                    None
                },
                _ => None,
            },
        }
    }
}

/// Whether `text` is read as one token that is complete in `state`.
pub open spec fn spells(text: Seq<char>, state: State) -> bool {
    text.len() > 0 && scan(text, text.len()) == Some(state)
}

/// Whether the character `c` ends the token that `state` has read: the
/// state does not absorb it.
pub open spec fn closes(state: State, c: char) -> bool {
    state.step(c) == Ok::<Option<State>, Error>(None)
}

/// Whether the lexer, having read `text` from between two tokens with
/// `before` completed, stands with `tokens` read in all: those that are
/// complete are put out, and the last may be the one that is being read.
#[verifier::opaque]
pub open spec fn reads(before: Seq<Lexeme>, text: Seq<char>, tokens: Seq<Lexeme>) -> bool {
    match feed_seq(fresh(before), text) {
        Ok(lexing) => flushed(lexing) == fresh(before + tokens) && (lexing.state == State::Start
            ==> lexing == fresh(before + tokens)),
        Err(_) => false,
    }
}

/// The state in which the lexer stands after `text`, read from between
/// two tokens.
#[verifier::opaque]
pub open spec fn state_after(before: Seq<Lexeme>, text: Seq<char>) -> State {
    match feed_seq(fresh(before), text) {
        Ok(lexing) => lexing.state,
        Err(_) => State::Start,
    }
}

/// Whether `c` can follow where the lexer stands in `state`: the lexer
/// is between two tokens, or `c` ends the token that it is reading.
pub open spec fn follows(state: State, c: char) -> bool {
    state == State::Start || closes(state, c)
}

/// Reading two texts one after the other is reading them as one.
pub proof fn lemma_feed_seq_add(lexing: Lexing, first: Seq<char>, second: Seq<char>)
    ensures
        feed_seq(lexing, first + second) == match feed_seq(lexing, first) {
            Ok(middle) => feed_seq(middle, second),
            Err(error) => Err(error),
        },
    decreases second.len(),
{
    if second.len() == 0 {
        assert(first + second =~= first);
    } else {
        assert((first + second).drop_last() =~= first + second.drop_last());
        assert((first + second).last() == second.last());
        lemma_feed_seq_add(lexing, first, second.drop_last());
    }
}

/// Reading one character.
pub proof fn lemma_feed_seq_one(lexing: Lexing, c: char)
    ensures
        feed_seq(lexing, seq![c]) == feed(lexing, c),
{
    assert(seq![c].drop_last() =~= Seq::<char>::empty());
    assert(feed_seq(lexing, seq![c].drop_last()) == Ok::<Lexing, Error>(lexing));
}

/// Reading a text is reading its first character and then the rest.
pub proof fn lemma_feed_seq_first(lexing: Lexing, text: Seq<char>)
    requires
        text.len() > 0,
    ensures
        feed_seq(lexing, text) == match feed(lexing, text[0]) {
            Ok(middle) => feed_seq(middle, text.drop_first()),
            Err(error) => Err(error),
        },
{
    assert(text =~= seq![text[0]] + text.drop_first());
    lemma_feed_seq_add(lexing, seq![text[0]], text.drop_first());
    lemma_feed_seq_one(lexing, text[0]);
}

/// The lexer reads a source text as it reads any text, from the
/// begin-of-file token on.
pub proof fn lemma_feed_all_is_feed_seq(input: Seq<char>, n: nat)
    requires
        n <= input.len(),
    ensures
        feed_all(input, n) == feed_seq(begin(), input.take(n as int)),
    decreases n,
{
    if n > 0 {
        lemma_feed_all_is_feed_seq(input, (n - 1) as nat);
        assert(input.take(n as int).drop_last() =~= input.take(n - 1));
    }
}

/// A character that ends the token being read is read as from between
/// two tokens, once that token is put out.
pub proof fn lemma_feed_closing(lexing: Lexing, c: char)
    requires
        closes(lexing.state, c),
    ensures
        feed(lexing, c) == feed(flushed(lexing), c),
{
    assert(seq![c] =~= Seq::<char>::empty().push(c));
}

/// The characters of one token are absorbed one by one: after them the
/// lexer is in the state that they lead to, holds them as the text of the
/// token, and has put out nothing more.
pub proof fn lemma_feed_token(before: Seq<Lexeme>, text: Seq<char>, n: nat)
    requires
        0 < n <= text.len(),
        scan(text, n).is_some(),
    ensures
        feed_seq(fresh(before), text.take(n as int)) == Ok::<Lexing, Error>(
            Lexing { state: scan(text, n).unwrap(), text: text.take(n as int), tokens: before },
        ),
    decreases n,
{
    assert(text.take(n as int).drop_last() =~= text.take(n - 1));
    assert(text.take(n as int).last() == text[n - 1]);
    if n == 1 {
        assert(text.take(0) =~= Seq::<char>::empty());
        assert(feed_seq(fresh(before), text.take(0)) == Ok::<Lexing, Error>(fresh(before)));
        assert(text.take(1) =~= Seq::<char>::empty().push(text[0]));
    } else {
        lemma_feed_token(before, text, (n - 1) as nat);
        assert(text.take(n as int) =~= text.take(n - 1).push(text[n - 1]));
    }
}

/// A text that is one token is read as that token, which is still being
/// read when the text ends.
pub proof fn lemma_reads_token(before: Seq<Lexeme>, text: Seq<char>, state: State, lexeme: Lexeme)
    requires
        spells(text, state),
        lexeme_of(state, text) == Some(lexeme),
        lexeme.kind != TokenKind::Comment,
    ensures
        reads(before, text, seq![lexeme]),
        state_after(before, text) == state,
        state != State::Start,
{
    reveal(reads);
    reveal(state_after);
    lemma_feed_token(before, text, text.len());
    assert(text.take(text.len() as int) =~= text);
    assert(before.push(lexeme) =~= before + seq![lexeme]);
}

/// Two texts of which the second can follow the first are read as the
/// tokens of the first and then those of the second.
pub proof fn lemma_reads_add(
    before: Seq<Lexeme>,
    first: Seq<char>,
    tokens: Seq<Lexeme>,
    second: Seq<char>,
    more: Seq<Lexeme>,
)
    requires
        reads(before, first, tokens),
        reads(before + tokens, second, more),
        second.len() > 0 ==> follows(state_after(before, first), second[0]),
    ensures
        reads(before, first + second, tokens + more),
        second.len() > 0 ==> state_after(before, first + second) == state_after(
            before + tokens,
            second,
        ),
        second.len() == 0 ==> state_after(before, first + second) == state_after(before, first),
{
    reveal(reads);
    reveal(state_after);
    lemma_feed_seq_add(fresh(before), first, second);
    let middle = feed_seq(fresh(before), first).unwrap();
    if second.len() == 0 {
        assert(first + second =~= first);
        assert(more =~= Seq::<Lexeme>::empty()) by {
            assert(before + tokens + more == before + tokens);
            assert((before + tokens + more).len() == (before + tokens).len());
        }
        assert(tokens + more =~= tokens);
    } else {
        lemma_feed_seq_first(middle, second);
        lemma_feed_seq_first(fresh(before + tokens), second);
        if middle.state != State::Start {
            lemma_feed_closing(middle, second[0]);
        }
        assert(before + (tokens + more) =~= before + tokens + more);
    }
}

/// A blank between two tokens is passed over.
pub proof fn lemma_reads_blank(before: Seq<Lexeme>, text: Seq<char>, tokens: Seq<Lexeme>)
    requires
        reads(before, text, tokens),
        follows(state_after(before, text), ' '),
    ensures
        reads(before, text + seq![' '], tokens),
        state_after(before, text + seq![' ']) == State::Start,
{
    reveal(reads);
    reveal(state_after);
    lemma_feed_seq_add(fresh(before), text, seq![' ']);
    let middle = feed_seq(fresh(before), text).unwrap();
    lemma_feed_seq_one(middle, ' ');
    assert(crate::chars::is_space(' '));
    if middle.state != State::Start {
        lemma_feed_closing(middle, ' ');
    }
}

/// Whether `text` is read as a name: as one identifier.
pub open spec fn is_name(text: Seq<char>) -> bool {
    spells(text, State::Identifier) && word(text) == (Lexeme { kind: TokenKind::Identifier, text })
}

/// The digits of a numeric literal behind the prefix of its notation.
pub open spec fn prefixed(kind: TokenKind, digits: Seq<char>) -> Seq<char> {
    if kind == TokenKind::BinLiteral {
        seq!['0', 'b'] + digits
    } else if kind == TokenKind::HexLiteral {
        seq!['0', 'x'] + digits
    } else {
        digits
    }
}

/// Whether `digits`, behind the prefix of the notation, are read as one
/// numeric literal of the given category.
pub open spec fn is_number(kind: TokenKind, digits: Seq<char>) -> bool {
    let text = prefixed(kind, digits);
    &&& text.len() > 0
    &&& match scan(text, text.len()) {
        Some(state) => lexeme_of(state, text) == Some(Lexeme { kind, text: digits }),
        None => false,
    }
}

/// Whether `text`, between double quotes, is read as one string literal.
pub open spec fn is_string(text: Seq<char>) -> bool {
    spells(seq!['"'] + text + seq!['"'], State::Str)
}

/// Whether `text` can be the line of a doc comment: it holds no line
/// feed.
pub open spec fn is_doc_line(text: Seq<char>) -> bool {
    forall|i: int| 0 <= i < text.len() ==> text[i] != '\n'
}

/// Whether a token has a text from which the lexer reads it: the text of
/// an identifier is a name, that of a numeric or string literal is read
/// as that literal, that of a boolean literal is `true` or `false`, and
/// that of a doc comment holds no line feed.
pub open spec fn well_spelled(lexeme: Lexeme) -> bool {
    if lexeme.kind == TokenKind::Identifier {
        is_name(lexeme.text)
    } else if lexeme.kind == TokenKind::BinLiteral || lexeme.kind == TokenKind::HexLiteral
        || lexeme.kind == TokenKind::DecLiteral {
        is_number(lexeme.kind, lexeme.text)
    } else if lexeme.kind == TokenKind::StrLiteral {
        is_string(lexeme.text)
    } else if lexeme.kind == TokenKind::BoolLiteral {
        lexeme.text == "true"@ || lexeme.text == "false"@
    } else if lexeme.kind == TokenKind::DocComment {
        is_doc_line(lexeme.text)
    } else {
        true
    }
}

/// Whether each of the tokens is well spelled.
pub open spec fn all_well_spelled(tokens: Seq<Lexeme>) -> bool {
    forall|i: int| 0 <= i < tokens.len() ==> well_spelled(#[trigger] tokens[i])
}

/// The state of a token depends on the characters read so far alone.
pub proof fn lemma_scan_prefix(text: Seq<char>, other: Seq<char>, n: nat)
    requires
        n <= text.len(),
        n <= other.len(),
        text.take(n as int) == other.take(n as int),
    ensures
        scan(text, n) == scan(other, n),
    decreases n,
{
    if n > 0 {
        assert(text.take(n as int).take(n - 1) =~= text.take(n - 1));
        assert(other.take(n as int).take(n - 1) =~= other.take(n - 1));
        lemma_scan_prefix(text, other, (n - 1) as nat);
        assert(text[n - 1] == text.take(n as int)[n - 1]);
        assert(other[n - 1] == other.take(n as int)[n - 1]);
    }
}

/// Only before its first character is the lexer between two tokens.
pub proof fn lemma_scan_start(text: Seq<char>, n: nat)
    requires
        0 < n <= text.len(),
    ensures
        scan(text, n) != Some(State::Start),
{
}

/// What a text begins with if it leads to a state of the hexadecimal
/// notation.
pub proof fn lemma_scan_hex(text: Seq<char>, n: nat)
    requires
        0 < n <= text.len(),
    ensures
        scan(text, n) == Some(State::Zero) ==> n == 1 && text[0] == '0',
        scan(text, n) == Some(State::ZeroX) || scan(text, n) == Some(State::Hex) ==> n >= 2
            && text[0] == '0' && text[1] == 'x',
        scan(text, n) == Some(State::ZeroB) || scan(text, n) == Some(State::Bin) ==> n >= 2
            && text[0] == '0' && text[1] == 'b',
    decreases n,
{
    if n > 1 {
        lemma_scan_hex(text, (n - 1) as nat);
        lemma_scan_start(text, (n - 1) as nat);
    } else {
        assert(scan(text, 0) == Some(State::Start));
    }
}

/// What a text begins and ends with if it leads to a state of a string
/// literal.
pub proof fn lemma_scan_string(text: Seq<char>, n: nat)
    requires
        0 < n <= text.len(),
    ensures
        scan(text, n) == Some(State::StrStart) || scan(text, n) == Some(State::StrSlash) || scan(
            text,
            n,
        ) == Some(State::Str) ==> text[0] == '"',
        scan(text, n) == Some(State::Str) ==> n >= 2 && text[n - 1] == '"',
    decreases n,
{
    if n > 1 {
        lemma_scan_string(text, (n - 1) as nat);
        lemma_scan_start(text, (n - 1) as nat);
    } else {
        assert(scan(text, 0) == Some(State::Start));
    }
}

/// What a text is if it leads to a state of a doc comment: three slashes,
/// and no line feed behind them.
pub proof fn lemma_scan_doc(text: Seq<char>, n: nat)
    requires
        0 < n <= text.len(),
    ensures
        scan(text, n) == Some(State::Slash) ==> n == 1 && text[0] == '/',
        scan(text, n) == Some(State::SlashSlash) ==> n == 2 && text[0] == '/' && text[1] == '/',
        scan(text, n) == Some(State::SlashSlashSlash) ==> n == 3 && text[0] == '/' && text[1]
            == '/' && text[2] == '/',
        scan(text, n) == Some(State::DocComment) ==> n > 3 && text[0] == '/' && text[1] == '/'
            && text[2] == '/' && forall|i: int| 3 <= i < n ==> text[i] != '\n',
    decreases n,
{
    if n > 1 {
        lemma_scan_doc(text, (n - 1) as nat);
        lemma_scan_start(text, (n - 1) as nat);
    } else {
        assert(scan(text, 0) == Some(State::Start));
    }
}

/// A token that the lexer puts out is well spelled.
pub proof fn lemma_emitted_is_well_spelled(text: Seq<char>, state: State)
    requires
        spells(text, state),
    ensures
        lexeme_of(state, text) matches Some(lexeme) ==> well_spelled(lexeme),
{
    let n = text.len();
    lemma_scan_hex(text, n);
    lemma_scan_string(text, n);
    lemma_scan_doc(text, n);
    match lexeme_of(state, text) {
        Some(lexeme) => {
            if state == State::Hex {
                assert(prefixed(lexeme.kind, lexeme.text) =~= text);
            } else if state == State::Bin {
                assert(prefixed(lexeme.kind, lexeme.text) =~= text);
            } else if state == State::Str {
                assert(seq!['"'] + lexeme.text + seq!['"'] =~= text);
            } else if state == State::DocComment || state == State::SlashSlashSlash {
                assert forall|i: int| 0 <= i < lexeme.text.len() implies lexeme.text[i]
                    != '\n' by {
                    assert(lexeme.text[i] == text[i + 3]);
                }
            } else if state == State::Identifier {
            } else {
            }
        },
        None => {},
    }
}

/// Whether the lexer stands as it can stand between two characters of a
/// source text: between two tokens without any text, or within a token
/// with the text that has led to its state.
pub open spec fn in_step(lexing: Lexing) -> bool {
    if lexing.state == State::Start {
        lexing.text.len() == 0
    } else {
        spells(lexing.text, lexing.state)
    }
}

/// One more character leaves the lexer in step and its tokens well
/// spelled.
pub proof fn lemma_feed_keeps_well_spelled(lexing: Lexing, c: char)
    requires
        in_step(lexing),
        all_well_spelled(lexing.tokens),
    ensures
        feed(lexing, c) matches Ok(after) ==> in_step(after) && all_well_spelled(after.tokens),
{
    match feed(lexing, c) {
        Ok(after) => {
            match lexing.state.step(c) {
                Ok(Some(next)) => {
                    if next != State::Start {
                        let text = lexing.text.push(c);
                        assert(scan(text, 0) == Some(State::Start));
                        if lexing.text.len() > 0 {
                            assert(text.take(lexing.text.len() as int) =~= lexing.text);
                            assert(lexing.text.take(lexing.text.len() as int) =~= lexing.text);
                            lemma_scan_prefix(text, lexing.text, lexing.text.len());
                        }
                        assert(scan(text, text.len()) == Some(next));
                    }
                },
                Ok(None) => {
                    lemma_emitted_is_well_spelled(lexing.text, lexing.state);
                    assert(all_well_spelled(emitted(lexing))) by {
                        assert forall|i: int| 0 <= i < emitted(lexing).len() implies well_spelled(
                            #[trigger] emitted(lexing)[i],
                        ) by {
                            if i < lexing.tokens.len() {
                                assert(emitted(lexing)[i] == lexing.tokens[i]);
                            }
                        }
                    }
                    if after.state != State::Start {
                        assert(scan(seq![c], 0) == Some(State::Start));
                        assert(scan(seq![c], 1) == Some(after.state));
                    }
                },
                Err(_) => {},
            }
        },
        Err(_) => {},
    }
}

/// The tokens that the lexer has put out after any number of characters
/// are well spelled.
pub proof fn lemma_feed_all_well_spelled(input: Seq<char>, n: nat)
    requires
        n <= input.len(),
    ensures
        feed_all(input, n) matches Ok(lexing) ==> in_step(lexing) && all_well_spelled(
            lexing.tokens,
        ),
    decreases n,
{
    if n > 0 {
        lemma_feed_all_well_spelled(input, (n - 1) as nat);
        match feed_all(input, (n - 1) as nat) {
            Ok(before) => {
                lemma_feed_keeps_well_spelled(before, input[n - 1]);
            },
            Err(_) => {},
        }
    }
}

/// The tokens of every source text are well spelled.
pub proof fn lemma_tokens_are_well_spelled(input: Seq<char>)
    ensures
        lex(input) matches Ok(tokens) ==> all_well_spelled(tokens),
{
    lemma_feed_all_well_spelled(input, input.len());
    match lex(input) {
        Ok(tokens) => {
            let lexing = feed_all(input, input.len()).unwrap();
            if lexing.state != State::Start {
                lemma_emitted_is_well_spelled(lexing.text, lexing.state);
            }
            let put_out = finish(lexing).unwrap();
            assert forall|i: int| 0 <= i < tokens.len() implies well_spelled(
                #[trigger] tokens[i],
            ) by {
                if i < lexing.tokens.len() {
                    assert(tokens[i] == lexing.tokens[i]);
                } else if i < put_out.len() {
                    assert(tokens[i] == put_out[i]);
                }
            }
        },
        Err(_) => {},
    }
}

/// One more character of a token: where a text leads to a state that
/// absorbs `c`, the text with `c` behind it leads to the state behind.
pub proof fn lemma_scan_push(text: Seq<char>, c: char)
    requires
        scan(text, text.len()) matches Some(state) && state.step(c) matches Ok(Some(next)) && next
            != State::Start,
    ensures
        scan(text.push(c), text.len() + 1) == Some(
            scan(text, text.len()).unwrap().step(c).unwrap().unwrap(),
        ),
{
    let longer = text.push(c);
    assert(longer.take(text.len() as int) =~= text);
    assert(text.take(text.len() as int) =~= text);
    lemma_scan_prefix(longer, text, text.len());
    assert(scan(longer, 0) == Some(State::Start));
}

/// Before any character, the lexer is between two tokens.
pub proof fn lemma_scan_nothing()
    ensures
        scan(Seq::<char>::empty(), 0) == Some(State::Start),
{
}

/// A token of one character.
pub proof fn lemma_reads_one(before: Seq<Lexeme>, c: char, lexeme: Lexeme)
    requires
        State::Start.step(c) matches Ok(Some(state)) && state != State::Start && lexeme_of(
            state,
            seq![c],
        ) == Some(lexeme),
        lexeme.kind != TokenKind::Comment,
    ensures
        reads(before, seq![c], seq![lexeme]),
        state_after(before, seq![c]) == State::Start.step(c).unwrap().unwrap(),
{
    let state = State::Start.step(c).unwrap().unwrap();
    lemma_scan_nothing();
    lemma_scan_push(Seq::<char>::empty(), c);
    assert(Seq::<char>::empty().push(c) =~= seq![c]);
    lemma_reads_token(before, seq![c], state, lexeme);
}

/// A token of two characters.
pub proof fn lemma_reads_two(before: Seq<Lexeme>, c: char, d: char, lexeme: Lexeme)
    requires
        State::Start.step(c) matches Ok(Some(first)) && first != State::Start && (first.step(
            d,
        ) matches Ok(Some(state)) && state != State::Start && lexeme_of(state, seq![c, d])
            == Some(lexeme)),
        lexeme.kind != TokenKind::Comment,
    ensures
        reads(before, seq![c, d], seq![lexeme]),
        state_after(before, seq![c, d]) == State::Start.step(c).unwrap().unwrap().step(
            d,
        ).unwrap().unwrap(),
{
    let first = State::Start.step(c).unwrap().unwrap();
    let state = first.step(d).unwrap().unwrap();
    lemma_scan_nothing();
    lemma_scan_push(Seq::<char>::empty(), c);
    assert(Seq::<char>::empty().push(c) =~= seq![c]);
    lemma_scan_push(seq![c], d);
    assert(seq![c].push(d) =~= seq![c, d]);
    lemma_reads_token(before, seq![c, d], state, lexeme);
}

/// A word of ASCII letters is read in the state of an identifier.
pub proof fn lemma_letters_spell(text: Seq<char>, n: nat)
    requires
        0 < n <= text.len(),
        forall|i: int| 0 <= i < text.len() ==> crate::chars::is_ascii_letter(#[trigger] text[i]),
    ensures
        scan(text, n) == Some(State::Identifier),
    decreases n,
{
    let c = text[n - 1];
    assert(crate::chars::is_ascii_letter(c));
    assert(crate::chars::is_letter(c));
    assert(!crate::chars::is_space(c));
    if n > 1 {
        lemma_letters_spell(text, (n - 1) as nat);
    } else {
        assert(scan(text, 0) == Some(State::Start));
    }
}

/// Where a token can lead if it begins with an equals sign, with a minus
/// sign or with a line feed.
pub proof fn lemma_scan_first(text: Seq<char>, n: nat)
    requires
        0 < n <= text.len(),
    ensures
        text[0] == '=' ==> scan(text, n).is_none() || scan(text, n) == Some(State::Equal) || scan(
            text,
            n,
        ) == Some(State::EqualEqual),
        text[0] == '-' ==> scan(text, n).is_none() || scan(text, n) == Some(State::Minus) || scan(
            text,
            n,
        ) == Some(State::MinusMinus) || scan(text, n) == Some(State::MinusEqual),
        text[0] == '\n' ==> scan(text, n).is_none() || scan(text, n) == Some(State::EOL),
        scan(text, n).is_some() ==> scan(text, 1).is_some(),
    decreases n,
{
    if n > 1 {
        lemma_scan_first(text, (n - 1) as nat);
    } else {
        assert(scan(text, 0) == Some(State::Start));
    }
}

/// A token that is no end of line does not begin with white space.
pub proof fn lemma_token_begins(text: Seq<char>, state: State)
    requires
        spells(text, state),
        state != State::EOL,
    ensures
        !crate::chars::is_space(text[0]),
{
    lemma_scan_first(text, text.len());
    assert(scan(text, 0) == Some(State::Start));
    assert(scan(text, 1).is_some());
}

/// Whether a blank, a closing parenthesis, a comma and a semicolon each
/// can follow where the lexer stands in `state`.
pub open spec fn ends_before_punctuation(state: State) -> bool {
    &&& follows(state, ' ')
    &&& follows(state, ')')
    &&& follows(state, ',')
    &&& follows(state, ';')
}

} // verus!
