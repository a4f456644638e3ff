use gmlpp::error::Error;
use gmlpp::tokenizer::tokenize;
use gmlpp::tokenizer::State;
use gmlpp::tokenizer::Token;
use gmlpp::tokenizer::TokenKind;
use gmlpp::tokenizer::Tokens;

fn all(tokens: &Tokens) -> Vec<Token> {
    let mut out = Vec::new();
    let mut i = 0;
    while let Some(token) = tokens.get(i) {
        out.push(token.clone());
        i += 1;
    }
    out
}

fn lexed(text: &str) -> Vec<Token> {
    all(&tokenize(text).unwrap())
}

fn text(s: &str) -> String {
    s.to_string()
}

#[test]
fn decimal_literal_between_sentinels() {
    assert_eq!(lexed("123"), vec![Token::BOF, Token::DecLiteral(text("123")), Token::EOF]);
}

#[test]
fn hex_literal_loses_its_prefix() {
    assert_eq!(lexed("0x1F"), vec![Token::BOF, Token::HexLiteral(text("1F")), Token::EOF]);
}

#[test]
fn binary_literal_loses_its_prefix() {
    assert_eq!(lexed("0b101"), vec![Token::BOF, Token::BinLiteral(text("101")), Token::EOF]);
}

#[test]
fn nested_block_comment_leaves_no_token() {
    assert_eq!(lexed("/* /* */ */"), vec![Token::BOF, Token::EOF]);
}

#[test]
fn comment_nesting_is_bounded() {
    let mut source = String::new();
    for _ in 0..256 {
        source.push_str("/*");
    }
    assert_eq!(tokenize(&source).err(), Some(Error::CommentNestingDepth));
    let mut source = String::new();
    for _ in 0..255 {
        source.push_str("/*");
    }
    assert_eq!(tokenize(&source).err(), Some(Error::UnexpectedEOF));
}

#[test]
fn empty_text_gives_the_two_sentinels() {
    assert_eq!(lexed(""), vec![Token::BOF, Token::EOF]);
    assert_eq!(lexed("   \t "), vec![Token::BOF, Token::EOF]);
}

#[test]
fn numbers_with_fraction_exponent_and_separators() {
    assert_eq!(lexed("0"), vec![Token::BOF, Token::DecLiteral(text("0")), Token::EOF]);
    assert_eq!(lexed("1.5"), vec![Token::BOF, Token::DecLiteral(text("1.5")), Token::EOF]);
    assert_eq!(lexed("1.5e-3"), vec![Token::BOF, Token::DecLiteral(text("1.5e-3")), Token::EOF]);
    assert_eq!(lexed("1_000"), vec![Token::BOF, Token::DecLiteral(text("1_000")), Token::EOF]);
    assert_eq!(lexed(".5"), vec![Token::BOF, Token::DecLiteral(text(".5")), Token::EOF]);
    assert_eq!(lexed("0x_ff"), vec![Token::BOF, Token::HexLiteral(text("_ff")), Token::EOF]);
    assert_eq!(lexed("0b_1_0"), vec![Token::BOF, Token::BinLiteral(text("_1_0")), Token::EOF]);
    assert_eq!(lexed("0_1"), vec![Token::BOF, Token::DecLiteral(text("0_1")), Token::EOF]);
    assert_eq!(lexed("1._5"), vec![Token::BOF, Token::DecLiteral(text("1._5")), Token::EOF]);
    assert_eq!(lexed("1e_5"), vec![Token::BOF, Token::DecLiteral(text("1e_5")), Token::EOF]);
    assert_eq!(lexed("1e-_5_"), vec![Token::BOF, Token::DecLiteral(text("1e-_5_")), Token::EOF]);
}

#[test]
fn malformed_numbers_are_rejected() {
    assert_eq!(tokenize("12ab").err(), Some(Error::MalformedNumericLiteral));
    assert_eq!(tokenize("0x ").err(), Some(Error::MalformedNumericLiteral));
    assert_eq!(tokenize("0xg").err(), Some(Error::MalformedNumericLiteral));
    assert_eq!(tokenize("0b2").err(), Some(Error::MalformedNumericLiteral));
    assert_eq!(tokenize("1e ").err(), Some(Error::MalformedNumericLiteral));
    assert_eq!(tokenize("1e- ").err(), Some(Error::MalformedNumericLiteral));
    assert_eq!(tokenize("1e-x").err(), Some(Error::MalformedNumericLiteral));
}

#[test]
fn strings_and_characters_lose_their_quotes() {
    assert_eq!(lexed("\"abc\""), vec![Token::BOF, Token::StrLiteral(text("abc")), Token::EOF]);
    assert_eq!(
        lexed("\"a\\\"b\""),
        vec![Token::BOF, Token::StrLiteral(text("a\\\"b")), Token::EOF]
    );
    assert_eq!(lexed("'a'"), vec![Token::BOF, Token::CharLiteral(text("a")), Token::EOF]);
    assert_eq!(lexed("'\\n'"), vec![Token::BOF, Token::CharLiteral(text("\\n")), Token::EOF]);
}

#[test]
fn unterminated_tokens_end_too_early() {
    assert_eq!(tokenize("\"abc").err(), Some(Error::UnexpectedEOF));
    assert_eq!(tokenize("\"abc\\").err(), Some(Error::UnexpectedEOF));
    assert_eq!(tokenize("/* abc").err(), Some(Error::UnexpectedEOF));
    assert_eq!(tokenize("/* abc *").err(), Some(Error::UnexpectedEOF));
    assert_eq!(tokenize("'a").err(), Some(Error::UnexpectedEOF));
    assert_eq!(tokenize("'").err(), Some(Error::UnexpectedEOF));
    assert_eq!(tokenize("0x").err(), Some(Error::UnexpectedEOF));
    assert_eq!(tokenize("1e").err(), Some(Error::UnexpectedEOF));
    assert_eq!(tokenize("1e-").err(), Some(Error::UnexpectedEOF));
    assert_eq!(tokenize("..").err(), Some(Error::UnexpectedEOF));
    assert_eq!(tokenize("#mac").err(), Some(Error::UnexpectedEOF));
}

#[test]
fn empty_character_literal_is_rejected() {
    assert_eq!(tokenize("''").err(), Some(Error::UnexpectedCharacter));
    assert_eq!(tokenize("'ab'").err(), Some(Error::UnexpectedCharacter));
}

#[test]
fn invalid_character_is_rejected() {
    assert_eq!(tokenize("$").err(), Some(Error::InvalidCharacter));
    assert_eq!(tokenize("a = `").err(), Some(Error::InvalidCharacter));
}

#[test]
fn operators_take_the_longest_match() {
    assert_eq!(lexed("+"), vec![Token::BOF, Token::Plus, Token::EOF]);
    assert_eq!(lexed("++"), vec![Token::BOF, Token::PlusPlus, Token::EOF]);
    assert_eq!(lexed("+="), vec![Token::BOF, Token::PlusEqual, Token::EOF]);
    assert_eq!(lexed("+++"), vec![Token::BOF, Token::PlusPlus, Token::Plus, Token::EOF]);
    assert_eq!(lexed("<"), vec![Token::BOF, Token::Less, Token::EOF]);
    assert_eq!(lexed("<<"), vec![Token::BOF, Token::LShift, Token::EOF]);
    assert_eq!(lexed("<<="), vec![Token::BOF, Token::LShiftEqual, Token::EOF]);
    assert_eq!(lexed("*"), vec![Token::BOF, Token::Star, Token::EOF]);
    assert_eq!(lexed("**"), vec![Token::BOF, Token::Exp, Token::EOF]);
    assert_eq!(lexed("**="), vec![Token::BOF, Token::ExpEqual, Token::EOF]);
    assert_eq!(lexed("="), vec![Token::BOF, Token::Assign, Token::EOF]);
    assert_eq!(lexed("=="), vec![Token::BOF, Token::Equal, Token::EOF]);
    assert_eq!(lexed("|>"), vec![Token::BOF, Token::Pipe, Token::EOF]);
    assert_eq!(lexed("||"), vec![Token::BOF, Token::BOr, Token::EOF]);
    assert_eq!(lexed("..."), vec![Token::BOF, Token::DotDotDot, Token::EOF]);
    assert_eq!(tokenize(".. ").err(), Some(Error::UnexpectedCharacter));
    assert_eq!(tokenize("....").err(), Some(Error::UnexpectedCharacter));
}

#[test]
fn preprocessor_keywords_are_matched_letter_by_letter() {
    assert_eq!(lexed("#macro"), vec![Token::BOF, Token::HashMacro, Token::EOF]);
    assert_eq!(lexed("#pragma"), vec![Token::BOF, Token::HashPragma, Token::EOF]);
    assert_eq!(lexed("#"), vec![Token::BOF, Token::Hash, Token::EOF]);
    assert_eq!(tokenize("#mac ").err(), Some(Error::InvalidPreprocessorDirective));
    assert_eq!(tokenize("#macros").err(), Some(Error::InvalidPreprocessorDirective));
    assert_eq!(tokenize("#pragmatic").err(), Some(Error::InvalidPreprocessorDirective));
}

#[test]
fn white_space_from_a_line_feed_on_is_one_end_of_line() {
    assert_eq!(
        lexed("a\n\n  \n b"),
        vec![
            Token::BOF,
            Token::Identifier(text("a")),
            Token::EOL,
            Token::Identifier(text("b")),
            Token::EOF
        ]
    );
    assert_eq!(
        lexed("a   b"),
        vec![Token::BOF, Token::Identifier(text("a")), Token::Identifier(text("b")), Token::EOF]
    );
}

#[test]
fn words_are_identifiers_keywords_or_literals() {
    assert_eq!(lexed("foo_1"), vec![Token::BOF, Token::Identifier(text("foo_1")), Token::EOF]);
    assert_eq!(lexed("_x"), vec![Token::BOF, Token::Identifier(text("_x")), Token::EOF]);
    assert_eq!(lexed("_"), vec![Token::BOF, Token::Underscore, Token::EOF]);
    assert_eq!(lexed("while"), vec![Token::BOF, Token::While, Token::EOF]);
    assert_eq!(lexed("globalvar"), vec![Token::BOF, Token::Globalvar, Token::EOF]);
    assert_eq!(lexed("true"), vec![Token::BOF, Token::BoolLiteral(text("true")), Token::EOF]);
    assert_eq!(lexed("false"), vec![Token::BOF, Token::BoolLiteral(text("false")), Token::EOF]);
    assert_eq!(lexed("undefined"), vec![Token::BOF, Token::UndefinedLiteral, Token::EOF]);
    assert_eq!(lexed("div"), vec![Token::BOF, Token::Div, Token::EOF]);
}

#[test]
fn characters_beyond_ascii_are_classed_by_unicode() {
    assert_eq!(lexed("héllo"), vec![Token::BOF, Token::Identifier(text("héllo")), Token::EOF]);
    assert_eq!(lexed("变量 = 1"), lexed("变量=1"));
    assert_eq!(
        lexed("变量"),
        vec![Token::BOF, Token::Identifier(text("变量")), Token::EOF]
    );
    assert_eq!(lexed("a٣"), vec![Token::BOF, Token::Identifier(text("a٣")), Token::EOF]);
    assert_eq!(tokenize("٣").err(), Some(Error::InvalidCharacter));
    assert_eq!(lexed(".٣"), vec![Token::BOF, Token::DecLiteral(text(".٣")), Token::EOF]);
    assert_eq!(tokenize("1é").err(), Some(Error::MalformedNumericLiteral));
    assert_eq!(lexed("a\u{a0}b"), lexed("a b"));
    assert_eq!(lexed("a\n\u{2003}\u{a0}b"), lexed("a\nb"));
    assert_eq!(tokenize("💝").err(), Some(Error::InvalidCharacter));
    assert_eq!(lexed("a\tb\r"), lexed("a b"));
    assert_eq!(tokenize("a\u{1c}b").err(), Some(Error::InvalidCharacter));
}

#[test]
fn comments_are_dropped_and_doc_comments_kept() {
    assert_eq!(
        lexed("a // b\nc"),
        vec![
            Token::BOF,
            Token::Identifier(text("a")),
            Token::EOL,
            Token::Identifier(text("c")),
            Token::EOF
        ]
    );
    assert_eq!(
        lexed("/// doc\na"),
        vec![
            Token::BOF,
            Token::DocComment(text(" doc")),
            Token::EOL,
            Token::Identifier(text("a")),
            Token::EOF
        ]
    );
    assert_eq!(lexed("a /* x */ b"), lexed("a b"));
    assert_eq!(lexed("//"), vec![Token::BOF, Token::EOF]);
    assert_eq!(lexed("///"), vec![Token::BOF, Token::DocComment(text("")), Token::EOF]);
}

#[test]
fn transitions_of_the_state_machine() {
    assert_eq!(State::Start.next('0'), Ok(Some(State::Zero)));
    assert_eq!(State::Zero.next('x'), Ok(Some(State::ZeroX)));
    assert_eq!(State::Plus.next('a'), Ok(None));
    assert_eq!(State::Slash.next('*'), Ok(Some(State::SlashStar(1))));
    assert_eq!(State::SlashStarSlash(255).next('*'), Err(Error::CommentNestingDepth));
    assert_eq!(State::SlashStarSlash(254).next('*'), Ok(Some(State::SlashStar(255))));
    assert_eq!(State::SlashStarStar(1).next('/'), Ok(Some(State::SlashStar(0))));
    assert_eq!(State::SlashStar(0).next('x'), Ok(None));
    assert_eq!(State::default(), State::Start);
}

#[test]
fn token_of_a_state_and_its_text() {
    assert_eq!(
        Token::new(State::Hex, text("0x1F")),
        Some(Token::HexLiteral(text("1F")))
    );
    assert_eq!(Token::new(State::Str, text("\"a\"")), Some(Token::StrLiteral(text("a"))));
    assert_eq!(Token::new(State::Identifier, text("if")), Some(Token::If));
    assert_eq!(Token::new(State::StrStart, text("\"a")), None);
    assert_eq!(Token::new(State::Start, text("")), None);
    assert_eq!(Token::new(State::BarMore, text("|>")), Some(Token::Pipe));
    assert_eq!(Token::bare(TokenKind::Semi), Token::Semi);
    assert_eq!(Token::Identifier(text("a")).kind(), TokenKind::Identifier);
    assert_eq!(Token::Identifier(text("a")).into_text(), text("a"));
}

#[test]
fn cursor_moves() {
    let mut tokens = tokenize("a b c").unwrap();
    assert_eq!(tokens.len(), 5);
    assert_eq!(tokens.pos(), 0);
    assert_eq!(tokens.peek(), Token::BOF);
    assert_eq!(tokens.next(), Token::BOF);
    assert_eq!(tokens.peek(), Token::Identifier(text("a")));
    tokens.skip(2);
    assert_eq!(tokens.peek(), Token::Identifier(text("c")));
    tokens.back(1);
    assert_eq!(tokens.peek(), Token::Identifier(text("b")));
    assert_eq!(tokens.index(1), &Token::Identifier(text("c")));
    assert_eq!(tokens.run(2), &[Token::Identifier(text("b")), Token::Identifier(text("c"))]);
    assert_eq!(tokens.kind(2), Some(TokenKind::EOF));
    assert_eq!(tokens.kind(3), None);
    tokens.seek(0);
    assert_eq!(tokens.pos(), 0);
    let fresh = Tokens::new(vec![Token::BOF, Token::EOF]);
    assert_eq!(fresh.peek(), Token::BOF);
}
