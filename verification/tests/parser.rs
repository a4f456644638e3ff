use gmlpp::ast::helpers::parenthesized;
use gmlpp::ast::helpers::semi_or_eol;
use gmlpp::ast::model::Radix;
use gmlpp::ast::ArgumentList;
use gmlpp::ast::Assignment;
use gmlpp::ast::Call;
use gmlpp::ast::Code;
use gmlpp::ast::CommaList;
use gmlpp::ast::DocComment;
use gmlpp::ast::Expression;
use gmlpp::ast::Identifier;
use gmlpp::ast::LValue;
use gmlpp::ast::Literal;
use gmlpp::ast::Statement;
use gmlpp::ast::Statements;
use gmlpp::ast::Value;
use gmlpp::ast::AST;
use gmlpp::error::Error;
use gmlpp::error::ParseError;
use gmlpp::tokenizer::tokenize;
use gmlpp::tokenizer::Tokens;

/// The tokens of a text, with the cursor behind the begin-of-file token.
fn tokens(text: &str) -> Tokens {
    let mut tokens = tokenize(text).unwrap();
    tokens.skip(1);
    tokens
}

fn shown<T: std::fmt::Debug>(value: &T) -> String {
    format!("{:?}", value)
}

fn expression(text: &str) -> String {
    shown(&Expression::parse(&mut tokens(text)).unwrap())
}

fn statement(text: &str) -> String {
    shown(&Statement::parse(&mut tokens(text)).unwrap())
}

fn fails<T: std::fmt::Debug>(result: Result<T, Error>, expected: ParseError) {
    match result {
        Ok(tree) => panic!("parsed {:?}", tree),
        Err(error) => assert_eq!(error, Error::ParseError(expected)),
    }
}

fn ident(name: &str) -> Expression {
    Expression::Value(Value::Ident(Identifier(name.to_string())))
}

fn number(digits: &str) -> Expression {
    Expression::Value(Value::Literal(Literal::Numeric(gmlpp::ast::Number {
        radix: Radix::Decimal,
        digits: digits.to_string(),
    })))
}

fn boxed(e: Expression) -> Box<Expression> {
    Box::new(e)
}

#[test]
fn multiplication_binds_tighter_than_addition() {
    let expected = Expression::Plus(
        boxed(number("1")),
        boxed(Expression::Times(boxed(number("2")), boxed(number("3")))),
    );
    assert_eq!(expression("1 + 2 * 3"), shown(&expected));
    let wrong = Expression::Times(
        boxed(Expression::Plus(boxed(number("1")), boxed(number("2")))),
        boxed(number("3")),
    );
    assert_ne!(expression("1 + 2 * 3"), shown(&wrong));
}

#[test]
fn equal_precedence_associates_to_the_left() {
    let expected = Expression::Minus(
        boxed(Expression::Minus(boxed(number("1")), boxed(number("2")))),
        boxed(number("3")),
    );
    assert_eq!(expression("1 - 2 - 3"), shown(&expected));
    let expected = Expression::Plus(
        boxed(Expression::Times(boxed(number("1")), boxed(number("2")))),
        boxed(number("3")),
    );
    assert_eq!(expression("1 * 2 + 3"), shown(&expected));
}

#[test]
fn looser_operator_ends_the_right_operand() {
    let expected = Expression::BOr(
        boxed(Expression::Lt(
            boxed(ident("a")),
            boxed(Expression::Plus(boxed(ident("b")), boxed(ident("c")))),
        )),
        boxed(ident("d")),
    );
    assert_eq!(expression("a < b + c || d"), shown(&expected));
}

#[test]
fn ternary_has_three_parts() {
    let expected = Expression::Ternary(boxed(ident("a")), boxed(ident("b")), boxed(ident("c")));
    assert_eq!(expression("a ? b : c"), shown(&expected));
}

#[test]
fn ternary_without_colon_is_incomplete() {
    let mut cursor = tokens("a ? b");
    fails(Expression::parse(&mut cursor), ParseError::IncompleteTernaryOperator);
    assert_eq!(cursor.pos(), 1);
}

#[test]
fn pipe_takes_a_call() {
    let expected = Expression::Pipe(
        boxed(ident("x")),
        Call { name: Identifier("f".to_string()), arguments: CommaList(vec![ident("y")]) },
    );
    assert_eq!(expression("x |> f(y)"), shown(&expected));
}

#[test]
fn pipe_into_an_expression_is_an_error() {
    let mut cursor = tokens("x |> (y + z)");
    assert!(Expression::parse(&mut cursor).is_err());
    assert_eq!(cursor.pos(), 1);
    let mut cursor = tokens("x |> (y + z)");
    fails(Expression::parse(&mut cursor), ParseError::ExpectedIdentifier);
    let mut cursor = tokens("x |> y");
    fails(Expression::parse(&mut cursor), ParseError::ExpectedFunctionCall);
    let mut cursor = tokens("x |> (y + z)\n");
    fails(Statement::parse(&mut cursor), ParseError::ExpectedStatement);
    assert!(AST::from_source("x |> (y + z)\n").is_err());
}

#[test]
fn semicolon_and_end_of_line_are_one_terminator() {
    let mut cursor = tokens(";\n");
    assert_eq!(semi_or_eol(&mut cursor), Ok(()));
    assert_eq!(cursor.pos(), 3);
}

#[test]
fn end_of_line_alone_terminates() {
    let mut cursor = tokens("\n");
    assert_eq!(semi_or_eol(&mut cursor), Ok(()));
    assert_eq!(cursor.pos(), 2);
}

#[test]
fn semicolon_alone_terminates() {
    let mut cursor = tokens(";");
    assert_eq!(semi_or_eol(&mut cursor), Ok(()));
    assert_eq!(cursor.pos(), 2);
    let mut cursor = tokens("; a");
    assert_eq!(semi_or_eol(&mut cursor), Ok(()));
    assert_eq!(cursor.pos(), 2);
}

#[test]
fn missing_terminator_is_an_error() {
    let mut cursor = tokens("a");
    assert_eq!(semi_or_eol(&mut cursor), Err(ParseError::ExpectedEndOfStatement));
    assert_eq!(cursor.pos(), 1);
    let mut cursor = tokens("");
    assert_eq!(semi_or_eol(&mut cursor), Err(ParseError::ExpectedEndOfStatement));
    assert_eq!(cursor.pos(), 1);
    let mut cursor = tokens("");
    cursor.seek(7);
    assert_eq!(semi_or_eol(&mut cursor), Err(ParseError::ExpectedEndOfStatement));
    assert_eq!(cursor.pos(), 7);
}

#[test]
fn failed_parse_leaves_the_cursor_where_it_was() {
    for text in ["(a + b", "f(a,", "a ? b : ", "- - (", "a |> 1", "1 + 2 * (3 - ", "x +", "!"] {
        let mut cursor = tokens(text);
        assert!(Expression::parse(&mut cursor).is_err(), "{}", text);
        assert_eq!(cursor.pos(), 1, "{}", text);
    }
    for text in [
        "if (a) b",
        "if a",
        "do a; while",
        "do a; loop (b)",
        "for (a; b",
        "for a",
        "while (a",
        "repeat (3) {",
        "{ a; b",
        "var",
        "var x = ;",
        "return 1 +",
        "a = ",
        "a b",
        "break 1",
        ")",
    ] {
        let mut cursor = tokens(text);
        assert!(Statement::parse(&mut cursor).is_err(), "{}", text);
        assert_eq!(cursor.pos(), 1, "{}", text);
    }
    let mut cursor = tokens("f(a b)");
    fails(Call::parse(&mut cursor), ParseError::ExpectedArgument);
    assert_eq!(cursor.pos(), 1);
    let mut cursor = tokens("a + 1");
    fails(Assignment::parse(&mut cursor), ParseError::ExpectedStatement);
    assert_eq!(cursor.pos(), 1);
    let mut cursor = tokens("argument a argument = 1");
    fails(ArgumentList::parse(&mut cursor), ParseError::ExpectedIdentifier);
    assert_eq!(cursor.pos(), 1);
    let mut cursor = tokens("(a");
    fails(parenthesized(&mut cursor), ParseError::MismatchedParentheses);
    assert_eq!(cursor.pos(), 1);
    let mut cursor = tokens("a)");
    fails(parenthesized(&mut cursor), ParseError::ExpectedParentheses);
    assert_eq!(cursor.pos(), 1);
    let mut cursor = tokens("a; b");
    fails(Statements::parse(&mut cursor), ParseError::ExpectedStatement);
    assert_eq!(cursor.pos(), 1);
    let mut cursor = tokenize("a b").unwrap();
    assert!(Code::parse(&mut cursor).is_err());
    assert_eq!(cursor.pos(), 0);
}

#[test]
fn values() {
    let mut cursor = tokens("abc");
    assert_eq!(shown(&Identifier::parse(&mut cursor).unwrap()), shown(&Identifier("abc".to_string())));
    let mut cursor = tokens("1");
    fails(Identifier::parse(&mut cursor), ParseError::ExpectedIdentifier);
    let mut cursor = tokens("abc");
    assert_eq!(
        shown(&LValue::parse(&mut cursor).unwrap()),
        shown(&LValue::Identifier(Identifier("abc".to_string())))
    );
    assert_eq!(expression("-a"), shown(&Expression::Value(Value::Negative(Box::new(Value::Ident(Identifier("a".to_string())))))));
    assert_eq!(expression("!a"), shown(&Expression::Value(Value::Not(Box::new(Value::Ident(Identifier("a".to_string())))))));
    assert_eq!(expression("~a"), shown(&Expression::Value(Value::Inverted(Box::new(Value::Ident(Identifier("a".to_string())))))));
    assert_eq!(
        expression("(a)"),
        shown(&Expression::Value(Value::Expr(boxed(ident("a")))))
    );
    let mut cursor = tokens("(a) b");
    assert!(Value::parse(&mut cursor).is_ok());
    assert_eq!(cursor.pos(), 4);
    let mut cursor = tokens("f()");
    assert_eq!(
        shown(&Value::parse(&mut cursor).unwrap()),
        shown(&Value::Call(Call { name: Identifier("f".to_string()), arguments: CommaList(vec![]) }))
    );
    let mut cursor = tokens("f(a, b, )");
    assert_eq!(
        shown(&Call::parse(&mut cursor).unwrap()),
        shown(&Call {
            name: Identifier("f".to_string()),
            arguments: CommaList(vec![ident("a"), ident("b")])
        })
    );
    let mut cursor = tokens("+");
    fails(Value::parse(&mut cursor), ParseError::ExpectedValue);
    let mut cursor = tokens("a, b c");
    assert_eq!(shown(&CommaList::parse(&mut cursor)), shown(&CommaList(vec![ident("a"), ident("b")])));
    assert_eq!(cursor.pos(), 4);
}

#[test]
fn literals() {
    let literal = |text: &str| shown(&Literal::parse(&mut tokens(text)).unwrap());
    let numeric = |radix: Radix, digits: &str| {
        shown(&Literal::Numeric(gmlpp::ast::Number { radix, digits: digits.to_string() }))
    };
    assert_eq!(literal("0b101"), numeric(Radix::Binary, "101"));
    assert_eq!(literal("0x1F"), numeric(Radix::Hexadecimal, "1F"));
    assert_eq!(literal("1.5e3"), numeric(Radix::Decimal, "1.5e3"));
    assert_eq!(literal("true"), shown(&Literal::Boolean(true)));
    assert_eq!(literal("false"), shown(&Literal::Boolean(false)));
    assert_eq!(literal("undefined"), shown(&Literal::Undefined));
    assert_eq!(literal("\"a b\""), shown(&Literal::String("a b".to_string())));
    assert_eq!(literal("'a'"), shown(&Literal::Char('a')));
    assert_eq!(literal("'\\n'"), shown(&Literal::Char('\n')));
    assert_eq!(literal("'\\t'"), shown(&Literal::Char('\t')));
    assert_eq!(literal("'\\\\'"), shown(&Literal::Char('\\')));
    assert_eq!(literal("'\\''"), shown(&Literal::Char('\'')));
    assert_eq!(literal("'\\\"'"), shown(&Literal::Char('"')));
    assert_eq!(literal("'\"'"), shown(&Literal::Char('"')));
    let mut cursor = tokens("'\\q'");
    fails(Literal::parse(&mut cursor), ParseError::ExpectedLiteral);
    assert_eq!(cursor.pos(), 1);
    let mut cursor = tokens("a");
    fails(Literal::parse(&mut cursor), ParseError::ExpectedLiteral);
}

#[test]
fn simple_statements() {
    assert_eq!(statement(";"), shown(&Statement::Noop));
    assert_eq!(statement("var x;"), shown(&Statement::VarDecl(Identifier("x".to_string()))));
    assert_eq!(
        statement("var x = 1\n"),
        shown(&Statement::VarDeclAssign(Identifier("x".to_string()), number("1")))
    );
    assert_eq!(
        statement("globalvar x;"),
        shown(&Statement::GlobalvarDecl(Identifier("x".to_string())))
    );
    assert_eq!(
        statement("globalvar x = 1;"),
        shown(&Statement::GlobalvarDeclAssign(Identifier("x".to_string()), number("1")))
    );
    assert_eq!(statement("break;"), shown(&Statement::Break));
    assert_eq!(statement("continue;"), shown(&Statement::Continue));
    assert_eq!(statement("exit;"), shown(&Statement::Exit));
    assert_eq!(statement("return;"), shown(&Statement::Return(None)));
    assert_eq!(statement("return 1;"), shown(&Statement::Return(Some(number("1")))));
    assert_eq!(statement("f(1);"), shown(&Statement::Expression(Expression::Value(Value::Call(Call {
        name: Identifier("f".to_string()),
        arguments: CommaList(vec![number("1")]),
    })))));
    assert_eq!(
        statement("a = 1;"),
        shown(&Statement::Assignment(Assignment::Eq(
            LValue::Identifier(Identifier("a".to_string())),
            number("1")
        )))
    );
    let mut cursor = tokens("a");
    fails(Statement::parse(&mut cursor), ParseError::ExpectedStatement);
    let mut cursor = tokens("var 1");
    fails(Statement::parse(&mut cursor), ParseError::ExpectedIdentifier);
    let mut cursor = tokens("var x 1");
    fails(Statement::parse(&mut cursor), ParseError::ExpectedEndOfStatement);
}

#[test]
fn compound_statements() {
    let a = || Statement::Expression(ident("a"));
    let b = || Statement::Expression(ident("b"));
    assert_eq!(
        statement("if (c) a;"),
        shown(&Statement::If(ident("c"), Box::new(a()), None))
    );
    assert_eq!(
        statement("if (c) a; else b;"),
        shown(&Statement::If(ident("c"), Box::new(a()), Some(Box::new(b()))))
    );
    assert_eq!(statement("while (c) a;"), shown(&Statement::While(ident("c"), Box::new(a()))));
    assert_eq!(statement("until (c) a;"), shown(&Statement::Until(ident("c"), Box::new(a()))));
    assert_eq!(statement("repeat (c) a;"), shown(&Statement::Repeat(ident("c"), Box::new(a()))));
    assert_eq!(statement("while (c);"), shown(&Statement::While(ident("c"), Box::new(Statement::Noop))));
    assert_eq!(
        statement("do a; while (c)"),
        shown(&Statement::DoWhile(Box::new(a()), ident("c")))
    );
    assert_eq!(
        statement("do a; until (c)"),
        shown(&Statement::DoUntil(Box::new(a()), ident("c")))
    );
    assert_eq!(statement("{ a; b; }"), shown(&Statement::Block(vec![a(), b()])));
    assert_eq!(statement("{}"), shown(&Statement::Block(vec![])));
    assert_eq!(
        statement("for (a; c b;) a;"),
        shown(&Statement::For(Box::new(a()), ident("c"), Box::new(b()), Box::new(a())))
    );
    let mut cursor = tokens("for (a; c; b) a;");
    fails(Statement::parse(&mut cursor), ParseError::MismatchedParentheses);
    let mut cursor = tokens("for a");
    fails(Statement::parse(&mut cursor), ParseError::ExpectedParentheses);
    let mut cursor = tokens("do a; b");
    fails(Statement::parse(&mut cursor), ParseError::ExpectedKeyword);
    let mut cursor = tokens("if c");
    fails(Statement::parse(&mut cursor), ParseError::ExpectedParentheses);
    let mut cursor = tokens("if (c");
    fails(Statement::parse(&mut cursor), ParseError::MismatchedParentheses);
    assert!(Statement::Noop.is_noop());
    assert!(!Statement::Break.is_noop());
    assert!(Statement::Block(vec![]).is_block());
    assert!(!Statement::Noop.is_block());
}

#[test]
fn units() {
    let mut cursor = tokens("/// one\n/// two\na;");
    assert_eq!(
        shown(&DocComment::parse(&mut cursor)),
        shown(&DocComment(vec![" one".to_string(), " two".to_string()]))
    );
    assert_eq!(cursor.pos(), 5);
    let name = |s: &str| Identifier(s.to_string());
    let mut cursor = tokens("argument a argument b? argument c = 1 argument ...d");
    assert_eq!(
        shown(&ArgumentList::parse(&mut cursor).unwrap()),
        shown(&ArgumentList::Argument(
            name("a"),
            Box::new(ArgumentList::OptionalArgument(
                name("b"),
                Box::new(ArgumentList::DefaultArgument(
                    name("c"),
                    number("1"),
                    Box::new(ArgumentList::VariadicArgument(name("d")))
                ))
            ))
        ))
    );
    let mut cursor = tokens("a;");
    assert_eq!(shown(&ArgumentList::parse(&mut cursor).unwrap()), shown(&ArgumentList::End));
    assert_eq!(cursor.pos(), 1);
    let tree = AST::from_source("/// doc\nargument a a = 1\nreturn a\n").unwrap();
    let expected = AST::new(Code {
        docs: DocComment(vec![" doc".to_string()]),
        args: ArgumentList::Argument(name("a"), Box::new(ArgumentList::End)),
        body: Statements(vec![
            Statement::Assignment(Assignment::Eq(LValue::Identifier(name("a")), number("1"))),
            Statement::Return(Some(ident("a"))),
        ]),
    });
    assert_eq!(shown(&tree), shown(&expected));
    assert_eq!(AST::from_source("\"abc").err(), Some(Error::UnexpectedEOF));
    assert_eq!(
        AST::from_source("a = \n").err(),
        Some(Error::ParseError(ParseError::ExpectedStatement))
    );
}
