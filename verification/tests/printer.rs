use gmlpp::ast::Expression;
use gmlpp::ast::Literal;
use gmlpp::ast::Statement;
use gmlpp::ast::AST;
use gmlpp::compiler::Compiler;
use gmlpp::error::Error;
use gmlpp::error::ParseError;
use gmlpp::project::Source;
use gmlpp::tokenizer::tokenize;
use gmlpp::tokenizer::Tokens;

fn tokens(text: &str) -> Tokens {
    let mut tokens = tokenize(text).unwrap();
    tokens.skip(1);
    tokens
}

fn expression(text: &str) -> String {
    Expression::parse(&mut tokens(text)).unwrap().print()
}

fn statement(text: &str, indent: usize) -> String {
    Statement::parse(&mut tokens(text)).unwrap().print(indent)
}

fn compile(text: &str) -> String {
    Compiler::compile(text).unwrap()
}

#[test]
fn expressions_are_printed_with_blanks_round_operators() {
    assert_eq!(expression("1+2*3"), "1 + 2 * 3");
    assert_eq!(expression("a?b:c"), "a ? b : c");
    assert_eq!(expression("x|>f(y)"), "x |> f(y, )");
    assert_eq!(expression("a div b mod c"), "a div b mod c");
    assert_eq!(expression("a**b"), "a ** b");
    assert_eq!(expression("-(a+b)"), "-(a + b)");
    assert_eq!(expression("!a&&~b"), "!a && ~b");
    assert_eq!(expression("f()"), "f()");
    assert_eq!(expression("f(a,b)"), "f(a, b, )");
    assert_eq!(expression("a<<1>>2"), "a << 1 >> 2");
    assert_eq!(expression("a<=b"), "a <= b");
}

#[test]
fn two_minus_signs_are_kept_apart() {
    assert_eq!(expression("- -a"), "- -a");
    assert_eq!(expression("- - -a"), "- - -a");
    assert_eq!(expression("-!a"), "-!a");
    assert_eq!(expression("!-a"), "!-a");
    assert_eq!(expression("a - -b"), "a - -b");
    assert_eq!(expression("-(-a)"), "-(-a)");
    assert_eq!(expression("-1"), "-1");
    assert_eq!(expression("-.5"), "-.5");
}

#[test]
fn literals_are_printed_as_they_were_written() {
    assert_eq!(expression("0x1F"), "0x1F");
    assert_eq!(expression("0b101"), "0b101");
    assert_eq!(expression("1_000.5e-3"), "1_000.5e-3");
    assert_eq!(expression("true"), "true");
    assert_eq!(expression("false"), "false");
    assert_eq!(expression("undefined"), "undefined");
    assert_eq!(expression("\"a\\nb\""), "\"a\\nb\"");
    assert_eq!(expression("'a'"), "'a'");
    assert_eq!(expression("'\\n'"), "'\\n'");
    assert_eq!(expression("'\\''"), "'\\''");
    assert_eq!(expression("'\\\"'"), "'\"'");
    assert_eq!(Literal::Char('\t').print(), "'\\t'");
    assert_eq!(Literal::Char('\\').print(), "'\\\\'");
}

#[test]
fn simple_statements_are_lines() {
    assert_eq!(statement("a = 1\n", 0), "a = 1;\n");
    assert_eq!(statement("a = 1\n", 4), "    a = 1;\n");
    assert_eq!(statement("var x;", 2), "  var x;\n");
    assert_eq!(statement("var x = 1;", 0), "var x = 1;\n");
    assert_eq!(statement("globalvar x;", 0), "globalvar x;\n");
    assert_eq!(statement("globalvar x = 1;", 0), "globalvar x = 1;\n");
    assert_eq!(statement("return;", 0), "return;\n");
    assert_eq!(statement("return a+1;", 0), "return a + 1;\n");
    assert_eq!(statement("break;", 0), "break;\n");
    assert_eq!(statement("continue;", 0), "continue;\n");
    assert_eq!(statement("exit;", 0), "exit;\n");
    assert_eq!(statement("f(1);", 0), "f(1, );\n");
    assert_eq!(statement(";", 0), ";\n");
}

#[test]
fn blocks_are_indented_by_four() {
    assert_eq!(statement("{ a; b; }", 0), "{\n    a;\n    b;\n}\n");
    assert_eq!(statement("{ a; { b; } }", 0), "{\n    a;\n    {\n        b;\n    }\n}\n");
    assert_eq!(statement("{ a; }", 2), "  {\n      a;\n  }\n");
    assert_eq!(statement("{}", 0), "{\n}\n");
}

#[test]
fn no_ops_are_left_out_of_blocks_and_kept_as_loop_bodies() {
    assert_eq!(statement("{ ; a; ; }", 0), "{\n    a;\n}\n");
    assert_eq!(statement("while (a);", 0), "while (a);\n");
    assert_eq!(statement("until (a);", 0), "until (a);\n");
    assert_eq!(statement("repeat (3);", 0), "repeat (3);\n");
    assert_eq!(statement("do; until (a)", 0), "do; until (a);\n");
    assert_eq!(statement("do; while (a)", 0), "do; while (a);\n");
    assert_eq!(compile(";a;;\n"), "a;\n");
}

#[test]
fn bodies_without_braces_get_a_line_of_their_own() {
    assert_eq!(statement("if (a) b;", 0), "if (a)\n    b;\n");
    assert_eq!(statement("if (a) b; else c;", 0), "if (a)\n    b;\nelse\n    c;\n");
    assert_eq!(statement("if (a) { b; }", 0), "if (a) {\n    b;\n}\n");
    assert_eq!(statement("if (a) { b; } else { c; }", 0), "if (a) {\n    b;\n} else {\n    c;\n}\n");
    assert_eq!(statement("if (a) { b; } else c;", 4), "    if (a) {\n        b;\n    } else\n        c;\n");
    assert_eq!(statement("while (a) b;", 0), "while (a)\n    b;\n");
    assert_eq!(statement("while (a) { b; }", 0), "while (a) {\n    b;\n}\n");
    assert_eq!(statement("repeat (3) b;", 4), "    repeat (3)\n        b;\n");
    assert_eq!(statement("do b; while (a)", 0), "do\n    b;\nwhile (a)\n");
    assert_eq!(statement("do { b; } until (a)", 0), "do {\n    b;\n} until (a)\n");
    assert_eq!(statement("for (a; c b;) d;", 0), "for (a; c b;)\n    d;\n");
    assert_eq!(statement("for (a; c b;) { d; }", 0), "for (a; c b;) {\n    d;\n}\n");
    assert_eq!(statement("for (a; c b;);", 0), "for (a; c b;);\n");
}

#[test]
fn units_are_printed_with_docs_and_arguments_first() {
    assert_eq!(compile(""), "");
    assert_eq!(compile("a = 1\n"), "a = 1;\n");
    assert_eq!(compile("/// doc\na = 1\n"), "/// doc\na = 1;\n");
    assert_eq!(
        compile("/// one\n/// two\nargument a argument b? argument c = 1 argument ...d"),
        "/// one\n/// two\nargument a\nargument b?\nargument c = 1\nargument ...d\n"
    );
    assert_eq!(compile("argument a return a;"), "argument a\nreturn a;\n");
    let tree = AST::from_source("x = 1 + 2 * 3;\nreturn x\n").unwrap();
    assert_eq!(tree.print(), "x = 1 + 2 * 3;\nreturn x;\n");
}

#[test]
fn printed_simple_programs_read_back_as_the_same_tree() {
    for text in [
        "a = 1\n",
        "var x = 1 + 2 * 3;\nreturn x |> f(y) ? -a : !b\n",
        "/// doc\nglobalvar g;\ng = 0x1F + 0b101 + 1.5e3\nf(g, 'a', \"s\\n\");\nexit\n",
        "x = (a + b) * c - d / e % f ** g\n",
        "a = b < c || d >= e && f != g == h\n",
        "break;continue;return;\n",
        "x = - -a - - -1\n",
        "var _x1 = !~-f(g(1, 2, ), \"a b\", 'c', '\\'', true, undefined)\n",
        "/// first\n///second\nglobalvar g = a ? b ? c : d : e |> f()\n",
        "a = 0x_FF + 0b_1 + 1_000.5e-3 + .5 + 5.\n",
        "x = a div b mod c << 1 >> 2 & 3 | 4 ^ 5 && 6 || 7 ** 8\n",
        "",
    ] {
        let first = AST::from_source(text).unwrap();
        let printed = first.print();
        let second = AST::from_source(&printed).unwrap();
        assert_eq!(format!("{:?}", first), format!("{:?}", second), "{}", text);
        assert_eq!(second.print(), printed, "{}", text);
    }
}

#[test]
fn white_space_between_tokens_does_not_matter() {
    let a = AST::from_source("x=1+2*3;\n").unwrap();
    let b = AST::from_source("x   =  1 +2  *   3 ;\n\n\n").unwrap();
    assert_eq!(format!("{:?}", a), format!("{:?}", b));
    assert_eq!(a.print(), b.print());
}

#[test]
fn compile_reports_the_first_error() {
    assert_eq!(Compiler::compile("a = $").err(), Some(Error::InvalidCharacter));
    assert_eq!(Compiler::compile("12ab").err(), Some(Error::MalformedNumericLiteral));
    assert_eq!(Compiler::compile("''").err(), Some(Error::UnexpectedCharacter));
    assert_eq!(Compiler::compile("#m ").err(), Some(Error::InvalidPreprocessorDirective));
    assert_eq!(Compiler::compile("\"a").err(), Some(Error::UnexpectedEOF));
    assert_eq!(
        Compiler::compile("a ? b\n").err(),
        Some(Error::ParseError(ParseError::ExpectedStatement))
    );
    assert_eq!(
        Compiler::compile("var 1;").err(),
        Some(Error::ParseError(ParseError::ExpectedIdentifier))
    );
    assert_eq!(
        Compiler::compile("var x y").err(),
        Some(Error::ParseError(ParseError::ExpectedEndOfStatement))
    );
    assert_eq!(
        Compiler::compile("do a; b").err(),
        Some(Error::ParseError(ParseError::ExpectedKeyword))
    );
    assert_eq!(
        Compiler::compile("argument 1").err(),
        Some(Error::ParseError(ParseError::ExpectedIdentifier))
    );
}

#[test]
fn compile_all_gives_an_output_for_each_text() {
    let sources = vec![
        Source::from("a.gmlpp").unwrap(),
        Source::from("dir/b.gmlpp").unwrap(),
        Source::from("c.gmlpp").unwrap(),
    ];
    let compiler = Compiler::new(sources);
    assert_eq!(compiler.sources().len(), 3);
    let texts = vec![Some("x = 1\n".to_string()), None, Some("x = ".to_string())];
    let outputs = compiler.compile_all(&texts);
    assert_eq!(outputs.len(), 2);
    assert_eq!(outputs[0].path, "a.gml");
    assert_eq!(outputs[0].result, Ok("x = 1;\n".to_string()));
    assert_eq!(outputs[1].path, "c.gml");
    assert_eq!(outputs[1].result, Err(Error::ParseError(ParseError::ExpectedStatement)));
}

#[test]
fn errors_describe_themselves() {
    assert_eq!(Error::InvalidCharacter.description(), "Invalid character in source file");
    assert_eq!(Error::UnexpectedCharacter.description(), "Unexpected character in source file");
    assert_eq!(Error::MalformedNumericLiteral.description(), "Malformed numeric literal");
    assert_eq!(Error::CommentNestingDepth.description(), "Comment nesting is too deep");
    assert_eq!(Error::InvalidPreprocessorDirective.description(), "Invalid preprocessor directive");
    assert_eq!(Error::UnexpectedEOF.description(), "Unexpected end of input");
    assert_eq!(Error::ParseError(ParseError::ExpectedValue).description(), "Expected value");
    assert_eq!(ParseError::ExpectedLiteral.description(), "Expected literal");
    assert_eq!(ParseError::ExpectedIdentifier.description(), "Expected identifier");
    assert_eq!(ParseError::ExpectedFunctionCall.description(), "Expected function call");
    assert_eq!(ParseError::ExpectedArgument.description(), "Expected argument");
    assert_eq!(ParseError::ExpectedKeyword.description(), "Expected keyword");
    assert_eq!(ParseError::ExpectedStatement.description(), "Expected statement");
    assert_eq!(ParseError::ExpectedParentheses.description(), "Expected parentheses");
    assert_eq!(ParseError::IncompleteTernaryOperator.description(), "Incomplete ternary operator");
    assert_eq!(ParseError::MismatchedParentheses.description(), "Mismatched parentheses");
    assert_eq!(ParseError::ExpectedEndOfStatement.description(), "Expected end of statement");
}
