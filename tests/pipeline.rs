use lox::interpreter::{Arith, Evaluation, Facts, Interpreter, Request, RuntimeError, Type};
use lox::number::Number;
use lox::parser::{Expr, Literal, ParseError, ParseErrorKind, Parser};
use lox::tokenizer::{CtxToken, Keyword, LexError, LexErrorKind, Scanner, Symbol, Token};

fn num(x: f64) -> Number {
    Number::from_bits(x.to_bits())
}

fn value_of(n: Number) -> f64 {
    f64::from_bits(n.to_bits())
}

fn scan(source: &str) -> Result<Vec<CtxToken>, Vec<LexError>> {
    Scanner::new(source.to_string()).scan()
}

fn tokens(source: &str) -> Vec<(Token, usize)> {
    scan(source)
        .unwrap()
        .into_iter()
        .map(|t| (t.token, t.line))
        .collect()
}

fn parse(source: &str) -> Result<Expr, ParseError> {
    Parser::new(scan(source).unwrap()).parse()
}

/// Evaluates with binary64 arithmetic done here, as a host would.
fn host_evaluate(expr: &Expr) -> Evaluation {
    let mut facts = Facts::new();
    loop {
        match Interpreter::evaluate(expr, &facts) {
            Evaluation::Needs(Request::Decode(text)) => {
                let value = text.parse::<f64>().unwrap();
                facts.record_decoded(text, num(value));
            }
            Evaluation::Needs(Request::Compute(op, a, b)) => {
                let (x, y) = (value_of(a), value_of(b));
                let result = match op {
                    Arith::Add => x + y,
                    Arith::Subtract => x - y,
                    Arith::Multiply => x * y,
                    Arith::Divide => x / y,
                };
                facts.record_computed(op, a, b, num(result));
            }
            done => return done,
        }
    }
}

fn run(source: &str) -> Evaluation {
    host_evaluate(&parse(source).unwrap())
}

fn expect_value(outcome: Evaluation) -> Type {
    match outcome {
        Evaluation::Value(v) => v,
        other => panic!("no value: {:?}", other),
    }
}

fn run_value(source: &str) -> Type {
    expect_value(run(source))
}

fn op(symbol: Symbol) -> CtxToken {
    CtxToken::new(Token::Symbol(symbol), 1)
}

fn literal(value: Literal) -> Box<Expr> {
    Box::new(Expr::Literal { value })
}

#[test]
fn scan_keeps_source_order_and_lines() {
    assert_eq!(
        tokens("1\n+"),
        vec![
            (Token::Number("1".to_string()), 1),
            (Token::Symbol(Symbol::Plus), 2),
            (Token::Eof, 2),
        ]
    );
}

#[test]
fn scan_empty_source_is_only_eof() {
    assert_eq!(tokens(""), vec![(Token::Eof, 1)]);
}

#[test]
fn nested_block_comments_close() {
    assert_eq!(
        tokens("/* a /* b */ c */ 1"),
        vec![(Token::Number("1".to_string()), 1), (Token::Eof, 1)]
    );
}

#[test]
fn unterminated_block_comment_is_tolerated() {
    assert_eq!(
        tokens("1 /* open /* nested */\n"),
        vec![(Token::Number("1".to_string()), 1), (Token::Eof, 2)]
    );
}

#[test]
fn dot_without_digit_is_not_part_of_number() {
    assert_eq!(
        tokens("1."),
        vec![
            (Token::Number("1".to_string()), 1),
            (Token::Symbol(Symbol::Dot), 1),
            (Token::Eof, 1),
        ]
    );
}

#[test]
fn number_takes_one_fraction() {
    assert_eq!(
        tokens("12.50.3"),
        vec![
            (Token::Number("12.50".to_string()), 1),
            (Token::Symbol(Symbol::Dot), 1),
            (Token::Number("3".to_string()), 1),
            (Token::Eof, 1),
        ]
    );
}

#[test]
fn one_and_two_character_operators() {
    let kinds: Vec<Token> = tokens("!= == <= >= ! = < > / ? :")
        .into_iter()
        .map(|(t, _)| t)
        .collect();
    assert_eq!(
        kinds,
        vec![
            Token::Symbol(Symbol::BangEqual),
            Token::Symbol(Symbol::EqualEqual),
            Token::Symbol(Symbol::LessEqual),
            Token::Symbol(Symbol::GreaterEqual),
            Token::Symbol(Symbol::Bang),
            Token::Symbol(Symbol::Equal),
            Token::Symbol(Symbol::Less),
            Token::Symbol(Symbol::Greater),
            Token::Symbol(Symbol::Slash),
            Token::Symbol(Symbol::Question),
            Token::Symbol(Symbol::Colon),
            Token::Eof,
        ]
    );
}

#[test]
fn keywords_and_identifiers() {
    let kinds: Vec<Token> = tokens("and foo_1 while _x nil")
        .into_iter()
        .map(|(t, _)| t)
        .collect();
    assert_eq!(
        kinds,
        vec![
            Token::Keyword(Keyword::And),
            Token::Identifier("foo_1".to_string()),
            Token::Keyword(Keyword::While),
            Token::Identifier("_x".to_string()),
            Token::Keyword(Keyword::Nil),
            Token::Eof,
        ]
    );
}

#[test]
fn strings_and_comments_count_lines() {
    assert_eq!(
        tokens("\"a\nb\" 1 // note\n2"),
        vec![
            (Token::String("a\nb".to_string()), 2),
            (Token::Number("1".to_string()), 2),
            (Token::Number("2".to_string()), 3),
            (Token::Eof, 3),
        ]
    );
}

#[test]
fn lexical_errors_are_all_collected() {
    let errors = scan("@ 1\n# \"open").unwrap_err();
    assert_eq!(
        errors,
        vec![
            LexError { kind: LexErrorKind::UnexpectedCharacter, line: 1 },
            LexError { kind: LexErrorKind::UnexpectedCharacter, line: 2 },
            LexError { kind: LexErrorKind::UnterminatedString, line: 2 },
        ]
    );
}

#[test]
fn lexemes() {
    assert_eq!(Token::Symbol(Symbol::Comma).get_lexeme(), ",");
    assert_eq!(Token::Symbol(Symbol::GreaterEqual).get_lexeme(), ">=");
    assert_eq!(Token::Keyword(Keyword::Return).get_lexeme(), "return");
    assert_eq!(Token::Identifier("abc".to_string()).get_lexeme(), "abc");
    assert_eq!(Token::Number("2.5".to_string()).get_lexeme(), "2.5");
    assert_eq!(Token::Eof.get_lexeme(), "EOF");
}

#[test]
fn subtraction_is_left_associative() {
    let expr = parse("1 - 2 - 3").unwrap();
    assert_eq!(expr.to_string(), "((1 - 2) - 3)");
    assert_eq!(expect_value(host_evaluate(&expr)), Type::Number(num(-4.0)));
}

#[test]
fn precedence_and_rendering() {
    assert_eq!(parse("1 + 2 * 3").unwrap().to_string(), "(1 + (2 * 3))");
    assert_eq!(parse("-!x").is_err(), true);
    assert_eq!(parse("!-1 == nil").unwrap().to_string(), "((! (- 1)) == nil)");
    assert_eq!(parse("(\"s\") < true").unwrap().to_string(), "((\"s\") < true)");
}

#[test]
fn ternary_is_right_associative() {
    let expr = parse("true ? 1 : false ? 2 : 3").unwrap();
    assert_eq!(expr.to_string(), "(true ? 1 : (false ? 2 : 3))");
    assert_eq!(expect_value(host_evaluate(&expr)), Type::Number(num(1.0)));
}

#[test]
fn ternary_skips_the_branch_not_taken() {
    let failing = Box::new(Expr::Binary {
        left: literal(Literal::String("a".to_string())),
        operator: op(Symbol::Minus),
        right: literal(Literal::String("b".to_string())),
    });
    let expr = Expr::Ternary {
        condition: literal(Literal::Bool(true)),
        then: literal(Literal::Number("1".to_string())),
        otherwise: failing,
    };
    assert_eq!(expect_value(host_evaluate(&expr)), Type::Number(num(1.0)));
}

#[test]
fn division_by_zero_fails() {
    match run("1 / 0") {
        Evaluation::Failed(RuntimeError::ZeroDivisionError(t)) => {
            assert_eq!(t.token, Token::Symbol(Symbol::Slash))
        }
        other => panic!("unexpected {:?}", other),
    }
    assert_eq!(run_value("1 / 0.5"), Type::Number(num(2.0)));
}

#[test]
fn division_by_negative_zero_fails() {
    let expr = Expr::Binary {
        left: literal(Literal::Number("1".to_string())),
        operator: op(Symbol::Slash),
        right: Box::new(Expr::Unary {
            operator: op(Symbol::Minus),
            expr: literal(Literal::Number("0".to_string())),
        }),
    };
    assert!(matches!(
        host_evaluate(&expr),
        Evaluation::Failed(RuntimeError::ZeroDivisionError(_))
    ));
}

#[test]
fn type_mismatches_fail() {
    for source in ["\"a\" - \"b\"", "1 + true", "true < false", "-\"a\"", "nil * 2"] {
        assert!(
            matches!(run(source), Evaluation::Failed(RuntimeError::TypeError(_))),
            "{}",
            source
        );
    }
}

#[test]
fn equality_is_total_and_without_coercion() {
    assert_eq!(run_value("1 == \"1\""), Type::Bool(false));
    assert_eq!(run_value("nil == nil"), Type::Bool(true));
    assert_eq!(run_value("0 == false"), Type::Bool(false));
    assert_eq!(run_value("1 != 2"), Type::Bool(true));
    assert_eq!(run_value("\"ab\" == \"a\" + \"b\""), Type::Bool(true));
    let nan = Type::Number(num(f64::NAN));
    assert!(!Interpreter::is_equal(&nan, &nan));
    assert!(Interpreter::is_equal(
        &Type::Number(num(-0.0)),
        &Type::Number(num(0.0))
    ));
}

#[test]
fn truthiness() {
    assert!(!Interpreter::is_truthy(&Type::String(String::new())));
    assert!(!Interpreter::is_truthy(&Type::Number(num(0.0))));
    assert!(!Interpreter::is_truthy(&Type::Number(num(-0.0))));
    assert!(!Interpreter::is_truthy(&Type::Nil));
    assert!(Interpreter::is_truthy(&Type::String("x".to_string())));
    assert!(Interpreter::is_truthy(&Type::Number(num(0.5))));
    assert!(Interpreter::is_truthy(&Type::Number(num(f64::NAN))));
    assert_eq!(run_value("!!\"\""), Type::Bool(false));
    assert_eq!(run_value("!!3"), Type::Bool(true));
    assert_eq!(run_value("!!nil"), Type::Bool(false));
    assert_eq!(run_value("\"\" ? 1 : 2"), Type::Number(num(2.0)));
}

#[test]
fn comparisons_and_negation() {
    assert_eq!(run_value("-3 < 2"), Type::Bool(true));
    assert_eq!(run_value("2 >= 2"), Type::Bool(true));
    assert_eq!(run_value("2 > 2"), Type::Bool(false));
    assert_eq!(run_value("-2.5 <= -3"), Type::Bool(false));
    assert_eq!(run_value("-(1 - 3)"), Type::Number(num(2.0)));
    assert_eq!(run_value("\"a\" + \"b\""), Type::String("ab".to_string()));
}

#[test]
fn numbers_on_bits() {
    let nan = num(f64::NAN);
    assert!(nan.is_nan());
    assert!(!nan.less_than(&num(1.0)));
    assert!(!num(1.0).less_equal(&nan));
    assert!(num(-1.0).less_than(&num(-0.5)));
    assert!(num(f64::NEG_INFINITY).less_than(&num(-1e300)));
    assert!(num(-0.0).less_equal(&num(0.0)));
    assert!(!num(-0.0).less_than(&num(0.0)));
    assert_eq!(value_of(num(2.5).negate()), -2.5);
    assert!(num(-0.0).is_zero());
}

#[test]
fn round_trip_scenario() {
    let expr = parse("(1 + 2) * 3 == 9 ? \"yes\" : \"no\"").unwrap();
    assert!(matches!(expr, Expr::Ternary { .. }));
    assert_eq!(expr.to_string(), "(((((1 + 2)) * 3) == 9) ? \"yes\" : \"no\")");
    assert_eq!(expect_value(host_evaluate(&expr)), Type::String("yes".to_string()));
}

#[test]
fn parse_errors() {
    assert_eq!(
        parse("(1").unwrap_err(),
        ParseError { kind: ParseErrorKind::MissingClosingParen, position: 2 }
    );
    assert_eq!(
        parse("== 1").unwrap_err(),
        ParseError { kind: ParseErrorKind::MissingLeftOperand, position: 0 }
    );
    assert_eq!(
        parse("").unwrap_err(),
        ParseError { kind: ParseErrorKind::MissingExpression, position: 0 }
    );
    assert_eq!(
        parse("1 ? 2").unwrap_err(),
        ParseError { kind: ParseErrorKind::MissingColon, position: 3 }
    );
    assert_eq!(
        parse("1 + ;").unwrap_err(),
        ParseError { kind: ParseErrorKind::MissingExpression, position: 2 }
    );
}

#[test]
fn trailing_tokens_are_left_unread() {
    let mut parser = Parser::new(scan("1 2").unwrap());
    assert_eq!(parser.parse().unwrap().to_string(), "1");
}

#[test]
fn literal_text() {
    assert_eq!(parse("nil").unwrap().to_string(), "nil");
    assert_eq!(parse("false").unwrap().to_string(), "false");
    assert_eq!(parse("\"hi\"").unwrap().to_string(), "\"hi\"");
}

#[test]
fn facts_lookup_first_record() {
    let mut facts = Facts::new();
    facts.record_computed(Arith::Add, num(1.0), num(2.0), num(3.0));
    facts.record_computed(Arith::Add, num(1.0), num(2.0), num(4.0));
    facts.record_decoded("7".to_string(), num(7.0));
    assert_eq!(facts.lookup_computed(Arith::Add, num(1.0), num(2.0)), Some(num(3.0)));
    assert_eq!(facts.lookup_computed(Arith::Subtract, num(1.0), num(2.0)), None);
    assert_eq!(facts.lookup_decoded(&"7".to_string()), Some(num(7.0)));
    assert_eq!(facts.lookup_decoded(&"8".to_string()), None);
}

#[test]
fn evaluation_asks_for_what_it_lacks() {
    let expr = parse("1 + 2").unwrap();
    let mut facts = Facts::new();
    match Interpreter::evaluate(&expr, &facts) {
        Evaluation::Needs(Request::Decode(text)) => assert_eq!(text, "1"),
        other => panic!("unexpected {:?}", other),
    }
    facts.record_decoded("1".to_string(), num(1.0));
    facts.record_decoded("2".to_string(), num(2.0));
    match Interpreter::evaluate(&expr, &facts) {
        Evaluation::Needs(Request::Compute(Arith::Add, a, b)) => {
            assert_eq!((a, b), (num(1.0), num(2.0)))
        }
        other => panic!("unexpected {:?}", other),
    }
}

#[test]
fn numbers_render_in_natural_form() {
    assert_eq!(parse("1.50 + 007").unwrap().to_string(), "(1.5 + 7)");
    assert_eq!(Token::Number("0.0".to_string()).get_lexeme(), "0");
    assert_eq!(Token::Number("10".to_string()).get_lexeme(), "10");
    assert_eq!(Token::Number("3.000".to_string()).get_lexeme(), "3");
    assert_eq!(Token::Number("00.250".to_string()).get_lexeme(), "0.25");
    for text in ["0.5", "12.75", "100", "0", "7.0", "0.001"] {
        let shown = format!("{}", text.parse::<f64>().unwrap());
        assert_eq!(Token::Number(text.to_string()).get_lexeme(), shown);
    }
}

fn parse_within(source: &str, max_depth: usize) -> Result<Expr, ParseError> {
    Parser::with_max_depth(scan(source).unwrap(), max_depth).parse()
}

#[test]
fn nesting_is_bounded() {
    assert_eq!(parse_within("((1))", 3).unwrap().to_string(), "((1))");
    assert_eq!(
        parse_within("((1))", 2).unwrap_err(),
        ParseError { kind: ParseErrorKind::TooDeep, position: 2 }
    );
    assert_eq!(parse_within("1 + 2", 2).unwrap().to_string(), "(1 + 2)");
    assert_eq!(
        parse_within("1 + 2 + 3", 2).unwrap_err(),
        ParseError { kind: ParseErrorKind::TooDeep, position: 3 }
    );
    assert_eq!(
        parse_within("!!1", 2).unwrap_err(),
        ParseError { kind: ParseErrorKind::TooDeep, position: 2 }
    );
    assert_eq!(
        parse_within("1 ? 2 : 3", 1).unwrap_err(),
        ParseError { kind: ParseErrorKind::TooDeep, position: 1 }
    );
    assert_eq!(
        parse_within("1", 0).unwrap_err(),
        ParseError { kind: ParseErrorKind::TooDeep, position: 0 }
    );
}

#[test]
fn deep_input_fails_instead_of_overflowing() {
    let source = format!("{}1{}", "(".repeat(100_000), ")".repeat(100_000));
    assert_eq!(parse(&source).unwrap_err().kind, ParseErrorKind::TooDeep);
    let chain = vec!["1"; 5000].join(" + ");
    assert_eq!(parse(&chain).unwrap_err().kind, ParseErrorKind::TooDeep);
    let fits = vec!["1"; 200].join(" + ");
    assert_eq!(run_value(&fits), Type::Number(num(200.0)));
}
