use monkey_lang::ast::{InfixOperator, PrefixOperator};
use monkey_lang::decimal::{int_to_string, parse_integer, unsigned_to_string};
use monkey_lang::environment::Environment;
use monkey_lang::error::Error;
use monkey_lang::evaluator::{eval_program, eval_program_string_output, MAX_CALL_DEPTH};
use monkey_lang::lexer::{tokenize, Lexer};
use monkey_lang::object::Object;
use monkey_lang::parser::grammar::Precedence;
use monkey_lang::parser::{parse, Parser};
use monkey_lang::token::{look_up_ident, Token, TokenType};

fn run(input: &str) -> Result<Object, Error> {
    let program = parse(input).unwrap();
    let mut env = Environment::new();
    eval_program(&program, &mut env)
}

fn shown(input: &str) -> String {
    let lexer = Lexer::new(input.chars());
    let mut parser = Parser::new(lexer);
    parser.parse_expression(Precedence::default()).unwrap().to_string()
}

fn kinds(input: &str) -> Vec<TokenType> {
    tokenize(input).into_iter().map(|t| t.variant).collect()
}

#[test]
fn keywords_have_their_own_kinds() {
    assert_eq!(tokenize("let"), vec![Token::new(TokenType::LET, "let")]);
    assert_eq!(tokenize("fn"), vec![Token::new(TokenType::FUNCTION, "fn")]);
    assert_eq!(tokenize("true"), vec![Token::new(TokenType::TRUE, "true")]);
    assert_eq!(tokenize("false"), vec![Token::new(TokenType::FALSE, "false")]);
    assert_eq!(tokenize("if"), vec![Token::new(TokenType::IF, "if")]);
    assert_eq!(tokenize("else"), vec![Token::new(TokenType::ELSE, "else")]);
    assert_eq!(tokenize("return"), vec![Token::new(TokenType::RETURN, "return")]);
}

#[test]
fn other_words_are_identifiers() {
    assert_eq!(tokenize("letx"), vec![Token::new(TokenType::IDENT, "letx")]);
    assert_eq!(tokenize("Let"), vec![Token::new(TokenType::IDENT, "Let")]);
    assert_eq!(tokenize("f"), vec![Token::new(TokenType::IDENT, "f")]);
    assert_eq!(tokenize("returns"), vec![Token::new(TokenType::IDENT, "returns")]);
    assert_eq!(look_up_ident("iff"), TokenType::IDENT);
    assert_eq!(look_up_ident("if"), TokenType::IF);
}

#[test]
fn operators_are_read_one_by_one_or_in_pairs() {
    let input = "=+-!*/<>(){},;";
    let tokens = tokenize(input);
    assert_eq!(tokens.len(), 14);
    let joined: String = tokens.iter().map(|t| t.literal.clone()).collect();
    assert_eq!(joined, input);
    assert!(tokens.iter().all(|t| t.variant != TokenType::ILLEGAL));
    assert_eq!(
        tokenize("==!="),
        vec![Token::new(TokenType::EQUAL, "=="), Token::new(TokenType::NOTEQUAL, "!=")]
    );
    assert_eq!(
        tokenize("==="),
        vec![Token::new(TokenType::EQUAL, "=="), Token::new(TokenType::ASSIGN, "=")]
    );
    assert_eq!(
        tokenize("!=="),
        vec![Token::new(TokenType::NOTEQUAL, "!="), Token::new(TokenType::ASSIGN, "=")]
    );
    assert_eq!(
        tokenize("!!="),
        vec![Token::new(TokenType::BANG, "!"), Token::new(TokenType::NOTEQUAL, "!=")]
    );
}

#[test]
fn empty_and_blank_inputs_have_no_tokens() {
    assert_eq!(tokenize(""), Vec::<Token>::new());
    assert_eq!(tokenize(" \t\r\n"), Vec::<Token>::new());
    let mut lexer = Lexer::new("  ".chars());
    assert_eq!(lexer.next_token(), None);
    assert_eq!(lexer.next_token(), None);
}

#[test]
fn unknown_characters_are_illegal_tokens() {
    assert_eq!(
        tokenize("a @ b"),
        vec![
            Token::new(TokenType::IDENT, "a"),
            Token::new(TokenType::ILLEGAL, "@"),
            Token::new(TokenType::IDENT, "b"),
        ]
    );
    assert_eq!(
        tokenize("a\0b"),
        vec![
            Token::new(TokenType::IDENT, "a"),
            Token::new(TokenType::ILLEGAL, "\0"),
            Token::new(TokenType::IDENT, "b"),
        ]
    );
    assert_eq!(tokenize("my_var"), vec![
        Token::new(TokenType::IDENT, "my"),
        Token::new(TokenType::ILLEGAL, "_"),
        Token::new(TokenType::IDENT, "var"),
    ]);
}

#[test]
fn character_classes_reach_beyond_ascii() {
    assert_eq!(tokenize("é"), vec![Token::new(TokenType::IDENT, "é")]);
    assert_eq!(tokenize("\u{a0}x\u{2003}"), vec![Token::new(TokenType::IDENT, "x")]);
    assert_eq!(tokenize("٣"), vec![Token::new(TokenType::INT, "٣")]);
    assert_eq!(kinds("a1"), vec![TokenType::IDENT, TokenType::INT]);
    assert_eq!(kinds("12ab"), vec![TokenType::INT, TokenType::IDENT]);
    assert_eq!(parse("٣").err(), Some(Error::InvalidIntegerValue("٣".to_string())));
}

#[test]
fn numerals_are_written_in_decimal() {
    assert_eq!(unsigned_to_string(0), "0");
    assert_eq!(unsigned_to_string(7), "7");
    assert_eq!(unsigned_to_string(10), "10");
    assert_eq!(unsigned_to_string(u64::MAX), "18446744073709551615");
    assert_eq!(int_to_string(0), "0");
    assert_eq!(int_to_string(-1), "-1");
    assert_eq!(int_to_string(1234567890), "1234567890");
    assert_eq!(int_to_string(i64::MAX), "9223372036854775807");
    assert_eq!(int_to_string(i64::MIN), "-9223372036854775808");
}

#[test]
fn literals_are_read_in_decimal() {
    assert_eq!(parse_integer("0"), Some(0));
    assert_eq!(parse_integer("0007"), Some(7));
    assert_eq!(parse_integer("838383"), Some(838383));
    assert_eq!(parse_integer("9223372036854775807"), Some(i64::MAX));
    assert_eq!(parse_integer("9223372036854775808"), None);
    assert_eq!(parse_integer("99999999999999999999999"), None);
    assert_eq!(parse_integer(""), None);
    assert_eq!(parse_integer("12a"), None);
    assert_eq!(parse_integer("+5"), None);
    assert_eq!(parse_integer("-5"), None);
}

#[test]
fn operators_are_named_by_their_text() {
    assert_eq!(PrefixOperator::try_from("!".to_string()), Ok(PrefixOperator::BANG));
    assert_eq!(PrefixOperator::try_from("-".to_string()), Ok(PrefixOperator::NEGATE));
    assert_eq!(
        PrefixOperator::try_from("+".to_string()),
        Err(Error::InvalidPrefixOperator("+".to_string()))
    );
    assert_eq!(InfixOperator::try_from("+".to_string()), Ok(InfixOperator::PLUS));
    assert_eq!(InfixOperator::try_from("-".to_string()), Ok(InfixOperator::MINUS));
    assert_eq!(InfixOperator::try_from("*".to_string()), Ok(InfixOperator::MULTIPLY));
    assert_eq!(InfixOperator::try_from("/".to_string()), Ok(InfixOperator::DIVIDE));
    assert_eq!(InfixOperator::try_from(">".to_string()), Ok(InfixOperator::GREATERTHAN));
    assert_eq!(InfixOperator::try_from("<".to_string()), Ok(InfixOperator::LESSTHAN));
    assert_eq!(InfixOperator::try_from("==".to_string()), Ok(InfixOperator::EQUAL));
    assert_eq!(InfixOperator::try_from("!=".to_string()), Ok(InfixOperator::NOTEQUAL));
    assert_eq!(
        InfixOperator::try_from("=".to_string()),
        Err(Error::InvalidInfixOperator("=".to_string()))
    );
    assert_eq!(InfixOperator::NOTEQUAL.to_string(), "!=");
    assert_eq!(PrefixOperator::NEGATE.to_string(), "-");
}

#[test]
fn precedence_levels_rise_from_lowest_to_call() {
    assert!(Precedence::LOWEST < Precedence::EQUALS);
    assert!(Precedence::EQUALS < Precedence::LESSORGREATER);
    assert_eq!(Precedence::LOWEST.level(), 0);
    assert_eq!(Precedence::CALL.level(), 6);
    assert_eq!(Precedence::get_precedence(&TokenType::ASTERISK), Precedence::PRODUCT);
    assert_eq!(Precedence::get_precedence(&TokenType::LEFTPAREN), Precedence::CALL);
    assert_eq!(Precedence::get_precedence(&TokenType::SEMICOLON), Precedence::LOWEST);
    assert!(Precedence::SUM.binds_tighter_than(&Precedence::EQUALS));
    assert!(!Precedence::SUM.binds_tighter_than(&Precedence::SUM));
}

#[test]
fn calls_bind_tighter_than_any_operator() {
    assert_eq!(shown("add(1, 2 * 3)"), "add(1, (2 * 3))");
    assert_eq!(shown("a + add(b * c) + d"), "((a + add((b * c))) + d)");
    assert_eq!(shown("-f(x)"), "(-f(x))");
    assert_eq!(shown("f()"), "f()");
    assert_eq!(shown("f(x)(y)"), "f(x)(y)");
    assert_eq!(shown("fn(x) { x }(5)"), "fn(x){x;}(5)");
    assert_eq!(
        shown("add(a, b, 1, 2 * 3, 4 + 5, add(6, 7 * 8))"),
        "add(a, b, 1, (2 * 3), (4 + 5), add(6, (7 * 8)))"
    );
}

#[test]
fn syntax_trees_are_shown_as_text() {
    assert_eq!(shown("if (x < y) { x } else { y }"), "if((x < y)){x;} else{y;}");
    assert_eq!(shown("if (x) { x; y }"), "if(x){x;\ny;}");
    assert_eq!(shown("if (x) { }"), "if(x){}");
    assert_eq!(shown("fn(x, y) { x + y; }"), "fn(x, y){(x + y);}");
    assert_eq!(shown("fn() { return 1; }"), "fn(){return 1;}");
    assert_eq!(shown("fn(a) { let b = a; b }"), "fn(a){let b = a;\nb;}");
    assert_eq!(shown("!true == false"), "((!true) == false)");
    let program = parse("let x = 1 + 2; return x; x * 2").unwrap();
    assert_eq!(program.to_string(), "let x = (1 + 2);\nreturn x;\n(x * 2);");
    assert_eq!(parse("").unwrap().to_string(), "");
}

#[test]
fn syntax_errors_name_what_was_found() {
    assert_eq!(parse("let = 5;").err(), Some(Error::UnexpectedToken("=".to_string())));
    assert_eq!(parse("let x 5;").err(), Some(Error::UnexpectedToken("5".to_string())));
    assert_eq!(parse("let x = ").err(), Some(Error::MissingToken));
    assert_eq!(parse("let x = 5").err(), Some(Error::MissingToken));
    assert_eq!(parse("return 5").err(), Some(Error::MissingToken));
    assert_eq!(parse("(1 + 2").err(), Some(Error::MissingToken));
    assert_eq!(parse("(1 + 2 }").err(), Some(Error::UnexpectedToken("}".to_string())));
    assert_eq!(parse("1 +").err(), Some(Error::MissingToken));
    assert_eq!(parse("@").err(), Some(Error::UnexpectedToken("@".to_string())));
    assert_eq!(parse("* 2").err(), Some(Error::UnexpectedToken("*".to_string())));
    assert_eq!(parse("if x { 1 }").err(), Some(Error::UnexpectedToken("x".to_string())));
    assert_eq!(parse("if (x) 1").err(), Some(Error::UnexpectedToken("1".to_string())));
    assert_eq!(parse("if (x) { 1").err(), Some(Error::MissingToken));
    assert_eq!(parse("fn(x y) { x }").err(), Some(Error::UnexpectedToken("y".to_string())));
    assert_eq!(parse("fn(x,) { x }").err(), Some(Error::UnexpectedToken(")".to_string())));
    assert_eq!(parse("fn(1) { x }").err(), Some(Error::UnexpectedToken("1".to_string())));
    assert_eq!(parse("f(1 2)").err(), Some(Error::UnexpectedToken("2".to_string())));
    assert_eq!(parse("f(1,").err(), Some(Error::MissingToken));
    assert_eq!(
        parse("9223372036854775808").err(),
        Some(Error::InvalidIntegerValue("9223372036854775808".to_string()))
    );
    assert_eq!(parse("1; let").err(), Some(Error::MissingToken));
}

#[test]
fn errors_describe_themselves() {
    assert_eq!(Error::UnexpectedToken("x".to_string()).message(), "unexpected token: x");
    assert_eq!(Error::MissingToken.message(), "expected token, found none");
    assert_eq!(
        Error::InvalidIntegerValue("99".to_string()).message(),
        "failed to convert 99 to i64 value"
    );
    assert_eq!(
        Error::InvalidBooleanValue("yes".to_string()).message(),
        "failed to convert yes to boolean value"
    );
    assert_eq!(
        Error::InvalidPrefixOperator("+".to_string()).message(),
        "failed to convert + to prefix operator"
    );
    assert_eq!(
        Error::InvalidInfixOperator("=".to_string()).message(),
        "failed to convert = to infix operator"
    );
    assert_eq!(
        Error::TypeMismatch {
            left: "INTEGER".to_string(),
            operator: "+".to_string(),
            right: "BOOLEAN".to_string()
        }
        .message(),
        "type mismatch: INTEGER + BOOLEAN"
    );
    assert_eq!(
        Error::UnknownOperator("-BOOLEAN".to_string()).message(),
        "unknown operator: -BOOLEAN"
    );
    assert_eq!(
        Error::IdentifierNotFound("foobar".to_string()).message(),
        "identifier not found: foobar"
    );
    assert_eq!(Error::DivisionByZero.message(), "division by zero");
    assert_eq!(Error::IntegerOverflow.message(), "integer overflow");
    assert_eq!(
        Error::WrongArgumentCount { expected: 1, actual: 12 }.message(),
        "wrong number of arguments: expected 1, got 12"
    );
    assert_eq!(Error::RecursionLimitExceeded.message(), "recursion limit exceeded");
}

#[test]
fn let_binds_a_name_in_the_current_scope() {
    assert_eq!(run("let a = 5; a;"), Ok(Object::Integer(5)));
    assert_eq!(run("let a = 5 * 5; a;"), Ok(Object::Integer(25)));
    assert_eq!(run("let a = 5; let b = a; b;"), Ok(Object::Integer(5)));
    assert_eq!(run("let a = 5; let b = a; let c = a + b + 5; c;"), Ok(Object::Integer(15)));
    assert_eq!(run("let a = 5;"), Ok(Object::Null));
    assert_eq!(run("let a = 1; let a = 2; a"), Ok(Object::Integer(2)));
    assert_eq!(run(""), Ok(Object::Null));
}

#[test]
fn unbound_names_are_errors() {
    assert_eq!(run("foobar"), Err(Error::IdentifierNotFound("foobar".to_string())));
    assert_eq!(run("let a = 1; a + b"), Err(Error::IdentifierNotFound("b".to_string())));
    assert_eq!(
        run("let f = fn(x) { x + y }; f(1)"),
        Err(Error::IdentifierNotFound("y".to_string()))
    );
    assert_eq!(
        run("let f = fn(x) { x }; f(1); x"),
        Err(Error::IdentifierNotFound("x".to_string()))
    );
}

#[test]
fn functions_are_called_with_their_arguments() {
    assert_eq!(run("let identity = fn(x) { x; }; identity(5);"), Ok(Object::Integer(5)));
    assert_eq!(run("let identity = fn(x) { return x; }; identity(5);"), Ok(Object::Integer(5)));
    assert_eq!(run("let double = fn(x) { x * 2; }; double(5);"), Ok(Object::Integer(10)));
    assert_eq!(run("let add = fn(x, y) { x + y; }; add(5, 5);"), Ok(Object::Integer(10)));
    assert_eq!(
        run("let add = fn(x, y) { x + y; }; add(5 + 5, add(5, 5));"),
        Ok(Object::Integer(20))
    );
    assert_eq!(run("fn(x) { x; }(5)"), Ok(Object::Integer(5)));
    assert_eq!(run("fn() { }()"), Ok(Object::Null));
    assert_eq!(run("fn(x, x) { x }(1, 2)"), Ok(Object::Integer(2)));
}

#[test]
fn a_return_ends_the_call_and_no_more() {
    assert_eq!(
        run("let f = fn() { if (true) { return 1; } return 2; }; f() + 10"),
        Ok(Object::Integer(11))
    );
    assert_eq!(run("let f = fn() { return 1; }; f(); 5"), Ok(Object::Integer(5)));
    assert_eq!(run("let f = fn() { return 1; 2 }; let a = f(); a + 1"), Ok(Object::Integer(2)));
    assert_eq!(
        run("if (10 > 1) { if (10 > 1) { return 10; } return 1; }"),
        Ok(Object::Integer(10))
    );
    assert_eq!(run("if (true) { return 3; } 4"), Ok(Object::Integer(3)));
}

#[test]
fn closures_resolve_names_where_they_were_written() {
    assert_eq!(
        run("let newAdder = fn(x) { fn(y) { x + y } }; let addTwo = newAdder(2); addTwo(3);"),
        Ok(Object::Integer(5))
    );
    assert_eq!(
        run("let x = 5; let f = fn(y) { x + y }; let z = 100; f(1)"),
        Ok(Object::Integer(6))
    );
    assert_eq!(
        run("let x = 1; let f = fn() { x }; let g = fn(x) { f() }; g(50)"),
        Ok(Object::Integer(1))
    );
    assert_eq!(run("let x = 1; let f = fn(x) { x }; f(7)"), Ok(Object::Integer(7)));
    assert_eq!(run("let x = 1; let f = fn(x) { x }; f(7); x"), Ok(Object::Integer(1)));
    assert_eq!(
        run("let a = fn(x) { fn(y) { fn(z) { x + y + z } } }; a(1)(2)(3)"),
        Ok(Object::Integer(6))
    );
    assert_eq!(
        run("let apply = fn(f, v) { f(v) }; let inc = fn(n) { n + 1 }; apply(inc, 41)"),
        Ok(Object::Integer(42))
    );
}

#[test]
fn functions_may_call_themselves() {
    assert_eq!(
        run("let fact = fn(n) { if (n < 1) { 1 } else { n * fact(n - 1) } }; fact(5)"),
        Ok(Object::Integer(120))
    );
    assert_eq!(
        run("let fib = fn(n) { if (n < 2) { n } else { fib(n - 1) + fib(n - 2) } }; fib(15)"),
        Ok(Object::Integer(610))
    );
}

#[test]
fn calls_nest_up_to_a_limit() {
    assert_eq!(MAX_CALL_DEPTH, 200);
    assert_eq!(run("let f = fn(n) { f(n + 1) }; f(0)"), Err(Error::RecursionLimitExceeded));
    assert_eq!(
        run("let down = fn(n) { if (n < 1) { 0 } else { down(n - 1) } }; down(199)"),
        Ok(Object::Integer(0))
    );
    assert_eq!(
        run("let down = fn(n) { if (n < 1) { 0 } else { down(n - 1) } }; down(200)"),
        Err(Error::RecursionLimitExceeded)
    );
}

#[test]
fn calls_check_what_is_called_and_how() {
    assert_eq!(run("5(1)"), Err(Error::UnknownOperator("call INTEGER".to_string())));
    assert_eq!(run("true()"), Err(Error::UnknownOperator("call BOOLEAN".to_string())));
    assert_eq!(
        run("let x = if (false) { 1 }; x()"),
        Err(Error::UnknownOperator("call NULL".to_string()))
    );
    assert_eq!(
        run("fn(x) { x }(1, 2)"),
        Err(Error::WrongArgumentCount { expected: 1, actual: 2 })
    );
    assert_eq!(run("fn(x) { x }()"), Err(Error::WrongArgumentCount { expected: 1, actual: 0 }));
    assert_eq!(
        run("fn(x) { x }(y)"),
        Err(Error::IdentifierNotFound("y".to_string()))
    );
}

#[test]
fn arithmetic_stays_within_64_bits() {
    assert_eq!(run("9223372036854775807 + 1"), Err(Error::IntegerOverflow));
    assert_eq!(run("-9223372036854775807 - 2"), Err(Error::IntegerOverflow));
    assert_eq!(run("9223372036854775807 * 2"), Err(Error::IntegerOverflow));
    assert_eq!(run("-9223372036854775807 - 1"), Ok(Object::Integer(i64::MIN)));
    assert_eq!(run("(-9223372036854775807 - 1) / -1"), Err(Error::IntegerOverflow));
    assert_eq!(run("-(-9223372036854775807 - 1)"), Err(Error::IntegerOverflow));
    assert_eq!(run("9223372036854775806 + 1"), Ok(Object::Integer(i64::MAX)));
}

#[test]
fn division_rounds_towards_zero_and_refuses_zero() {
    assert_eq!(run("7 / 2"), Ok(Object::Integer(3)));
    assert_eq!(run("-7 / 2"), Ok(Object::Integer(-3)));
    assert_eq!(run("7 / -2"), Ok(Object::Integer(-3)));
    assert_eq!(run("-7 / -2"), Ok(Object::Integer(3)));
    assert_eq!(run("0 / 5"), Ok(Object::Integer(0)));
    assert_eq!(run("1 / 0"), Err(Error::DivisionByZero));
    assert_eq!(run("0 / 0"), Err(Error::DivisionByZero));
}

#[test]
fn operators_check_their_operand_types() {
    assert_eq!(
        run("5 + true;"),
        Err(Error::TypeMismatch {
            left: "INTEGER".to_string(),
            operator: "+".to_string(),
            right: "BOOLEAN".to_string()
        })
    );
    assert_eq!(
        run("true == 1"),
        Err(Error::TypeMismatch {
            left: "BOOLEAN".to_string(),
            operator: "==".to_string(),
            right: "INTEGER".to_string()
        })
    );
    assert_eq!(
        run("fn() { } + 1"),
        Err(Error::TypeMismatch {
            left: "FUNCTION".to_string(),
            operator: "+".to_string(),
            right: "INTEGER".to_string()
        })
    );
    assert_eq!(
        run("(if (false) { 1 }) == 1"),
        Err(Error::TypeMismatch {
            left: "NULL".to_string(),
            operator: "==".to_string(),
            right: "INTEGER".to_string()
        })
    );
    for operator in ["+", "-", "*", "/", "<", ">"] {
        assert_eq!(
            run(&format!("true {} false", operator)),
            Err(Error::TypeMismatch {
                left: "BOOLEAN".to_string(),
                operator: operator.to_string(),
                right: "BOOLEAN".to_string()
            })
        );
    }
    assert_eq!(run("true == false"), Ok(Object::Boolean(false)));
    assert_eq!(run("true != false"), Ok(Object::Boolean(true)));
    assert_eq!(run("-fn() { }"), Err(Error::UnknownOperator("-FUNCTION".to_string())));
    assert_eq!(
        run("-(if (false) { 1 })"),
        Err(Error::UnknownOperator("-NULL".to_string()))
    );
}

#[test]
fn truthiness_decides_conditions_and_negation() {
    assert_eq!(run("!0"), Ok(Object::Boolean(true)));
    assert_eq!(run("!5"), Ok(Object::Boolean(false)));
    assert_eq!(run("!(if (false) { 1 })"), Ok(Object::Boolean(true)));
    assert_eq!(run("!fn() { }"), Ok(Object::Boolean(false)));
    assert_eq!(run("if (0) { 1 } else { 2 }"), Ok(Object::Integer(2)));
    assert_eq!(run("if (fn() { }) { 1 } else { 2 }"), Ok(Object::Integer(1)));
    assert_eq!(run("if (if (false) { 1 }) { 1 } else { 2 }"), Ok(Object::Integer(2)));
    assert!(Object::Integer(-1).is_truthy());
    assert!(!Object::Null.is_truthy());
    assert_eq!(Object::Null.to_type_string(), "NULL");
    assert_eq!(Object::Integer(1).to_type_string(), "INTEGER");
}

#[test]
fn values_are_shown_as_text() {
    let mut env = Environment::new();
    assert_eq!(eval_program_string_output(&parse("5 + 5").unwrap(), &mut env), Ok("10".to_string()));
    assert_eq!(eval_program_string_output(&parse("-5").unwrap(), &mut env), Ok("-5".to_string()));
    assert_eq!(eval_program_string_output(&parse("1 < 2").unwrap(), &mut env), Ok("true".to_string()));
    assert_eq!(eval_program_string_output(&parse("1 > 2").unwrap(), &mut env), Ok("false".to_string()));
    assert_eq!(
        eval_program_string_output(&parse("if (false) { 1 }").unwrap(), &mut env),
        Ok("null".to_string())
    );
    assert_eq!(
        eval_program_string_output(&parse("fn(x, y) { x + y }").unwrap(), &mut env),
        Ok("fn(x, y){(x + y);}".to_string())
    );
    assert_eq!(
        eval_program_string_output(&parse("1 + true").unwrap(), &mut env),
        Err(Error::TypeMismatch {
            left: "INTEGER".to_string(),
            operator: "+".to_string(),
            right: "BOOLEAN".to_string()
        })
    );
    assert_eq!(Object::Integer(i64::MIN).to_string(), "-9223372036854775808");
}

#[test]
fn an_environment_keeps_its_bindings() {
    let mut env = Environment::new();
    assert_eq!(env.get("a".to_string()), Err(Error::IdentifierNotFound("a".to_string())));
    assert_eq!(env.set("a".to_string(), Object::Integer(1)), None);
    assert_eq!(env.get("a".to_string()), Ok(Object::Integer(1)));
    assert_eq!(env.set("a".to_string(), Object::Boolean(true)), Some(Object::Integer(1)));
    assert_eq!(env.get("a".to_string()), Ok(Object::Boolean(true)));
    assert_eq!(eval_program(&parse("let b = 41;").unwrap(), &mut env), Ok(Object::Null));
    assert_eq!(eval_program(&parse("b + 1").unwrap(), &mut env), Ok(Object::Integer(42)));
    assert_eq!(env.get("b".to_string()), Ok(Object::Integer(41)));
    assert_eq!(eval_program(&parse("let c = 1; c + true; let d = 2;").unwrap(), &mut env).is_err(), true);
    assert_eq!(env.get("c".to_string()), Ok(Object::Integer(1)));
    assert_eq!(env.get("d".to_string()), Err(Error::IdentifierNotFound("d".to_string())));
}

#[test]
fn a_call_scope_lives_as_long_as_a_function_remembers_it() {
    let mut env = Environment::new();
    assert_eq!(env.scope_count(), 1);
    eval_program(&parse("let add = fn(x, y) { x + y }; add(1, 2); add(3, 4);").unwrap(), &mut env)
        .unwrap();
    assert_eq!(env.scope_count(), 1);
    eval_program(&parse("let adder = fn(x) { fn(y) { x + y } }; let two = adder(2);").unwrap(), &mut env)
        .unwrap();
    assert_eq!(env.scope_count(), 2);
    assert_eq!(eval_program(&parse("two(40)").unwrap(), &mut env), Ok(Object::Integer(42)));
    assert_eq!(env.scope_count(), 2);
    assert!(eval_program(&parse("add(1, true)").unwrap(), &mut env).is_err());
    assert_eq!(env.scope_count(), 2);
}

#[test]
fn the_global_scope_is_never_dropped() {
    let mut env = Environment::new();
    env.release(0);
    assert_eq!(env.scope_count(), 1);
    assert_eq!(env.set("a".to_string(), Object::Integer(1)), None);
    env.release(0);
    assert_eq!(env.get("a".to_string()), Ok(Object::Integer(1)));
    let call_scope = env.push_scope(0);
    assert_eq!(env.scope_count(), 2);
    env.release(0);
    assert_eq!(env.scope_count(), 2);
    env.release(call_scope);
    assert_eq!(env.scope_count(), 1);
    let remembered = env.push_scope(0);
    env.capture(remembered);
    env.release(remembered);
    assert_eq!(env.scope_count(), 2);
}

#[test]
fn parsing_and_evaluation_fail_with_errors_of_their_own() {
    for input in ["let = 5;", "let x = ", "(1", "@", "9223372036854775808", "fn(x y) { }"] {
        let error = parse(input).err().unwrap();
        assert!(error.is_parse_error());
        assert!(!error.is_runtime_error());
    }
    for input in ["5 + true", "-true", "x", "1 / 0", "9223372036854775807 + 1", "5()", "fn(x) { x }()"] {
        let error = run(input).err().unwrap();
        assert!(error.is_runtime_error());
        assert!(!error.is_parse_error());
    }
    assert!(Error::InvalidBooleanValue("yes".to_string()).is_parse_error());
    assert!(Error::InvalidPrefixOperator("+".to_string()).is_parse_error());
    assert!(Error::InvalidInfixOperator("=".to_string()).is_parse_error());
    assert!(Error::RecursionLimitExceeded.is_runtime_error());
}

#[test]
fn operators_group_by_level_and_to_the_left() {
    let operators = ["+", "-", "*", "/", "<", ">", "==", "!="];
    let level = |op: &str| match op {
        "==" | "!=" => 1,
        "<" | ">" => 2,
        "+" | "-" => 3,
        _ => 4,
    };
    for first in operators {
        for second in operators {
            let input = format!("a {} b {} c", first, second);
            let expected = if level(first) < level(second) {
                format!("(a {} (b {} c))", first, second)
            } else {
                format!("((a {} b) {} c)", first, second)
            };
            assert_eq!(shown(&input), expected);
        }
        assert_eq!(shown(&format!("-a {} b", first)), format!("((-a) {} b)", first));
        assert_eq!(shown(&format!("!a {} b", first)), format!("((!a) {} b)", first));
    }
}
