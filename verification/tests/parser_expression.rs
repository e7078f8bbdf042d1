use monkey_lang::ast::{Block, Expression, InfixOperator, PrefixOperator, Statement};
use monkey_lang::lexer::Lexer;
use monkey_lang::parser::grammar::Precedence;
use monkey_lang::parser::Parser;

#[test]
fn parse_identifier_expression() {
    let input = "foobar;";
    let lexer = Lexer::new(input.chars());
    let mut parser = Parser::new(lexer);

    let expression = parser.parse_expression(Precedence::default()).unwrap();

    assert_eq!(expression, Expression::Identifier("foobar".to_string()));
}

#[test]
fn parse_integer_expression() {
    let input = "5;";
    let lexer = Lexer::new(input.chars());
    let mut parser = Parser::new(lexer);

    let expression = parser.parse_expression(Precedence::default()).unwrap();

    assert_eq!(expression, Expression::IntegerLiteral(5));
}

#[test]
fn parse_boolean_expression() {
    let input = "true";
    let lexer = Lexer::new(input.chars());
    let mut parser = Parser::new(lexer);
    let expression = parser.parse_expression(Precedence::default()).unwrap();
    assert_eq!(expression, Expression::Boolean(true));

    let input = "false";
    let lexer = Lexer::new(input.chars());
    let mut parser = Parser::new(lexer);
    let expression = parser.parse_expression(Precedence::default()).unwrap();
    assert_eq!(expression, Expression::Boolean(false));
}

#[test]
fn parse_if_expression() {
    let input = "if (x < y) { x }  else { y }";
    let lexer = Lexer::new(input.chars());
    let mut parser = Parser::new(lexer);
    let expression = parser.parse_expression(Precedence::default()).unwrap();

    assert_eq!(
        expression,
        Expression::If {
            condition: Box::new(Expression::Infix {
                left: Box::new(Expression::Identifier("x".to_string())),
                operator: InfixOperator::try_from("<".to_string()).unwrap(),
                right: Box::new(Expression::Identifier("y".to_string()))
            }),
            consequence: Block {
                statements: vec![Statement::Expression(Expression::Identifier(
                    "x".to_string()
                ))]
            },
            alternative: Some(Block {
                statements: vec![Statement::Expression(Expression::Identifier(
                    "y".to_string()
                ))]
            })
        }
    )
}

#[test]
fn parse_function_literal() {
    let input = "fn(x, y) {x + y;}";
    let lexer = Lexer::new(input.chars());
    let mut parser = Parser::new(lexer);
    let expression = parser.parse_expression(Precedence::default()).unwrap();

    assert_eq!(
        expression,
        Expression::FunctionLiteral {
            parameters: vec!["x".to_string(), "y".to_string()],
            body: Block {
                statements: vec![Statement::Expression(Expression::Infix {
                    left: Box::new(Expression::Identifier("x".to_string())),
                    operator: InfixOperator::try_from("+".to_string()).unwrap(),
                    right: Box::new(Expression::Identifier("y".to_string()))
                })]
            }
        }
    );

    let input = "fn() {\
    let a = 2;\
    let b = a + 1;\
    }";
    let lexer = Lexer::new(input.chars());
    let mut parser = Parser::new(lexer);
    let expression = parser.parse_expression(Precedence::default()).unwrap();

    assert_eq!(
        expression,
        Expression::FunctionLiteral {
            parameters: Vec::new(),
            body: Block {
                statements: vec![
                    Statement::Let {
                        identifier: "a".to_string(),
                        value: Expression::IntegerLiteral(2),
                    },
                    Statement::Let {
                        identifier: "b".to_string(),
                        value: Expression::Infix {
                            left: Box::new(Expression::Identifier("a".to_string())),
                            operator: InfixOperator::try_from("+".to_string()).unwrap(),
                            right: Box::new(Expression::IntegerLiteral(1))
                        }
                    }
                ]
            }
        }
    );

    let input = "fn() {}";
    let lexer = Lexer::new(input.chars());
    let mut parser = Parser::new(lexer);
    let expression = parser.parse_expression(Precedence::default()).unwrap();

    assert_eq!(
        expression,
        Expression::FunctionLiteral {
            parameters: Vec::new(),
            body: Block {
                statements: Vec::new()
            }
        }
    );

    let input = "fn(x) {}";
    let lexer = Lexer::new(input.chars());
    let mut parser = Parser::new(lexer);
    let expression = parser.parse_expression(Precedence::default()).unwrap();

    assert_eq!(
        expression,
        Expression::FunctionLiteral {
            parameters: vec!["x".to_string()],
            body: Block {
                statements: Vec::new()
            }
        }
    );

    let input = "fn(x, y, z) {}";
    let lexer = Lexer::new(input.chars());
    let mut parser = Parser::new(lexer);
    let expression = parser.parse_expression(Precedence::default()).unwrap();

    assert_eq!(
        expression,
        Expression::FunctionLiteral {
            parameters: vec!["x".to_string(), "y".to_string(), "z".to_string()],
            body: Block {
                statements: Vec::new()
            }
        }
    );
}

#[test]
fn parse_prefix_expressions() {
    let input = "!wanted;";
    let lexer = Lexer::new(input.chars());
    let mut parser = Parser::new(lexer);

    let expression = parser.parse_expression(Precedence::default()).unwrap();
    assert_eq!(
        expression,
        Expression::Prefix {
            operator: PrefixOperator::try_from("!".to_string()).unwrap(),
            right: Box::new(Expression::Identifier("wanted".to_string()))
        }
    );

    let input = "-15;";
    let lexer = Lexer::new(input.chars());
    let mut parser = Parser::new(lexer);

    let expression = parser.parse_expression(Precedence::default()).unwrap();
    assert_eq!(
        expression,
        Expression::Prefix {
            operator: PrefixOperator::try_from("-".to_string()).unwrap(),
            right: Box::new(Expression::IntegerLiteral(15))
        }
    );

    let input = "!true;";
    let lexer = Lexer::new(input.chars());
    let mut parser = Parser::new(lexer);

    let expression = parser.parse_expression(Precedence::default()).unwrap();
    assert_eq!(
        expression,
        Expression::Prefix {
            operator: PrefixOperator::try_from("!".to_string()).unwrap(),
            right: Box::new(Expression::Boolean(true))
        }
    );

    let input = "!false";
    let lexer = Lexer::new(input.chars());
    let mut parser = Parser::new(lexer);

    let expression = parser.parse_expression(Precedence::default()).unwrap();
    assert_eq!(
        expression,
        Expression::Prefix {
            operator: PrefixOperator::try_from("!".to_string()).unwrap(),
            right: Box::new(Expression::Boolean(false))
        }
    );
}

fn parse_expression_input(input: &str) -> String {
    let lexer = Lexer::new(input.chars());
    let mut parser = Parser::new(lexer);
    let expression = parser.parse_expression(Precedence::default()).unwrap();
    expression.to_string()
}

#[test]
fn parse_infix_expressions() {
    let input = "5 + 5;";
    assert_eq!(parse_expression_input(input), "(5 + 5)");

    let input = "5 - 5;";
    assert_eq!(parse_expression_input(input), "(5 - 5)");

    let input = "5 * 5;";
    assert_eq!(parse_expression_input(input), "(5 * 5)");

    let input = "5 / 5;";
    assert_eq!(parse_expression_input(input), "(5 / 5)");

    let input = "5 > 5;";
    assert_eq!(parse_expression_input(input), "(5 > 5)");

    let input = "5 < 5;";
    assert_eq!(parse_expression_input(input), "(5 < 5)");

    let input = "5 == 5;";
    assert_eq!(parse_expression_input(input), "(5 == 5)");

    let input = "5 != 5;";
    assert_eq!(parse_expression_input(input), "(5 != 5)");

    let input = "5 + 5 * 2 + 2;";
    assert_eq!(parse_expression_input(input), "((5 + (5 * 2)) + 2)");

    let input = "true == true";
    assert_eq!(parse_expression_input(input), "(true == true)");
}

#[test]
fn operator_precedence_parsing() {
    let input = "-a * b";
    assert_eq!(parse_expression_input(input), "((-a) * b)");

    let input = "!-a";
    assert_eq!(parse_expression_input(input), "(!(-a))");

    let input = "a + b + c";
    assert_eq!(parse_expression_input(input), "((a + b) + c)");

    let input = "a + b - c";
    assert_eq!(parse_expression_input(input), "((a + b) - c)");

    let input = "a * b * c";
    assert_eq!(parse_expression_input(input), "((a * b) * c)");

    let input = "a * b / c";
    assert_eq!(parse_expression_input(input), "((a * b) / c)");

    let input = "a + b / c";
    assert_eq!(parse_expression_input(input), "(a + (b / c))");

    let input = "a + b * c + d / e - f";
    assert_eq!(
        parse_expression_input(input),
        "(((a + (b * c)) + (d / e)) - f)"
    );

    let input = "5 > 4 == 3 < 4";
    assert_eq!(parse_expression_input(input), "((5 > 4) == (3 < 4))");

    let input = "5 < 4 != 3 > 4";
    assert_eq!(parse_expression_input(input), "((5 < 4) != (3 > 4))");

    let input = "3 + 4 * 5 == 3 * 1 + 4 * 5";
    assert_eq!(
        parse_expression_input(input),
        "((3 + (4 * 5)) == ((3 * 1) + (4 * 5)))"
    );

    let input = "true";
    assert_eq!(parse_expression_input(input), "true");

    let input = "false";
    assert_eq!(parse_expression_input(input), "false");

    let input = "3 > 5 == false";
    assert_eq!(parse_expression_input(input), "((3 > 5) == false)");

    let input = "3 < 5 == true";
    assert_eq!(parse_expression_input(input), "((3 < 5) == true)");

    let input = "1 + (2 + 3) + 4";
    assert_eq!(parse_expression_input(input), "((1 + (2 + 3)) + 4)");

    let input = "(5 + 5) * 2";
    assert_eq!(parse_expression_input(input), "((5 + 5) * 2)");

    let input = "2 / (5 + 5)";
    assert_eq!(parse_expression_input(input), "(2 / (5 + 5))");

    let input = "-(5 + 5)";
    assert_eq!(parse_expression_input(input), "(-(5 + 5))");
}
