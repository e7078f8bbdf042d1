use monkey_lang::ast::{Block, Expression, InfixOperator, PrefixOperator, Statement};
use monkey_lang::lexer::Lexer;
use monkey_lang::parser::Parser;

#[test]
fn statement_parse_let_statements() {
    let input = "let x = 5;\
    let y = 10;\
    let foobar = 838383;";

    let lexer = Lexer::new(input.chars());
    let mut parser = Parser::new(lexer);
    let program = parser.parse_program().unwrap();

    assert_eq!(program.statements.len(), 3);

    assert_eq!(
        program.statements[0],
        Statement::Let {
            identifier: "x".to_string(),
            value: Expression::IntegerLiteral(5)
        }
    );
    assert_eq!(
        program.statements[1],
        Statement::Let {
            identifier: "y".to_string(),
            value: Expression::IntegerLiteral(10)
        }
    );
    assert_eq!(
        program.statements[2],
        Statement::Let {
            identifier: "foobar".to_string(),
            value: Expression::IntegerLiteral(838383)
        }
    );
}

#[test]
fn statement_parse_return_statements() {
    let input = "return 5;\
    return 10;\
    return 993322;";

    let lexer = Lexer::new(input.chars());
    let mut parser = Parser::new(lexer);
    let program = parser.parse_program().unwrap();

    assert_eq!(program.statements.len(), 3);
    assert_eq!(
        program.statements[0],
        Statement::Return {
            return_value: Expression::IntegerLiteral(5)
        }
    );
    assert_eq!(
        program.statements[1],
        Statement::Return {
            return_value: Expression::IntegerLiteral(10)
        }
    );
    assert_eq!(
        program.statements[2],
        Statement::Return {
            return_value: Expression::IntegerLiteral(993322)
        }
    );
}

#[test]
fn parse_expression_statements() {
    let input = "3 + 4; -5 * 5;";
    let lexer = Lexer::new(input.chars());
    let mut parser = Parser::new(lexer);
    let program = parser.parse_program().unwrap();

    assert_eq!(program.statements.len(), 2);
    assert_eq!(
        program.statements[0],
        Statement::Expression(Expression::Infix {
            left: Box::new(Expression::IntegerLiteral(3)),
            operator: InfixOperator::PLUS,
            right: Box::new(Expression::IntegerLiteral(4))
        })
    );
    assert_eq!(
        program.statements[1],
        Statement::Expression(Expression::Infix {
            left: Box::new(Expression::Prefix {
                operator: PrefixOperator::NEGATE,
                right: Box::new(Expression::IntegerLiteral(5))
            }),
            operator: InfixOperator::MULTIPLY,
            right: Box::new(Expression::IntegerLiteral(5))
        })
    );
}

#[test]
fn parse_block() {
    let input = "{ x; 2 + 3; let a = 5; }";
    let lexer = Lexer::new(input.chars());
    let mut parser = Parser::new(lexer);
    let statement = parser.parse_block().unwrap();

    assert_eq!(
        statement,
        Block {
            statements: vec![
                Statement::Expression(Expression::Identifier("x".to_string())),
                Statement::Expression(Expression::Infix {
                    left: Box::new(Expression::IntegerLiteral(2)),
                    operator: InfixOperator::PLUS,
                    right: Box::new(Expression::IntegerLiteral(3))
                }),
                Statement::Let {
                    identifier: "a".to_string(),
                    value: Expression::IntegerLiteral(5)
                }
            ]
        }
    );
}
