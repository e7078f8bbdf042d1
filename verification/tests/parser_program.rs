use monkey_lang::ast::{Expression, Statement};
use monkey_lang::error::Error;
use monkey_lang::lexer::Lexer;
use monkey_lang::parser::Parser;
use monkey_lang::token::{Token, TokenType};

#[test]
fn parser_expect_next_token() {
    let input = "x = 5";
    let lexer = Lexer::new(input.chars());
    let mut parser = Parser::new(lexer);

    // error condition
    assert_eq!(
        parser.expect_next_token(TokenType::ASSIGN),
        Err(Error::UnexpectedToken("x".to_string()))
    );

    assert_eq!(
        parser.expect_next_token(TokenType::IDENT),
        Ok(Token::new(TokenType::IDENT, "x"))
    );
}

#[test]
fn parser_parse_let_statements() {
    let input = "let x = 5;\
    let y = 10;\
    let foobar = 838383;";

    let lexer = Lexer::new(input.chars());
    let mut parser = Parser::new(lexer);
    let program = parser.parse_program().unwrap();

    assert_eq!(program.statements.len(), 3);

    assert_eq!(
        program.statements[0],
        Statement::Let {
            identifier: "x".to_string(),
            value: Expression::IntegerLiteral(5)
        }
    );
    assert_eq!(
        program.statements[1],
        Statement::Let {
            identifier: "y".to_string(),
            value: Expression::IntegerLiteral(10)
        }
    );
    assert_eq!(
        program.statements[2],
        Statement::Let {
            identifier: "foobar".to_string(),
            value: Expression::IntegerLiteral(838383)
        }
    );
}

#[test]
fn parser_parse_return_statements() {
    let input = "return 5;\
    return 10;\
    return 993322;";

    let lexer = Lexer::new(input.chars());
    let mut parser = Parser::new(lexer);
    let program = parser.parse_program().unwrap();

    assert_eq!(program.statements.len(), 3);
    assert_eq!(
        program.statements[0],
        Statement::Return {
            return_value: Expression::IntegerLiteral(5)
        }
    );
    assert_eq!(
        program.statements[1],
        Statement::Return {
            return_value: Expression::IntegerLiteral(10)
        }
    );
    assert_eq!(
        program.statements[2],
        Statement::Return {
            return_value: Expression::IntegerLiteral(993322)
        }
    );
}
