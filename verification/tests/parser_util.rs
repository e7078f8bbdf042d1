use monkey_lang::error::Error;
use monkey_lang::lexer::Lexer;
use monkey_lang::parser::grammar::Precedence;
use monkey_lang::parser::Parser;
use monkey_lang::token::{Token, TokenType};

#[test]
fn util_expect_next_token() {
    let input = "x = 5";
    let lexer = Lexer::new(input.chars());
    let mut parser = Parser::new(lexer);

    // error condition
    assert_eq!(
        parser.expect_next_token(TokenType::ASSIGN),
        Err(Error::UnexpectedToken("x".to_string()))
    );

    assert_eq!(
        parser.expect_next_token(TokenType::IDENT),
        Ok(Token::new(TokenType::IDENT, "x"))
    );
}

#[test]
fn precedence_ordering() {
    assert!(Precedence::CALL > Precedence::PREFIX);
    assert!(Precedence::PREFIX > Precedence::PRODUCT);
    assert!(Precedence::PRODUCT > Precedence::SUM);
    assert!(Precedence::SUM > Precedence::LESSORGREATER);
    assert!(Precedence::LESSORGREATER > Precedence::LOWEST);
}
