use monkey_lang::lexer::Lexer;
use monkey_lang::token::{Token, TokenType};

#[test]
fn lexer_next_token_simple_case() {
    let input = "=+(){},;";
    let mut lexer = Lexer::new(input.chars());

    assert_eq!(lexer.next_token(), Some(Token::new(TokenType::ASSIGN, "=")));
    assert_eq!(lexer.next_token(), Some(Token::new(TokenType::PLUS, "+")));
    assert_eq!(
        lexer.next_token(),
        Some(Token::new(TokenType::LEFTPAREN, "("))
    );
    assert_eq!(
        lexer.next_token(),
        Some(Token::new(TokenType::RIGHTPAREN, ")"))
    );
    assert_eq!(
        lexer.next_token(),
        Some(Token::new(TokenType::LEFTBRACE, "{"))
    );
    assert_eq!(
        lexer.next_token(),
        Some(Token::new(TokenType::RIGHTBRACE, "}"))
    );
    assert_eq!(lexer.next_token(), Some(Token::new(TokenType::COMMA, ",")));
    assert_eq!(
        lexer.next_token(),
        Some(Token::new(TokenType::SEMICOLON, ";"))
    );
    assert_eq!(lexer.next_token(), None);
}

#[test]
fn lexer_next_token_complex_case() {
    // this will use strings that look like monkey_lang
    // will make use of identifiers too
    let input = "let five = 5;\
        let ten = 10;\
        let add = fn(x, y) {\
            x + y;\
        };\
        \
        let result = add(five, ten);\
        !-/*5;\
        5 < 10 > 5;\
        \
        if (5 < 10) {\
            return true;\
         } else {\
            return false;\
        }\
        \
        10 == 10;\
        10 != 9;";

    let mut lexer = Lexer::new(input.chars());

    assert_eq!(lexer.next_token(), Some(Token::new(TokenType::LET, "let")));
    assert_eq!(
        lexer.next_token(),
        Some(Token::new(TokenType::IDENT, "five"))
    );
    assert_eq!(lexer.next_token(), Some(Token::new(TokenType::ASSIGN, "=")));
    assert_eq!(lexer.next_token(), Some(Token::new(TokenType::INT, "5")));
    assert_eq!(
        lexer.next_token(),
        Some(Token::new(TokenType::SEMICOLON, ";"))
    );
    assert_eq!(lexer.next_token(), Some(Token::new(TokenType::LET, "let")));
    assert_eq!(
        lexer.next_token(),
        Some(Token::new(TokenType::IDENT, "ten"))
    );
    assert_eq!(lexer.next_token(), Some(Token::new(TokenType::ASSIGN, "=")));
    assert_eq!(lexer.next_token(), Some(Token::new(TokenType::INT, "10")));
    assert_eq!(
        lexer.next_token(),
        Some(Token::new(TokenType::SEMICOLON, ";"))
    );
    assert_eq!(lexer.next_token(), Some(Token::new(TokenType::LET, "let")));
    assert_eq!(
        lexer.next_token(),
        Some(Token::new(TokenType::IDENT, "add"))
    );
    assert_eq!(lexer.next_token(), Some(Token::new(TokenType::ASSIGN, "=")));
    assert_eq!(
        lexer.next_token(),
        Some(Token::new(TokenType::FUNCTION, "fn"))
    );
    assert_eq!(
        lexer.next_token(),
        Some(Token::new(TokenType::LEFTPAREN, "("))
    );
    assert_eq!(lexer.next_token(), Some(Token::new(TokenType::IDENT, "x")));
    assert_eq!(lexer.next_token(), Some(Token::new(TokenType::COMMA, ",")));
    assert_eq!(lexer.next_token(), Some(Token::new(TokenType::IDENT, "y")));
    assert_eq!(
        lexer.next_token(),
        Some(Token::new(TokenType::RIGHTPAREN, ")"))
    );
    assert_eq!(
        lexer.next_token(),
        Some(Token::new(TokenType::LEFTBRACE, "{"))
    );
    assert_eq!(lexer.next_token(), Some(Token::new(TokenType::IDENT, "x")));
    assert_eq!(lexer.next_token(), Some(Token::new(TokenType::PLUS, "+")));
    assert_eq!(lexer.next_token(), Some(Token::new(TokenType::IDENT, "y")));
    assert_eq!(
        lexer.next_token(),
        Some(Token::new(TokenType::SEMICOLON, ";"))
    );
    assert_eq!(
        lexer.next_token(),
        Some(Token::new(TokenType::RIGHTBRACE, "}"))
    );
    assert_eq!(
        lexer.next_token(),
        Some(Token::new(TokenType::SEMICOLON, ";"))
    );
    assert_eq!(lexer.next_token(), Some(Token::new(TokenType::LET, "let")));
    assert_eq!(
        lexer.next_token(),
        Some(Token::new(TokenType::IDENT, "result"))
    );
    assert_eq!(lexer.next_token(), Some(Token::new(TokenType::ASSIGN, "=")));
    assert_eq!(
        lexer.next_token(),
        Some(Token::new(TokenType::IDENT, "add"))
    );
    assert_eq!(
        lexer.next_token(),
        Some(Token::new(TokenType::LEFTPAREN, "("))
    );
    assert_eq!(
        lexer.next_token(),
        Some(Token::new(TokenType::IDENT, "five"))
    );
    assert_eq!(lexer.next_token(), Some(Token::new(TokenType::COMMA, ",")));
    assert_eq!(
        lexer.next_token(),
        Some(Token::new(TokenType::IDENT, "ten"))
    );
    assert_eq!(
        lexer.next_token(),
        Some(Token::new(TokenType::RIGHTPAREN, ")"))
    );
    assert_eq!(
        lexer.next_token(),
        Some(Token::new(TokenType::SEMICOLON, ";"))
    );
    assert_eq!(lexer.next_token(), Some(Token::new(TokenType::BANG, "!")));
    assert_eq!(lexer.next_token(), Some(Token::new(TokenType::MINUS, "-")));
    assert_eq!(lexer.next_token(), Some(Token::new(TokenType::SLASH, "/")));
    assert_eq!(
        lexer.next_token(),
        Some(Token::new(TokenType::ASTERISK, "*"))
    );
    assert_eq!(lexer.next_token(), Some(Token::new(TokenType::INT, "5")));
    assert_eq!(
        lexer.next_token(),
        Some(Token::new(TokenType::SEMICOLON, ";"))
    );
    assert_eq!(lexer.next_token(), Some(Token::new(TokenType::INT, "5")));
    assert_eq!(
        lexer.next_token(),
        Some(Token::new(TokenType::LESSTHAN, "<"))
    );
    assert_eq!(lexer.next_token(), Some(Token::new(TokenType::INT, "10")));
    assert_eq!(
        lexer.next_token(),
        Some(Token::new(TokenType::GREATERTHAN, ">"))
    );
    assert_eq!(lexer.next_token(), Some(Token::new(TokenType::INT, "5")));
    assert_eq!(
        lexer.next_token(),
        Some(Token::new(TokenType::SEMICOLON, ";"))
    );
    assert_eq!(lexer.next_token(), Some(Token::new(TokenType::IF, "if")));
    assert_eq!(
        lexer.next_token(),
        Some(Token::new(TokenType::LEFTPAREN, "("))
    );
    assert_eq!(lexer.next_token(), Some(Token::new(TokenType::INT, "5")));
    assert_eq!(
        lexer.next_token(),
        Some(Token::new(TokenType::LESSTHAN, "<"))
    );
    assert_eq!(lexer.next_token(), Some(Token::new(TokenType::INT, "10")));
    assert_eq!(
        lexer.next_token(),
        Some(Token::new(TokenType::RIGHTPAREN, ")"))
    );
    assert_eq!(
        lexer.next_token(),
        Some(Token::new(TokenType::LEFTBRACE, "{"))
    );
    assert_eq!(
        lexer.next_token(),
        Some(Token::new(TokenType::RETURN, "return"))
    );
    assert_eq!(
        lexer.next_token(),
        Some(Token::new(TokenType::TRUE, "true"))
    );
    assert_eq!(
        lexer.next_token(),
        Some(Token::new(TokenType::SEMICOLON, ";"))
    );
    assert_eq!(
        lexer.next_token(),
        Some(Token::new(TokenType::RIGHTBRACE, "}"))
    );
    assert_eq!(
        lexer.next_token(),
        Some(Token::new(TokenType::ELSE, "else"))
    );
    assert_eq!(
        lexer.next_token(),
        Some(Token::new(TokenType::LEFTBRACE, "{"))
    );
    assert_eq!(
        lexer.next_token(),
        Some(Token::new(TokenType::RETURN, "return"))
    );
    assert_eq!(
        lexer.next_token(),
        Some(Token::new(TokenType::FALSE, "false"))
    );
    assert_eq!(
        lexer.next_token(),
        Some(Token::new(TokenType::SEMICOLON, ";"))
    );
    assert_eq!(
        lexer.next_token(),
        Some(Token::new(TokenType::RIGHTBRACE, "}"))
    );
    assert_eq!(lexer.next_token(), Some(Token::new(TokenType::INT, "10")));
    assert_eq!(lexer.next_token(), Some(Token::new(TokenType::EQUAL, "==")));
    assert_eq!(lexer.next_token(), Some(Token::new(TokenType::INT, "10")));
    assert_eq!(
        lexer.next_token(),
        Some(Token::new(TokenType::SEMICOLON, ";"))
    );
    assert_eq!(lexer.next_token(), Some(Token::new(TokenType::INT, "10")));
    assert_eq!(
        lexer.next_token(),
        Some(Token::new(TokenType::NOTEQUAL, "!="))
    );
    assert_eq!(lexer.next_token(), Some(Token::new(TokenType::INT, "9")));
    assert_eq!(
        lexer.next_token(),
        Some(Token::new(TokenType::SEMICOLON, ";"))
    );
    assert_eq!(lexer.next_token(), None);
}

#[test]
fn lexer_as_iterator() {
    let input = "=+(){},;";
    let mut lexer = Lexer::new(input.chars());

    assert_eq!(lexer.next(), Some(Token::new(TokenType::ASSIGN, "=")));
    assert_eq!(lexer.next(), Some(Token::new(TokenType::PLUS, "+")));
    assert_eq!(lexer.next(), Some(Token::new(TokenType::LEFTPAREN, "(")));
    assert_eq!(lexer.next(), Some(Token::new(TokenType::RIGHTPAREN, ")")));
    assert_eq!(lexer.next(), Some(Token::new(TokenType::LEFTBRACE, "{")));
    assert_eq!(lexer.next(), Some(Token::new(TokenType::RIGHTBRACE, "}")));
    assert_eq!(lexer.next(), Some(Token::new(TokenType::COMMA, ",")));
    assert_eq!(lexer.next(), Some(Token::new(TokenType::SEMICOLON, ";")));
    assert_eq!(lexer.next(), None);
    assert_eq!(lexer.next(), None);
}
