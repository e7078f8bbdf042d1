//! The alphabet of lexical units and the keyword table.

use vstd::prelude::*;
use crate::text::text_equals;

verus! {

/// The kind of a lexical unit.
#[derive(PartialEq, Eq, Structural, Debug, Clone, Copy)]
pub enum TokenType {
    ILLEGAL,
    // Identifiers and literals
    IDENT,
    INT,
    // Operators
    ASSIGN,
    PLUS,
    MINUS,
    BANG,
    ASTERISK,
    SLASH,
    LESSTHAN,
    GREATERTHAN,
    EQUAL,
    NOTEQUAL,
    // Delimiters
    COMMA,
    SEMICOLON,
    LEFTPAREN,
    RIGHTPAREN,
    LEFTBRACE,
    RIGHTBRACE,
    // Keywords
    FUNCTION,
    LET,
    TRUE,
    FALSE,
    IF,
    ELSE,
    RETURN,
}

/// A lexical unit: its kind and the text it was read from.
#[derive(PartialEq, Debug, Clone)]
pub struct Token {
    pub variant: TokenType,
    pub literal: String,
}

/// The mathematical value of a [`Token`].
pub struct TokenView {
    pub variant: TokenType,
    pub literal: Seq<char>,
}

impl View for Token {
    type V = TokenView;

    open spec fn view(&self) -> TokenView {
        TokenView { variant: self.variant, literal: self.literal@ }
    }
}

/// The mathematical values of a run of tokens.
pub open spec fn token_views(tokens: Seq<Token>) -> Seq<TokenView> {
    tokens.map_values(|t: Token| t@)
}

impl Token {
    pub fn new(variant: TokenType, literal: &str) -> (token: Self)
        ensures
            token@ == (TokenView { variant, literal: literal@ }),
    {
        Self { variant, literal: String::from_str(literal) }
    }

    /// A token with the same kind and text.
    pub fn duplicate(&self) -> (token: Self)
        ensures
            token@ == self@,
    {
        Self { variant: self.variant, literal: self.literal.clone() }
    }
}

/// The kind of an alphabetic run: a keyword's own kind, else `IDENT`.
pub open spec fn keyword_kind(ident: Seq<char>) -> TokenType {
    if ident == "fn"@ {
        TokenType::FUNCTION
    } else if ident == "let"@ {
        TokenType::LET
    } else if ident == "true"@ {
        TokenType::TRUE
    } else if ident == "false"@ {
        TokenType::FALSE
    } else if ident == "if"@ {
        TokenType::IF
    } else if ident == "else"@ {
        TokenType::ELSE
    } else if ident == "return"@ {
        TokenType::RETURN
    } else {
        TokenType::IDENT
    }
}

/// Classifies an alphabetic run by the keyword table.
pub fn look_up_ident(ident: &str) -> (kind: TokenType)
    ensures
        kind == keyword_kind(ident@),
{
    if text_equals(ident, "fn") {
        TokenType::FUNCTION
    } else if text_equals(ident, "let") {
        TokenType::LET
    } else if text_equals(ident, "true") {
        TokenType::TRUE
    } else if text_equals(ident, "false") {
        TokenType::FALSE
    } else if text_equals(ident, "if") {
        TokenType::IF
    } else if text_equals(ident, "else") {
        TokenType::ELSE
    } else if text_equals(ident, "return") {
        TokenType::RETURN
    } else {
        TokenType::IDENT
    }
}

} // verus!
