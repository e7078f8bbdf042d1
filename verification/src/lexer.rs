//! The lexer: source text in, tokens out.
//!
//! The meaning of lexing is given on sequences of characters by
//! [`next_token_spec`] and [`tokenize_spec`]; the [`Lexer`] is proved to read
//! exactly those tokens.

use vstd::prelude::*;
use vstd::std_specs::iter::IteratorSpec;
use std::str::Chars;
use crate::charclass::{
    CharClass, is_digit, is_letter, lemma_run_length_bounds, lemma_run_length_is, run_length,
};
use crate::text::{collect_chars, text_of};
use crate::token::{keyword_kind, look_up_ident, token_views, Token, TokenType, TokenView};

verus! {

/// The kind of a character that is a token by itself, whatever follows it.
pub open spec fn punctuation_kind(c: char) -> Option<TokenType> {
    if c == ';' {
        Some(TokenType::SEMICOLON)
    } else if c == '(' {
        Some(TokenType::LEFTPAREN)
    } else if c == ')' {
        Some(TokenType::RIGHTPAREN)
    } else if c == ',' {
        Some(TokenType::COMMA)
    } else if c == '+' {
        Some(TokenType::PLUS)
    } else if c == '-' {
        Some(TokenType::MINUS)
    } else if c == '*' {
        Some(TokenType::ASTERISK)
    } else if c == '/' {
        Some(TokenType::SLASH)
    } else if c == '<' {
        Some(TokenType::LESSTHAN)
    } else if c == '>' {
        Some(TokenType::GREATERTHAN)
    } else if c == '{' {
        Some(TokenType::LEFTBRACE)
    } else if c == '}' {
        Some(TokenType::RIGHTBRACE)
    } else {
        None
    }
}

/// The token that a non-empty text without leading whitespace starts with,
/// and the number of characters it spans.
pub open spec fn scan_token(s: Seq<char>) -> (TokenView, nat)
    recommends
        s.len() > 0,
{
    let c = s[0];
    if c == '=' || c == '!' {
        if s.len() > 1 && s[1] == '=' {
            (
                TokenView {
                    variant: if c == '=' {
                        TokenType::EQUAL
                    } else {
                        TokenType::NOTEQUAL
                    },
                    literal: s.subrange(0, 2),
                },
                2,
            )
        } else {
            (
                TokenView {
                    variant: if c == '=' {
                        TokenType::ASSIGN
                    } else {
                        TokenType::BANG
                    },
                    literal: s.subrange(0, 1),
                },
                1,
            )
        }
    } else if punctuation_kind(c) is Some {
        (TokenView { variant: punctuation_kind(c)->0, literal: s.subrange(0, 1) }, 1)
    } else if is_letter(c) {
        let n = run_length(s, CharClass::Letter);
        let word = s.subrange(0, n as int);
        (TokenView { variant: keyword_kind(word), literal: word }, n)
    } else if is_digit(c) {
        let n = run_length(s, CharClass::Digit);
        (TokenView { variant: TokenType::INT, literal: s.subrange(0, n as int) }, n)
    } else {
        (TokenView { variant: TokenType::ILLEGAL, literal: s.subrange(0, 1) }, 1)
    }
}

/// What is left of a text once its leading whitespace is dropped.
pub open spec fn skip_spaces(s: Seq<char>) -> Seq<char> {
    s.subrange(run_length(s, CharClass::Space) as int, s.len() as int)
}

/// The first token of a text and the text after it; `None` where only
/// whitespace is left.
pub open spec fn next_token_spec(s: Seq<char>) -> Option<(TokenView, Seq<char>)> {
    let t = skip_spaces(s);
    if t.len() == 0 {
        None
    } else {
        let (token, n) = scan_token(t);
        Some((token, t.subrange(n as int, t.len() as int)))
    }
}

/// All the tokens of a text, in order.
pub open spec fn tokenize_spec(s: Seq<char>) -> Seq<TokenView>
    decreases s.len(),
{
    match next_token_spec(s) {
        None => Seq::empty(),
        Some((token, rest)) => if rest.len() < s.len() {
            seq![token] + tokenize_spec(rest)
        } else {
            // never taken: see `lemma_next_token_consumes`
            seq![token]
        },
    }
}

/// A token spans at least one character and never more than the text holds.
pub proof fn lemma_scan_token_span(s: Seq<char>)
    requires
        s.len() > 0,
    ensures
        1 <= scan_token(s).1 <= s.len(),
        scan_token(s).0.literal == s.subrange(0, scan_token(s).1 as int),
{
    lemma_run_length_bounds(s, CharClass::Letter);
    lemma_run_length_bounds(s, CharClass::Digit);
}

/// Reading a token shortens the text.
pub proof fn lemma_next_token_consumes(s: Seq<char>)
    requires
        next_token_spec(s) is Some,
    ensures
        next_token_spec(s) matches Some((_, rest)) && rest.len() < s.len(),
{
    lemma_run_length_bounds(s, CharClass::Space);
    lemma_scan_token_span(skip_spaces(s));
}

/// A forward-only cursor over the characters of a source text.
pub struct Lexer {
    input: Vec<char>,
    position: usize,
}

impl Lexer {
    /// The characters not yet consumed.
    pub closed spec fn remaining(&self) -> Seq<char> {
        self.input@.subrange(self.position as int, self.input@.len() as int)
    }

    /// The cursor lies within the text.
    pub closed spec fn well_formed(&self) -> bool {
        self.position <= self.input@.len()
    }

    /// A lexer over the characters that `input` has yet to give. The
    /// iterator must be one that is known to end, as every `str::chars()` is.
    pub fn new(input: Chars<'_>) -> (lexer: Self)
        requires
            input.decrease() is Some,
        ensures
            lexer.well_formed(),
            lexer.remaining() == input.remaining(),
    {
        let chars = collect_chars(input);
        let lexer = Lexer { input: chars, position: 0 };
        assert(lexer.remaining() =~= chars@);
        lexer
    }

    /// The next token, or `None` once only whitespace is left.
    pub fn next_token(&mut self) -> (token: Option<Token>)
        requires
            old(self).well_formed(),
        ensures
            final(self).well_formed(),
            match next_token_spec(old(self).remaining()) {
                None => token is None && final(self).remaining().len() == 0,
                Some((expected, rest)) => {
                    &&& token is Some
                    &&& token->0@ == expected
                    &&& final(self).remaining() == rest
                },
            },
    {
        let ghost before = self.remaining();
        self.skip_white_space();
        let ghost text = self.remaining();
        assert(text == skip_spaces(before));
        if self.position >= self.input.len() {
            return None;
        }
        proof {
            lemma_scan_token_span(text);
            assert(text[0] == self.input@[self.position as int]);
            if text.len() > 1 {
                assert(text[1] == self.input@[self.position + 1]);
            }
        }
        let c = self.peek_next_char();
        let token = if c == '=' {
            self.build_new_token_optional_double_char(TokenType::ASSIGN, '=', TokenType::EQUAL)
        } else if c == ';' {
            self.build_new_token(TokenType::SEMICOLON)
        } else if c == '(' {
            self.build_new_token(TokenType::LEFTPAREN)
        } else if c == ')' {
            self.build_new_token(TokenType::RIGHTPAREN)
        } else if c == ',' {
            self.build_new_token(TokenType::COMMA)
        } else if c == '+' {
            self.build_new_token(TokenType::PLUS)
        } else if c == '-' {
            self.build_new_token(TokenType::MINUS)
        } else if c == '!' {
            self.build_new_token_optional_double_char(TokenType::BANG, '=', TokenType::NOTEQUAL)
        } else if c == '*' {
            self.build_new_token(TokenType::ASTERISK)
        } else if c == '/' {
            self.build_new_token(TokenType::SLASH)
        } else if c == '<' {
            self.build_new_token(TokenType::LESSTHAN)
        } else if c == '>' {
            self.build_new_token(TokenType::GREATERTHAN)
        } else if c == '{' {
            self.build_new_token(TokenType::LEFTBRACE)
        } else if c == '}' {
            self.build_new_token(TokenType::RIGHTBRACE)
        } else if CharClass::Letter.contains(c) {
            let identifier = self.read_identifier();
            let kind = look_up_ident(identifier.as_str());
            Lexer::build_new_token_with_literal(kind, identifier)
        } else if CharClass::Digit.contains(c) {
            let number = self.read_number();
            Lexer::build_new_token_with_literal(TokenType::INT, number)
        } else {
            self.build_new_token(TokenType::ILLEGAL)
        };
        Some(token)
    }

    /// The next token, as `next_token` gives it.
    pub fn next(&mut self) -> (token: Option<Token>)
        requires
            old(self).well_formed(),
        ensures
            final(self).well_formed(),
            match next_token_spec(old(self).remaining()) {
                None => token is None && final(self).remaining().len() == 0,
                Some((expected, rest)) => {
                    &&& token is Some
                    &&& token->0@ == expected
                    &&& final(self).remaining() == rest
                },
            },
    {
        self.next_token()
    }

    /// Reads the alphabetic run at the cursor.
    fn read_identifier(&mut self) -> (word: String)
        requires
            old(self).well_formed(),
        ensures
            final(self).well_formed(),
            word@ == old(self).remaining().subrange(
                0,
                run_length(old(self).remaining(), CharClass::Letter) as int,
            ),
            final(self).remaining() == old(self).remaining().subrange(
                run_length(old(self).remaining(), CharClass::Letter) as int,
                old(self).remaining().len() as int,
            ),
    {
        self.read_while(CharClass::Letter)
    }

    /// Reads the run of digits at the cursor.
    fn read_number(&mut self) -> (digits: String)
        requires
            old(self).well_formed(),
        ensures
            final(self).well_formed(),
            digits@ == old(self).remaining().subrange(
                0,
                run_length(old(self).remaining(), CharClass::Digit) as int,
            ),
            final(self).remaining() == old(self).remaining().subrange(
                run_length(old(self).remaining(), CharClass::Digit) as int,
                old(self).remaining().len() as int,
            ),
    {
        self.read_while(CharClass::Digit)
    }

    /// Consumes one character and gives it as text.
    fn read_next_char_as_string(&mut self) -> (text: String)
        requires
            old(self).well_formed(),
            old(self).remaining().len() > 0,
        ensures
            final(self).well_formed(),
            text@ == old(self).remaining().subrange(0, 1),
            final(self).remaining() == old(self).remaining().subrange(
                1,
                old(self).remaining().len() as int,
            ),
    {
        let ghost before = self.remaining();
        let c = self.read_next_char();
        let mut text = String::new();
        text.push(c);
        assert(text@ =~= before.subrange(0, 1));
        text
    }

    /// Consumes one character.
    fn read_next_char(&mut self) -> (c: char)
        requires
            old(self).well_formed(),
            old(self).remaining().len() > 0,
        ensures
            final(self).well_formed(),
            c == old(self).remaining()[0],
            final(self).remaining() == old(self).remaining().subrange(
                1,
                old(self).remaining().len() as int,
            ),
    {
        assert(self.remaining().len() == self.input.len() - self.position);
        let c = self.input[self.position];
        self.position = self.position + 1;
        assert(self.remaining() =~= old(self).remaining().subrange(
            1,
            old(self).remaining().len() as int,
        ));
        c
    }

    /// The character at the cursor, which stays where it is.
    fn peek_next_char(&self) -> (c: char)
        requires
            self.well_formed(),
            self.remaining().len() > 0,
        ensures
            c == self.remaining()[0],
    {
        self.input[self.position]
    }

    /// Moves the cursor past the whitespace it stands on.
    fn skip_white_space(&mut self)
        requires
            old(self).well_formed(),
        ensures
            final(self).well_formed(),
            final(self).remaining() == skip_spaces(old(self).remaining()),
            final(self).input == old(self).input,
    {
        let _ = self.read_while(CharClass::Space);
    }

    /// Consumes the longest run of characters of `class` at the cursor and
    /// gives it as text.
    fn read_while(&mut self, class: CharClass) -> (run: String)
        requires
            old(self).well_formed(),
        ensures
            final(self).well_formed(),
            final(self).input == old(self).input,
            run@ == old(self).remaining().subrange(
                0,
                run_length(old(self).remaining(), class) as int,
            ),
            final(self).remaining() == old(self).remaining().subrange(
                run_length(old(self).remaining(), class) as int,
                old(self).remaining().len() as int,
            ),
    {
        let ghost before = self.remaining();
        let start = self.position;
        while self.position < self.input.len() && class.contains(self.input[self.position])
            invariant
                self.input == old(self).input,
                start == old(self).position,
                start <= self.position <= self.input@.len(),
                forall|i: int| start <= i < self.position ==> class.holds(#[trigger] self.input@[i]),
            decreases self.input@.len() - self.position,
        {
            self.position = self.position + 1;
        }
        let run = text_of(&self.input, start, self.position);
        proof {
            let n = (self.position - start) as nat;
            assert forall|i: int| 0 <= i < n implies class.holds(#[trigger] before[i]) by {
                assert(before[i] == self.input@[start + i]);
            }
            if n < before.len() {
                assert(before[n as int] == self.input@[self.position as int]);
            }
            lemma_run_length_is(before, class, n);
            assert(run@ =~= before.subrange(0, n as int));
            assert(self.remaining() =~= before.subrange(n as int, before.len() as int));
        }
        run
    }

    /// The token of kind `token_type` that the character at the cursor is.
    fn build_new_token(&mut self, token_type: TokenType) -> (token: Token)
        requires
            old(self).well_formed(),
            old(self).remaining().len() > 0,
        ensures
            final(self).well_formed(),
            token@ == (TokenView {
                variant: token_type,
                literal: old(self).remaining().subrange(0, 1),
            }),
            final(self).remaining() == old(self).remaining().subrange(
                1,
                old(self).remaining().len() as int,
            ),
    {
        let literal = self.read_next_char_as_string();
        Lexer::build_new_token_with_literal(token_type, literal)
    }

    fn build_new_token_with_literal(token_type: TokenType, literal: String) -> (token: Token)
        ensures
            token@ == (TokenView { variant: token_type, literal: literal@ }),
    {
        Token { variant: token_type, literal }
    }

    /// Reads a one-character operator, or the two-character one that it
    /// begins where `expected_next_char` follows.
    fn build_new_token_optional_double_char(
        &mut self,
        single_match_token_type: TokenType,
        expected_next_char: char,
        double_match_token_type: TokenType,
    ) -> (token: Token)
        requires
            old(self).well_formed(),
            old(self).remaining().len() > 0,
        ensures
            final(self).well_formed(),
            old(self).remaining().len() > 1 && old(self).remaining()[1] == expected_next_char
                ==> token@ == (TokenView {
                variant: double_match_token_type,
                literal: old(self).remaining().subrange(0, 2),
            }) && final(self).remaining() == old(self).remaining().subrange(
                2,
                old(self).remaining().len() as int,
            ),
            !(old(self).remaining().len() > 1 && old(self).remaining()[1] == expected_next_char)
                ==> token@ == (TokenView {
                variant: single_match_token_type,
                literal: old(self).remaining().subrange(0, 1),
            }) && final(self).remaining() == old(self).remaining().subrange(
                1,
                old(self).remaining().len() as int,
            ),
    {
        let ghost before = self.remaining();
        let mut matches = self.read_next_char_as_string();
        let ghost middle = self.remaining();
        if self.position < self.input.len() && self.peek_next_char() == expected_next_char {
            let second = self.read_next_char();
            matches.push(second);
            proof {
                assert(middle[0] == before[1]);
                assert(matches@ =~= before.subrange(0, 2));
                assert(self.remaining() =~= before.subrange(2, before.len() as int));
            }
            Lexer::build_new_token_with_literal(double_match_token_type, matches)
        } else {
            proof {
                if before.len() > 1 {
                    assert(middle[0] == before[1]);
                }
            }
            Lexer::build_new_token_with_literal(single_match_token_type, matches)
        }
    }
}

/// Reads every token of `source`.
pub fn tokenize(source: &str) -> (tokens: Vec<Token>)
    ensures
        token_views(tokens@) == tokenize_spec(source@),
{
    let mut lexer = Lexer::new(source.chars());
    read_all_tokens(&mut lexer)
}

/// Reads the tokens that `lexer` has yet to give.
pub fn read_all_tokens(lexer: &mut Lexer) -> (tokens: Vec<Token>)
    requires
        old(lexer).well_formed(),
    ensures
        final(lexer).well_formed(),
        final(lexer).remaining().len() == 0,
        token_views(tokens@) == tokenize_spec(old(lexer).remaining()),
{
    let mut tokens: Vec<Token> = Vec::new();
    let ghost all = lexer.remaining();
    loop
        invariant
            lexer.well_formed(),
            tokenize_spec(all) == token_views(tokens@) + tokenize_spec(
                lexer.remaining(),
            ),
        ensures
            lexer.well_formed(),
            lexer.remaining().len() == 0,
            tokenize_spec(all) == token_views(tokens@),
        decreases lexer.remaining().len(),
    {
        let ghost before = lexer.remaining();
        let ghost read = token_views(tokens@);
        match lexer.next_token() {
            Some(token) => {
                proof {
                    lemma_next_token_consumes(before);
                }
                tokens.push(token);
                assert(token_views(tokens@) =~= read + seq![token@]);
                assert(tokenize_spec(all) =~= token_views(tokens@) + tokenize_spec(
                    lexer.remaining(),
                ));
            },
            None => {
                assert(tokenize_spec(before) =~= Seq::<TokenView>::empty());
                assert(tokenize_spec(all) =~= read);
                break ;
            },
        }
    }
    tokens
}

/// A character that is an operator or a delimiter of the language.
pub open spec fn is_operator_char(c: char) -> bool {
    c == '=' || c == '!' || punctuation_kind(c) is Some
}

/// The kind of the token that one operator character is by itself.
pub open spec fn single_operator_kind(c: char) -> TokenType
    recommends
        is_operator_char(c),
{
    if c == '=' {
        TokenType::ASSIGN
    } else if c == '!' {
        TokenType::BANG
    } else {
        punctuation_kind(c)->0
    }
}

/// A token that is one operator character, or one of the pairs `==` and `!=`.
pub open spec fn is_operator_token(t: TokenView) -> bool {
    ||| t.literal.len() == 1 && is_operator_char(t.literal[0]) && t.variant
        == single_operator_kind(t.literal[0])
    ||| t.literal == seq!['=', '='] && t.variant == TokenType::EQUAL
    ||| t.literal == seq!['!', '='] && t.variant == TokenType::NOTEQUAL
}

/// The texts of the tokens, one after the other.
pub open spec fn concat_literals(tokens: Seq<TokenView>) -> Seq<char>
    decreases tokens.len(),
{
    if tokens.len() == 0 {
        Seq::empty()
    } else {
        tokens[0].literal + concat_literals(tokens.drop_first())
    }
}

/// Reading one token from a text of operator characters: the token is an
/// operator token that spans the first one or two characters, and it is a
/// pair wherever `=` follows `=` or `!`.
proof fn lemma_operator_step(s: Seq<char>)
    requires
        s.len() > 0,
        forall|i: int| 0 <= i < s.len() ==> is_operator_char(#[trigger] s[i]),
    ensures
        next_token_spec(s) is Some,
        ({
            let (token, rest) = next_token_spec(s)->0;
            &&& is_operator_token(token)
            &&& token.literal.len() <= s.len()
            &&& token.literal == s.subrange(0, token.literal.len() as int)
            &&& rest == s.subrange(token.literal.len() as int, s.len() as int)
            &&& token.literal.len() == 1 && (s[0] == '=' || s[0] == '!') && s.len() > 1 ==> s[1]
                != '='
        }),
{
    assert(is_operator_char(s[0]));
    assert(run_length(s, CharClass::Space) == 0);
    assert(skip_spaces(s) =~= s);
    let (token, n) = scan_token(s);
    if n == 2 {
        assert(token.literal =~= seq![s[0], '=']);
    } else {
        assert(token.literal.len() == 1);
        assert(token.literal[0] == s[0]);
    }
}

/// A text made of operator and delimiter characters alone is read as
/// operator tokens only, one for each character or pair, and the tokens' texts
/// put together in order give the text back: nothing is skipped and nothing is
/// read as `ILLEGAL`.
pub proof fn lemma_operators_round_trip(s: Seq<char>)
    requires
        forall|i: int| 0 <= i < s.len() ==> is_operator_char(#[trigger] s[i]),
    ensures
        concat_literals(tokenize_spec(s)) == s,
        forall|i: int|
            0 <= i < tokenize_spec(s).len() ==> is_operator_token(#[trigger] tokenize_spec(s)[i]),
        forall|i: int|
            0 <= i < tokenize_spec(s).len() ==> (#[trigger] tokenize_spec(s)[i]).variant
                != TokenType::ILLEGAL,
    decreases s.len(),
{
    if s.len() == 0 {
        assert(run_length(s, CharClass::Space) == 0);
        assert(skip_spaces(s) =~= s);
        assert(concat_literals(tokenize_spec(s)) =~= s);
    } else {
        lemma_operator_step(s);
        let (token, rest) = next_token_spec(s)->0;
        let n = token.literal.len();
        assert forall|i: int| 0 <= i < rest.len() implies is_operator_char(#[trigger] rest[i]) by {
            assert(rest[i] == s[i + n]);
        }
        lemma_operators_round_trip(rest);
        let tail = tokenize_spec(rest);
        let all = tokenize_spec(s);
        assert(all == seq![token] + tail);
        assert(all.drop_first() =~= tail);
        assert(all[0] == token);
        assert(concat_literals(all) =~= s);
        assert forall|i: int| 0 <= i < all.len() implies is_operator_token(#[trigger] all[i]) by {
            if i > 0 {
                assert(all[i] == tail[i - 1]);
            }
        }
    }
}

/// In a text made of operator and delimiter characters alone the longest
/// operator is read: no token `=` or `!` is followed by a token that starts
/// with `=`.
pub proof fn lemma_operators_longest_match(s: Seq<char>, i: int)
    requires
        forall|k: int| 0 <= k < s.len() ==> is_operator_char(#[trigger] s[k]),
        0 <= i < tokenize_spec(s).len() - 1,
        tokenize_spec(s)[i].literal.len() == 1,
        tokenize_spec(s)[i].literal[0] == '=' || tokenize_spec(s)[i].literal[0] == '!',
    ensures
        tokenize_spec(s)[i + 1].literal.len() > 0,
        tokenize_spec(s)[i + 1].literal[0] != '=',
    decreases s.len(),
{
    if s.len() == 0 {
        assert(run_length(s, CharClass::Space) == 0);
        assert(skip_spaces(s) =~= s);
    } else {
        lemma_operator_step(s);
        let (token, rest) = next_token_spec(s)->0;
        let n = token.literal.len();
        assert forall|k: int| 0 <= k < rest.len() implies is_operator_char(#[trigger] rest[k]) by {
            assert(rest[k] == s[k + n]);
        }
        let tail = tokenize_spec(rest);
        let all = tokenize_spec(s);
        assert(all == seq![token] + tail);
        if i > 0 {
            assert(all[i] == tail[i - 1]);
            assert(all[i + 1] == tail[i]);
            lemma_operators_longest_match(rest, i - 1);
        } else {
            assert(all[0] == token);
            assert(all[1] == tail[0]);
            if rest.len() == 0 {
                assert(run_length(rest, CharClass::Space) == 0);
                assert(skip_spaces(rest) =~= rest);
            } else {
                lemma_operator_step(rest);
                let (second, _) = next_token_spec(rest)->0;
                assert(tail[0] == second);
                assert(second.literal[0] == rest[0]);
                assert(rest[0] == s[1]);
                assert(token.literal[0] == s[0]);
            }
        }
    }
}

/// The keyword table holds seven words, each with a kind of its own.
pub proof fn lemma_keyword_kinds()
    ensures
        keyword_kind("fn"@) == TokenType::FUNCTION,
        keyword_kind("let"@) == TokenType::LET,
        keyword_kind("true"@) == TokenType::TRUE,
        keyword_kind("false"@) == TokenType::FALSE,
        keyword_kind("if"@) == TokenType::IF,
        keyword_kind("else"@) == TokenType::ELSE,
        keyword_kind("return"@) == TokenType::RETURN,
{
    reveal_strlit("fn");
    reveal_strlit("let");
    reveal_strlit("true");
    reveal_strlit("false");
    reveal_strlit("if");
    reveal_strlit("else");
    reveal_strlit("return");
    assert("fn"@.len() == 2 && "if"@.len() == 2);
    assert("let"@.len() == 3);
    assert("true"@.len() == 4 && "else"@.len() == 4);
    assert("false"@.len() == 5);
    assert("return"@.len() == 6);
    assert("fn"@[0] == 'f' && "if"@[0] == 'i');
    assert("true"@[0] == 't' && "else"@[0] == 'e');
}

/// A word is a keyword exactly where the keyword table gives it a kind other
/// than `IDENT`.
pub open spec fn is_keyword(word: Seq<char>) -> bool {
    word == "fn"@ || word == "let"@ || word == "true"@ || word == "false"@ || word == "if"@
        || word == "else"@ || word == "return"@
}

/// A text that is one alphabetic run is read as one token that spans it: a
/// keyword where the run is one of the seven keywords, an identifier
/// otherwise. Outside ASCII the character tables are known by name only, so
/// the law asks that the first character is not whitespace as well.
pub proof fn lemma_word_is_one_token(word: Seq<char>)
    requires
        word.len() > 0,
        forall|i: int| 0 <= i < word.len() ==> is_letter(#[trigger] word[i]),
        !crate::charclass::is_space(word[0]),
    ensures
        tokenize_spec(word) == seq![TokenView { variant: keyword_kind(word), literal: word }],
        is_keyword(word) <==> keyword_kind(word) != TokenType::IDENT,
{
    assert(run_length(word, CharClass::Space) == 0);
    assert(skip_spaces(word) =~= word);
    assert forall|i: int| 0 <= i < word.len() implies CharClass::Letter.holds(
        #[trigger] word[i],
    ) by {}
    lemma_run_length_is(word, CharClass::Letter, word.len());
    let c = word[0];
    assert(is_letter(c));
    if crate::charclass::is_ascii_char(c) {
        assert(('a' <= c && c <= 'z') || ('A' <= c && c <= 'Z'));
    }
    assert(!(c == '=' || c == '!'));
    assert(punctuation_kind(c) is None);
    assert(word.subrange(0, word.len() as int) =~= word);
    let rest = word.subrange(word.len() as int, word.len() as int);
    assert(rest.len() == 0);
    assert(run_length(rest, CharClass::Space) == 0);
    assert(skip_spaces(rest) =~= rest);
    assert(tokenize_spec(rest) =~= Seq::<TokenView>::empty());
    assert(tokenize_spec(word) =~= seq![TokenView { variant: keyword_kind(word), literal: word }]);
    lemma_keyword_kinds();
}

} // verus!
