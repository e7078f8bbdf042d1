//! Character classes of the source alphabet.
//!
//! Inside the ASCII range each class is written out here. Outside it the
//! classes follow the Unicode tables of the standard library, which are named
//! but not restated.

use vstd::prelude::*;

verus! {

/// What `char::is_alphabetic` answers for a character outside ASCII.
pub uninterp spec fn unicode_alphabetic(c: char) -> bool;

/// What `char::is_numeric` answers for a character outside ASCII.
pub uninterp spec fn unicode_numeric(c: char) -> bool;

/// What `char::is_whitespace` answers for a character outside ASCII.
pub uninterp spec fn unicode_whitespace(c: char) -> bool;

pub open spec fn is_ascii_char(c: char) -> bool {
    (c as u32) < 0x80
}

/// A character that may stand in an identifier.
pub open spec fn is_letter(c: char) -> bool {
    if is_ascii_char(c) {
        ('a' <= c && c <= 'z') || ('A' <= c && c <= 'Z')
    } else {
        unicode_alphabetic(c)
    }
}

/// A character that may stand in an integer literal.
pub open spec fn is_digit(c: char) -> bool {
    if is_ascii_char(c) {
        '0' <= c && c <= '9'
    } else {
        unicode_numeric(c)
    }
}

/// A character that separates tokens and is otherwise ignored.
pub open spec fn is_space(c: char) -> bool {
    if is_ascii_char(c) {
        c == ' ' || ('\x09' <= c && c <= '\x0d')
    } else {
        unicode_whitespace(c)
    }
}

/// The three classes the lexer reads runs of.
#[derive(PartialEq, Eq, Structural, Debug, Clone, Copy)]
pub enum CharClass {
    Space,
    Letter,
    Digit,
}

impl CharClass {
    pub open spec fn holds(self, c: char) -> bool {
        match self {
            CharClass::Space => is_space(c),
            CharClass::Letter => is_letter(c),
            CharClass::Digit => is_digit(c),
        }
    }

    /// Whether `c` belongs to this class.
    pub fn contains(self, c: char) -> (b: bool)
        ensures
            b == self.holds(c),
    {
        match self {
            CharClass::Space => is_whitespace(c),
            CharClass::Letter => is_alphabetic(c),
            CharClass::Digit => is_numeric(c),
        }
    }
}

/// `char::is_alphabetic`: true of the ASCII letters and of no other ASCII
/// character; outside ASCII the answer is the library's Unicode `Alphabetic`
/// table, known here only by name.
#[verifier::external_body]
pub(crate) fn is_alphabetic(c: char) -> (b: bool)
    ensures
        b == is_letter(c),
        !is_ascii_char(c) ==> b == unicode_alphabetic(c),
{
    c.is_alphabetic()
}

/// `char::is_numeric`: true of the ASCII digits and of no other ASCII
/// character; outside ASCII the answer is the library's Unicode table of the
/// number categories, known here only by name.
#[verifier::external_body]
pub(crate) fn is_numeric(c: char) -> (b: bool)
    ensures
        b == is_digit(c),
        !is_ascii_char(c) ==> b == unicode_numeric(c),
{
    c.is_numeric()
}

/// `char::is_whitespace`: true of the space and of U+0009 to U+000D, and of
/// no other ASCII character; outside ASCII the answer is the library's Unicode
/// `White_Space` table, known here only by name.
#[verifier::external_body]
pub(crate) fn is_whitespace(c: char) -> (b: bool)
    ensures
        b == is_space(c),
        !is_ascii_char(c) ==> b == unicode_whitespace(c),
{
    c.is_whitespace()
}

/// The length of the longest prefix of `s` whose characters all belong to
/// `class`.
pub open spec fn run_length(s: Seq<char>, class: CharClass) -> nat
    decreases s.len(),
{
    if s.len() > 0 && class.holds(s[0]) {
        1 + run_length(s.drop_first(), class)
    } else {
        0
    }
}

/// A run is pinned down by its characters: the first `n` belong to the class
/// and the one after them, if there is one, does not.
pub proof fn lemma_run_length_is(s: Seq<char>, class: CharClass, n: nat)
    requires
        n <= s.len(),
        forall|i: int| 0 <= i < n ==> class.holds(#[trigger] s[i]),
        n < s.len() ==> !class.holds(s[n as int]),
    ensures
        run_length(s, class) == n,
    decreases n,
{
    if n > 0 {
        let t = s.drop_first();
        assert forall|i: int| 0 <= i < n - 1 implies class.holds(#[trigger] t[i]) by {
            assert(t[i] == s[i + 1]);
        }
        if n - 1 < t.len() {
            assert(t[n - 1] == s[n as int]);
        }
        lemma_run_length_is(t, class, (n - 1) as nat);
    }
}

/// A run never leaves its text, lies wholly in its class, and stops only at
/// the end or before a character outside the class.
pub proof fn lemma_run_length_bounds(s: Seq<char>, class: CharClass)
    ensures
        run_length(s, class) <= s.len(),
        forall|i: int| 0 <= i < run_length(s, class) ==> class.holds(#[trigger] s[i]),
        run_length(s, class) < s.len() ==> !class.holds(s[run_length(s, class) as int]),
    decreases s.len(),
{
    if s.len() > 0 && class.holds(s[0]) {
        let t = s.drop_first();
        lemma_run_length_bounds(t, class);
        assert forall|i: int| 0 <= i < run_length(s, class) implies class.holds(
            #[trigger] s[i],
        ) by {
            if i > 0 {
                assert(s[i] == t[i - 1]);
            }
        }
        if run_length(s, class) < s.len() {
            assert(s[run_length(s, class) as int] == t[run_length(t, class) as int]);
        }
    }
}

} // verus!
