//! Building and comparing owned text.

use vstd::prelude::*;
use vstd::std_specs::iter::IteratorSpec;
use std::str::Chars;

verus! {

/// `String::push` appends the given character to the end of the string and
/// changes nothing else.
pub assume_specification[ String::push ](s: &mut String, c: char)
    ensures
        final(s)@ == old(s)@.push(c),
;

/// Whether two texts hold the same characters.
pub fn text_equals(a: &str, b: &str) -> (same: bool)
    ensures
        same == (a@ == b@),
{
    let x = String::from_str(a);
    let y = String::from_str(b);
    x == y
}

/// An owned copy of the characters `chars[from..to]`.
pub fn text_of(chars: &Vec<char>, from: usize, to: usize) -> (s: String)
    requires
        from <= to <= chars@.len(),
    ensures
        s@ == chars@.subrange(from as int, to as int),
{
    let mut s = String::new();
    let mut i: usize = from;
    while i < to
        invariant
            from <= i <= to <= chars@.len(),
            s@ == chars@.subrange(from as int, i as int),
        decreases to - i,
    {
        s.push(chars[i]);
        i = i + 1;
        assert(s@ =~= chars@.subrange(from as int, i as int));
    }
    s
}

/// The characters that `input` has yet to give, in order. The iterator must
/// be one that is known to end, as every `str::chars()` is.
pub fn collect_chars(input: Chars<'_>) -> (chars: Vec<char>)
    requires
        input.decrease() is Some,
    ensures
        chars@ == input.remaining(),
{
    let mut input = input;
    let ghost all = input.remaining();
    let mut chars: Vec<char> = Vec::new();
    loop
        invariant
            input.decrease() is Some,
            all == chars@ + input.remaining(),
        ensures
            input.remaining().len() == 0,
            all == chars@ + input.remaining(),
        decreases input.decrease()->0,
    {
        match input.next() {
            Some(c) => {
                chars.push(c);
            },
            None => {
                break ;
            },
        }
    }
    assert(chars@ =~= all);
    chars
}

/// The characters of `text`, in order.
pub fn chars_of(text: &str) -> (chars: Vec<char>)
    ensures
        chars@ == text@,
{
    collect_chars(text.chars())
}

} // verus!
