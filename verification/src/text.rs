//! Text helpers: lower case, white space and trimming.

use vstd::prelude::*;
use crate::evaluator::letters;

verus! {

/// The lower-case form of a text, as `str::to_lowercase` computes it from the
/// Unicode tables.
pub uninterp spec fn lowercase_of(text: Seq<char>) -> Seq<char>;

/// Whether a character is white space, as `char::is_whitespace` decides it by
/// the Unicode property `White_Space`.
pub uninterp spec fn white_space(c: char) -> bool;

/// `str::to_lowercase` returns the lower-case form of the text as a new
/// string. The result depends on the characters of the text alone; nothing
/// more is claimed of it.
pub assume_specification[ str::to_lowercase ](text: &str) -> (lower: String)
    ensures
        lower@ == lowercase_of(text@),
;

/// `char::is_whitespace` tells whether the character has the Unicode property
/// `White_Space`. The answer depends on the character alone; nothing more is
/// claimed of it.
pub assume_specification[ char::is_whitespace ](c: char) -> (b: bool)
    ensures
        b == white_space(c),
;

/// `String::push` appends the character to the end of the string.
pub assume_specification[ String::push ](text: &mut String, ch: char)
    ensures
        final(text)@ == old(text)@.push(ch),
;

/// The text without the white space at its front.
pub open spec fn strip_front(text: Seq<char>) -> Seq<char>
    decreases text.len(),
{
    if text.len() > 0 && white_space(text.first()) {
        strip_front(text.drop_first())
    } else {
        text
    }
}

/// The text without the white space at its back.
pub open spec fn strip_back(text: Seq<char>) -> Seq<char>
    decreases text.len(),
{
    if text.len() > 0 && white_space(text.last()) {
        strip_back(text.drop_last())
    } else {
        text
    }
}

/// The text without the white space at its two ends.
pub open spec fn trimmed(text: Seq<char>) -> Seq<char> {
    strip_back(strip_front(text))
}

/// Removes the white space at the two ends of `text`.
pub fn trim(text: &str) -> (inner: &str)
    ensures
        inner@ == trimmed(text@),
{
    let chars = letters(text);
    let n: usize = chars.len();
    let mut from: usize = 0;
    assert(text@.subrange(0, n as int) =~= text@);
    while from < n && chars[from].is_whitespace()
        invariant
            chars@ == text@,
            n == chars@.len(),
            from <= n,
            strip_front(text@) == strip_front(text@.subrange(from as int, n as int)),
        decreases n - from,
    {
        proof {
            let rest = text@.subrange(from as int, n as int);
            assert(rest.drop_first() =~= text@.subrange(from + 1, n as int));
        }
        from += 1;
    }
    let mut to: usize = n;
    while to > from && chars[to - 1].is_whitespace()
        invariant
            chars@ == text@,
            n == chars@.len(),
            from <= to <= n,
            trimmed(text@) == strip_back(text@.subrange(from as int, to as int)),
        decreases to - from,
    {
        proof {
            let rest = text@.subrange(from as int, to as int);
            assert(rest.drop_last() =~= text@.subrange(from as int, to - 1));
        }
        to -= 1;
    }
    text.substring_char(from, to)
}

} // verus!
