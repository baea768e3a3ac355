//! Character classes of the equation grammar.
//!
//! An equation is made of ASCII digits, the dot, the four operator
//! characters, and whitespace; every other character is foreign to the
//! grammar and makes the equation invalid.

use vstd::prelude::*;

verus! {

/// One of the four binary operators `+ - * /`.
#[verifier::allow_in_spec]
pub fn is_operator_char(c: char) -> bool
    returns
        c == '+' || c == '-' || c == '*' || c == '/',
{
    c == '+' || c == '-' || c == '*' || c == '/'
}

/// An ASCII decimal digit `0` through `9`.
#[verifier::allow_in_spec]
pub fn is_digit_char(c: char) -> bool
    returns
        '0' as u32 <= c as u32 && c as u32 <= '9' as u32,
{
    '0' as u32 <= c as u32 && c as u32 <= '9' as u32
}

/// A character that may stand inside a number literal: a digit or a dot.
#[verifier::allow_in_spec]
pub fn is_number_char(c: char) -> bool
    returns
        is_digit_char(c) || c == '.',
{
    is_digit_char(c) || c == '.'
}

/// Whitespace: the characters with the Unicode `White_Space` property —
/// tab through carriage return, space, next line, no-break space, ogham
/// space mark, the en-quad to hair-space range, the line and paragraph
/// separators, the narrow and medium no-break spaces, and the ideographic
/// space. Whitespace is ignored between tokens.
#[verifier::allow_in_spec]
pub fn is_space_char(c: char) -> bool
    returns
        ('\u{9}' as u32 <= c as u32 && c as u32 <= '\u{d}' as u32) || c == ' ' || c == '\u{85}'
            || c == '\u{a0}' || c == '\u{1680}' || ('\u{2000}' as u32 <= c as u32 && c as u32
            <= '\u{200a}' as u32) || c == '\u{2028}' || c == '\u{2029}' || c == '\u{202f}' || c
            == '\u{205f}' || c == '\u{3000}',
{
    ('\u{9}' as u32 <= c as u32 && c as u32 <= '\u{d}' as u32) || c == ' ' || c == '\u{85}'
        || c == '\u{a0}' || c == '\u{1680}' || ('\u{2000}' as u32 <= c as u32 && c as u32
        <= '\u{200a}' as u32) || c == '\u{2028}' || c == '\u{2029}' || c == '\u{202f}' || c
        == '\u{205f}' || c == '\u{3000}'
}

/// The four character classes are pairwise disjoint: a digit is never an
/// operator, a number character never whitespace, and so on.
pub proof fn lemma_classes_disjoint(c: char)
    ensures
        is_digit_char(c) ==> !is_operator_char(c) && !is_space_char(c),
        is_number_char(c) ==> !is_operator_char(c) && !is_space_char(c),
        is_operator_char(c) ==> !is_number_char(c) && !is_space_char(c),
{
}

} // verus!
