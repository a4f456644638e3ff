//! Character classes used by the lexer.
//!
//! The ASCII characters are classed here; every other character is classed
//! by the Unicode tables of the standard library.

use vstd::prelude::*;

verus! {

/// Whether `c` is white space by the Unicode standard (`White_Space`).
pub uninterp spec fn unicode_whitespace(c: char) -> bool;

/// Whether `c` is alphabetic by the Unicode standard (`Alphabetic`).
pub uninterp spec fn unicode_alphabetic(c: char) -> bool;

/// Whether `c` belongs to one of the Unicode number categories.
pub uninterp spec fn unicode_numeric(c: char) -> bool;

/// `char::is_whitespace` decides whether a character is `White_Space`; that
/// is a table of the Unicode standard and is only named here.
pub assume_specification[ char::is_whitespace ](c: char) -> (r: bool)
    ensures
        r == unicode_whitespace(c),
;

/// `char::is_alphabetic` decides whether a character is `Alphabetic` by the
/// Unicode standard, which is only named here.
pub assume_specification[ char::is_alphabetic ](c: char) -> (r: bool)
    ensures
        r == unicode_alphabetic(c),
;

/// `char::is_numeric` decides membership in the Unicode number categories,
/// which is only named here.
pub assume_specification[ char::is_numeric ](c: char) -> (r: bool)
    ensures
        r == unicode_numeric(c),
;

/// `String::push` appends one character to the end of the string.
pub assume_specification[ std::string::String::push ](s: &mut std::string::String, c: char)
    ensures
        final(s)@ == old(s)@.push(c),
;

/// `str`'s `==` holds of two string slices exactly when they hold the same
/// characters in the same order.
pub assume_specification[ <str as PartialEq>::eq ](a: &str, b: &str) -> (r: bool)
    ensures
        r == (a@ == b@),
;

/// Whether two texts hold the same characters.
pub fn same_text(a: &str, b: &str) -> (r: bool)
    ensures
        r == (a@ == b@),
{
    a.eq(b)
}

/// A digit of base two.
pub open spec fn is_binary_digit(c: char) -> bool {
    c == '0' || c == '1'
}

/// A digit of base ten.
pub open spec fn is_decimal_digit(c: char) -> bool {
    '0' <= c && c <= '9'
}

/// A digit of base sixteen, in either case.
pub open spec fn is_hex_digit(c: char) -> bool {
    ||| ('0' <= c && c <= '9')
    ||| ('a' <= c && c <= 'f')
    ||| ('A' <= c && c <= 'F')
}

pub fn binary_digit(c: char) -> (r: bool)
    ensures
        r == is_binary_digit(c),
{
    c == '0' || c == '1'
}

pub fn decimal_digit(c: char) -> (r: bool)
    ensures
        r == is_decimal_digit(c),
{
    '0' <= c && c <= '9'
}

pub fn hex_digit(c: char) -> (r: bool)
    ensures
        r == is_hex_digit(c),
{
    ('0' <= c && c <= '9') || ('a' <= c && c <= 'f') || ('A' <= c && c <= 'F')
}

/// A letter of the ASCII alphabet.
pub open spec fn is_ascii_letter(c: char) -> bool {
    ('a' <= c && c <= 'z') || ('A' <= c && c <= 'Z')
}

/// One of the white space characters of ASCII: blank, tabulator, line
/// feed, vertical tabulator, form feed and carriage return.
pub open spec fn is_ascii_blank(c: char) -> bool {
    c == ' ' || ('\t' <= c && c <= '\r')
}

/// Whether `c` counts as white space: among the ASCII characters the
/// blanks do, and beyond them the characters that the Unicode standard
/// classes as white space.
pub open spec fn is_space(c: char) -> bool {
    if c <= '\x7f' {
        is_ascii_blank(c)
    } else {
        unicode_whitespace(c)
    }
}

/// Whether `c` counts as a letter: among the ASCII characters the letters
/// do, and beyond them the characters that the Unicode standard classes
/// as alphabetic.
pub open spec fn is_letter(c: char) -> bool {
    if c <= '\x7f' {
        is_ascii_letter(c)
    } else {
        unicode_alphabetic(c)
    }
}

/// Whether `c` counts as a numeral: among the ASCII characters the digits
/// do, and beyond them the characters that the Unicode standard classes
/// as numeric.
pub open spec fn is_numeral(c: char) -> bool {
    if c <= '\x7f' {
        is_decimal_digit(c)
    } else {
        unicode_numeric(c)
    }
}

/// A letter or a numeral.
pub open spec fn is_letter_or_numeral(c: char) -> bool {
    is_letter(c) || is_numeral(c)
}

/// Whether `c` counts as white space.
pub fn space(c: char) -> (r: bool)
    ensures
        r == is_space(c),
{
    if c <= '\x7f' {
        c == ' ' || ('\t' <= c && c <= '\r')
    } else {
        c.is_whitespace()
    }
}

/// Whether `c` counts as a letter.
pub fn letter(c: char) -> (r: bool)
    ensures
        r == is_letter(c),
{
    if c <= '\x7f' {
        ('a' <= c && c <= 'z') || ('A' <= c && c <= 'Z')
    } else {
        c.is_alphabetic()
    }
}

/// Whether `c` counts as a numeral.
pub fn numeral(c: char) -> (r: bool)
    ensures
        r == is_numeral(c),
{
    if c <= '\x7f' {
        '0' <= c && c <= '9'
    } else {
        c.is_numeric()
    }
}

/// Whether `c` counts as a letter or as a numeral.
pub fn letter_or_numeral(c: char) -> (r: bool)
    ensures
        r == is_letter_or_numeral(c),
{
    letter(c) || numeral(c)
}

} // verus!
