//! Character classes that decide where a lexeme starts and how far it runs.
//!
//! Inside ASCII each class is decided here; beyond ASCII the Unicode tables
//! of the standard library and of `unic_emoji_char` are asked.

use vstd::prelude::*;

verus! {

/// Whether `c` has the Unicode `Alphabetic` property, as `char::is_alphabetic` reports it.
pub uninterp spec fn unicode_alphabetic(c: char) -> bool;

/// Whether `c` is in one of the Unicode number categories, as `char::is_numeric` reports it.
pub uninterp spec fn unicode_numeric(c: char) -> bool;

/// Whether `c` has the Unicode `White_Space` property, as `char::is_whitespace` reports it.
pub uninterp spec fn unicode_whitespace(c: char) -> bool;

/// Whether `c` has the Unicode `Emoji` property, as `unic_emoji_char::is_emoji` reports it.
pub uninterp spec fn unicode_emoji(c: char) -> bool;

/// Calls `char::is_alphabetic`. The result is a fixed property of the
/// character; nothing more is claimed of it.
#[verifier::external_body]
pub(crate) fn char_is_alphabetic(c: char) -> (r: bool)
    ensures
        r == unicode_alphabetic(c),
{
    c.is_alphabetic()
}

/// Calls `char::is_numeric`. The result is a fixed property of the
/// character; nothing more is claimed of it.
#[verifier::external_body]
pub(crate) fn char_is_numeric(c: char) -> (r: bool)
    ensures
        r == unicode_numeric(c),
{
    c.is_numeric()
}

/// Calls `char::is_whitespace`. The result is a fixed property of the
/// character; nothing more is claimed of it.
#[verifier::external_body]
pub(crate) fn char_is_whitespace(c: char) -> (r: bool)
    ensures
        r == unicode_whitespace(c),
{
    c.is_whitespace()
}

/// Calls `unic_emoji_char::is_emoji`, a lookup in that crate's table of the
/// `Emoji` property. The result is a fixed property of the character;
/// nothing more is claimed of it.
#[verifier::external_body]
pub(crate) fn char_is_emoji(c: char) -> (r: bool)
    ensures
        r == unicode_emoji(c),
{
    unic_emoji_char::is_emoji(c)
}

/// `c` lies in the ASCII range.
pub open spec fn ascii(c: char) -> bool {
    c <= '\x7f'
}

/// `c` is one of `0` to `9`.
pub open spec fn ascii_digit(c: char) -> bool {
    '0' <= c && c <= '9'
}

/// `c` is one of `a` to `z` or of `A` to `Z`.
pub open spec fn ascii_letter(c: char) -> bool {
    ('a' <= c && c <= 'z') || ('A' <= c && c <= 'Z')
}

/// `c` is an ASCII letter or an ASCII digit.
pub open spec fn ascii_alphanumeric(c: char) -> bool {
    ascii_letter(c) || ascii_digit(c)
}

/// A letter: an ASCII letter, or an alphabetic character beyond ASCII.
pub open spec fn alphabetic(c: char) -> bool {
    if ascii(c) {
        ascii_letter(c)
    } else {
        unicode_alphabetic(c)
    }
}

/// A numeric character: an ASCII digit, or a numeric character beyond ASCII.
pub open spec fn numeric(c: char) -> bool {
    if ascii(c) {
        ascii_digit(c)
    } else {
        unicode_numeric(c)
    }
}

/// Blank space: the space, the controls from tab to carriage return, or
/// white space beyond ASCII.
pub open spec fn whitespace(c: char) -> bool {
    if ascii(c) {
        c == ' ' || ('\t' <= c && c <= '\r')
    } else {
        unicode_whitespace(c)
    }
}

/// A character that may stand in an identifier: a letter, an underscore, an
/// emoji beyond ASCII, and, anywhere but in first place, a numeric character.
pub open spec fn ident_char(c: char, start: bool) -> bool {
    ||| alphabetic(c)
    ||| c == '_'
    ||| (unicode_emoji(c) && !ascii(c))
    ||| (!start && numeric(c))
}

/// A character that may stand in a number literal: a digit or the point.
pub open spec fn number_char(c: char) -> bool {
    ascii_digit(c) || c == '.'
}

/// A character that may start an operator or a punctuation mark.
pub open spec fn symbol_char(c: char) -> bool {
    !whitespace(c) && !ascii_alphanumeric(c)
}

/// Whether `c` lies in the ASCII range.
pub fn is_ascii(c: char) -> (r: bool)
    ensures
        r == ascii(c),
{
    c <= '\x7f'
}

/// Whether `c` is one of `0` to `9`.
pub fn is_ascii_digit(c: char) -> (r: bool)
    ensures
        r == ascii_digit(c),
{
    '0' <= c && c <= '9'
}

/// Whether `c` is an ASCII letter.
pub fn is_ascii_letter(c: char) -> (r: bool)
    ensures
        r == ascii_letter(c),
{
    ('a' <= c && c <= 'z') || ('A' <= c && c <= 'Z')
}

/// Whether `c` is an ASCII letter or an ASCII digit.
pub fn is_ascii_alphanumeric(c: char) -> (r: bool)
    ensures
        r == ascii_alphanumeric(c),
{
    is_ascii_letter(c) || is_ascii_digit(c)
}

/// Whether `c` is a letter.
pub fn is_alphabetic(c: char) -> (r: bool)
    ensures
        r == alphabetic(c),
{
    if is_ascii(c) {
        is_ascii_letter(c)
    } else {
        char_is_alphabetic(c)
    }
}

/// Whether `c` is a numeric character.
pub fn is_numeric(c: char) -> (r: bool)
    ensures
        r == numeric(c),
{
    if is_ascii(c) {
        is_ascii_digit(c)
    } else {
        char_is_numeric(c)
    }
}

/// Whether `c` is blank space.
pub fn is_whitespace(c: char) -> (r: bool)
    ensures
        r == whitespace(c),
{
    if is_ascii(c) {
        c == ' ' || ('\t' <= c && c <= '\r')
    } else {
        char_is_whitespace(c)
    }
}

/// Whether `c` may stand in an identifier, in first place if `start` is set.
pub fn is_ident_char(c: char, start: bool) -> (r: bool)
    ensures
        r == ident_char(c, start),
{
    is_alphabetic(c) || c == '_' || (!is_ascii(c) && char_is_emoji(c)) || (!start && is_numeric(c))
}

/// Whether `c` may stand in a number literal.
pub fn is_number_char(c: char) -> (r: bool)
    ensures
        r == number_char(c),
{
    is_ascii_digit(c) || c == '.'
}

/// Whether `c` may start an operator or a punctuation mark.
pub fn is_symbol_char(c: char) -> (r: bool)
    ensures
        r == symbol_char(c),
{
    !is_whitespace(c) && !is_ascii_alphanumeric(c)
}

/// The classes never overlap where a lexeme starts: a character that may
/// start a word is no blank and no digit, a digit is no blank, and every
/// character belongs to one of the four classes.
pub proof fn lemma_classes(c: char)
    ensures
        ascii_digit(c) ==> !ident_char(c, true) && !whitespace(c),
        ascii_letter(c) || c == '_' ==> ident_char(c, true) && !whitespace(c),
        ident_char(c, true) ==> ident_char(c, false),
        ascii_digit(c) ==> ident_char(c, false) && number_char(c),
        whitespace(c) || ident_char(c, true) || ascii_digit(c) || symbol_char(c),
{
}

} // verus!
