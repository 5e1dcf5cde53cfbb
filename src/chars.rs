//! Character classes used by the lexer. ASCII characters are classified
//! here directly; the Unicode properties of other characters come from std.
use vstd::prelude::*;

verus! {

/// Unicode `Alphabetic` property, as `char::is_alphabetic` reports it.
pub uninterp spec fn unicode_alphabetic(c: char) -> bool;

/// Unicode numeric property (`Nd`, `Nl`, `No`), as `char::is_numeric` reports it.
pub uninterp spec fn unicode_numeric(c: char) -> bool;

/// Unicode `White_Space` property, as `char::is_whitespace` reports it.
pub uninterp spec fn unicode_whitespace(c: char) -> bool;

/// Relies on `char::is_alphabetic`: whether `c` has the Alphabetic property.
#[verifier::external_body]
fn alphabetic_wide(c: char) -> (r: bool)
    ensures
        r == unicode_alphabetic(c),
{
    c.is_alphabetic()
}

/// Relies on `char::is_numeric`: whether `c` is in a numeric general category.
#[verifier::external_body]
fn numeric_wide(c: char) -> (r: bool)
    ensures
        r == unicode_numeric(c),
{
    c.is_numeric()
}

/// Relies on `char::is_whitespace`: whether `c` has the White_Space property.
#[verifier::external_body]
fn whitespace_wide(c: char) -> (r: bool)
    ensures
        r == unicode_whitespace(c),
{
    c.is_whitespace()
}

pub open spec fn is_ascii(c: char) -> bool {
    (c as u32) < 128
}

pub open spec fn is_ascii_letter(c: char) -> bool {
    (97 <= (c as u32) <= 122) || (65 <= (c as u32) <= 90)
}

pub open spec fn is_ascii_digit(c: char) -> bool {
    48 <= (c as u32) <= 57
}

/// Letters: ASCII `a-z`, `A-Z`, and any other Unicode alphabetic character.
pub open spec fn is_letter(c: char) -> bool {
    if is_ascii(c) {
        is_ascii_letter(c)
    } else {
        unicode_alphabetic(c)
    }
}

/// Numeric characters: ASCII digits, and any other Unicode numeric character.
pub open spec fn is_numeric(c: char) -> bool {
    if is_ascii(c) {
        is_ascii_digit(c)
    } else {
        unicode_numeric(c)
    }
}

/// Whitespace: ASCII space, tab, line feed, vertical tab, form feed, carriage
/// return, and any other Unicode white-space character.
pub open spec fn is_space(c: char) -> bool {
    if is_ascii(c) {
        (c as u32) == 32 || (9 <= (c as u32) <= 13)
    } else {
        unicode_whitespace(c)
    }
}

pub open spec fn is_alnum(c: char) -> bool {
    is_letter(c) || is_numeric(c)
}

pub fn letter(c: char) -> (r: bool)
    ensures
        r == is_letter(c),
{
    let u: u32 = c as u32;
    if u < 128 {
        (97 <= u && u <= 122) || (65 <= u && u <= 90)
    } else {
        alphabetic_wide(c)
    }
}

pub fn numeric(c: char) -> (r: bool)
    ensures
        r == is_numeric(c),
{
    let u: u32 = c as u32;
    if u < 128 {
        48 <= u && u <= 57
    } else {
        numeric_wide(c)
    }
}

pub fn space(c: char) -> (r: bool)
    ensures
        r == is_space(c),
{
    let u: u32 = c as u32;
    if u < 128 {
        u == 32 || (9 <= u && u <= 13)
    } else {
        whitespace_wide(c)
    }
}

pub fn alnum(c: char) -> (r: bool)
    ensures
        r == is_alnum(c),
{
    letter(c) || numeric(c)
}

} // verus!
