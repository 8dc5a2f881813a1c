use vstd::prelude::*;

verus! {

/// What `char::is_numeric` answers for a character.
pub uninterp spec fn unicode_numeric(c: char) -> bool;

/// What `char::is_alphabetic` answers for a character.
pub uninterp spec fn unicode_alphabetic(c: char) -> bool;

/// Whether a character is one of the 128 of ASCII.
pub open spec fn is_ascii(c: char) -> bool {
    c <= '\x7f'
}

/// Whether a character is one of `0` to `9`.
pub open spec fn is_ascii_digit(c: char) -> bool {
    '0' <= c <= '9'
}

/// Whether a character is one of `a` to `z` or `A` to `Z`.
pub open spec fn is_ascii_letter(c: char) -> bool {
    ('a' <= c <= 'z') || ('A' <= c <= 'Z')
}

/// The characters that count as numeric: within ASCII the ten decimal digits,
/// beyond it whatever Unicode classes as a number.
pub open spec fn numeric_char(c: char) -> bool {
    if is_ascii(c) {
        is_ascii_digit(c)
    } else {
        unicode_numeric(c)
    }
}

/// The characters that count as alphabetic: within ASCII the letters of both
/// cases, beyond it whatever Unicode classes as alphabetic.
pub open spec fn alphabetic_char(c: char) -> bool {
    if is_ascii(c) {
        is_ascii_letter(c)
    } else {
        unicode_alphabetic(c)
    }
}

/// `char::is_numeric` of the standard library, which answers by the Unicode
/// general categories for numbers. Nothing is claimed of the answer but that
/// it depends on the character alone. Trusted, not proved.
pub assume_specification[ char::is_numeric ](c: char) -> (r: bool)
    ensures
        r == unicode_numeric(c),
;

/// `char::is_alphabetic` of the standard library, which answers by the Unicode
/// Alphabetic property. Nothing is claimed of the answer but that it depends
/// on the character alone. Trusted, not proved.
pub assume_specification[ char::is_alphabetic ](c: char) -> (r: bool)
    ensures
        r == unicode_alphabetic(c),
;

/// Whether a character counts as numeric. ASCII is decided here; the Unicode
/// tables are asked for the rest.
pub fn numeric(c: char) -> (r: bool)
    ensures
        r == numeric_char(c),
{
    if c <= '\x7f' {
        '0' <= c && c <= '9'
    } else {
        c.is_numeric()
    }
}

/// Whether a character counts as alphabetic. ASCII is decided here; the
/// Unicode tables are asked for the rest.
pub fn alphabetic(c: char) -> (r: bool)
    ensures
        r == alphabetic_char(c),
{
    if c <= '\x7f' {
        ('a' <= c && c <= 'z') || ('A' <= c && c <= 'Z')
    } else {
        c.is_alphabetic()
    }
}

} // verus!
