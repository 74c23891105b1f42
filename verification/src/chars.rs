use vstd::prelude::*;

verus! {

/// Whether a character beyond ASCII has the Unicode `Uppercase`
/// property: named, as `char::is_uppercase` answers it.
pub uninterp spec fn upper_ext(c: char) -> bool;

/// Whether a character beyond ASCII has the Unicode `Lowercase`
/// property: named, as `char::is_lowercase` answers it.
pub uninterp spec fn lower_ext(c: char) -> bool;

/// The first character of the Unicode lower-case mapping of a character
/// beyond ASCII: named, as `char::to_lowercase` yields it.
pub uninterp spec fn lower_map_ext(c: char) -> char;

/// The Unicode `Uppercase` property: within ASCII it holds exactly of
/// the capital letters; beyond ASCII it is only named.
pub open spec fn is_upper_char(c: char) -> bool {
    if (c as u32) < 128 {
        'A' <= c && c <= 'Z'
    } else {
        upper_ext(c)
    }
}

/// The Unicode `Lowercase` property: within ASCII it holds exactly of
/// the small letters; beyond ASCII it is only named.
pub open spec fn is_lower_char(c: char) -> bool {
    if (c as u32) < 128 {
        'a' <= c && c <= 'z'
    } else {
        lower_ext(c)
    }
}

/// The first character of the Unicode lower-case mapping: within ASCII
/// a capital letter becomes the corresponding small letter and every
/// other character is itself; beyond ASCII it is only named.
pub open spec fn lower_char(c: char) -> char {
    if (c as u32) < 128 {
        if 'A' <= c && c <= 'Z' {
            ((c as u32) + 32) as char
        } else {
            c
        }
    } else {
        lower_map_ext(c)
    }
}

/// Relies on `char::is_uppercase`: the Unicode `Uppercase` property,
/// which within ASCII holds exactly of `'A'` through `'Z'`.
pub assume_specification[ char::is_uppercase ](c: char) -> (r: bool)
    ensures
        r == is_upper_char(c),
        (c as u32) >= 128 ==> r == upper_ext(c),
;

/// Relies on `char::is_lowercase`: the Unicode `Lowercase` property,
/// which within ASCII holds exactly of `'a'` through `'z'`.
pub assume_specification[ char::is_lowercase ](c: char) -> (r: bool)
    ensures
        r == is_lower_char(c),
        (c as u32) >= 128 ==> r == lower_ext(c),
;

/// Relies on `char::to_lowercase`: the Unicode lower-case mapping of a
/// character, a function of the character alone and never empty, so the
/// call cannot panic; this takes its first character. Within ASCII the
/// mapping is the capital-to-small letter shift.
#[verifier::external_body]
pub(crate) fn lower_char_exec(c: char) -> (r: char)
    ensures
        r == lower_char(c),
        (c as u32) >= 128 ==> r == lower_map_ext(c),
{
    c.to_lowercase().next().unwrap()
}

/// Relies on `String::push`: appends the given character to the end of
/// the string.
#[verifier::external_body]
pub(crate) fn push_char(s: &mut String, c: char)
    ensures
        final(s)@ == old(s)@.push(c),
{
    s.push(c);
}

/// Within ASCII, folding yields no capital letter and stays within
/// ASCII, only the underscore folds to an underscore, and folding is
/// idempotent.
pub proof fn lemma_lower_char_ascii(c: char)
    requires
        (c as u32) < 128,
    ensures
        (lower_char(c) as u32) < 128,
        !is_upper_char(lower_char(c)),
        c != '_' ==> lower_char(c) != '_',
        lower_char(lower_char(c)) == lower_char(c),
{
    if 'A' <= c && c <= 'Z' {
        assert((((c as u32) + 32) as char) as u32 == (c as u32) + 32);
    }
}

} // verus!
