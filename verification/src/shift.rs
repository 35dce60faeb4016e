use vstd::prelude::*;

verus! {

/// An ASCII lower-case letter.
pub open spec fn is_lower_letter(c: char) -> bool {
    'a' <= c && c <= 'z'
}

/// An ASCII letter.
pub open spec fn is_letter(c: char) -> bool {
    is_lower_letter(c) || ('A' <= c && c <= 'Z')
}

/// The code of 'a' for a lower-case letter, of 'A' otherwise.
pub open spec fn letter_base(c: char) -> int {
    if is_lower_letter(c) {
        'a' as int
    } else {
        'A' as int
    }
}

/// A letter moved `key` places forward in its alphabet, wrapping from z to a; any other
/// character unchanged.
pub open spec fn shift_char_spec(c: char, key: u8) -> char {
    if is_letter(c) {
        (letter_base(c) + (c as int - letter_base(c) + key) % 26) as char
    } else {
        c
    }
}

/// `shift_char` adds the key to the letter's place in a byte: the sum must fit.
pub open spec fn shift_char_ok(c: char, key: u8) -> bool {
    is_letter(c) ==> c as int - letter_base(c) + key <= 255
}

/// Shifts an ASCII letter `key` places forward, keeping its case.
pub fn shift_char(c: char, key: u8) -> (r: char)
    requires
        shift_char_ok(c, key),
    ensures
        r == shift_char_spec(c, key),
{
    if ('a' <= c && c <= 'z') || ('A' <= c && c <= 'Z') {
        let base = if 'a' <= c && c <= 'z' {
            97u8
        } else {
            65u8
        };
        let mut value = (c as u8) - base;
        value = (value + key) % 26;
        (base + value) as char
    } else {
        c
    }
}

/// Shifting forward by `key` and then by `26 - key` gives back the character.
pub proof fn lemma_shift_char_inverse(c: char, key: u8)
    requires
        key <= 26,
    ensures
        shift_char_ok(c, key),
        shift_char_ok(shift_char_spec(c, key), (26 - key) as u8),
        shift_char_spec(shift_char_spec(c, key), (26 - key) as u8) == c,
{
    if is_letter(c) {
        let v = c as int - letter_base(c);
        let w = (v + key) % 26;
        assert(((w + (26 - key)) % 26) == v) by (nonlinear_arith)
            requires
                0 <= v < 26,
                0 <= key <= 26,
                w == (v + key) % 26,
        ;
    }
}

/// `shift_char` moves a lower-case ASCII letter `key` places forward in 'a'..'z' and an
/// upper-case one in 'A'..'Z', wrapping around, and leaves every other character alone.
pub proof fn lemma_shift_char_places(c: char, key: u8)
    ensures
        'a' <= c <= 'z' ==> 'a' <= shift_char_spec(c, key) <= 'z' && shift_char_spec(c, key) as int - 97
            == (c as int - 97 + key) % 26,
        'A' <= c <= 'Z' ==> 'A' <= shift_char_spec(c, key) <= 'Z' && shift_char_spec(c, key) as int - 65
            == (c as int - 65 + key) % 26,
        !('a' <= c <= 'z') && !('A' <= c <= 'Z') ==> shift_char_spec(c, key) == c,
{
}

} // verus!
