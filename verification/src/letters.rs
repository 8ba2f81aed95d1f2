//! ASCII case folding for letters.
//!
//! Guesses are typed in either case and stored uppercase; comparison against
//! the secret is case-insensitive. Only the ASCII letters `a`..`z` and
//! `A`..`Z` are folded; every other character passes through unchanged.

use vstd::prelude::*;

verus! {

/// The lowercase form of an ASCII letter; any other character is unchanged.
pub open spec fn lower_char(c: char) -> char {
    if 'A' <= c && c <= 'Z' {
        (((c as u32) + 32) as u8) as char
    } else {
        c
    }
}

/// The uppercase form of an ASCII letter; any other character is unchanged.
pub open spec fn upper_char(c: char) -> char {
    if 'a' <= c && c <= 'z' {
        (((c as u32) - 32) as u8) as char
    } else {
        c
    }
}

/// A character sequence folded to lowercase, character by character.
pub open spec fn lower_seq(s: Seq<char>) -> Seq<char> {
    s.map_values(|c: char| lower_char(c))
}

/// Folds one character to lowercase (ASCII letters only).
pub fn to_lower(c: char) -> (r: char)
    ensures
        r == lower_char(c),
{
    if 'A' <= c && c <= 'Z' {
        (((c as u32) + 32) as u8) as char
    } else {
        c
    }
}

/// Folds one character to uppercase (ASCII letters only).
pub fn to_upper(c: char) -> (r: char)
    ensures
        r == upper_char(c),
{
    if 'a' <= c && c <= 'z' {
        (((c as u32) - 32) as u8) as char
    } else {
        c
    }
}

/// Folding to uppercase and then to lowercase agrees with folding to
/// lowercase directly, so letters stored uppercase on the board still
/// compare case-insensitively against the secret.
pub proof fn lemma_lower_of_upper(c: char)
    ensures
        lower_char(upper_char(c)) == lower_char(c),
{
}

/// Typed letters are stored on the board folded to uppercase; this storage
/// never hides or invents a match. A typed word agrees with the secret after
/// case folding exactly when its uppercase form does, whatever the letter
/// cases of either word.
pub proof fn lemma_uppercase_storage_preserves_match(typed: Seq<char>, secret: Seq<char>)
    ensures
        (lower_seq(typed.map_values(|c: char| upper_char(c))) == lower_seq(secret)) == (lower_seq(
            typed,
        ) == lower_seq(secret)),
{
    let stored = typed.map_values(|c: char| upper_char(c));
    assert forall|i: int| 0 <= i < typed.len() implies lower_seq(stored)[i] == lower_seq(
        typed,
    )[i] by {
        lemma_lower_of_upper(typed[i]);
    }
    assert(lower_seq(stored) =~= lower_seq(typed));
}

} // verus!
