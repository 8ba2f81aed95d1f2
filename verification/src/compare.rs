//! The per-letter comparison of a guess against the secret word.
//!
//! For a guessed letter `g` at position `i` of the secret `s`:
//! `Correct` when `g` equals `s[i]` case-insensitively, otherwise `Present`
//! when `g` occurs anywhere in `s` case-insensitively, otherwise `Absent`.
//! The check is purely positional and containment-based: a repeated guess
//! letter is not demoted when the secret holds fewer copies of it.

use vstd::prelude::*;

use crate::cell::CellStatus;
use crate::letters::lower_char;
use crate::letters::lower_seq;
use crate::letters::to_lower;

verus! {

/// Whether the secret contains the guessed letter anywhere, case-insensitively.
pub open spec fn secret_contains(secret: Seq<char>, g: char) -> bool {
    exists|j: int| 0 <= j < secret.len() && lower_char(secret[j]) == lower_char(g)
}

/// The status of guessed letter `g` whose position in the guess lines up with
/// letter `at` of the secret `secret`.
pub open spec fn status_of(g: char, secret: Seq<char>, at: char) -> CellStatus {
    if lower_char(g) == lower_char(at) {
        CellStatus::Correct
    } else if secret_contains(secret, g) {
        CellStatus::Present
    } else {
        CellStatus::Absent
    }
}

/// The per-letter statuses of a whole guess against a secret of equal length.
pub open spec fn statuses_of(guess: Seq<char>, secret: Seq<char>) -> Seq<CellStatus>
    recommends
        guess.len() == secret.len(),
{
    Seq::new(guess.len(), |i: int| status_of(guess[i], secret, secret[i]))
}

/// Whether the secret contains the guessed letter, case-insensitively.
fn contains_folded(word: &str, g: char) -> (b: bool)
    ensures
        b == secret_contains(word@, g),
{
    let target = to_lower(g);
    let n = word.unicode_len();
    let mut i: usize = 0;
    while i < n
        invariant
            n == word@.len(),
            i <= n,
            forall|j: int| 0 <= j < i ==> lower_char(word@[j]) != lower_char(g),
            target == lower_char(g),
        decreases n - i,
    {
        if to_lower(word.get_char(i)) == target {
            return true;
        }
        i = i + 1;
    }
    false
}

/// The evaluation of one guessed letter: `character` is the guessed letter,
/// `word` the secret, and `comparison` the secret's letter at the same
/// position as `character`.
pub fn value(character: char, word: &str, comparison: char) -> (r: CellStatus)
    ensures
        r == status_of(character, word@, comparison),
{
    if to_lower(character) == to_lower(comparison) {
        CellStatus::Correct
    } else if contains_folded(word, character) {
        CellStatus::Present
    } else {
        CellStatus::Absent
    }
}

/// The comparison is case-insensitive: two guesses and two secrets that agree
/// after case folding receive identical per-letter statuses. Together with
/// `statuses_of` being a function of its arguments (so two runs on the same
/// inputs agree), this pins the comparison's behaviour under re-lettering.
pub proof fn lemma_compare_case_insensitive(
    guess_a: Seq<char>,
    secret_a: Seq<char>,
    guess_b: Seq<char>,
    secret_b: Seq<char>,
)
    requires
        lower_seq(guess_a) == lower_seq(guess_b),
        lower_seq(secret_a) == lower_seq(secret_b),
        guess_a.len() == secret_a.len(),
    ensures
        statuses_of(guess_a, secret_a) == statuses_of(guess_b, secret_b),
{
    assert(guess_a.len() == guess_b.len()) by {
        assert(lower_seq(guess_a).len() == guess_a.len());
        assert(lower_seq(guess_b).len() == guess_b.len());
    }
    assert(secret_a.len() == secret_b.len()) by {
        assert(lower_seq(secret_a).len() == secret_a.len());
        assert(lower_seq(secret_b).len() == secret_b.len());
    }
    assert forall|i: int| 0 <= i < guess_a.len() implies statuses_of(guess_a, secret_a)[i]
        == statuses_of(guess_b, secret_b)[i] by {
        assert(lower_char(guess_a[i]) == lower_seq(guess_a)[i]);
        assert(lower_char(guess_b[i]) == lower_seq(guess_b)[i]);
        assert(lower_char(secret_a[i]) == lower_seq(secret_a)[i]);
        assert(lower_char(secret_b[i]) == lower_seq(secret_b)[i]);
        assert(secret_contains(secret_a, guess_a[i]) == secret_contains(secret_b, guess_b[i]))
            by {
            lemma_contains_folds(secret_a, secret_b, guess_a[i], guess_b[i]);
        }
    }
    assert(statuses_of(guess_a, secret_a) =~= statuses_of(guess_b, secret_b));
}

/// Containment after case folding depends only on the folded letters.
proof fn lemma_contains_folds(secret_a: Seq<char>, secret_b: Seq<char>, ga: char, gb: char)
    requires
        lower_seq(secret_a) == lower_seq(secret_b),
        lower_char(ga) == lower_char(gb),
    ensures
        secret_contains(secret_a, ga) == secret_contains(secret_b, gb),
{
    assert(secret_a.len() == secret_b.len()) by {
        assert(lower_seq(secret_a).len() == secret_a.len());
        assert(lower_seq(secret_b).len() == secret_b.len());
    }
    assert forall|j: int| 0 <= j < secret_a.len() implies lower_char(secret_a[j]) == lower_char(
        secret_b[j],
    ) by {
        assert(lower_char(secret_a[j]) == lower_seq(secret_a)[j]);
        assert(lower_char(secret_b[j]) == lower_seq(secret_b)[j]);
    }
    if secret_contains(secret_a, ga) {
        let j = choose|j: int| 0 <= j < secret_a.len() && lower_char(secret_a[j]) == lower_char(ga);
        assert(lower_char(secret_b[j]) == lower_char(gb));
    }
    if secret_contains(secret_b, gb) {
        let j = choose|j: int| 0 <= j < secret_b.len() && lower_char(secret_b[j]) == lower_char(gb);
        assert(lower_char(secret_a[j]) == lower_char(ga));
    }
}

} // verus!
