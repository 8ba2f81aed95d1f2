//! The pool of candidate secret words.
//!
//! The pool keeps the usable entries of a word list — those of the secret's
//! length — and picks one uniformly at random when a session starts or
//! resets. Reading the list from wherever it lives is the caller's business;
//! the pool only consumes the resulting strings.

use rand::Rng;
use vstd::prelude::*;

use crate::board::COLS;

verus! {

/// The word list yielded no usable entry, so no secret can be selected.
#[derive(Clone, Copy, PartialEq, Eq, Structural, Debug)]
pub struct EmptyPoolError;

/// A candidate word is usable when it has the secret's length.
pub open spec fn usable(w: Seq<char>) -> bool {
    w.len() == COLS
}

/// The character sequences of a list of strings, in order.
pub open spec fn views_of(words: Seq<String>) -> Seq<Seq<char>> {
    words.map_values(|w: String| w@)
}

/// The usable entries of a word list, in order.
pub open spec fn usable_views(words: Seq<String>) -> Seq<Seq<char>> {
    views_of(words).filter(|w: Seq<char>| usable(w))
}

/// The candidate secret words a session draws from.
pub struct WordPool {
    /// The usable candidates, in the order they were supplied.
    pub words: Vec<String>,
}

impl View for WordPool {
    type V = Seq<Seq<char>>;

    open spec fn view(&self) -> Seq<Seq<char>> {
        views_of(self.words@)
    }
}

impl WordPool {
    /// Every held candidate has the secret's length.
    pub open spec fn wf(self) -> bool {
        forall|i: int| 0 <= i < self@.len() ==> (#[trigger] self@[i]).len() == COLS
    }

    /// Builds a pool from a word list, keeping exactly the usable entries —
    /// those of the secret's length — in their original order.
    pub fn new(words: Vec<String>) -> (p: WordPool)
        ensures
            p@ == usable_views(words@),
            p.wf(),
            (p@.len() > 0) <==> (exists|k: int|
                0 <= k < words@.len() && usable(#[trigger] words@[k]@)),
    {
        let mut kept: Vec<String> = Vec::new();
        let n = words.len();
        let mut i: usize = 0;
        while i < n
            invariant
                n == words@.len(),
                i <= n,
                views_of(kept@) == usable_views(words@.take(i as int)),
                forall|k: int| 0 <= k < kept@.len() ==> (#[trigger] kept@[k])@.len() == COLS,
                (kept@.len() > 0) <==> (exists|k: int|
                    0 <= k < i && usable(#[trigger] words@[k]@)),
            decreases n - i,
        {
            let ghost prev = kept@;
            let w = &words[i];
            if w.unicode_len() == COLS {
                kept.push(w.clone());
            }
            proof {
                broadcast use Seq::lemma_filter_push;

                let elem = words@[i as int]@;
                assert(views_of(words@.take(i as int + 1)) =~= views_of(
                    words@.take(i as int),
                ).push(elem));
                if usable(elem) {
                    assert(views_of(kept@) =~= views_of(prev).push(elem));
                    assert(usable_views(words@.take(i as int + 1)) == usable_views(
                        words@.take(i as int),
                    ).push(elem));
                } else {
                    assert(views_of(kept@) == views_of(prev));
                    assert(usable_views(words@.take(i as int + 1)) == usable_views(
                        words@.take(i as int),
                    ));
                }
            }
            i = i + 1;
        }
        proof {
            assert(words@.take(n as int) =~= words@);
        }
        WordPool { words: kept }
    }

    /// How many candidates the pool holds.
    pub fn len(&self) -> (n: usize)
        ensures
            n == self@.len(),
    {
        self.words.len()
    }

    /// Picks one candidate uniformly at random. Returns `EmptyPoolError`
    /// exactly when the pool is empty; otherwise the result is one of the
    /// pool's entries.
    pub fn select(&self) -> (r: Result<String, EmptyPoolError>)
        ensures
            (r is Ok) <==> self@.len() > 0,
            r matches Ok(w) ==> exists|i: int| 0 <= i < self@.len() && #[trigger] self@[i] == w@,
    {
        let n = self.words.len();
        if n == 0 {
            Err(EmptyPoolError)
        } else {
            let i = random_below(n);
            let w = self.words[i].clone();
            proof {
                assert(self@[i as int] == w@);
            }
            Ok(w)
        }
    }
}

/// Relies on `rand::Rng::gen_range` over `0..n`: it returns a uniformly
/// distributed value of that range and panics only when the range is empty,
/// which the precondition rules out.
#[verifier::external_body]
fn random_below(n: usize) -> (r: usize)
    requires
        n > 0,
    ensures
        r < n,
{
    rand::thread_rng().gen_range(0..n)
}

} // verus!
