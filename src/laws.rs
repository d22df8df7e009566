//! Laws that relate scoring, rendering and parsing.
use vstd::prelude::*;

use crate::scoring::{unmatched, verdict_at, verdicts};
use crate::verdict::{compact, parse_verdicts, GameResponseChar, ResponseError};
use crate::WORD_LEN;

verus! {

/// Number of places `i < m` where `s` holds `c`.
pub open spec fn occurrences(s: Seq<char>, c: char, m: int) -> nat
    decreases m,
{
    if m <= 0 {
        0
    } else {
        occurrences(s, c, m - 1) + if s[m - 1] == c {
            1nat
        } else {
            0nat
        }
    }
}

/// Number of places `i < m` where `guess` holds `c` and the verdict `v` is
/// `Green` or `Yellow`.
pub open spec fn scored(guess: Seq<char>, v: Seq<GameResponseChar>, c: char, m: int) -> nat
    decreases m,
{
    if m <= 0 {
        0
    } else {
        scored(guess, v, c, m - 1) + if guess[m - 1] == c && v[m - 1] != GameResponseChar::Gray {
            1nat
        } else {
            0nat
        }
    }
}

/// Number of places `i < m` where both words hold `c`.
spec fn agreeing(guess: Seq<char>, answer: Seq<char>, c: char, m: int) -> nat
    decreases m,
{
    if m <= 0 {
        0
    } else {
        agreeing(guess, answer, c, m - 1) + if guess[m - 1] == c && answer[m - 1] == c {
            1nat
        } else {
            0nat
        }
    }
}

proof fn lemma_scored_prefix(guess: Seq<char>, answer: Seq<char>, c: char, m: int)
    requires
        guess.len() == answer.len(),
        0 <= m <= guess.len(),
    ensures
        ({
            let u = unmatched(guess, answer, c, m);
            let t = unmatched(answer, guess, c, answer.len() as int);
            scored(guess, verdicts(guess, answer), c, m) == agreeing(guess, answer, c, m) + if u
                <= t {
                u
            } else {
                t
            }
        }),
    decreases m,
{
    if m > 0 {
        lemma_scored_prefix(guess, answer, c, m - 1);
        assert(verdicts(guess, answer)[m - 1] == verdict_at(guess, answer, m - 1));
    }
}

proof fn lemma_occurrences_split(guess: Seq<char>, answer: Seq<char>, c: char, m: int)
    ensures
        occurrences(answer, c, m) == agreeing(guess, answer, c, m) + unmatched(
            answer,
            guess,
            c,
            m,
        ),
    decreases m,
{
    if m > 0 {
        lemma_occurrences_split(guess, answer, c, m - 1);
    }
}

/// Scoring a word against itself gives `Green` at every place.
pub proof fn lemma_self_match(w: Seq<char>)
    ensures
        verdicts(w, w) == Seq::new(w.len(), |i: int| GameResponseChar::Green),
{
    assert(verdicts(w, w) =~= Seq::new(w.len(), |i: int| GameResponseChar::Green));
}

/// For every letter, the places of the guess that hold it and are scored
/// `Green` or `Yellow` are no more than the places of the answer that hold it.
pub proof fn lemma_letter_conservation(guess: Seq<char>, answer: Seq<char>, c: char)
    requires
        guess.len() == answer.len(),
    ensures
        scored(guess, verdicts(guess, answer), c, guess.len() as int) <= occurrences(
            answer,
            c,
            answer.len() as int,
        ),
{
    lemma_scored_prefix(guess, answer, c, guess.len() as int);
    lemma_occurrences_split(guess, answer, c, answer.len() as int);
}

/// Scoring depends on the two words alone: equal words give equal verdicts.
pub proof fn lemma_deterministic(
    guess1: Seq<char>,
    answer1: Seq<char>,
    guess2: Seq<char>,
    answer2: Seq<char>,
)
    requires
        guess1 == guess2,
        answer1 == answer2,
    ensures
        verdicts(guess1, answer1) == verdicts(guess2, answer2),
{
}

/// Reading back the compact rendering of a verdict gives that verdict.
pub proof fn lemma_round_trip(v: Seq<GameResponseChar>)
    requires
        v.len() == WORD_LEN,
    ensures
        parse_verdicts(compact(v)) == Ok::<Seq<GameResponseChar>, ResponseError>(v),
{
    let s = compact(v);
    assert forall|i: int| 0 <= i < s.len() implies crate::verdict::is_symbol(#[trigger] s[i]) by {
    }
    assert(s.map_values(|c: char| crate::verdict::verdict_of(c)) =~= v);
}

} // verus!
