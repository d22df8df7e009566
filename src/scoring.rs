//! Scoring a guess against the answer, with the duplicate-letter rule: every
//! place of the answer accounts for at most one letter of the guess.
use vstd::prelude::*;

use crate::verdict::{GameResponse, GameResponseChar};
use crate::word::Guess;
use crate::WORD_LEN;

verus! {

/// Number of places `k < m` where `x` holds `c` and differs from `y`.
pub open spec fn unmatched(x: Seq<char>, y: Seq<char>, c: char, m: int) -> nat
    decreases m,
{
    if m <= 0 {
        0
    } else {
        unmatched(x, y, c, m - 1) + if x[m - 1] == c && x[m - 1] != y[m - 1] {
            1nat
        } else {
            0nat
        }
    }
}

/// The verdict on place `i` of `guess`: `Green` where the letters agree;
/// otherwise `Yellow` iff fewer earlier unmatched places of the guess hold the
/// same letter than unmatched places of the answer do, so that the answer's
/// spare copies of a letter go to the guess's first unmatched copies.
pub open spec fn verdict_at(guess: Seq<char>, answer: Seq<char>, i: int) -> GameResponseChar {
    if guess[i] == answer[i] {
        GameResponseChar::Green
    } else if unmatched(guess, answer, guess[i], i) < unmatched(answer, guess, guess[i], answer.len() as int) {
        GameResponseChar::Yellow
    } else {
        GameResponseChar::Gray
    }
}

/// The verdict on each place of `guess` against `answer`.
pub open spec fn verdicts(guess: Seq<char>, answer: Seq<char>) -> Seq<GameResponseChar> {
    Seq::new(guess.len(), |i: int| verdict_at(guess, answer, i))
}

/// Number of places `k < m` of the answer that are unmatched, hold `c`, and were consumed.
spec fn consumed_count(cons: Seq<bool>, answer: Seq<char>, guess: Seq<char>, c: char, m: int) -> nat
    decreases m,
{
    if m <= 0 {
        0
    } else {
        consumed_count(cons, answer, guess, c, m - 1) + if answer[m - 1] == c && answer[m - 1]
            != guess[m - 1] && cons[m - 1] {
            1nat
        } else {
            0nat
        }
    }
}

proof fn lemma_consumed_le(cons: Seq<bool>, answer: Seq<char>, guess: Seq<char>, c: char, m: int)
    ensures
        consumed_count(cons, answer, guess, c, m) <= unmatched(answer, guess, c, m),
        (exists|k: int|
            0 <= k < m && answer[k] == c && answer[k] != guess[k] && !#[trigger] cons[k])
            ==> consumed_count(cons, answer, guess, c, m) < unmatched(answer, guess, c, m),
        (forall|k: int|
            0 <= k < m && answer[k] == c && answer[k] != guess[k] ==> #[trigger] cons[k])
            ==> consumed_count(cons, answer, guess, c, m) == unmatched(answer, guess, c, m),
    decreases m,
{
    if m > 0 {
        lemma_consumed_le(cons, answer, guess, c, m - 1);
        if exists|k: int|
            0 <= k < m && answer[k] == c && answer[k] != guess[k] && !#[trigger] cons[k] {
            let k = choose|k: int|
                0 <= k < m && answer[k] == c && answer[k] != guess[k] && !#[trigger] cons[k];
            if k == m - 1 {
            } else {
                assert(0 <= k < m - 1 && answer[k] == c && answer[k] != guess[k] && !cons[k]);
            }
        }
    }
}

proof fn lemma_consumed_update(
    cons: Seq<bool>,
    answer: Seq<char>,
    guess: Seq<char>,
    c: char,
    m: int,
    k: int,
)
    requires
        0 <= k < cons.len(),
        m <= cons.len(),
        !cons[k],
    ensures
        consumed_count(cons.update(k, true), answer, guess, c, m) == consumed_count(
            cons,
            answer,
            guess,
            c,
            m,
        ) + if k < m && answer[k] == c && answer[k] != guess[k] {
            1nat
        } else {
            0nat
        },
    decreases m,
{
    if m > 0 {
        lemma_consumed_update(cons, answer, guess, c, m - 1, k);
    }
}

proof fn lemma_consumed_none(cons: Seq<bool>, answer: Seq<char>, guess: Seq<char>, c: char, m: int)
    requires
        forall|k: int| 0 <= k < m && #[trigger] cons[k] ==> answer[k] == guess[k],
    ensures
        consumed_count(cons, answer, guess, c, m) == 0,
    decreases m,
{
    if m > 0 {
        lemma_consumed_none(cons, answer, guess, c, m - 1);
    }
}

spec fn min_nat(a: nat, b: nat) -> nat {
    if a <= b {
        a
    } else {
        b
    }
}

impl Guess {
    /// Scores `self` against `answer` in two passes. The first marks the places
    /// where the letters agree `Green` and consumes those places of the answer.
    /// The second goes left to right over the other places of the guess, takes
    /// the first unconsumed place of the answer holding the same letter,
    /// consumes it and marks `Yellow`; where none is left, the place stays `Gray`.
    pub fn verify(&self, answer: &Guess) -> (r: GameResponse)
        ensures
            r@ == verdicts(self@, answer@),
    {
        let g = self.as_array();
        let a = answer.as_array();
        let ghost gw = g@;
        let ghost aw = a@;
        let mut resp: Vec<GameResponseChar> = Vec::new();
        let mut cons: Vec<bool> = Vec::new();
        let mut i: usize = 0;
        while i < WORD_LEN
            invariant
                gw == g@,
                aw == a@,
                gw.len() == WORD_LEN,
                aw.len() == WORD_LEN,
                i <= WORD_LEN,
                resp@.len() == i,
                cons@.len() == i,
                forall|j: int| 0 <= j < i ==> #[trigger] cons@[j] == (gw[j] == aw[j]),
                forall|j: int|
                    0 <= j < i ==> #[trigger] resp@[j] == if gw[j] == aw[j] {
                        GameResponseChar::Green
                    } else {
                        GameResponseChar::Gray
                    },
            decreases WORD_LEN - i,
        {
            if g[i] == a[i] {
                resp.push(GameResponseChar::Green);
                cons.push(true);
            } else {
                resp.push(GameResponseChar::Gray);
                cons.push(false);
            }
            i = i + 1;
        }
        proof {
            assert forall|c: char|
                #[trigger] consumed_count(cons@, aw, gw, c, WORD_LEN as int) == 0 by {
                lemma_consumed_none(cons@, aw, gw, c, WORD_LEN as int);
            }
        }
        i = 0;
        while i < WORD_LEN
            invariant
                gw == g@,
                aw == a@,
                gw.len() == WORD_LEN,
                aw.len() == WORD_LEN,
                i <= WORD_LEN,
                resp@.len() == WORD_LEN,
                cons@.len() == WORD_LEN,
                forall|j: int| 0 <= j < WORD_LEN && gw[j] == aw[j] ==> #[trigger] cons@[j],
                forall|c: char|
                    #[trigger] consumed_count(cons@, aw, gw, c, WORD_LEN as int) == min_nat(
                        unmatched(gw, aw, c, i as int),
                        unmatched(aw, gw, c, WORD_LEN as int),
                    ),
                forall|j: int| 0 <= j < i ==> #[trigger] resp@[j] == verdict_at(gw, aw, j),
                forall|j: int|
                    i <= j < WORD_LEN ==> #[trigger] resp@[j] == if gw[j] == aw[j] {
                        GameResponseChar::Green
                    } else {
                        GameResponseChar::Gray
                    },
            decreases WORD_LEN - i,
        {
            if g[i] != a[i] {
                let c = g[i];
                let mut k: usize = 0;
                while k < WORD_LEN && (a[k] != c || cons[k])
                    invariant
                        aw == a@,
                        aw.len() == WORD_LEN,
                        cons@.len() == WORD_LEN,
                        k <= WORD_LEN,
                        forall|j: int| 0 <= j < k ==> !(aw[j] == c && !#[trigger] cons@[j]),
                    decreases WORD_LEN - k,
                {
                    k = k + 1;
                }
                let found = k < WORD_LEN;
                proof {
                    lemma_consumed_le(cons@, aw, gw, c, WORD_LEN as int);
                }
                if found {
                    proof {
                        assert(aw[k as int] == c && aw[k as int] != gw[k as int] && !cons@[k as int]);
                        assert forall|d: char|
                            #[trigger] consumed_count(cons@.update(k as int, true), aw, gw, d, WORD_LEN as int)
                                == min_nat(
                                unmatched(gw, aw, d, i + 1),
                                unmatched(aw, gw, d, WORD_LEN as int),
                            ) by {
                            lemma_consumed_update(cons@, aw, gw, d, WORD_LEN as int, k as int);
                            assert(consumed_count(cons@, aw, gw, d, WORD_LEN as int) == min_nat(
                                unmatched(gw, aw, d, i as int),
                                unmatched(aw, gw, d, WORD_LEN as int),
                            ));
                        }
                    }
                    cons.set(k, true);
                    resp.set(i, GameResponseChar::Yellow);
                } else {
                    proof {
                        assert forall|d: char|
                            #[trigger] consumed_count(cons@, aw, gw, d, WORD_LEN as int)
                                == min_nat(
                                unmatched(gw, aw, d, i + 1),
                                unmatched(aw, gw, d, WORD_LEN as int),
                            ) by {
                            if d == c {
                                assert forall|j: int|
                                    0 <= j < WORD_LEN && aw[j] == c && aw[j] != gw[j]
                                        implies #[trigger] cons@[j] by {
                                    if !cons@[j] {
                                        assert(!(aw[j] == c && !cons@[j]));
                                    }
                                }
                                lemma_consumed_le(cons@, aw, gw, d, WORD_LEN as int);
                            }
                        }
                    }
                }
            }
            i = i + 1;
        }
        proof {
            assert(resp@ =~= verdicts(gw, aw));
        }
        GameResponse::new_from_game_resp_char(resp)
    }
}

} // verus!
