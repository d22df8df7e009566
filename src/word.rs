//! Words that passed validation: the right number of alphabetic characters.
use vstd::prelude::*;
use vstd::string::*;

use crate::WORD_LEN;

verus! {

/// Whether `c` has Unicode's Alphabetic property, as `char::is_alphabetic` decides it.
pub uninterp spec fn is_letter(c: char) -> bool;

/// Relies on `char::is_alphabetic`: the answer depends on the character alone.
#[verifier::external_body]
fn alphabetic(c: char) -> (r: bool)
    ensures
        r == is_letter(c),
{
    c.is_alphabetic()
}

/// Every character of `s` is a letter.
pub open spec fn all_letters(s: Seq<char>) -> bool {
    forall|i: int| 0 <= i < s.len() ==> is_letter(#[trigger] s[i])
}

/// Why a text was refused as a word.
#[derive(Debug, Clone, Copy, PartialEq, Eq, Structural)]
pub enum GuessError {
    /// The text does not hold exactly `WORD_LEN` characters.
    WrongLength,
    /// The text has the right length, but some character is not a letter.
    NotAlphabetic,
}

/// The outcome of validating the characters `s`.
pub open spec fn validation(s: Seq<char>) -> Result<(), GuessError> {
    if s.len() != WORD_LEN {
        Err(GuessError::WrongLength)
    } else if !all_letters(s) {
        Err(GuessError::NotAlphabetic)
    } else {
        Ok(())
    }
}

/// A word of `WORD_LEN` letters, usable as a guess or as the answer.
/// Letters are kept as given: comparisons are case-sensitive.
#[derive(Debug, PartialEq, Eq)]
pub struct Guess {
    text: String,
}

impl View for Guess {
    type V = Seq<char>;

    closed spec fn view(&self) -> Seq<char> {
        self.text@
    }
}

impl Clone for Guess {
    fn clone(&self) -> (r: Guess)
        ensures
            r@ == self@,
    {
        proof {
            use_type_invariant(self);
        }
        Guess { text: self.text.clone() }
    }
}

impl Guess {
    #[verifier::type_invariant]
    spec fn valid(&self) -> bool {
        self.text@.len() == WORD_LEN && all_letters(self.text@)
    }

    /// Validates `text`: its length is checked first, then its characters.
    pub fn build(text: String) -> (r: Result<Guess, GuessError>)
        ensures
            r is Ok <==> validation(text@) is Ok,
            r matches Ok(g) ==> g@ == text@,
            r matches Err(e) ==> validation(text@) == Err::<(), GuessError>(e),
            text@.len() != WORD_LEN ==> r == Err::<Guess, GuessError>(GuessError::WrongLength),
            text@.len() == WORD_LEN && (forall|i: int|
                0 <= i < text@.len() ==> !is_letter(#[trigger] text@[i])) ==> r == Err::<
                Guess,
                GuessError,
            >(GuessError::NotAlphabetic),
    {
        let n = text.as_str().unicode_len();
        if n != WORD_LEN {
            return Err(GuessError::WrongLength);
        }
        let mut i: usize = 0;
        while i < n
            invariant
                n == text@.len(),
                n == WORD_LEN,
                i <= n,
                forall|j: int| 0 <= j < i ==> is_letter(#[trigger] text@[j]),
            decreases n - i,
        {
            if !alphabetic(text.as_str().get_char(i)) {
                assert(!is_letter(text@[i as int]));
                return Err(GuessError::NotAlphabetic);
            }
            i = i + 1;
        }
        assert(is_letter(text@[0]));
        Ok(Guess { text })
    }

    /// Wraps `text` without the run-time checks of `build`, for callers that
    /// vetted their words beforehand (a dictionary loaded at start-up).
    pub fn new(text: String) -> (r: Guess)
        requires
            validation(text@) == Ok::<(), GuessError>(()),
        ensures
            r@ == text@,
    {
        Guess { text }
    }

    /// The word's characters, in order.
    pub fn as_array(&self) -> (r: Vec<char>)
        ensures
            r@ == self@,
            r@.len() == WORD_LEN,
    {
        proof {
            use_type_invariant(self);
        }
        let mut r: Vec<char> = Vec::new();
        let mut i: usize = 0;
        while i < WORD_LEN
            invariant
                self.text@.len() == WORD_LEN,
                i <= WORD_LEN,
                r@ == self.text@.subrange(0, i as int),
            decreases WORD_LEN - i,
        {
            r.push(self.text.as_str().get_char(i));
            i = i + 1;
        }
        r
    }

    /// The word as text.
    pub fn text(&self) -> (r: &str)
        ensures
            r@ == self@,
    {
        self.text.as_str()
    }
}

} // verus!
