//! Per-letter verdicts and the sequence of them that scoring a guess produces.
use vstd::prelude::*;

use crate::WORD_LEN;

verus! {

/// The verdict on one letter of a guess.
#[derive(Debug, Clone, Copy, PartialEq, Eq, Structural)]
pub enum GameResponseChar {
    /// Right letter in the right place.
    Green,
    /// The letter occurs elsewhere in the answer, in a place not yet accounted for.
    Yellow,
    /// The letter is not in the answer, or all its places are accounted for.
    Gray,
}

/// Glyph of a `Green` verdict.
pub const GREEN: char = '🟩';

/// Glyph of a `Yellow` verdict.
pub const YELLOW: char = '🟨';

/// Glyph of a `Gray` verdict.
pub const GRAY: char = '⬜';

/// The compact symbol of a verdict.
pub open spec fn symbol(v: GameResponseChar) -> char {
    match v {
        GameResponseChar::Green => 'G',
        GameResponseChar::Yellow => 'Y',
        GameResponseChar::Gray => '-',
    }
}

/// The coloured square that shows a verdict.
pub open spec fn glyph(v: GameResponseChar) -> char {
    match v {
        GameResponseChar::Green => GREEN,
        GameResponseChar::Yellow => YELLOW,
        GameResponseChar::Gray => GRAY,
    }
}

/// Whether `c` stands for a verdict. Besides the three compact symbols, the
/// letter X is taken as an alternative symbol of a gray verdict.
pub open spec fn is_symbol(c: char) -> bool {
    c == 'G' || c == 'Y' || c == '-' || c == 'X'
}

/// The verdict that the symbol `c` stands for.
pub open spec fn verdict_of(c: char) -> GameResponseChar {
    if c == 'G' {
        GameResponseChar::Green
    } else if c == 'Y' {
        GameResponseChar::Yellow
    } else {
        GameResponseChar::Gray
    }
}

/// The compact rendering: one symbol per verdict.
pub open spec fn compact(v: Seq<GameResponseChar>) -> Seq<char> {
    v.map_values(|x: GameResponseChar| symbol(x))
}

/// The decorated rendering: one coloured square per verdict.
pub open spec fn decorated(v: Seq<GameResponseChar>) -> Seq<char> {
    v.map_values(|x: GameResponseChar| glyph(x))
}

/// Why a text was refused as a compact verdict.
#[derive(Debug, Clone, Copy, PartialEq, Eq, Structural)]
pub enum ResponseError {
    /// The text does not hold exactly `WORD_LEN` characters.
    WrongLength,
    /// The text has the right length, but holds a character that is no verdict symbol.
    InvalidVerdictSymbol,
}

/// The outcome of reading the text `s` as a compact verdict; the length is checked first.
pub open spec fn parse_verdicts(s: Seq<char>) -> Result<Seq<GameResponseChar>, ResponseError> {
    if s.len() != WORD_LEN {
        Err(ResponseError::WrongLength)
    } else if exists|i: int| 0 <= i < s.len() && !is_symbol(#[trigger] s[i]) {
        Err(ResponseError::InvalidVerdictSymbol)
    } else {
        Ok(s.map_values(|c: char| verdict_of(c)))
    }
}

/// Relies on `String::push`: appends `c` at the end of `s`.
#[verifier::external_body]
fn push_char(s: &mut String, c: char)
    ensures
        final(s)@ == old(s)@.push(c),
{
    s.push(c)
}

impl GameResponseChar {
    /// The compact symbol of this verdict.
    pub fn to_char(&self) -> (r: char)
        ensures
            r == symbol(*self),
    {
        match self {
            GameResponseChar::Green => 'G',
            GameResponseChar::Yellow => 'Y',
            GameResponseChar::Gray => '-',
        }
    }

    /// The coloured square of this verdict.
    pub fn to_emoji(&self) -> (r: char)
        ensures
            r == glyph(*self),
    {
        match self {
            GameResponseChar::Green => GREEN,
            GameResponseChar::Yellow => YELLOW,
            GameResponseChar::Gray => GRAY,
        }
    }

    /// A verdict of `WORD_LEN` places, all `Gray`.
    pub fn five_greys() -> (r: Vec<GameResponseChar>)
        ensures
            r@ == Seq::new(WORD_LEN as nat, |i: int| GameResponseChar::Gray),
    {
        let mut r: Vec<GameResponseChar> = Vec::new();
        let mut i: usize = 0;
        while i < WORD_LEN
            invariant
                i <= WORD_LEN,
                r@ == Seq::new(i as nat, |j: int| GameResponseChar::Gray),
            decreases WORD_LEN - i,
        {
            r.push(GameResponseChar::Gray);
            proof {
                assert(r@ =~= Seq::new((i + 1) as nat, |j: int| GameResponseChar::Gray));
            }
            i = i + 1;
        }
        r
    }
}

/// An ordered verdict, one per letter of the guess.
#[derive(Debug, PartialEq, Eq)]
pub struct GameResponse {
    text: Vec<GameResponseChar>,
}

impl View for GameResponse {
    type V = Seq<GameResponseChar>;

    closed spec fn view(&self) -> Seq<GameResponseChar> {
        self.text@
    }
}

impl Clone for GameResponse {
    fn clone(&self) -> (r: GameResponse)
        ensures
            r@ == self@,
    {
        proof {
            use_type_invariant(self);
        }
        let mut text: Vec<GameResponseChar> = Vec::new();
        let mut i: usize = 0;
        while i < self.text.len()
            invariant
                i <= self.text@.len(),
                text@ == self.text@.subrange(0, i as int),
            decreases self.text@.len() - i,
        {
            text.push(self.text[i]);
            i = i + 1;
        }
        proof {
            assert(text@ =~= self.text@);
        }
        GameResponse { text }
    }
}

impl GameResponse {
    #[verifier::type_invariant]
    spec fn valid(&self) -> bool {
        self.text@.len() == WORD_LEN
    }

    /// Wraps a verdict sequence of the word length.
    pub(crate) fn new_from_game_resp_char(resp: Vec<GameResponseChar>) -> (r: GameResponse)
        requires
            resp@.len() == WORD_LEN,
        ensures
            r@ == resp@,
    {
        GameResponse { text: resp }
    }

    /// Parses a compact verdict; the letter X counts as a gray symbol too.
    pub fn new(text: String) -> (r: Result<GameResponse, ResponseError>)
        ensures
            match r {
                Ok(v) => parse_verdicts(text@) == Ok::<Seq<GameResponseChar>, ResponseError>(v@),
                Err(e) => parse_verdicts(text@) == Err::<Seq<GameResponseChar>, ResponseError>(e),
            },
    {
        let n = text.as_str().unicode_len();
        if n != WORD_LEN {
            return Err(ResponseError::WrongLength);
        }
        let mut resp: Vec<GameResponseChar> = Vec::new();
        let mut i: usize = 0;
        while i < n
            invariant
                n == text@.len(),
                n == WORD_LEN,
                i <= n,
                resp@.len() == i,
                forall|j: int| 0 <= j < i ==> is_symbol(#[trigger] text@[j]),
                forall|j: int| 0 <= j < i ==> #[trigger] resp@[j] == verdict_of(text@[j]),
            decreases n - i,
        {
            let c = text.as_str().get_char(i);
            let v = if c == 'G' {
                GameResponseChar::Green
            } else if c == 'Y' {
                GameResponseChar::Yellow
            } else if c == '-' || c == 'X' {
                GameResponseChar::Gray
            } else {
                assert(!is_symbol(text@[i as int]));
                return Err(ResponseError::InvalidVerdictSymbol);
            };
            resp.push(v);
            i = i + 1;
        }
        proof {
            assert(resp@ =~= text@.map_values(|c: char| verdict_of(c)));
        }
        Ok(GameResponse { text: resp })
    }

    /// The compact rendering, one symbol per letter.
    pub fn unpretty_string(&self) -> (r: String)
        ensures
            r@ == compact(self@),
    {
        let mut r = String::new();
        let mut i: usize = 0;
        while i < self.text.len()
            invariant
                i <= self.text@.len(),
                r@ == compact(self.text@.subrange(0, i as int)),
            decreases self.text@.len() - i,
        {
            push_char(&mut r, self.text[i].to_char());
            proof {
                assert(compact(self.text@.subrange(0, i + 1)) =~= compact(
                    self.text@.subrange(0, i as int),
                ).push(symbol(self.text@[i as int])));
            }
            i = i + 1;
        }
        proof {
            assert(self.text@.subrange(0, i as int) =~= self.text@);
        }
        r
    }

    /// The decorated rendering, one coloured square per letter.
    pub fn pretty_string(&self) -> (r: String)
        ensures
            r@ == decorated(self@),
    {
        let mut r = String::new();
        let mut i: usize = 0;
        while i < self.text.len()
            invariant
                i <= self.text@.len(),
                r@ == decorated(self.text@.subrange(0, i as int)),
            decreases self.text@.len() - i,
        {
            push_char(&mut r, self.text[i].to_emoji());
            proof {
                assert(decorated(self.text@.subrange(0, i + 1)) =~= decorated(
                    self.text@.subrange(0, i as int),
                ).push(glyph(self.text@[i as int])));
            }
            i = i + 1;
        }
        proof {
            assert(self.text@.subrange(0, i as int) =~= self.text@);
        }
        r
    }

    /// True iff every letter is `Green`.
    pub fn victory(&self) -> (r: bool)
        ensures
            r == (forall|i: int| 0 <= i < self@.len() ==> self@[i] == GameResponseChar::Green),
    {
        let mut i: usize = 0;
        while i < self.text.len()
            invariant
                i <= self.text@.len(),
                forall|j: int| 0 <= j < i ==> self.text@[j] == GameResponseChar::Green,
            decreases self.text@.len() - i,
        {
            if self.text[i] != GameResponseChar::Green {
                return false;
            }
            i = i + 1;
        }
        true
    }
}

} // verus!
