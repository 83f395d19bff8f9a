use vstd::prelude::*;

use crate::error::{Error, GameError, WResult};
use crate::game::response::{code_of_status, status_of_code, Status};
use crate::text::{chars_of, string_of};
use crate::wlist::word::Word;

verus! {

/// the [char] of the guess and the [Status] associated with it
pub type EvaluationUnit = (char, Status);

/// Basically a [String] with extra information associated with each char
#[derive(Debug, PartialEq)]
pub struct Evaluation {
    inner: Vec<EvaluationUnit>,
}

/// How a guess is highlighted when it is shown.
#[derive(Debug, Clone, Copy, PartialEq, Eq, Structural)]
pub enum Highlight {
    Plain,
    Yellow,
    Green,
}

/// The evaluation that the text `codes` stands for, for the guess `guess`:
/// each letter of the guess with the status of the code at its position.
pub open spec fn decoded(guess: Seq<char>, codes: Seq<char>) -> Seq<EvaluationUnit> {
    Seq::new(guess.len(), |i: int| (guess[i], status_of_code(codes[i])))
}

/// The compact text form of an evaluation: one code for each status.
pub open spec fn encoded(units: Seq<EvaluationUnit>) -> Seq<char> {
    Seq::new(units.len(), |i: int| code_of_status(units[i].1))
}

/// The word that an evaluation is for: its letters without their statuses.
pub open spec fn letters(units: Seq<EvaluationUnit>) -> Seq<char> {
    Seq::new(units.len(), |i: int| units[i].0)
}

/// The highlight of each letter: green where it is matched, yellow where it
/// exists elsewhere, plain where it is wrong.
pub open spec fn highlighted(units: Seq<EvaluationUnit>) -> Seq<(char, Highlight)> {
    Seq::new(
        units.len(),
        |i: int|
            (
                units[i].0,
                match units[i].1 {
                    Status::Matched => Highlight::Green,
                    Status::Exists => Highlight::Yellow,
                    Status::Wrong => Highlight::Plain,
                },
            ),
    )
}

/// An evaluation written as text and read back for the same word is the
/// evaluation itself.
pub proof fn lemma_encoding_round_trip(units: Seq<EvaluationUnit>)
    ensures
        encoded(units).len() == letters(units).len(),
        decoded(letters(units), encoded(units)) == units,
{
    assert(decoded(letters(units), encoded(units)) =~= units);
}

impl View for Evaluation {
    type V = Seq<EvaluationUnit>;

    closed spec fn view(&self) -> Seq<EvaluationUnit> {
        self.inner@
    }
}

impl Clone for Evaluation {
    fn clone(&self) -> (copy: Self)
        ensures
            copy@ == self@,
    {
        let mut inner: Vec<EvaluationUnit> = Vec::new();
        let mut i: usize = 0;
        while i < self.inner.len()
            invariant
                i <= self.inner.len(),
                inner@ == self.inner@.take(i as int),
            decreases self.inner.len() - i,
        {
            inner.push(self.inner[i]);
            i += 1;
        }
        assert(self.inner@.take(self.inner@.len() as int) == self.inner@);
        Evaluation { inner }
    }
}

impl Default for Evaluation {
    fn default() -> (evaluation: Self)
        ensures
            evaluation@ == Seq::<EvaluationUnit>::empty(),
    {
        Evaluation { inner: Vec::new() }
    }
}

impl Evaluation {
    /// The letters of the guess, each with the way to highlight it.
    pub fn colorized_display(&self) -> (shown: Vec<(char, Highlight)>)
        ensures
            shown@ == highlighted(self@),
    {
        let mut buf: Vec<(char, Highlight)> = Vec::new();
        let mut i: usize = 0;
        while i < self.inner.len()
            invariant
                i <= self.inner.len(),
                buf@ == highlighted(self@).take(i as int),
            decreases self.inner.len() - i,
        {
            let e = self.inner[i];
            let highlight = match e.1 {
                Status::Matched => Highlight::Green,
                Status::Exists => Highlight::Yellow,
                Status::Wrong => Highlight::Plain,
            };
            buf.push((e.0, highlight));
            assert(buf@ =~= highlighted(self@).take(i + 1));
            i += 1;
        }
        assert(highlighted(self@).take(self@.len() as int) == highlighted(self@));
        buf
    }

    /// The first string is the word the evaluation is for, The second string defines how the
    /// characters of the first string match the solution.
    ///
    /// ## Evaluation Format:
    ///
    /// 'x' means wrong character
    ///
    /// 'f' or 'e' means present character
    ///
    /// 'c' or 'm' means correct character
    ///
    /// Upper and lower case mean the same, and any other character means wrong.
    ///
    /// ### Example:
    ///
    /// 'xxxcc' --- means the first 3 chars are wrong but the second 2 chars are correct
    ///
    /// 'xffxc' --- means the first character is wrong, the next two characters are present, the last
    /// is correct
    ///
    /// # Errors
    ///
    /// Fails where the two strings do not have the same number of characters.
    pub fn build(guess: &Word, eval_str: &str) -> (built: WResult<Self>)
        ensures
            match built {
                Ok(evaluation) => guess@.len() == eval_str@.len() && evaluation@ == decoded(
                    guess@,
                    eval_str@,
                ),
                Err(Error::GameError { source: GameError::GuessAndEvalNotSameLen((word, codes)) }) => {
                    guess@.len() != eval_str@.len() && word@ == guess@ && codes@ == eval_str@
                },
                Err(_) => false,
            },
    {
        let letters = chars_of(guess.as_str());
        let codes = chars_of(eval_str);
        if letters.len() != codes.len() {
            return Err(
                Error::GameError {
                    source: GameError::GuessAndEvalNotSameLen(
                        (guess.clone(), eval_str.to_owned()),
                    ),
                },
            );
        }
        let mut v: Vec<EvaluationUnit> = Vec::new();
        let mut i: usize = 0;
        while i < letters.len()
            invariant
                i <= letters.len(),
                letters.len() == codes.len(),
                letters@ == guess@,
                codes@ == eval_str@,
                v@ == decoded(guess@, eval_str@).take(i as int),
            decreases letters.len() - i,
        {
            v.push((letters[i], Status::from(codes[i])));
            assert(v@ =~= decoded(guess@, eval_str@).take(i + 1));
            i += 1;
        }
        assert(decoded(guess@, eval_str@).take(guess@.len() as int) == decoded(guess@, eval_str@));
        Ok(Evaluation { inner: v })
    }

    /// The compact text form: `x` for a wrong letter, `f` for one that exists
    /// elsewhere, `c` for a matched one.
    pub fn encode(&self) -> (text: String)
        ensures
            text@ == encoded(self@),
    {
        let mut codes: Vec<char> = Vec::new();
        let mut i: usize = 0;
        while i < self.inner.len()
            invariant
                i <= self.inner.len(),
                codes@ == encoded(self@).take(i as int),
            decreases self.inner.len() - i,
        {
            codes.push(self.inner[i].1.code());
            assert(codes@ =~= encoded(self@).take(i + 1));
            i += 1;
        }
        assert(encoded(self@).take(self@.len() as int) == encoded(self@));
        string_of(&codes)
    }

    /// The evaluation that is made of the given letters and statuses.
    pub fn from_units(units: Vec<EvaluationUnit>) -> (evaluation: Self)
        ensures
            evaluation@ == units@,
    {
        Self { inner: units }
    }

    pub fn inner(&self) -> (units: &Vec<EvaluationUnit>)
        ensures
            units@ == self@,
    {
        &self.inner
    }

    pub fn inner_mut(&mut self) -> (units: &mut Vec<EvaluationUnit>)
        ensures
            units@ == old(self)@,
            final(self)@ == final(units)@,
    {
        &mut self.inner
    }

    /// The word that was guessed.
    pub fn guess(&self) -> (word: Word)
        ensures
            word@ == letters(self@),
    {
        let mut chars: Vec<char> = Vec::new();
        let mut i: usize = 0;
        while i < self.inner.len()
            invariant
                i <= self.inner.len(),
                chars@ == letters(self@).take(i as int),
            decreases self.inner.len() - i,
        {
            chars.push(self.inner[i].0);
            assert(chars@ =~= letters(self@).take(i + 1));
            i += 1;
        }
        assert(letters(self@).take(self@.len() as int) == letters(self@));
        string_of(&chars)
    }
}

impl From<Vec<EvaluationUnit>> for Evaluation {
    fn from(value: Vec<EvaluationUnit>) -> (evaluation: Self) {
        Self { inner: value }
    }
}

impl vstd::std_specs::convert::FromSpecImpl<Vec<EvaluationUnit>> for Evaluation {
    open spec fn obeys_from_spec() -> bool {
        true
    }

    closed spec fn from_spec(value: Vec<EvaluationUnit>) -> Evaluation {
        Evaluation { inner: value }
    }
}

/// The evaluation that is made from letters with their statuses holds them
/// as they are.
pub proof fn lemma_from_units(units: Vec<EvaluationUnit>)
    ensures
        <Evaluation as vstd::std_specs::convert::FromSpec<Vec<EvaluationUnit>>>::from_spec(units)@
            == units@,
{
}

} // verus!
