use vstd::prelude::*;

use crate::game::evaluation::{Evaluation, EvaluationUnit};
use crate::game::Game;
use crate::wlist::word::{clone_solution, Entry, Word, WordData};
use crate::wlist::WordList;

verus! {

/// One letter of a guess with its status.
#[derive(Debug, Clone, PartialEq, Copy, Eq, PartialOrd, Ord)]
pub struct AtomicEvaluation {
    char: char,
    status: Status,
}

/// One round of a game: the guess, how it was evaluated, and where the game
/// stood after it.
#[derive(Debug, PartialEq)]
pub struct GuessResponse {
    guess: Word,
    evaluation: Evaluation,
    solution: Option<WordData>,
    step: usize,
    max_steps: usize,
}

/// One round of a game, as plain values.
pub ghost struct Round {
    /// The word that was guessed.
    pub guess: Seq<char>,
    /// Each letter of an evaluated word with its status.
    pub evaluation: Seq<EvaluationUnit>,
    /// The solution, where the game knew it.
    pub solution: Option<Entry>,
    /// How many guesses had been made, this one counted in.
    pub step: usize,
    /// How many guesses the game allows.
    pub max_steps: usize,
}

/// The solution, as plain values.
pub open spec fn solution_view(solution: Option<WordData>) -> Option<Entry> {
    match solution {
        Some(data) => Some((data.0@, data.1)),
        None => None,
    }
}

/// The evaluations of the rounds, the first one first.
pub open spec fn evaluations_of(rounds: Seq<Round>) -> Seq<Seq<EvaluationUnit>> {
    Seq::new(rounds.len(), |i: int| rounds[i].evaluation)
}

/// The words that were guessed in the rounds, the first one first.
pub open spec fn guesses_of(rounds: Seq<Round>) -> Seq<Seq<char>> {
    Seq::new(rounds.len(), |i: int| rounds[i].guess)
}

/// Every letter of the evaluation is matched.
pub open spec fn all_matched(units: Seq<EvaluationUnit>) -> bool {
    forall|i: int| 0 <= i < units.len() ==> (#[trigger] units[i]).1 == Status::Matched
}

impl Round {
    /// The guess was the solution.
    pub open spec fn won(self) -> bool {
        all_matched(self.evaluation)
    }

    /// No guess can follow this round: the guess was the solution, or as
    /// many guesses have been made as the game allows.
    pub open spec fn finished(self) -> bool {
        self.step >= self.max_steps || self.won()
    }
}

/// How one guessed letter relates to the solution.
#[derive(Debug, Clone, Copy, PartialEq, Eq, PartialOrd, Ord, Structural)]
pub enum Status {
    /// The letter does not occur, or not as often as it was guessed.
    Wrong,
    /// The letter occurs, but at another position.
    Exists,
    /// The letter occurs at this very position.
    Matched,
}

/// The status that one character of a manual evaluation stands for.
pub open spec fn status_of_code(code: char) -> Status {
    if code == 'f' || code == 'F' || code == 'e' || code == 'E' {
        Status::Exists
    } else if code == 'c' || code == 'C' || code == 'm' || code == 'M' {
        Status::Matched
    } else {
        Status::Wrong
    }
}

/// The character that stands for a status in the compact text form.
pub open spec fn code_of_status(status: Status) -> char {
    match status {
        Status::Wrong => 'x',
        Status::Exists => 'f',
        Status::Matched => 'c',
    }
}

/// Reading back the code of a status gives that status.
pub proof fn lemma_code_round_trip(status: Status)
    ensures
        status_of_code(code_of_status(status)) == status,
{
}

impl Status {
    /// The character that stands for this status in the compact text form.
    pub fn code(self) -> (code: char)
        ensures
            code == code_of_status(self),
    {
        match self {
            Status::Wrong => 'x',
            Status::Exists => 'f',
            Status::Matched => 'c',
        }
    }
}

impl View for GuessResponse {
    type V = Round;

    closed spec fn view(&self) -> Round {
        Round {
            guess: self.guess@,
            evaluation: self.evaluation@,
            solution: solution_view(self.solution),
            step: self.step,
            max_steps: self.max_steps,
        }
    }
}

impl Clone for GuessResponse {
    fn clone(&self) -> (copy: Self)
        ensures
            copy@ == self@,
    {
        Self {
            guess: self.guess.clone(),
            evaluation: self.evaluation.clone(),
            solution: clone_solution(&self.solution),
            step: self.step,
            max_steps: self.max_steps,
        }
    }
}

impl GuessResponse {
    /// The round in which `guess` was evaluated as `status`, as it stands
    /// after the game has counted the guess.
    pub fn new<WL: WordList>(guess: &Word, status: Evaluation, game: &Game<WL>) -> (response: Self)
        ensures
            response@ == (Round {
                guess: guess@,
                evaluation: status@,
                solution: game@.solution,
                step: game@.step,
                max_steps: game@.max_steps,
            }),
    {
        let new = Self {
            guess: guess.clone(),
            evaluation: status,
            solution: clone_solution(game.solution_ref()),
            step: game.step(),
            max_steps: game.max_steps(),
        };
        new
    }

    pub fn finished(&self) -> (finished: bool)
        ensures
            finished == self@.finished(),
    {
        self.step() >= self.max_steps() || self.won()
    }

    pub fn won(&self) -> (won: bool)
        ensures
            won == self@.won(),
    {
        let units = self.evaluation.inner();
        let mut ok = true;
        let mut i: usize = 0;
        while i < units.len()
            invariant
                i <= units.len(),
                units@ == self@.evaluation,
                ok == all_matched(units@.take(i as int)),
            decreases units.len() - i,
        {
            let matched = units[i].1 == Status::Matched;
            proof {
                let front = units@.take(i as int);
                let next = units@.take(i + 1);
                if ok && matched {
                    assert forall|j: int| 0 <= j < next.len() implies (#[trigger] next[j]).1
                        == Status::Matched by {
                        if j < i {
                            assert(front[j].1 == Status::Matched);
                        }
                    }
                } else if !matched {
                    assert(next[i as int].1 != Status::Matched);
                } else {
                    let j = choose|j: int| 0 <= j < front.len() && (#[trigger] front[j]).1
                        != Status::Matched;
                    assert(next[j].1 != Status::Matched);
                }
            }
            ok = ok && matched;
            i += 1;
        }
        assert(units@.take(units@.len() as int) == units@);
        ok
    }

    pub fn solution(&self) -> (solution: Option<WordData>)
        ensures
            solution_view(solution) == self@.solution,
    {
        clone_solution(&self.solution)
    }

    pub fn evaluation(&self) -> (evaluation: &Evaluation)
        ensures
            evaluation@ == self@.evaluation,
    {
        &self.evaluation
    }

    pub fn guess(&self) -> (guess: &Word)
        ensures
            guess@ == self@.guess,
    {
        &self.guess
    }

    pub fn step(&self) -> (step: usize)
        ensures
            step == self@.step,
    {
        self.step
    }

    pub fn max_steps(&self) -> (max_steps: usize)
        ensures
            max_steps == self@.max_steps,
    {
        self.max_steps
    }

    /// The evaluation in its compact text form.
    pub fn encode(&self) -> (text: String)
        ensures
            text@ == crate::game::evaluation::encoded(self@.evaluation),
    {
        self.evaluation.encode()
    }
}

impl From<char> for Status {
    fn from(value: char) -> (status: Self) {
        if value == 'f' || value == 'F' || value == 'e' || value == 'E' {
            Status::Exists
        } else if value == 'c' || value == 'C' || value == 'm' || value == 'M' {
            Status::Matched
        } else {
            Status::Wrong
        }
    }
}

impl vstd::std_specs::convert::FromSpecImpl<char> for Status {
    open spec fn obeys_from_spec() -> bool {
        true
    }

    open spec fn from_spec(value: char) -> Status {
        status_of_code(value)
    }
}

} // verus!
