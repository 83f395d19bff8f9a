use vstd::prelude::*;

use crate::error::{Error, SolverError, WResult};
use crate::game::response::solution_view;
use crate::game::{Game, GameView};
use crate::wlist::word::{clone_solution, has_word, Entry, Word};
use crate::wlist::WordList;

use super::{Answers, Solver};

verus! {

/// A solver that guesses any word of its word list, whatever the rounds so
/// far tell.
#[derive(Debug)]
pub struct StupidSolver<'wl, WL> {
    wl: &'wl WL,
}

/// What the stupid solver answers for a game: any word of the entries. It
/// fails where there is none.
pub open spec fn stupid_answer(entries: Seq<Entry>, game: GameView, guess: Result<Seq<char>, Error>) -> bool {
    match guess {
        Ok(word) => has_word(entries, word),
        Err(Error::SolverError { source: SolverError::NoMatches(solution) }) => entries.len() == 0
            && solution_view(solution) == game.solution,
        Err(_) => false,
    }
}

impl<'wl, WL: WordList> StupidSolver<'wl, WL> {
    /// The word list that the solver guesses from.
    pub closed spec fn list(&self) -> &'wl WL {
        self.wl
    }
}

impl<'wl, WL: WordList> Clone for StupidSolver<'wl, WL> {
    fn clone(&self) -> (copy: Self)
        ensures
            copy == *self,
    {
        Self { wl: self.wl }
    }
}

impl<'wl, WL: WordList> Solver<'wl, WL> for StupidSolver<'wl, WL> {
    open spec fn answers(&self) -> Answers {
        |game: GameView, guess: Result<Seq<char>, Error>|
            stupid_answer(self.list().entries(), game, guess)
    }

    fn build(wordlist: &'wl WL) -> (built: WResult<Self>)
        ensures
            built matches Ok(solver) && solver.list() == wordlist,
    {
        Ok(Self { wl: wordlist })
    }

    fn guess_for(&self, game: &Game<'wl, WL>) -> (guess: WResult<Word>) {
        match self.wl.rand_word() {
            Some(data) => {
                proof {
                    let entries = self.wl.entries();
                    let i = choose|i: int| 0 <= i < entries.len() && entries[i] == (data.0@, data.1);
                    assert(entries[i].0 == data.0@);
                }
                Ok(data.0)
            },
            None => Err(
                Error::SolverError {
                    source: SolverError::NoMatches(clone_solution(game.solution_ref())),
                },
            ),
        }
    }
}

} // verus!
