//! The errors of the library, by the part that raises them.

use vstd::prelude::*;

use regex::Error as PatternError;

use crate::wlist::word::{Word, WordData};

verus! {

/// The error of the `regex` crate: the reason why a pattern could not be compiled.
#[verifier::external_type_specification]
#[verifier::external_body]
pub struct ExPatternError(PatternError);

pub type WResult<T> = std::result::Result<T, Error>;

pub type GameResult<T> = std::result::Result<T, GameError>;

/// Any error of the library.
#[derive(Debug)]
#[allow(inconsistent_fields)]
pub enum Error {
    GameError { source: GameError },
    WordlistError { source: WordlistError },
    SolverError { source: SolverError },
    BenchError { source: BenchError },
}

/// What can go wrong when a guess is made or an evaluation is entered.
#[derive(Debug, PartialEq)]
pub enum GameError {
    /// The guess has the wrong length, which is given.
    GuessHasWrongLength(usize),
    /// The game is finished but a guess is being made.
    TryingToPlayAFinishedGame,
    /// The given word is not in the word list.
    WordNotInWordlist(Word),
    /// A guess came without a manual evaluation to a game that knows no
    /// solution; the text is empty.
    InvalidEvaluationSyntax(String),
    /// The guess and its evaluation, which differ in length.
    GuessAndEvalNotSameLen((String, String)),
}

#[derive(Debug, Clone, Copy, PartialEq)]
pub enum BenchError {
    /// A finished report is being modified.
    ModifyFinishedReport,
}

#[derive(Debug, PartialEq)]
pub enum SolverError {
    /// The word list has no word left for the state of the game; the
    /// solution is given where the game knows it.
    NoMatches(Option<WordData>),
    /// No builtin solver has the given name.
    UnknownBuiltinSolver,
}

#[derive(Debug)]
pub enum WordlistError {
    /// The pattern that the word list was searched with was refused.
    Regex { source: PatternError },
}

impl Clone for GameError {
    fn clone(&self) -> (copy: Self)
        ensures
            copy == *self,
    {
        match self {
            GameError::GuessHasWrongLength(length) => GameError::GuessHasWrongLength(*length),
            GameError::TryingToPlayAFinishedGame => GameError::TryingToPlayAFinishedGame,
            GameError::WordNotInWordlist(word) => GameError::WordNotInWordlist(word.clone()),
            GameError::InvalidEvaluationSyntax(text) => GameError::InvalidEvaluationSyntax(
                text.clone(),
            ),
            GameError::GuessAndEvalNotSameLen((guess, evaluation)) => {
                GameError::GuessAndEvalNotSameLen((guess.clone(), evaluation.clone()))
            },
        }
    }
}

impl Clone for SolverError {
    fn clone(&self) -> (copy: Self)
        ensures
            copy == *self,
    {
        match self {
            SolverError::NoMatches(Some((word, frequency))) => SolverError::NoMatches(
                Some((word.clone(), *frequency)),
            ),
            SolverError::NoMatches(None) => SolverError::NoMatches(None),
            SolverError::UnknownBuiltinSolver => SolverError::UnknownBuiltinSolver,
        }
    }
}

impl From<GameError> for Error {
    fn from(source: GameError) -> (error: Error) {
        Error::GameError { source }
    }
}

impl vstd::std_specs::convert::FromSpecImpl<GameError> for Error {
    open spec fn obeys_from_spec() -> bool {
        true
    }

    open spec fn from_spec(source: GameError) -> Error {
        Error::GameError { source }
    }
}

impl From<WordlistError> for Error {
    fn from(source: WordlistError) -> (error: Error) {
        Error::WordlistError { source }
    }
}

impl vstd::std_specs::convert::FromSpecImpl<WordlistError> for Error {
    open spec fn obeys_from_spec() -> bool {
        true
    }

    open spec fn from_spec(source: WordlistError) -> Error {
        Error::WordlistError { source }
    }
}

impl From<SolverError> for Error {
    fn from(source: SolverError) -> (error: Error) {
        Error::SolverError { source }
    }
}

impl vstd::std_specs::convert::FromSpecImpl<SolverError> for Error {
    open spec fn obeys_from_spec() -> bool {
        true
    }

    open spec fn from_spec(source: SolverError) -> Error {
        Error::SolverError { source }
    }
}

impl From<BenchError> for Error {
    fn from(source: BenchError) -> (error: Error) {
        Error::BenchError { source }
    }
}

impl vstd::std_specs::convert::FromSpecImpl<BenchError> for Error {
    open spec fn obeys_from_spec() -> bool {
        true
    }

    open spec fn from_spec(source: BenchError) -> Error {
        Error::BenchError { source }
    }
}

impl From<PatternError> for WordlistError {
    fn from(source: PatternError) -> (error: WordlistError) {
        WordlistError::Regex { source }
    }
}

impl vstd::std_specs::convert::FromSpecImpl<PatternError> for WordlistError {
    open spec fn obeys_from_spec() -> bool {
        true
    }

    open spec fn from_spec(source: PatternError) -> WordlistError {
        WordlistError::Regex { source }
    }
}

} // verus!
