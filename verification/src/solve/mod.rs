use vstd::prelude::*;

use crate::error::{Error, SolverError, WResult};
use crate::game::response::{solution_view, GuessResponse, Round};
use crate::game::{reports, Game, GameView, Refusal};
use crate::wlist::word::{Word, WordData};
use crate::wlist::WordList;

pub mod naive;
pub use naive::NaiveSolver;
pub mod stupid;
pub use stupid::StupidSolver;

verus! {

/// The outcome of asking a solver for a guess, with the word as plain value.
pub open spec fn guess_view(guess: WResult<Word>) -> Result<Seq<char>, Error> {
    match guess {
        Ok(word) => Ok(word@),
        Err(error) => Err(error),
    }
}

/// What a solver may answer when it is asked for a guess: a relation between
/// the game and the answer, which is a word or an error.
pub type Answers = spec_fn(GameView, Result<Seq<char>, Error>) -> bool;

/// The game does not take `guess` without a manual evaluation, and `error`
/// reports why.
pub open spec fn refused_with(game: GameView, guess: Seq<char>, error: Error) -> bool {
    match (game.round_for(guess, None), error) {
        (Err(refusal), Error::GameError { source }) => reports(source, refusal, guess, None),
        _ => false,
    }
}

/// The solver's play stops at `game` with `error`: the solver answers the
/// error for the game, or it answers a word that the game does not take,
/// and the error reports why.
pub open spec fn stopped_by(solver: Answers, game: GameView, error: Error) -> bool {
    solver(game, Err(error)) || exists|guess: Seq<char>|
        solver(game, Ok(guess)) && #[trigger] refused_with(game, guess, error)
}

/// Play does not stop at a game for which the solver answers no error and
/// only words that the game takes.
pub proof fn lemma_not_stopped(solver: Answers, game: GameView, error: Error)
    requires
        forall|failure: Error| !#[trigger] solver(game, Err(failure)),
        forall|guess: Seq<char>| #[trigger]
            solver(game, Ok(guess)) ==> game.round_for(guess, None) is Ok,
    ensures
        !stopped_by(solver, game, error),
{
}

/// The game as it stood before round `k` was played.
pub open spec fn before_round(game: GameView, k: int) -> GameView {
    GameView {
        step: (game.responses[k].step - 1) as usize,
        responses: game.responses.take(k),
        ..game
    }
}

/// `after` is what `before` becomes when the solver plays on: nothing but the
/// rounds and their count differs, the rounds of `before` are the first
/// rounds of `after`, and each further round is the one that the game makes
/// of a guess that the solver may answer for the game as it stood. Each
/// further round counts one step, and no more steps are counted than the game
/// allows.
pub open spec fn played_on(solver: Answers, before: GameView, after: GameView) -> bool {
    &&& after == (GameView { step: after.step, responses: after.responses, ..before })
    &&& before.responses.len() <= after.responses.len()
    &&& after.responses.take(before.responses.len() as int) == before.responses
    &&& after.step == if before.responses.len() < after.responses.len() {
        after.responses.last().step
    } else {
        before.step
    }
    &&& after.step == before.step + (after.responses.len() - before.responses.len())
    &&& before.responses.len() < after.responses.len() ==> after.step <= after.max_steps
    &&& forall|k: int|
        before.responses.len() <= k < after.responses.len() ==> #[trigger] moved(
            solver,
            before,
            after,
            k,
        )
}

/// Round `k` of `after` is the one that the game makes of a guess that the
/// solver may answer for the game as it stood before that round; for the
/// first round after those of `before`, that is `before`. The round counts
/// one step more than the round before it, or than `before` where it is the
/// first.
pub open spec fn moved(solver: Answers, before: GameView, after: GameView, k: int) -> bool {
    let at = before_round(after, k);
    let earlier = if k == before.responses.len() {
        before.step
    } else {
        after.responses[k - 1].step
    };
    &&& solver(at, Ok(after.responses[k].guess))
    &&& at.round_for(after.responses[k].guess, None) == Ok::<Round, Refusal>(after.responses[k])
    &&& k == before.responses.len() ==> at == before
    &&& at.step == earlier
    &&& after.responses[k].step == earlier + 1
}

/// Trait for any datatype that can solve [Games][Game].
///
/// # Builtins
///
/// This [crate] implements a few builtin [Solvers][Solver]:
///
/// * [Naive](naive::NaiveSolver) - Keep the found letters and use letters that are confirmed
///   to be contained. This is probably the closest thing to how a human would play wordle.
/// * [Stupid](stupid::StupidSolver) - Guesses random words of the word list.
pub trait Solver<'wl, WL: WordList>: Clone + std::fmt::Debug + Sized + Sync {
    /// What the solver may answer when it is asked for a guess for a game.
    spec fn answers(&self) -> Answers;

    /// Build and initialize a [Solver]
    fn build(wordlist: &'wl WL) -> WResult<Self>;

    /// Calculate the next guess for a [Game]
    ///
    /// Each [Solver] needs to implement this method themselves, many other methods rely on this to
    /// play the [Game], such as [play](Solver::play) or [solve](Solver::solve).
    fn guess_for(&self, game: &Game<'wl, WL>) -> (guess: WResult<Word>)
        ensures
            self.answers()(game@, guess_view(guess)),
    ;

    /// Make a singular step for a [Game]
    ///
    /// # Errors
    ///
    /// This function will return an error if [guess_for](Solver::guess_for) fails, or if the
    /// game does not take the guess. The game is then as it was.
    fn make_a_move(&self, game: &mut Game<'wl, WL>) -> (made: WResult<GuessResponse>)
        ensures
            final(game).list() == old(game).list(),
            match made {
                Ok(response) => {
                    &&& self.answers()(old(game)@, Ok(response@.guess))
                    &&& old(game)@.round_for(response@.guess, None) == Ok::<Round, Refusal>(
                        response@,
                    )
                    &&& final(game)@ == old(game)@.after(response@)
                },
                Err(error) => {
                    &&& final(game)@ == old(game)@
                    &&& stopped_by(self.answers(), old(game)@, error)
                },
            },
    {
        match self.guess_for(game) {
            Ok(word) => match game.guess(&word, None) {
                Ok(response) => Ok(response),
                Err(source) => {
                    let error = Error::GameError { source };
                    assert(refused_with(old(game)@, word@, error));
                    Err(error)
                },
            },
            Err(error) => Err(error),
        }
    }

    /// Play a [Game] and return the last [GuessResponse].
    ///
    /// The solver makes one move after the other until the game has finished.
    ///
    /// # Errors
    ///
    /// This function will return an error if [make_a_move](Solver::make_a_move) fails. The
    /// rounds that were played before stay in the game.
    fn play(&self, game: &mut Game<'wl, WL>) -> (played: WResult<GuessResponse>)
        ensures
            final(game).list() == old(game).list(),
            played_on(self.answers(), old(game)@, final(game)@),
            match played {
                Ok(response) => {
                    &&& final(game)@.finished()
                    &&& old(game)@.responses.len() < final(game)@.responses.len()
                    &&& final(game)@.responses.last() == response@
                },
                Err(error) => {
                    &&& stopped_by(self.answers(), final(game)@, error)
                    &&& old(game)@.responses.len() < final(game)@.responses.len()
                        ==> !final(game)@.finished()
                },
            },
            old(game)@.responses.len() < final(game)@.responses.len() ==> {
                final(game)@.responses.len() - old(game)@.responses.len() <= old(game)@.max_steps
                    - old(game)@.step
            },
    {
        let ghost start = game@;
        let mut resp: GuessResponse;
        proof {
            assert(game@.responses.take(game@.responses.len() as int) == game@.responses);
        }
        loop
            invariant_except_break
                start.responses.len() < game@.responses.len() ==> !game@.finished(),
            invariant
                game.list() == old(game).list(),
                start == old(game)@,
                played_on(self.answers(), start, game@),
            ensures
                game.list() == old(game).list(),
                played_on(self.answers(), start, game@),
                game@.finished(),
                start.responses.len() < game@.responses.len(),
                game@.responses.last() == resp@,
            decreases game@.max_steps - game@.step + if start.responses.len()
                < game@.responses.len() {
                0int
            } else {
                usize::MAX + 1
            },
        {
            let ghost before = game@;
            resp = match self.make_a_move(game) {
                Ok(response) => response,
                Err(error) => {
                    return Err(error);
                },
            };
            proof {
                let after = game@;
                let n = start.responses.len() as int;
                let k = before.responses.len() as int;
                assert(after.responses.take(k) =~= before.responses);
                assert(before_round(after, k) == before);
                assert(after.responses.take(n) =~= before.responses.take(n));
                assert forall|j: int| n <= j < after.responses.len() implies #[trigger] moved(
                    self.answers(),
                    start,
                    after,
                    j,
                ) by {
                    if j < k {
                        assert(moved(self.answers(), start, before, j));
                        assert(after.responses[j] == before.responses[j]);
                        if j > n {
                            assert(after.responses[j - 1] == before.responses[j - 1]);
                        }
                        assert(after.responses.take(j) =~= before.responses.take(j));
                        assert(before_round(after, j) == before_round(before, j));
                    } else {
                        assert(j == k);
                        assert(after.responses[k] == resp@);
                        assert(self.answers()(before, Ok(resp@.guess)));
                        if k == n {
                            assert(before.responses =~= start.responses);
                            assert(before == start);
                        }
                    }
                }
            }
            if game.finished() {
                break;
            }
        }
        Ok(resp)
    }

    /// Play a [Game] and return the last [GuessResponse].
    ///
    /// Like [play](Solver::play) but takes an owned game instead of a mutable reference.
    ///
    /// # Errors
    ///
    /// This function will return an error if [make_a_move](Solver::make_a_move) fails: the
    /// error is the one that stopped the play after the rounds that could be played.
    fn play_owned(&self, game: Game<'wl, WL>) -> (played: WResult<GuessResponse>)
        ensures
            match played {
                Ok(response) => exists|after: GameView|
                    {
                        &&& #[trigger] played_on(self.answers(), game@, after)
                        &&& after.finished()
                        &&& game@.responses.len() < after.responses.len()
                        &&& after.responses.last() == response@
                    },
                Err(error) => exists|after: GameView|
                    {
                        &&& #[trigger] played_on(self.answers(), game@, after)
                        &&& stopped_by(self.answers(), after, error)
                        &&& game@.responses.len() < after.responses.len() ==> !after.finished()
                    },
            },
    {
        let ghost start = game@;
        let mut game = game;
        let played = self.play(&mut game);
        proof {
            assert(played_on(self.answers(), start, game@));
        }
        played
    }

    /// Play a [Game] and return the solution if one was found
    ///
    /// The game itself stays as it is: a copy of it is played. What comes
    /// back is the solution that the game knows, if it knows one.
    ///
    /// # Errors
    ///
    /// This function will return an error if [play](Solver::play) fails: the error is the
    /// one that stopped the play of the copy after the rounds that could be played.
    fn solve(&self, game: &Game<'wl, WL>) -> (solved: WResult<Option<WordData>>)
        ensures
            match solved {
                Ok(solution) => {
                    &&& solution_view(solution) == game@.solution
                    &&& exists|after: GameView|
                        {
                            &&& #[trigger] played_on(self.answers(), game@, after)
                            &&& after.finished()
                            &&& game@.responses.len() < after.responses.len()
                        }
                },
                Err(error) => exists|after: GameView|
                    {
                        &&& #[trigger] played_on(self.answers(), game@, after)
                        &&& stopped_by(self.answers(), after, error)
                        &&& game@.responses.len() < after.responses.len() ==> !after.finished()
                    },
            },
    {
        let mut game = game.clone();
        let ghost start = game@;
        match self.play(&mut game) {
            Ok(response) => {
                proof {
                    let after = game@;
                    assert(played_on(self.answers(), start, after));
                    assert(moved(self.answers(), start, after, after.responses.len() - 1));
                }
                Ok(response.solution())
            },
            Err(error) => {
                proof {
                    assert(played_on(self.answers(), start, game@));
                }
                Err(error)
            },
        }
    }

    /// Box the [Solver]
    ///
    /// Returns a [Box] containing the [Solver].
    fn boxed(self) -> (boxed: Box<Self>)
        ensures
            *boxed == self,
    {
        Box::new(self)
    }
}

/// Any of the builtin solvers.
#[derive(Debug)]
pub enum AnyBuiltinSolver<'wl, WL: WordList> {
    Naive(NaiveSolver<'wl, WL>),
    Stupid(StupidSolver<'wl, WL>),
}

/// The names of the builtin solvers.
#[derive(Debug, Clone, Copy, PartialEq, Eq, Structural)]
pub enum BuiltinSolverNames {
    Naive,
    Stupid,
}

/// The text in lower case, as `str::to_lowercase` gives it.
pub uninterp spec fn lowercase_of(text: Seq<char>) -> Seq<char>;

/// `str::to_lowercase` gives the lower case form of a text, which depends on
/// the text alone.
pub assume_specification[ str::to_lowercase ](text: &str) -> (lowered: String)
    ensures
        lowered@ == lowercase_of(text@),
;

/// The solver that goes by the name, which is `naive` or `stupid`.
pub open spec fn named(name: Seq<char>) -> Result<BuiltinSolverNames, SolverError> {
    if name == "naive"@ {
        Ok(BuiltinSolverNames::Naive)
    } else if name == "stupid"@ {
        Ok(BuiltinSolverNames::Stupid)
    } else {
        Err(SolverError::UnknownBuiltinSolver)
    }
}

impl Default for BuiltinSolverNames {
    fn default() -> (name: Self)
        ensures
            name == BuiltinSolverNames::Naive,
    {
        BuiltinSolverNames::Naive
    }
}

impl BuiltinSolverNames {
    /// The solver of this name for the word list.
    pub fn to_solver<'wl, WL: WordList>(&self, wl: &'wl WL) -> (solver: AnyBuiltinSolver<'wl, WL>)
        ensures
            match self {
                BuiltinSolverNames::Naive => solver matches AnyBuiltinSolver::Naive(naive)
                    && naive.list() == wl,
                BuiltinSolverNames::Stupid => solver matches AnyBuiltinSolver::Stupid(stupid)
                    && stupid.list() == wl,
            },
    {
        match self {
            Self::Naive => match NaiveSolver::build(wl) {
                Ok(solver) => AnyBuiltinSolver::Naive(solver),
                Err(_) => vstd::pervasive::unreached(),
            },
            Self::Stupid => match StupidSolver::build(wl) {
                Ok(solver) => AnyBuiltinSolver::Stupid(solver),
                Err(_) => vstd::pervasive::unreached(),
            },
        }
    }

    /// The solver that goes by the name, which is given in lower case.
    ///
    /// # Errors
    ///
    /// Fails where no builtin solver has the name.
    pub fn from_lowercase(name: &str) -> (solver: Result<Self, SolverError>)
        ensures
            solver == named(name@),
    {
        let name = name.to_owned();
        if name == "naive".to_owned() {
            Ok(Self::Naive)
        } else if name == "stupid".to_owned() {
            Ok(Self::Stupid)
        } else {
            Err(SolverError::UnknownBuiltinSolver)
        }
    }

    /// The solver that goes by the name, in whatever case it is written.
    ///
    /// # Errors
    ///
    /// Fails where no builtin solver has the name.
    pub fn parse(s: &str) -> (solver: Result<Self, SolverError>)
        ensures
            solver == named(lowercase_of(s@)),
    {
        Self::from_lowercase(s.to_lowercase().as_str())
    }

    /// The name as it is written.
    pub fn name(&self) -> (name: &'static str)
        ensures
            name@ == match self {
                BuiltinSolverNames::Naive => "Naive"@,
                BuiltinSolverNames::Stupid => "Stupid"@,
            },
    {
        match self {
            Self::Naive => "Naive",
            Self::Stupid => "Stupid",
        }
    }
}

impl std::str::FromStr for BuiltinSolverNames {
    type Err = SolverError;

    /// The solver that goes by the name, in whatever case it is written.
    ///
    /// # Errors
    ///
    /// Fails where no builtin solver has the name.
    fn from_str(s: &str) -> (solver: Result<Self, Self::Err>)
        ensures
            solver == named(lowercase_of(s@)),
    {
        Self::parse(s)
    }
}

impl<'wl, WL: WordList> Clone for AnyBuiltinSolver<'wl, WL> {
    fn clone(&self) -> (copy: Self)
        ensures
            copy == *self,
    {
        match self {
            Self::Naive(solver) => Self::Naive(solver.clone()),
            Self::Stupid(solver) => Self::Stupid(solver.clone()),
        }
    }
}

impl<'wl, WL: WordList> Solver<'wl, WL> for AnyBuiltinSolver<'wl, WL> {
    open spec fn answers(&self) -> Answers {
        match *self {
            AnyBuiltinSolver::Naive(solver) => solver.answers(),
            AnyBuiltinSolver::Stupid(solver) => solver.answers(),
        }
    }

    fn build(wordlist: &'wl WL) -> (built: WResult<Self>)
        ensures
            built matches Ok(AnyBuiltinSolver::Naive(naive)) && naive.list() == wordlist,
    {
        match NaiveSolver::build(wordlist) {
            Ok(solver) => Ok(Self::Naive(solver)),
            Err(error) => Err(error),
        }
    }

    fn guess_for(&self, game: &Game<'wl, WL>) -> (guess: WResult<Word>) {
        match self {
            Self::Naive(solver) => solver.guess_for(game),
            Self::Stupid(solver) => solver.guess_for(game),
        }
    }
}

impl<'wl, WL: WordList> From<NaiveSolver<'wl, WL>> for AnyBuiltinSolver<'wl, WL> {
    fn from(value: NaiveSolver<'wl, WL>) -> (solver: Self) {
        Self::Naive(value)
    }
}

impl<'wl, WL: WordList> vstd::std_specs::convert::FromSpecImpl<NaiveSolver<'wl, WL>> for AnyBuiltinSolver<'wl, WL> {
    open spec fn obeys_from_spec() -> bool {
        true
    }

    open spec fn from_spec(value: NaiveSolver<'wl, WL>) -> Self {
        AnyBuiltinSolver::Naive(value)
    }
}

impl<'wl, WL: WordList> From<StupidSolver<'wl, WL>> for AnyBuiltinSolver<'wl, WL> {
    fn from(value: StupidSolver<'wl, WL>) -> (solver: Self) {
        Self::Stupid(value)
    }
}

impl<'wl, WL: WordList> vstd::std_specs::convert::FromSpecImpl<StupidSolver<'wl, WL>> for AnyBuiltinSolver<'wl, WL> {
    open spec fn obeys_from_spec() -> bool {
        true
    }

    open spec fn from_spec(value: StupidSolver<'wl, WL>) -> Self {
        AnyBuiltinSolver::Stupid(value)
    }
}

} // verus!
