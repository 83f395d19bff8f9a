use vstd::prelude::*;

use crate::error::{GameError, GameResult, WResult};
use crate::text::{chars_of, occurrences};
use crate::wlist::word::{clone_solution, lookup, Entry, Frequency, Word, WordData};
use crate::wlist::{above, WordList};

pub mod response;
use response::{evaluations_of, guesses_of, solution_view, GuessResponse, Round};

pub mod evaluation;

pub mod scoring;

pub mod summary;

use self::evaluation::{encoded, Evaluation, EvaluationUnit};
use self::scoring::{lemma_multiplicity_bound, marks, score, score_letters};

verus! {

/// A game of guessing a word of a word list.
#[derive(Debug)]
pub struct Game<'wl, WL> where WL: WordList {
    length: usize,
    precompute: bool,
    max_steps: usize,
    step: usize,
    solution: Option<WordData>,
    wordlist: &'wl WL,
    responses: Vec<GuessResponse>,
}

/// A game, as plain values.
pub ghost struct GameView {
    /// How many characters the words of the game have.
    pub length: usize,
    pub precompute: bool,
    /// How many guesses the game allows.
    pub max_steps: usize,
    /// How many guesses have been counted.
    pub step: usize,
    /// The solution, where the game knows it.
    pub solution: Option<Entry>,
    /// The words of the game's word list with their frequencies.
    pub words: Seq<Entry>,
    /// The rounds that were played, the first one first.
    pub responses: Seq<Round>,
}

/// The rounds, as plain values.
pub open spec fn rounds_of(responses: Seq<GuessResponse>) -> Seq<Round> {
    Seq::new(responses.len(), |i: int| responses[i]@)
}

impl GameView {
    /// No more guesses can be made: the last round has finished the game.
    pub open spec fn finished(self) -> bool {
        self.responses.len() > 0 && self.responses.last().finished()
    }

    /// The game has finished and the solution was found.
    pub open spec fn won(self) -> bool {
        self.finished() && self.responses.last().won()
    }

    /// The game takes no guess: it has finished, or as many guesses have been
    /// counted as it allows.
    pub open spec fn closed(self) -> bool {
        self.finished() || self.step >= self.max_steps
    }

    /// The words that have been guessed, the first one first.
    pub open spec fn guesses(self) -> Seq<Seq<char>> {
        guesses_of(self.responses)
    }

    /// The evaluations of the rounds, the first one first.
    pub open spec fn evaluations(self) -> Seq<Seq<EvaluationUnit>> {
        evaluations_of(self.responses)
    }

    /// The round that a guess of `guess` makes, with the manual evaluation
    /// `manual` where one is given, or the reason why the game does not take
    /// the guess.
    ///
    /// The guess has to have the length of the game's words, the game has to
    /// be open, and the guess has to be a word of the list, in this order. A
    /// manual evaluation is taken as it is, if it has the length of the guess.
    /// Without one the guess is scored against the solution, which has to be
    /// known and of the same length.
    pub open spec fn round_for(self, guess: Seq<char>, manual: Option<Seq<EvaluationUnit>>) -> Result<
        Round,
        Refusal,
    > {
        if guess.len() != self.length {
            Err(Refusal::WrongLength)
        } else if self.closed() {
            Err(Refusal::Finished)
        } else if lookup(self.words, guess) is None {
            Err(Refusal::UnknownWord)
        } else {
            match manual {
                Some(units) => if units.len() != guess.len() {
                    Err(Refusal::EvaluationLength)
                } else {
                    Ok(self.round_of(guess, units))
                },
                None => match self.solution {
                    Some(solution) => if solution.0.len() != guess.len() {
                        Err(Refusal::WrongLength)
                    } else {
                        Ok(self.round_of(guess, score(solution.0, guess)))
                    },
                    None => Err(Refusal::NoEvaluation),
                },
            }
        }
    }

    /// The round in which `guess` is evaluated as `units`, counted as the next
    /// step of the game.
    pub open spec fn round_of(self, guess: Seq<char>, units: Seq<EvaluationUnit>) -> Round {
        Round {
            guess,
            evaluation: units,
            solution: self.solution,
            step: (self.step + 1) as usize,
            max_steps: self.max_steps,
        }
    }

    /// The game after `round` has been played.
    pub open spec fn after(self, round: Round) -> GameView {
        GameView { step: round.step, responses: self.responses.push(round), ..self }
    }
}

/// Why a game does not take a guess.
pub ghost enum Refusal {
    /// The guess, or the solution it is to be scored against, has the wrong
    /// length.
    WrongLength,
    /// The game takes no more guesses.
    Finished,
    /// The guess is no word of the list.
    UnknownWord,
    /// The manual evaluation does not have the length of the guess.
    EvaluationLength,
    /// There is neither a manual evaluation nor a known solution.
    NoEvaluation,
}

/// The error `error` reports the refusal `refusal` of `guess`, with the
/// manual evaluation `manual` where one was given.
pub open spec fn reports(
    error: GameError,
    refusal: Refusal,
    guess: Seq<char>,
    manual: Option<Seq<EvaluationUnit>>,
) -> bool {
    match refusal {
        Refusal::WrongLength => error matches GameError::GuessHasWrongLength(length) && length
            == guess.len(),
        Refusal::Finished => error is TryingToPlayAFinishedGame,
        Refusal::UnknownWord => error matches GameError::WordNotInWordlist(word) && word@ == guess,
        Refusal::EvaluationLength => match (error, manual) {
            (GameError::GuessAndEvalNotSameLen((word, codes)), Some(units)) => word@ == guess
                && codes@ == encoded(units),
            _ => false,
        },
        Refusal::NoEvaluation => error matches GameError::InvalidEvaluationSyntax(text) && text@.len()
            == 0,
    }
}

impl<'wl, WL: WordList> View for Game<'wl, WL> {
    type V = GameView;

    closed spec fn view(&self) -> GameView {
        GameView {
            length: self.length,
            precompute: self.precompute,
            max_steps: self.max_steps,
            step: self.step,
            solution: solution_view(self.solution),
            words: self.wordlist.entries(),
            responses: rounds_of(self.responses@),
        }
    }
}

impl<'wl, WL: WordList> Clone for Game<'wl, WL> {
    fn clone(&self) -> (copy: Self)
        ensures
            copy@ == self@,
            copy.list() == self.list(),
    {
        let mut responses: Vec<GuessResponse> = Vec::new();
        let mut i: usize = 0;
        while i < self.responses.len()
            invariant
                i <= self.responses.len(),
                responses.len() == i,
                forall|j: int| 0 <= j < i ==> (#[trigger] responses[j])@ == self.responses[j]@,
            decreases self.responses.len() - i,
        {
            responses.push(self.responses[i].clone());
            i += 1;
        }
        assert(rounds_of(responses@) =~= rounds_of(self.responses@));
        Game {
            length: self.length,
            precompute: self.precompute,
            max_steps: self.max_steps,
            step: self.step,
            solution: clone_solution(&self.solution),
            wordlist: self.wordlist,
            responses,
        }
    }
}

impl<'wl, WL: WordList> Game<'wl, WL> {
    /// The word list of the game.
    pub closed spec fn list(&self) -> &'wl WL {
        self.wordlist
    }

    /// get a new [`GameBuilder`]
    pub fn builder(wl: &'wl WL) -> (builder: GameBuilder<'wl, WL>)
        ensures
            builder == GameBuilder::new_spec(wl, true),
    {
        GameBuilder::new(wl, true)
    }

    /// Create a [Game] of wordle
    ///
    /// With `generate_solution` the game gets one of the word list's
    /// solutions, picked at random, or none where the list has none. Without
    /// it the game knows no solution, and each guess needs a manual
    /// evaluation.
    ///
    /// Don't use this method directly, instead, make use of the [`GameBuilder`].
    ///
    /// # Errors
    ///
    /// No Errors
    ///
    /// # Parameters
    ///
    /// `length` - how many chars the solution has
    /// `precompute` -  whether all possible answers are computed beforehand
    /// `max_steps` -  how many tries the player has
    /// `wlist` -  which wordlist to use
    /// `generate_solution` -  should the game have a randomly generated solution?
    pub fn build(
        length: usize,
        precompute: bool,
        max_steps: usize,
        wlist: &'wl WL,
        generate_solution: bool,
    ) -> (built: GameResult<Self>)
        ensures
            built matches Ok(game) && game.list() == wlist && game@ == (GameView {
                length,
                precompute,
                max_steps,
                step: 0,
                solution: game@.solution,
                words: wlist.entries(),
                responses: Seq::empty(),
            }) && match game@.solution {
                Some(entry) => generate_solution && wlist.entries().filter(
                    above(wlist.solution_threshold()),
                ).contains(entry),
                None => generate_solution ==> wlist.entries().filter(
                    above(wlist.solution_threshold()),
                ).len() == 0,
            },
    {
        let game: Game<'wl, WL> = Game {
            length,
            precompute,
            max_steps,
            step: 0,
            solution: if generate_solution {
                wlist.rand_solution()
            } else {
                None
            },
            wordlist: wlist,
            responses: Vec::new(),
        };
        assert(game@.responses =~= Seq::empty());

        Ok(game)
    }

    /// set a solution, can be used for testing
    pub fn set_solution(&mut self, sol: Option<WordData>)
        ensures
            final(self)@ == (GameView { solution: solution_view(sol), ..old(self)@ }),
            final(self).list() == old(self).list(),
    {
        self.solution = sol;
    }

    /// Make a new guess
    ///
    /// The word is evaluated as the manual evaluation says, where one is
    /// given, and else against the [solution](Game::solution) of the [Game].
    /// A [GuessResponse] will be formulated, showing us which letters are correctly placed, in the
    /// solution, or just wrong.
    ///
    /// Note that you do not need to use the [GuessResponse], it is appended to the game state.
    ///
    /// # Errors
    ///
    /// This function will return an error if the length of the [Word] is wrong, if the game is
    /// finished, if the word is not in the word list, if the manual evaluation has another length
    /// than the word, and if there is neither a manual evaluation nor a solution. The game is
    /// then as it was.
    pub fn guess(&mut self, guess: &Word, eval: Option<Evaluation>) -> (made: GameResult<GuessResponse>)
        ensures
            final(self).list() == old(self).list(),
            match made {
                Ok(response) => old(self)@.round_for(guess@, evaluation_view(eval)) == Ok::<
                    Round,
                    Refusal,
                >(response@) && final(self)@ == old(self)@.after(response@),
                Err(error) => old(self)@.round_for(guess@, evaluation_view(eval)) matches Err(
                    refusal,
                ) && reports(error, refusal, guess@, evaluation_view(eval)) && final(self)@ == old(
                    self,
                )@,
            },
    {
        let letters = chars_of(guess.as_str());
        if letters.len() != self.length {
            return Err(GameError::GuessHasWrongLength(letters.len()));
        }
        if self.finished() || self.step >= self.max_steps {
            return Err(GameError::TryingToPlayAFinishedGame);
        }
        if self.wordlist.get_word(guess).is_none() {
            return Err(GameError::WordNotInWordlist(guess.clone()));
        }
        let evaluation = match eval {
            Some(evaluation) => {
                if evaluation.inner().len() != letters.len() {
                    return Err(
                        GameError::GuessAndEvalNotSameLen((guess.clone(), evaluation.encode())),
                    );
                }
                evaluation
            },
            None => match &self.solution {
                Some(solution) => {
                    let marks = chars_of(solution.0.as_str());
                    if marks.len() != letters.len() {
                        return Err(GameError::GuessHasWrongLength(letters.len()));
                    }
                    Evaluation::from_units(score_letters(&marks, &letters))
                },
                None => {
                    return Err(GameError::InvalidEvaluationSyntax(String::new()));
                },
            },
        };
        self.step += 1;

        let response = GuessResponse::new(guess, evaluation, self);
        let ghost before = rounds_of(self.responses@);
        self.responses.push(response.clone());
        assert(rounds_of(self.responses@) =~= before.push(response@));
        Ok(response)
    }

    /// Generates an [Evaluation] for a given solution and guess.
    ///
    /// # Errors
    ///
    /// Fails where the guess does not have the length of the solution.
    pub fn evaluate(solution: WordData, guess: &Word) -> (evaluated: GameResult<Evaluation>)
        ensures
            match evaluated {
                Ok(evaluation) => solution.0@.len() == guess@.len() && evaluation@ == score(
                    solution.0@,
                    guess@,
                ),
                Err(GameError::GuessHasWrongLength(length)) => solution.0@.len() != guess@.len()
                    && length == guess@.len(),
                Err(_) => false,
            },
            evaluated matches Ok(evaluation) ==> forall|c: char| #[trigger]
                marks(evaluation@, c) <= occurrences(solution.0@, c),
    {
        let solution_letters = chars_of(solution.0.as_str());
        let letters = chars_of(guess.as_str());
        if solution_letters.len() != letters.len() {
            return Err(GameError::GuessHasWrongLength(letters.len()));
        }
        proof {
            assert forall|c: char| #[trigger]
                marks(score(solution.0@, guess@), c) <= occurrences(solution.0@, c) by {
                lemma_multiplicity_bound(solution.0@, guess@, c);
            }
        }
        Ok(Evaluation::from_units(score_letters(&solution_letters, &letters)))
    }

    /// discard the last n responses, or all of them where there are fewer
    pub fn undo(&mut self, n: usize) -> (undone: WResult<()>)
        ensures
            undone is Ok,
            final(self).list() == old(self).list(),
            final(self)@ == (GameView {
                responses: old(self)@.responses.take(
                    if n <= old(self)@.responses.len() {
                        old(self)@.responses.len() - n
                    } else {
                        0
                    },
                ),
                ..old(self)@
            }),
    {
        let ghost before = rounds_of(self.responses@);
        let keep = if n <= self.responses.len() {
            self.responses.len() - n
        } else {
            0
        };
        self.responses.truncate(keep);
        assert(rounds_of(self.responses@) =~= before.take(keep as int));
        Ok(())
    }

    /// get how many characters the words have for this game
    pub fn length(&self) -> (length: usize)
        ensures
            length == self@.length,
    {
        self.length
    }

    /// get the solution for this game, if the game is aware of one.
    ///
    /// Consider that games may also be played on other platforms, so the game might not "know" the
    /// solution yet.
    pub fn solution(&self) -> (solution: Option<&WordData>)
        ensures
            match solution {
                Some(data) => self@.solution == Some((data.0@, data.1)),
                None => self@.solution is None,
            },
    {
        self.solution.as_ref()
    }

    pub(crate) fn solution_ref(&self) -> (solution: &Option<WordData>)
        ensures
            solution_view(*solution) == self@.solution,
    {
        &self.solution
    }

    /// get how many guesses have been made already
    pub fn step(&self) -> (step: usize)
        ensures
            step == self@.step,
    {
        self.step
    }

    /// true if the game has finished and no more guesses can be made
    pub fn finished(&self) -> (finished: bool)
        ensures
            finished == self@.finished(),
    {
        if self.responses.len() == 0 {
            return false;
        }
        self.responses[self.responses.len() - 1].finished()
    }

    /// true if the game has finished and the solution was found
    pub fn won(&self) -> (won: bool)
        ensures
            won == self@.won(),
    {
        if !self.finished() || self.responses.len() == 0 {
            return false;
        }
        self.responses[self.responses.len() - 1].won()
    }

    /// get how many tries the player has
    pub fn max_steps(&self) -> (max_steps: usize)
        ensures
            max_steps == self@.max_steps,
    {
        self.max_steps
    }

    /// get the responses that were already made
    pub fn responses(&self) -> (responses: &Vec<GuessResponse>)
        ensures
            rounds_of(responses@) == self@.responses,
    {
        &self.responses
    }

    /// get the most recent response
    pub fn last_response(&self) -> (last: Option<&GuessResponse>)
        ensures
            match last {
                Some(response) => self@.responses.len() > 0 && response@ == self@.responses.last(),
                None => self@.responses.len() == 0,
            },
    {
        if self.responses.len() == 0 {
            None
        } else {
            Some(&self.responses[self.responses.len() - 1])
        }
    }

    /// get the [WordList] for this game
    pub fn wordlist(&self) -> (wordlist: &'wl WL)
        ensures
            wordlist == self.list(),
            wordlist.entries() == self@.words,
    {
        self.wordlist
    }

    /// get the [Words](Word) that have already been tried
    pub fn made_guesses(&self) -> (guesses: Vec<&Word>)
        ensures
            guesses.len() == self@.responses.len(),
            forall|i: int| 0 <= i < guesses.len() ==> (#[trigger] guesses[i])@ == self@.guesses()[i],
    {
        let mut guesses: Vec<&Word> = Vec::new();
        let mut i: usize = 0;
        while i < self.responses.len()
            invariant
                i <= self.responses.len(),
                guesses.len() == i,
                forall|j: int| 0 <= j < i ==> (#[trigger] guesses[j])@ == self@.guesses()[j],
            decreases self.responses.len() - i,
        {
            guesses.push(self.responses[i].guess());
            i += 1;
        }
        guesses
    }
}

/// The manual evaluation, as plain values.
pub open spec fn evaluation_view(eval: Option<Evaluation>) -> Option<Seq<EvaluationUnit>> {
    match eval {
        Some(evaluation) => Some(evaluation@),
        None => None,
    }
}

/// Build and Configure a [`Game`]
///
/// This struct is used to build and configure a [`Game`] of Wordle.
#[derive(Debug)]
pub struct GameBuilder<'wl, WL: WordList> {
    length: usize,
    precompute: bool,
    max_steps: usize,
    wordlist: &'wl WL,
    generate_solution: bool,
    solution: Option<WordData>,
}

impl<'wl, WL: WordList> Clone for GameBuilder<'wl, WL> {
    fn clone(&self) -> (copy: Self)
        ensures
            copy.length_spec() == self.length_spec(),
            copy.precompute_spec() == self.precompute_spec(),
            copy.max_steps_spec() == self.max_steps_spec(),
            copy.list() == self.list(),
            copy.generate_solution_spec() == self.generate_solution_spec(),
            copy.solution_spec() == self.solution_spec(),
    {
        Self {
            length: self.length,
            precompute: self.precompute,
            max_steps: self.max_steps,
            wordlist: self.wordlist,
            generate_solution: self.generate_solution,
            solution: clone_solution(&self.solution),
        }
    }
}

impl<'wl, WL: WordList> GameBuilder<'wl, WL> {
    /// The builder that [`GameBuilder::new`] makes.
    pub closed spec fn new_spec(wl: &'wl WL, generate_solution: bool) -> Self {
        Self {
            length: crate::DEFAULT_WORD_LENGTH,
            precompute: false,
            max_steps: crate::DEFAULT_MAX_STEPS,
            wordlist: wl,
            generate_solution,
            solution: None,
        }
    }

    /// How many characters the words of the games have.
    pub closed spec fn length_spec(&self) -> usize {
        self.length
    }

    pub closed spec fn precompute_spec(&self) -> bool {
        self.precompute
    }

    /// How many guesses the games allow.
    pub closed spec fn max_steps_spec(&self) -> usize {
        self.max_steps
    }

    /// The word list of the games.
    pub closed spec fn list(&self) -> &'wl WL {
        self.wordlist
    }

    /// Whether the games get a solution that is picked at random.
    pub closed spec fn generate_solution_spec(&self) -> bool {
        self.generate_solution
    }

    /// The solution that the games get, where one is set.
    pub closed spec fn solution_spec(&self) -> Option<Entry> {
        solution_view(self.solution)
    }

    /// make a new [GameBuilder]
    ///
    /// We need a [WordList], so provide one here.
    pub fn new(wl: &'wl WL, generate_solution: bool) -> (builder: Self)
        ensures
            builder == Self::new_spec(wl, generate_solution),
            builder.length_spec() == crate::DEFAULT_WORD_LENGTH,
            !builder.precompute_spec(),
            builder.max_steps_spec() == crate::DEFAULT_MAX_STEPS,
            builder.list() == wl,
            builder.generate_solution_spec() == generate_solution,
            builder.solution_spec() is None,
    {
        Self {
            length: crate::DEFAULT_WORD_LENGTH,
            precompute: false,
            max_steps: crate::DEFAULT_MAX_STEPS,
            wordlist: wl,
            generate_solution,
            solution: None,
        }
    }

    /// build a [`Game`] with the stored configuration
    ///
    /// The game gets the solution that was set. Where none was set, it gets
    /// one of the word list's solutions, picked at random, if the builder is
    /// to generate one and the list has one.
    pub fn build(&self) -> (built: GameResult<Game<'wl, WL>>)
        ensures
            built matches Ok(game) && game.list() == self.list() && game@ == (GameView {
                length: self.length_spec(),
                precompute: self.precompute_spec(),
                max_steps: self.max_steps_spec(),
                step: 0,
                solution: game@.solution,
                words: self.list().entries(),
                responses: Seq::empty(),
            }) && if self.solution_spec() is Some {
                game@.solution == self.solution_spec()
            } else {
                match game@.solution {
                    Some(entry) => self.generate_solution_spec() && self.list().entries().filter(
                        above(self.list().solution_threshold()),
                    ).contains(entry),
                    None => self.generate_solution_spec() ==> self.list().entries().filter(
                        above(self.list().solution_threshold()),
                    ).len() == 0,
                }
            },
    {
        match Game::build(
            self.length,
            self.precompute,
            self.max_steps,
            self.wordlist,
            self.generate_solution,
        ) {
            Ok(mut game) => {
                if self.solution.is_some() {
                    game.set_solution(clone_solution(&self.solution))
                }
                Ok(game)
            },
            Err(error) => Err(error),
        }
    }

    /// Should we pre compute all possible answers? This will make startup significantly more
    /// expensive, but reduce the computing time while playing.
    ///
    /// Default is [`false`]
    pub fn precompute(self, precompute: bool) -> (builder: Self)
        ensures
            builder.precompute_spec() == precompute,
            builder.length_spec() == self.length_spec(),
            builder.max_steps_spec() == self.max_steps_spec(),
            builder.list() == self.list(),
            builder.generate_solution_spec() == self.generate_solution_spec(),
            builder.solution_spec() == self.solution_spec(),
    {
        Self {
            length: self.length,
            precompute,
            max_steps: self.max_steps,
            wordlist: self.wordlist,
            generate_solution: self.generate_solution,
            solution: self.solution,
        }
    }

    /// Set the length of words for the game
    ///
    /// Default is [`crate::DEFAULT_WORD_LENGTH`]
    pub fn length(self, length: usize) -> (builder: Self)
        ensures
            builder.length_spec() == length,
            builder.precompute_spec() == self.precompute_spec(),
            builder.max_steps_spec() == self.max_steps_spec(),
            builder.list() == self.list(),
            builder.generate_solution_spec() == self.generate_solution_spec(),
            builder.solution_spec() == self.solution_spec(),
    {
        Self {
            length,
            precompute: self.precompute,
            max_steps: self.max_steps,
            wordlist: self.wordlist,
            generate_solution: self.generate_solution,
            solution: self.solution,
        }
    }

    /// Set the amount of guesses per game
    ///
    /// Default is [`crate::DEFAULT_MAX_STEPS`]
    pub fn max_steps(self, max_steps: usize) -> (builder: Self)
        ensures
            builder.max_steps_spec() == max_steps,
            builder.length_spec() == self.length_spec(),
            builder.precompute_spec() == self.precompute_spec(),
            builder.list() == self.list(),
            builder.generate_solution_spec() == self.generate_solution_spec(),
            builder.solution_spec() == self.solution_spec(),
    {
        Self {
            length: self.length,
            precompute: self.precompute,
            max_steps,
            wordlist: self.wordlist,
            generate_solution: self.generate_solution,
            solution: self.solution,
        }
    }

    /// Set the wordlist for the builder
    ///
    /// The builder can be used multiple times. Each [`Game`] will have a immutable reference to
    /// `wl`.
    pub fn wordlist(self, wl: &'wl WL) -> (builder: Self)
        ensures
            builder.list() == wl,
            builder.length_spec() == self.length_spec(),
            builder.precompute_spec() == self.precompute_spec(),
            builder.max_steps_spec() == self.max_steps_spec(),
            builder.generate_solution_spec() == self.generate_solution_spec(),
            builder.solution_spec() == self.solution_spec(),
    {
        Self {
            length: self.length,
            precompute: self.precompute,
            max_steps: self.max_steps,
            wordlist: wl,
            generate_solution: self.generate_solution,
            solution: self.solution,
        }
    }

    /// Enable or disable Generation of a solution for this builder
    ///
    /// Default is true
    pub fn generate_solution(self, generate: bool) -> (builder: Self)
        ensures
            builder.generate_solution_spec() == generate,
            builder.length_spec() == self.length_spec(),
            builder.precompute_spec() == self.precompute_spec(),
            builder.max_steps_spec() == self.max_steps_spec(),
            builder.list() == self.list(),
            builder.solution_spec() == self.solution_spec(),
    {
        Self {
            length: self.length,
            precompute: self.precompute,
            max_steps: self.max_steps,
            wordlist: self.wordlist,
            generate_solution: generate,
            solution: self.solution,
        }
    }

    /// Set the solution for the games built by the builder
    ///
    /// If this is [Some], then the solution generated by
    /// [generate_solution](Self::generate_solution) will be overwritten (if it
    /// is true).
    ///
    /// If [generate_solution](Self::generate_solution) is false and this method is not used, the
    /// game will not have a predetermined solution and will not be able to generate evaluations
    /// for guesses, so these will need to be added manually by the user. The intention is that
    /// this can be used for use cases where the user plays wordle not within wordle-analyzer but
    /// in another program (like their browser). It can also be used to test solvers.
    pub fn solution(self, solution: Option<WordData>) -> (builder: Self)
        ensures
            builder.solution_spec() == solution_view(solution),
            builder.length_spec() == self.length_spec(),
            builder.precompute_spec() == self.precompute_spec(),
            builder.max_steps_spec() == self.max_steps_spec(),
            builder.list() == self.list(),
            builder.generate_solution_spec() == self.generate_solution_spec(),
    {
        Self {
            length: self.length,
            precompute: self.precompute,
            max_steps: self.max_steps,
            wordlist: self.wordlist,
            generate_solution: self.generate_solution,
            solution,
        }
    }
}

} // verus!
