use vstd::prelude::*;
use vstd::relations::sorted_by;

use crate::error::{Error, SolverError, WResult, WordlistError};
use crate::game::response::solution_view;
use crate::game::{Game, GameView};
use crate::text::{lemma_take_push, string_of};
use crate::wlist::ranking::{
    lemma_ranked_contains, lemma_ranked_first, lemma_ranked_unique, rank, ranked, ranking,
    ranks_before,
};
use crate::wlist::word::{
    clone_solution, clone_word_data, entries_of, has_word, Entry, Word, WordData,
};
use crate::wlist::{lemma_looked_up, looked_up, raw_text, regex_captures, WordList};

pub mod states;
use states::{fold_rounds, lemma_impossible_admits_nothing, Constraints, SolverState};

use super::{Answers, Solver};

verus! {

/// A solver that keeps to what the rounds so far tell: it offers the most
/// frequent word that they leave in play.
#[derive(Debug)]
pub struct NaiveSolver<'wl, WL> {
    wl: &'wl WL,
}

/// The pattern as a text to search with: each matched character as itself,
/// and a dot for each position at which none is matched.
pub open spec fn pattern_text(pattern: Seq<Option<char>>) -> Seq<char> {
    Seq::new(
        pattern.len(),
        |i: int|
            match pattern[i] {
                Some(c) => c,
                None => '.',
            },
    )
}

/// The words, as plain values.
pub open spec fn words_of(words: Seq<&Word>) -> Seq<Seq<char>> {
    Seq::new(words.len(), |i: int| words[i]@)
}

/// The entries that stay in play: those whose word was not guessed yet and
/// is admitted by the constraints.
pub open spec fn survives(constraints: Constraints, guessed: Seq<Seq<char>>) -> spec_fn(
    Entry,
) -> bool {
    |entry: Entry| !guessed.contains(entry.0) && constraints.admits(entry.0)
}

/// What the rounds of the game tell about the solution.
pub open spec fn constraints_of(game: GameView) -> Constraints {
    fold_rounds(game.length as nat, game.evaluations())
}

/// The candidates for the next guess, the best one first: of the texts that
/// the search has found, the words of the game's list that stay in play.
pub open spec fn candidates(game: GameView, found: Seq<Seq<char>>) -> Seq<Entry> {
    ranked(
        ranked(looked_up(game.words, found)).filter(
            survives(constraints_of(game), game.guesses()),
        ),
    )
}

/// The candidates for the next guess among what the search with the pattern
/// finds in the game's word list; none where the pattern is refused.
pub open spec fn best_candidates(game: GameView) -> Seq<Entry> {
    match regex_captures(pattern_text(constraints_of(game).pattern), raw_text(game.words)) {
        Some(texts) => candidates(game, texts),
        None => Seq::empty(),
    }
}

/// What the naive solver answers for a game: the word of the best candidate
/// among what the search with the pattern finds in the game's word list. It
/// fails where the pattern is refused, and where no candidate is left.
pub open spec fn naive_answer(game: GameView, guess: Result<Seq<char>, Error>) -> bool {
    let found = regex_captures(pattern_text(constraints_of(game).pattern), raw_text(game.words));
    match guess {
        Ok(word) => match found {
            Some(texts) => candidates(game, texts).len() > 0 && word == candidates(game, texts)[0].0,
            None => false,
        },
        Err(Error::WordlistError { source: WordlistError::Regex { .. } }) => found is None,
        Err(Error::SolverError { source: SolverError::NoMatches(solution) }) => match found {
            Some(texts) => candidates(game, texts).len() == 0 && solution_view(solution)
                == game.solution,
            None => false,
        },
        Err(_) => false,
    }
}

/// Filtering is a function of the state, the guessed words and the matches:
/// two sequences that both hold what stays in play, in the order in which
/// candidates are offered, are equal.
pub proof fn lemma_filter_deterministic(
    constraints: Constraints,
    guessed: Seq<Seq<char>>,
    matches: Seq<Entry>,
    first: Seq<Entry>,
    second: Seq<Entry>,
)
    requires
        sorted_by(first, ranking()),
        sorted_by(second, ranking()),
        first.to_multiset() == matches.filter(survives(constraints, guessed)).to_multiset(),
        second.to_multiset() == matches.filter(survives(constraints, guessed)).to_multiset(),
    ensures
        first == second,
        first == ranked(matches.filter(survives(constraints, guessed))),
{
    let left = matches.filter(survives(constraints, guessed));
    lemma_ranked_unique(left, first);
    lemma_ranked_unique(left, second);
}

/// The naive solver has one answer for a game.
pub proof fn lemma_naive_answer_unique(game: GameView, first: Seq<char>, second: Seq<char>)
    requires
        naive_answer(game, Ok(first)),
        naive_answer(game, Ok(second)),
    ensures
        first == second,
{
}

/// A word that the naive solver answers is no arbitrary word: it is a word
/// of the game's list that was not guessed yet and that the rounds of the
/// game admit, and no other such word that the search has found is offered
/// before it.
pub proof fn lemma_naive_answer_fits(game: GameView, word: Seq<char>)
    requires
        naive_answer(game, Ok(word)),
    ensures
        has_word(game.words, word),
        !game.guesses().contains(word),
        constraints_of(game).admits(word),
        forall|i: int|
            0 <= i < best_candidates(game).len() ==> ranks_before(
                best_candidates(game)[0],
                #[trigger] best_candidates(game)[i],
            ),
        best_candidates(game).len() > 0 && best_candidates(game)[0].0 == word,
{
    let texts = regex_captures(
        pattern_text(constraints_of(game).pattern),
        raw_text(game.words),
    )->0;
    let keep = survives(constraints_of(game), game.guesses());
    let matches = ranked(looked_up(game.words, texts));
    let left = matches.filter(keep);
    let best = candidates(game, texts)[0];
    assert(candidates(game, texts).contains(best));
    lemma_ranked_contains(left, best);
    matches.lemma_filter_contains_rev(keep, best);
    let j = choose|j: int| 0 <= j < left.len() && left[j] == best;
    matches.lemma_filter_pred(keep, j);
    assert(keep(left[j]));
    lemma_ranked_contains(looked_up(game.words, texts), best);
    lemma_looked_up(game.words, texts, best);
    assert forall|i: int| 0 <= i < best_candidates(game).len() implies ranks_before(
        best_candidates(game)[0],
        #[trigger] best_candidates(game)[i],
    ) by {
        lemma_ranked_first(left, i);
    }
}

/// Where the rounds of a game ask the impossible of some character, the
/// naive solver answers no word: it can only fail.
pub proof fn lemma_contradiction_leaves_no_answer(game: GameView, c: char, word: Seq<char>)
    requires
        constraints_of(game).per_char.contains_key(c),
        constraints_of(game).per_char[c].impossible(),
    ensures
        !naive_answer(game, Ok(word)),
{
    if naive_answer(game, Ok(word)) {
        lemma_naive_answer_fits(game, word);
        lemma_impossible_admits_nothing(constraints_of(game), c, word);
    }
}

/// Whether `word` is among the words.
fn was_guessed(made_guesses: &Vec<&Word>, word: &Word) -> (guessed: bool)
    ensures
        guessed == words_of(made_guesses@).contains(word@),
{
    let mut i: usize = 0;
    while i < made_guesses.len()
        invariant
            i <= made_guesses.len(),
            forall|j: int| 0 <= j < i ==> words_of(made_guesses@)[j] != word@,
        decreases made_guesses.len() - i,
    {
        if *made_guesses[i] == *word {
            assert(words_of(made_guesses@)[i as int] == word@);
            return true;
        }
        i += 1;
    }
    false
}

/// The text to search the word list with for the pattern.
pub fn render_pattern(pattern: &Vec<Option<char>>) -> (text: String)
    ensures
        text@ == pattern_text(pattern@),
{
    let mut chars: Vec<char> = Vec::new();
    let mut i: usize = 0;
    while i < pattern.len()
        invariant
            i <= pattern.len(),
            chars@ == pattern_text(pattern@).take(i as int),
        decreases pattern.len() - i,
    {
        let c = match pattern[i] {
            Some(c) => c,
            None => '.',
        };
        chars.push(c);
        assert(chars@ =~= pattern_text(pattern@).take(i + 1));
        i += 1;
    }
    assert(pattern_text(pattern@).take(pattern@.len() as int) == pattern_text(pattern@));
    string_of(&chars)
}

/// Those of the matches that stay in play, the best one first: the words
/// that were not guessed yet and that the state admits, by descending
/// frequency, and equally frequent words in lexicographic order.
pub fn filter_candidates(
    state: &SolverState,
    made_guesses: &Vec<&Word>,
    matches: &Vec<WordData>,
) -> (left: Vec<WordData>)
    ensures
        entries_of(left@) == ranked(
            entries_of(matches@).filter(survives(state@, words_of(made_guesses@))),
        ),
{
    let ghost all = entries_of(matches@);
    let ghost keep = survives(state@, words_of(made_guesses@));
    let mut buf: Vec<WordData> = Vec::new();
    let mut i: usize = 0;
    proof {
        assert(all.take(0) =~= Seq::<Entry>::empty());
        all.take(0).lemma_all_neg_filter_empty(keep);
        assert(entries_of(buf@) =~= all.take(0).filter(keep));
    }
    while i < matches.len()
        invariant
            i <= matches.len(),
            all == entries_of(matches@),
            keep == survives(state@, words_of(made_guesses@)),
            entries_of(buf@) == all.take(i as int).filter(keep),
        decreases matches.len() - i,
    {
        let ghost before = entries_of(buf@);
        proof {
            lemma_take_push(all, i as int);
            all.take(i as int).lemma_filter_push(all[i as int], keep);
        }
        if !was_guessed(made_guesses, &matches[i].0) && state.admits(&matches[i].0) {
            buf.push(clone_word_data(&matches[i]));
            assert(entries_of(buf@) =~= before.push(all[i as int]));
        }
        i += 1;
    }
    assert(all.take(matches@.len() as int) == all);
    rank(&buf)
}

/// The candidates for the next guess of the game, the best one first: the
/// words of the game's list that the search with the pattern finds, that
/// were not guessed yet and that the rounds of the game admit.
///
/// # Errors
///
/// Fails where the pattern is refused, and, with the solution of the game
/// where the game knows it, where no candidate is left.
pub fn candidates_for<'wl, WL: WordList>(game: &Game<'wl, WL>) -> (left: WResult<Vec<WordData>>)
    ensures
        match left {
            Ok(words) => words.len() > 0 && entries_of(words@) == best_candidates(game@)
                && naive_answer(game@, Ok(words[0].0@)),
            Err(Error::WordlistError { source: WordlistError::Regex { .. } }) => regex_captures(
                pattern_text(constraints_of(game@).pattern),
                raw_text(game@.words),
            ) is None,
            Err(Error::SolverError { source: SolverError::NoMatches(solution) }) => {
                &&& regex_captures(
                    pattern_text(constraints_of(game@).pattern),
                    raw_text(game@.words),
                ) is Some
                &&& best_candidates(game@).len() == 0
                &&& solution_view(solution) == game@.solution
            },
            Err(_) => false,
        },
        left matches Err(error) ==> naive_answer(game@, Err(error)),
{
    let state = SolverState::fold(game.length(), game.responses());
    let pattern = render_pattern(state.pattern());
    let matches = match game.wordlist().get_words_matching(pattern) {
        Ok(matches) => matches,
        Err(error) => {
            return Err(error);
        },
    };
    let made_guesses = game.made_guesses();
    proof {
        assert(words_of(made_guesses@) =~= game@.guesses());
    }
    let left = filter_candidates(&state, &made_guesses, &matches);
    if left.len() == 0 {
        return Err(
            Error::SolverError {
                source: SolverError::NoMatches(clone_solution(game.solution_ref())),
            },
        );
    }
    assert(entries_of(left@)[0] == (left[0].0@, left[0].1));
    Ok(left)
}

impl<'wl, WL: WordList> NaiveSolver<'wl, WL> {
    /// The word list that the solver was built for.
    pub closed spec fn list(&self) -> &'wl WL {
        self.wl
    }
}

impl<'wl, WL: WordList> Clone for NaiveSolver<'wl, WL> {
    fn clone(&self) -> (copy: Self)
        ensures
            copy == *self,
    {
        Self { wl: self.wl }
    }
}

impl<'wl, WL: WordList> Solver<'wl, WL> for NaiveSolver<'wl, WL> {
    open spec fn answers(&self) -> Answers {
        |game: GameView, guess: Result<Seq<char>, Error>| naive_answer(game, guess)
    }

    fn build(wordlist: &'wl WL) -> (built: WResult<Self>)
        ensures
            built matches Ok(solver) && solver.list() == wordlist,
    {
        Ok(Self { wl: wordlist })
    }

    /// Guess a word from the wordlist for the given game
    ///
    /// ## Algorithm
    ///
    /// * Fold all rounds of the game into what is known of each character and position
    /// * Get all words of the game's word list that have the matched letters at the right position
    /// * Discard words that have already been tried
    /// * Discard all words that the known facts rule out
    /// * Take the most frequent word that is left
    fn guess_for(&self, game: &Game<'wl, WL>) -> (guess: WResult<Word>) {
        match candidates_for(game) {
            Ok(left) => Ok(left[0].0.clone()),
            Err(error) => Err(error),
        }
    }
}

} // verus!
