use std::ops::Range;
use vstd::prelude::*;

use rand::seq::IteratorRandom;
use regex::Regex;

use crate::error::{Error, WResult, WordlistError};
use crate::text::{chars_of, count_char, lemma_occurrences_zero, lemma_take_push, occurrences};

pub mod builtin;
pub mod ranking;
pub mod word;

use ranking::{rank, ranked};
use word::{
    clone_word_data, distinct_words, entries_of, lemma_filter_distinct, lookup, Entry, Frequency,
    Word, WordData, WordMap,
};

verus! {

/// The entries whose frequency is above `threshold`.
pub open spec fn above(threshold: Frequency) -> spec_fn(Entry) -> bool {
    |entry: Entry| entry.1 > threshold
}

/// The words of the entries, each followed by a line break, in one text.
pub open spec fn raw_text(entries: Seq<Entry>) -> Seq<char>
    decreases entries.len(),
{
    if entries.len() == 0 {
        Seq::empty()
    } else {
        raw_text(entries.drop_last()) + entries.last().0.push('\n')
    }
}

/// The letters of all words of the entries, word after word.
pub open spec fn letters_of(entries: Seq<Entry>) -> Seq<char>
    decreases entries.len(),
{
    if entries.len() == 0 {
        Seq::empty()
    } else {
        letters_of(entries.drop_last()) + entries.last().0
    }
}

/// One of the counts is for `c`.
pub open spec fn counted(counts: Seq<(char, usize)>, c: char) -> bool {
    exists|j: int| 0 <= j < counts.len() && (#[trigger] counts[j]).0 == c
}

/// Whether one of the counts is for `c`.
fn is_counted(counts: &Vec<(char, usize)>, c: char) -> (found: bool)
    ensures
        found == counted(counts@, c),
{
    let mut j: usize = 0;
    while j < counts.len()
        invariant
            j <= counts.len(),
            forall|k: int| 0 <= k < j ==> (#[trigger] counts[k]).0 != c,
        decreases counts.len() - j,
    {
        if counts[j].0 == c {
            return true;
        }
        j += 1;
    }
    false
}

/// How often each of the letters occurs among them: each letter once, in the
/// order in which the letters first occur.
pub fn count_letters(letters: &Vec<char>) -> (counts: Vec<(char, usize)>)
    ensures
        forall|j: int|
            0 <= j < counts.len() ==> (#[trigger] counts[j]).1 == occurrences(
                letters@,
                counts[j].0,
            ) && counts[j].1 > 0,
        forall|c: char| letters@.contains(c) ==> #[trigger] counted(counts@, c),
        forall|i: int, j: int|
            0 <= i < j < counts.len() ==> (#[trigger] counts[i]).0 != (#[trigger] counts[j]).0,
{
    let mut counts: Vec<(char, usize)> = Vec::new();
    let mut k: usize = 0;
    while k < letters.len()
        invariant
            k <= letters.len(),
            forall|j: int|
                0 <= j < counts.len() ==> (#[trigger] counts[j]).1 == occurrences(
                    letters@,
                    counts[j].0,
                ) && counts[j].1 > 0,
            forall|m: int| 0 <= m < k ==> counted(counts@, #[trigger] letters[m]),
            forall|i: int, j: int|
                0 <= i < j < counts.len() ==> (#[trigger] counts[i]).0 != (#[trigger] counts[j]).0,
        decreases letters.len() - k,
    {
        let c = letters[k];
        let ghost before = counts@;
        if !is_counted(&counts, c) {
            let n = count_char(letters, c);
            proof {
                lemma_occurrences_zero(letters@, c);
                assert(letters@[k as int] == c);
            }
            counts.push((c, n));
            proof {
                let last = counts.len() - 1;
                assert(counts[last as int].0 == c);
                assert forall|m: int| 0 <= m < k + 1 implies counted(
                    counts@,
                    #[trigger] letters[m],
                ) by {
                    if m < k {
                        assert(counted(before, letters[m]));
                        let j = choose|j: int|
                            0 <= j < before.len() && (#[trigger] before[j]).0 == letters[m];
                        assert(counts[j].0 == letters[m]);
                    }
                }
            }
        }
        k += 1;
    }
    proof {
        assert forall|c: char| letters@.contains(c) implies #[trigger] counted(counts@, c) by {
            let m = choose|m: int| 0 <= m < letters@.len() && letters@[m] == c;
            assert(counted(counts@, letters[m]));
        }
    }
    counts
}

/// Those of the texts in `found` that are words of the entries, each with its
/// frequency, in the order of `found`.
pub open spec fn looked_up(entries: Seq<Entry>, found: Seq<Seq<char>>) -> Seq<Entry>
    decreases found.len(),
{
    if found.len() == 0 {
        Seq::empty()
    } else {
        let rest = looked_up(entries, found.drop_last());
        match lookup(entries, found.last()) {
            Some(entry) => rest.push(entry),
            None => rest,
        }
    }
}

/// Each entry that is looked up is the entry of the list for one of the texts
/// that were found.
pub proof fn lemma_looked_up(entries: Seq<Entry>, found: Seq<Seq<char>>, entry: Entry)
    requires
        looked_up(entries, found).contains(entry),
    ensures
        found.contains(entry.0),
        lookup(entries, entry.0) == Some(entry),
        word::has_word(entries, entry.0),
        entries.contains(entry),
    decreases found.len(),
{
    if found.len() > 0 {
        let front = found.drop_last();
        let rest = looked_up(entries, front);
        let i = choose|i: int|
            0 <= i < looked_up(entries, found).len() && looked_up(entries, found)[i] == entry;
        if i < rest.len() {
            assert(rest[i] == entry);
            lemma_looked_up(entries, front, entry);
            let j = choose|j: int| 0 <= j < front.len() && front[j] == entry.0;
            assert(found[j] == entry.0);
        } else {
            assert(lookup(entries, found.last()) == Some(entry));
            assert(found[found.len() - 1] == found.last());
            let k = word::position_of(entries, found.last());
            assert(entries[k] == entry);
        }
    }
}

/// The texts of `strings`, as plain values.
pub open spec fn texts_of(strings: Seq<String>) -> Seq<Seq<char>> {
    Seq::new(strings.len(), |i: int| strings[i]@)
}

/// What the `regex` crate finds of `pattern` in `haystack`: the matches that
/// do not overlap, from the left, each as the text that it covers; nothing
/// where it refuses the pattern.
pub uninterp spec fn regex_captures(pattern: Seq<char>, haystack: Seq<char>) -> Option<
    Seq<Seq<char>>,
>;

/// Compiles `pattern` with `Regex::new` and walks `haystack` with
/// `Regex::captures_iter`. What comes back depends on the two texts alone:
/// the text of each match in the order of the matches, or the error with
/// which the pattern was refused.
#[verifier::external_body]
fn capture_all(pattern: &str, haystack: &str) -> (found: Result<Vec<String>, regex::Error>)
    ensures
        match found {
            Ok(texts) => regex_captures(pattern@, haystack@) == Some(texts_of(texts@)),
            Err(_) => regex_captures(pattern@, haystack@) is None,
        },
{
    let compiled = Regex::new(pattern)?;
    Ok(compiled.captures_iter(haystack).map(|captures| captures[0].to_string()).collect())
}

/// Picks one of the numbers below `len` at random with
/// `IteratorRandom::choose`: none where `len` is zero, else a number below
/// `len`. Which one is not said.
#[verifier::external_body]
fn choose_index(len: usize) -> (chosen: Option<usize>)
    ensures
        chosen is None <==> len == 0,
        chosen matches Some(i) ==> i < len,
{
    (0..len).choose(&mut rand::thread_rng())
}

/// The entries of `map` for those of the texts in `found` that are words of
/// it, in the order in which candidates are offered.
pub fn words_of_matches(map: &WordMap, found: &Vec<String>) -> (words: Vec<WordData>)
    ensures
        entries_of(words@) == ranked(looked_up(map@, texts_of(found@))),
{
    let ghost texts = texts_of(found@);
    let mut buf: Vec<WordData> = Vec::new();
    let mut i: usize = 0;
    assert(entries_of(buf@) =~= looked_up(map@, texts.take(0)));
    while i < found.len()
        invariant
            i <= found.len(),
            texts == texts_of(found@),
            entries_of(buf@) == looked_up(map@, texts.take(i as int)),
        decreases found.len() - i,
    {
        let ghost before = entries_of(buf@);
        proof {
            lemma_take_push(texts, i as int);
            assert(texts.take(i + 1).drop_last() == texts.take(i as int));
        }
        match map.get(found[i].as_str()) {
            Some(data) => {
                buf.push(data);
                assert(entries_of(buf@) =~= before.push((data.0@, data.1)));
            },
            None => {},
        }
        i += 1;
    }
    assert(texts.take(found@.len() as int) == texts);
    rank(&buf)
}

/// A list of words with their frequencies.
pub trait WordList: Clone + std::fmt::Debug + Sync {
    /// The words of the list with their frequencies.
    spec fn entries(&self) -> Seq<Entry>;

    /// The frequency above which a word of the list can be a solution.
    spec fn solution_threshold(&self) -> Frequency;

    /// The words of the list that can be a solution: those above the
    /// threshold, in the order of the list.
    fn solutions(&self) -> (solutions: Vec<WordData>)
        ensures
            entries_of(solutions@) == self.entries().filter(above(self.solution_threshold())),
    {
        let wmap = self.wordmap();
        let threshold = wmap.threshold();
        let words = wmap.inner();
        let ghost all = self.entries();
        let ghost keep = above(threshold);
        let mut buf: Vec<WordData> = Vec::new();
        let mut i: usize = 0;
        proof {
            assert(all.take(0) =~= Seq::<Entry>::empty());
            all.take(0).lemma_all_neg_filter_empty(keep);
            assert(entries_of(buf@) =~= all.take(0).filter(keep));
        }
        while i < words.len()
            invariant
                i <= words.len(),
                all == entries_of(words@),
                keep == above(threshold),
                entries_of(buf@) == all.take(i as int).filter(keep),
            decreases words.len() - i,
        {
            let ghost before = entries_of(buf@);
            proof {
                lemma_take_push(all, i as int);
                all.take(i as int).lemma_filter_push(all[i as int], keep);
            }
            if words[i].1 > threshold {
                buf.push(clone_word_data(&words[i]));
                assert(entries_of(buf@) =~= before.push(all[i as int]));
            }
            i += 1;
        }
        assert(all.take(words@.len() as int) == all);
        buf
    }

    /// One of the words that can be a solution, picked at random; none where
    /// the list has no such word.
    fn rand_solution(&self) -> (solution: Option<WordData>)
        ensures
            match solution {
                Some(data) => self.entries().filter(above(self.solution_threshold())).contains(
                    (data.0@, data.1),
                ),
                None => self.entries().filter(above(self.solution_threshold())).len() == 0,
            },
    {
        let solutions = self.solutions();
        match choose_index(solutions.len()) {
            Some(i) => {
                let data = clone_word_data(&solutions[i]);
                assert(entries_of(solutions@)[i as int] == (data.0@, data.1));
                Some(data)
            },
            None => None,
        }
    }

    /// One of the words of the list, picked at random; none where the list is
    /// empty.
    fn rand_word(&self) -> (word: Option<WordData>)
        ensures
            match word {
                Some(data) => self.entries().contains((data.0@, data.1)),
                None => self.entries().len() == 0,
            },
    {
        let words = self.wordmap().inner();
        match choose_index(words.len()) {
            Some(i) => {
                let data = clone_word_data(&words[i]);
                assert(entries_of(words@)[i as int] == (data.0@, data.1));
                Some(data)
            },
            None => None,
        }
    }

    /// The lengths of the words that the list is meant for.
    fn length_range(&self) -> Range<usize>;

    /// How many words of the list can be a solution.
    fn amount(&self) -> (amount: usize)
        ensures
            amount == self.entries().filter(above(self.solution_threshold())).len(),
    {
        self.solutions().len()
    }

    /// The words of the list with their frequencies, no word twice.
    fn wordmap(&self) -> (map: &WordMap)
        ensures
            map@ == self.entries(),
            map.threshold_spec() == self.solution_threshold(),
    ;

    /// All words of the list in the order in which candidates are offered.
    fn sort_likelihood(&self) -> (words: Vec<WordData>)
        ensures
            entries_of(words@) == ranked(self.entries()),
    {
        rank(self.wordmap().inner())
    }

    /// The first `n` words of the list in the order in which candidates are
    /// offered, or all of them where the list has fewer.
    fn n_most_likely(&self, n: usize) -> (words: Vec<WordData>)
        ensures
            entries_of(words@) == ranked(self.entries()).take(
                if n <= self.entries().len() {
                    n as int
                } else {
                    self.entries().len() as int
                },
            ),
    {
        let mut words = self.sort_likelihood();
        proof {
            ranking::lemma_ranked(self.entries());
        }
        let ghost all = entries_of(words@);
        if n < words.len() {
            words.truncate(n);
        }
        assert(entries_of(words@) =~= all.take(words@.len() as int));
        words
    }

    /// The words that can be a solution, as a map of their own with the same
    /// threshold.
    fn over_threashold(&self) -> (map: WordMap)
        ensures
            map@ == self.entries().filter(above(self.solution_threshold())),
            map.threshold_spec() == self.solution_threshold(),
    {
        let wmap = self.wordmap();
        let ghost all = self.entries();
        let ghost keep = above(self.solution_threshold());
        let words = wmap.inner();
        let solutions = self.solutions();
        let mut map = WordMap::new().with_threshold(wmap.threshold());
        let mut i: usize = 0;
        proof {
            lemma_filter_distinct(all, keep);
            assert(map@ =~= entries_of(solutions@).take(0));
        }
        while i < solutions.len()
            invariant
                i <= solutions.len(),
                distinct_words(entries_of(solutions@)),
                map@ == entries_of(solutions@).take(i as int),
                map.threshold_spec() == self.solution_threshold(),
            decreases solutions.len() - i,
        {
            let ghost chosen = entries_of(solutions@);
            proof {
                lemma_take_push(chosen, i as int);
                assert forall|j: int| 0 <= j < i implies (#[trigger] chosen.take(i as int)[j]).0
                    != chosen[i as int].0 by {
                    assert(chosen[j].0 != chosen[i as int].0);
                }
            }
            map.insert(solutions[i].0.clone(), solutions[i].1);
            i += 1;
        }
        assert(entries_of(solutions@).take(solutions@.len() as int) == entries_of(solutions@));
        map
    }

    /// The entry of `word`, if the list holds it.
    fn get_word(&self, word: &Word) -> (found: Option<WordData>)
        ensures
            match found {
                Some(data) => lookup(self.entries(), word@) == Some((data.0@, data.1)),
                None => lookup(self.entries(), word@) is None,
            },
    ;

    /// How often each letter occurs in the words of the list, all words
    /// together: each letter that occurs once, in the order in which the
    /// letters first occur.
    fn letter_counts(&self) -> (counts: Vec<(char, usize)>)
        ensures
            forall|j: int|
                0 <= j < counts.len() ==> (#[trigger] counts[j]).1 == occurrences(
                    letters_of(self.entries()),
                    counts[j].0,
                ) && counts[j].1 > 0,
            forall|c: char|
                letters_of(self.entries()).contains(c) ==> #[trigger] counted(counts@, c),
            forall|i: int, j: int|
                0 <= i < j < counts.len() ==> (#[trigger] counts[i]).0 != (
                #[trigger] counts[j]).0,
    {
        let words = self.wordmap().inner();
        let ghost all = self.entries();
        let mut letters: Vec<char> = Vec::new();
        let mut i: usize = 0;
        assert(all.take(0) =~= Seq::<Entry>::empty());
        while i < words.len()
            invariant
                i <= words.len(),
                all == entries_of(words@),
                letters@ == letters_of(all.take(i as int)),
            decreases words.len() - i,
        {
            proof {
                lemma_take_push(all, i as int);
                assert(all.take(i + 1).drop_last() == all.take(i as int));
            }
            let mut word = chars_of(words[i].0.as_str());
            letters.append(&mut word);
            i += 1;
        }
        assert(all.take(words@.len() as int) == all);
        count_letters(&letters)
    }

    /// The words of the list, each followed by a line break, in one text.
    fn raw_wordlist(&self) -> (text: String)
        ensures
            text@ == raw_text(self.entries()),
    {
        let words = self.wordmap().inner();
        let ghost all = self.entries();
        let mut buf = String::new();
        let mut i: usize = 0;
        assert(all.take(0) =~= Seq::<Entry>::empty());
        while i < words.len()
            invariant
                i <= words.len(),
                all == entries_of(words@),
                buf@ == raw_text(all.take(i as int)),
            decreases words.len() - i,
        {
            proof {
                lemma_take_push(all, i as int);
                assert(all.take(i + 1).drop_last() == all.take(i as int));
            }
            buf.append(words[i].0.as_str());
            buf.push('\n');
            assert(buf@ =~= raw_text(all.take(i as int)) + all[i as int].0.push('\n'));
            i += 1;
        }
        assert(all.take(words@.len() as int) == all);
        buf
    }

    /// The words of the list that the pattern finds, in the order in which
    /// candidates are offered.
    ///
    /// The pattern is a regular expression, and it is matched against the
    /// words of the list, each on a line of its own. A match that is no word
    /// of the list is passed over.
    ///
    /// # Errors
    ///
    /// Fails where the pattern is refused.
    fn get_words_matching(&self, pattern: String) -> (matching: WResult<Vec<WordData>>)
        ensures
            match matching {
                Ok(words) => regex_captures(pattern@, raw_text(self.entries())) matches Some(found)
                    && entries_of(words@) == ranked(looked_up(self.entries(), found)),
                Err(Error::WordlistError { source: WordlistError::Regex { .. } }) => regex_captures(
                    pattern@,
                    raw_text(self.entries()),
                ) is None,
                Err(_) => false,
            },
    {
        let hay = self.raw_wordlist();
        match capture_all(pattern.as_str(), hay.as_str()) {
            Ok(found) => Ok(words_of_matches(self.wordmap(), &found)),
            Err(source) => Err(Error::WordlistError { source: WordlistError::Regex { source } }),
        }
    }
}

} // verus!
