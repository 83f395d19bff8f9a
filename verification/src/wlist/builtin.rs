use std::ops::Range;
use vstd::prelude::*;

use super::word::{
    collected, entries_of, lookup, of_length, Entry, Frequency, Word, WordData, WordMap,
};
use super::WordList;

verus! {

/// A word list that is held in memory, with the name it goes by.
#[derive(Debug)]
pub struct BuiltinWList {
    words: WordMap,
    name: String,
}

impl Clone for BuiltinWList {
    fn clone(&self) -> (copy: Self)
        ensures
            copy.entries() == self.entries(),
            copy.solution_threshold() == self.solution_threshold(),
            copy.name_spec() == self.name_spec(),
    {
        Self { words: self.words.clone(), name: self.name.clone() }
    }
}

impl BuiltinWList {
    /// The name of the list.
    pub closed spec fn name_spec(&self) -> Seq<char> {
        self.name@
    }

    /// The list of the given words under the given name.
    pub fn new(name: String, words: WordMap) -> (list: Self)
        ensures
            list.entries() == words@,
            list.solution_threshold() == words.threshold_spec(),
            list.name_spec() == name@,
    {
        Self { words, name }
    }

    /// The list under the given name that holds those of the given words
    /// that have `len` characters; of two entries for one word the later one
    /// counts. A word of the list can be a solution where it is more frequent
    /// than `threshold`.
    pub fn from_words(name: String, words: Vec<WordData>, threshold: Frequency, len: usize) -> (list: Self)
        ensures
            list.entries() == collected(entries_of(words@)).filter(of_length(len)),
            list.solution_threshold() == threshold,
            list.name_spec() == name@,
    {
        let mut map = WordMap::from_words(words).with_threshold(threshold);
        map.only_words_with_len(len);
        Self { words: map, name }
    }

    /// The name of the list.
    pub fn name(&self) -> (name: &String)
        ensures
            name@ == self.name_spec(),
    {
        &self.name
    }
}

impl WordList for BuiltinWList {
    closed spec fn entries(&self) -> Seq<Entry> {
        self.words@
    }

    closed spec fn solution_threshold(&self) -> Frequency {
        self.words.threshold_spec()
    }

    fn length_range(&self) -> (range: Range<usize>)
        ensures
            range.start == 5,
            range.end == 5,
    {
        5..5
    }

    fn wordmap(&self) -> (map: &WordMap) {
        &self.words
    }

    fn get_word(&self, word: &Word) -> (found: Option<WordData>) {
        self.words.get(word.as_str())
    }
}

} // verus!
