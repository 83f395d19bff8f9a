use vstd::prelude::*;

verus! {

/// How common a word is, as a rank: of two words the more common one has the
/// larger rank. Ranks are only compared, never added.
pub type Frequency = u64;

pub type Word = String;

pub type WordData = (Word, Frequency);

pub type ManyWordDatas = Vec<(Word, Frequency)>;

/// A word with its frequency, as plain values.
pub type Entry = (Seq<char>, Frequency);

/// The entries that a sequence of words with their frequencies stands for.
pub open spec fn entries_of(words: Seq<WordData>) -> Seq<Entry> {
    Seq::new(words.len(), |i: int| (words[i].0@, words[i].1))
}

/// No word occurs twice among the entries.
pub open spec fn distinct_words(entries: Seq<Entry>) -> bool {
    forall|i: int, j: int|
        0 <= i < j < entries.len() ==> (#[trigger] entries[i]).0 != (#[trigger] entries[j]).0
}

/// Some entry is for `word`.
pub open spec fn has_word(entries: Seq<Entry>, word: Seq<char>) -> bool {
    exists|i: int| 0 <= i < entries.len() && (#[trigger] entries[i]).0 == word
}

/// The position of an entry for `word`; meaningful where there is one.
pub open spec fn position_of(entries: Seq<Entry>, word: Seq<char>) -> int {
    choose|i: int| 0 <= i < entries.len() && (#[trigger] entries[i]).0 == word
}

/// The entry for `word`, if there is one.
pub open spec fn lookup(entries: Seq<Entry>, word: Seq<char>) -> Option<Entry> {
    if has_word(entries, word) {
        Some(entries[position_of(entries, word)])
    } else {
        None
    }
}

/// Among entries with distinct words, the entry at a position is the one
/// that is looked up for its word.
pub proof fn lemma_lookup_at(entries: Seq<Entry>, i: int)
    requires
        distinct_words(entries),
        0 <= i < entries.len(),
    ensures
        has_word(entries, entries[i].0),
        position_of(entries, entries[i].0) == i,
        lookup(entries, entries[i].0) == Some(entries[i]),
{
    let word = entries[i].0;
    let j = position_of(entries, word);
    assert(0 <= j < entries.len() && entries[j].0 == word);
    if j < i {
        assert(entries[j].0 != entries[i].0);
    } else if i < j {
        assert(entries[i].0 != entries[j].0);
    }
}

/// The entries with `word` put in: in place of the entry for `word` where
/// there is one, else behind all entries.
pub open spec fn put(entries: Seq<Entry>, word: Seq<char>, frequency: Frequency) -> Seq<Entry> {
    if has_word(entries, word) {
        entries.update(position_of(entries, word), (word, frequency))
    } else {
        entries.push((word, frequency))
    }
}

/// The entries that are there when the given ones have been put in one after
/// the other: of two entries for one word the later one counts, at the place
/// of the earlier one.
pub open spec fn collected(entries: Seq<Entry>) -> Seq<Entry>
    decreases entries.len(),
{
    if entries.len() == 0 {
        entries
    } else {
        put(collected(entries.drop_last()), entries.last().0, entries.last().1)
    }
}

/// Leaving entries out does not make a word occur twice.
pub proof fn lemma_filter_distinct(entries: Seq<Entry>, keep: spec_fn(Entry) -> bool)
    requires
        distinct_words(entries),
    ensures
        distinct_words(entries.filter(keep)),
    decreases entries.len(),
{
    reveal(Seq::filter);
    if entries.len() > 0 {
        let front = entries.drop_last();
        lemma_filter_distinct(front, keep);
        let kept = front.filter(keep);
        if keep(entries.last()) {
            let all = kept.push(entries.last());
            assert forall|i: int, j: int| 0 <= i < j < all.len() implies (#[trigger] all[i]).0 != (
            #[trigger] all[j]).0 by {
                if j == kept.len() {
                    assert(kept.contains(kept[i]));
                    front.lemma_filter_contains_rev(keep, kept[i]);
                    let k = choose|k: int| 0 <= k < front.len() && front[k] == kept[i];
                    assert(entries[k].0 != entries[entries.len() - 1].0);
                }
            }
        }
    }
}

/// The entries whose word has `len` characters.
pub open spec fn of_length(len: usize) -> spec_fn(Entry) -> bool {
    |entry: Entry| entry.0.len() == len
}

/// A copy of a word with its frequency.
pub fn clone_word_data(data: &WordData) -> (copy: WordData)
    ensures
        copy == *data,
{
    (data.0.clone(), data.1)
}

/// A copy of a word with its frequency, where there is one.
pub fn clone_solution(solution: &Option<WordData>) -> (copy: Option<WordData>)
    ensures
        copy == *solution,
{
    match solution {
        Some(data) => Some(clone_word_data(data)),
        None => None,
    }
}

/// The words of a list with their frequencies, each word once, in the order
/// in which they were put in.
#[derive(Debug)]
pub struct WordMap {
    inner: Vec<WordData>,
    threshold: Frequency,
}

impl View for WordMap {
    type V = Seq<Entry>;

    closed spec fn view(&self) -> Seq<Entry> {
        entries_of(self.inner@)
    }
}

impl Default for WordMap {
    fn default() -> (map: Self)
        ensures
            map@ == Seq::<Entry>::empty(),
            map.threshold_spec() == 0,
    {
        Self::new()
    }
}

impl Clone for WordMap {
    fn clone(&self) -> (copy: Self)
        ensures
            copy@ == self@,
            copy.threshold_spec() == self.threshold_spec(),
    {
        proof {
            use_type_invariant(self);
        }
        let mut inner: Vec<WordData> = Vec::new();
        let mut i: usize = 0;
        while i < self.inner.len()
            invariant
                i <= self.inner.len(),
                inner@ == self.inner@.take(i as int),
            decreases self.inner.len() - i,
        {
            inner.push(clone_word_data(&self.inner[i]));
            i += 1;
        }
        assert(self.inner@.take(self.inner@.len() as int) == self.inner@);
        WordMap { inner, threshold: self.threshold }
    }
}

impl WordMap {
    #[verifier::type_invariant]
    spec fn well_formed(&self) -> bool {
        distinct_words(entries_of(self.inner@))
    }

    /// The frequency above which a word can be a solution.
    pub closed spec fn threshold_spec(&self) -> Frequency {
        self.threshold
    }

    pub fn new() -> (map: Self)
        ensures
            map@ == Seq::<Entry>::empty(),
            map.threshold_spec() == 0,
    {
        let map = Self { inner: Vec::new(), threshold: 0 };
        assert(map@ =~= Seq::<Entry>::empty());
        map
    }

    /// The same map with the given frequency as the one above which a word can
    /// be a solution.
    pub fn with_threshold(self, threshold: Frequency) -> (map: Self)
        ensures
            map@ == self@,
            map.threshold_spec() == threshold,
    {
        proof {
            use_type_invariant(&self);
        }
        Self { inner: self.inner, threshold }
    }

    /// The map that holds the given words; of two entries for one word the
    /// later one counts.
    pub fn from_words(words: Vec<WordData>) -> (map: Self)
        ensures
            map@ == collected(entries_of(words@)),
            map.threshold_spec() == 0,
    {
        let mut map = WordMap::new();
        let mut i: usize = 0;
        while i < words.len()
            invariant
                i <= words.len(),
                map@ == collected(entries_of(words@).take(i as int)),
                map.threshold_spec() == 0,
            decreases words.len() - i,
        {
            map.insert(words[i].0.clone(), words[i].1);
            proof {
                let all = entries_of(words@);
                assert(all.take(i + 1).drop_last() == all.take(i as int));
            }
            i += 1;
        }
        assert(entries_of(words@).take(words@.len() as int) == entries_of(words@));
        map
    }

    /// The position of the entry for `word`, if there is one.
    fn find(&self, word: &str) -> (found: Option<usize>)
        ensures
            match found {
                Some(i) => has_word(self@, word@) && i == position_of(self@, word@) && i
                    < self.inner.len(),
                None => !has_word(self@, word@),
            },
    {
        proof {
            use_type_invariant(self);
        }
        let owned = word.to_owned();
        let mut i: usize = 0;
        while i < self.inner.len()
            invariant
                i <= self.inner.len(),
                owned@ == word@,
                distinct_words(self@),
                forall|j: int| 0 <= j < i ==> (#[trigger] self@[j]).0 != word@,
            decreases self.inner.len() - i,
        {
            if self.inner[i].0 == owned {
                proof {
                    assert(self@[i as int].0 == word@);
                    lemma_lookup_at(self@, i as int);
                }
                return Some(i);
            }
            i += 1;
        }
        None
    }

    /// Puts in `word` with `frequency`: in place of the entry for `word` where
    /// there is one, else behind all entries.
    pub fn insert(&mut self, word: Word, frequency: Frequency)
        ensures
            final(self).threshold_spec() == old(self).threshold_spec(),
            distinct_words(final(self)@),
            final(self)@ == put(old(self)@, word@, frequency),
    {
        proof {
            use_type_invariant(&*self);
        }
        let found = self.find(word.as_str());
        let mut inner: Vec<WordData> = Vec::new();
        std::mem::swap(&mut inner, &mut self.inner);
        let ghost before = entries_of(inner@);
        match found {
            Some(i) => {
                inner.set(i, (word, frequency));
                assert(entries_of(inner@) =~= before.update(i as int, (word@, frequency)));
            },
            None => {
                inner.push((word, frequency));
                assert(entries_of(inner@) =~= before.push((word@, frequency)));
            },
        }
        self.inner = inner;
    }

    /// Keeps the words of `len` characters and drops all others.
    pub fn only_words_with_len(&mut self, len: usize)
        ensures
            final(self)@ == old(self)@.filter(of_length(len)),
            final(self).threshold_spec() == old(self).threshold_spec(),
    {
        proof {
            use_type_invariant(&*self);
        }
        let mut inner: Vec<WordData> = Vec::new();
        std::mem::swap(&mut inner, &mut self.inner);
        let ghost all = entries_of(inner@);
        let ghost keep = of_length(len);
        let mut kept: Vec<WordData> = Vec::new();
        let mut i: usize = 0;
        proof {
            assert(all.take(0) =~= Seq::<Entry>::empty());
            all.take(0).lemma_all_neg_filter_empty(keep);
            assert(entries_of(kept@) =~= all.take(0).filter(keep));
        }
        while i < inner.len()
            invariant
                i <= inner.len(),
                all == entries_of(inner@),
                keep == of_length(len),
                entries_of(kept@) == all.take(i as int).filter(keep),
            decreases inner.len() - i,
        {
            let ghost before = entries_of(kept@);
            proof {
                crate::text::lemma_take_push(all, i as int);
                all.take(i as int).lemma_filter_push(all[i as int], keep);
            }
            if inner[i].0.as_str().unicode_len() == len {
                kept.push(clone_word_data(&inner[i]));
                assert(entries_of(kept@) =~= before.push(all[i as int]));
            }
            i += 1;
        }
        proof {
            assert(all.take(inner@.len() as int) == all);
            lemma_filter_distinct(all, keep);
        }
        self.inner = kept;
    }

    /// The words, in the order of the entries.
    pub fn keys(&self) -> (words: Vec<Word>)
        ensures
            words.len() == self@.len(),
            forall|i: int| 0 <= i < words.len() ==> (#[trigger] words[i])@ == self@[i].0,
    {
        let mut words: Vec<Word> = Vec::new();
        let mut i: usize = 0;
        while i < self.inner.len()
            invariant
                i <= self.inner.len(),
                words.len() == i,
                forall|j: int| 0 <= j < i ==> (#[trigger] words[j])@ == self@[j].0,
            decreases self.inner.len() - i,
        {
            words.push(self.inner[i].0.clone());
            i += 1;
        }
        words
    }

    /// The frequencies, in the order of the entries.
    pub fn values(&self) -> (frequencies: Vec<Frequency>)
        ensures
            frequencies.len() == self@.len(),
            forall|i: int| 0 <= i < frequencies.len() ==> #[trigger] frequencies[i] == self@[i].1,
    {
        let mut frequencies: Vec<Frequency> = Vec::new();
        let mut i: usize = 0;
        while i < self.inner.len()
            invariant
                i <= self.inner.len(),
                frequencies.len() == i,
                forall|j: int| 0 <= j < i ==> #[trigger] frequencies[j] == self@[j].1,
            decreases self.inner.len() - i,
        {
            frequencies.push(self.inner[i].1);
            i += 1;
        }
        frequencies
    }

    pub fn len(&self) -> (len: usize)
        ensures
            len == self@.len(),
    {
        self.inner.len()
    }

    #[must_use]
    pub fn is_empty(&self) -> (empty: bool)
        ensures
            empty == (self@.len() == 0),
    {
        self.len() == 0
    }

    /// The amount of relatively common words.
    pub fn n_common(&self) -> (n: usize)
        ensures
            n == 3000,
    {
        3000
    }

    /// The frequency above which a word can be a solution.
    pub fn threshold(&self) -> (threshold: Frequency)
        ensures
            threshold == self.threshold_spec(),
    {
        self.threshold
    }

    /// The entries, of which no two are for the same word.
    pub fn inner(&self) -> (words: &Vec<WordData>)
        ensures
            entries_of(words@) == self@,
            distinct_words(self@),
    {
        proof {
            use_type_invariant(self);
        }
        &self.inner
    }

    /// The entry for `word`, if there is one.
    pub fn get(&self, word: &str) -> (found: Option<WordData>)
        ensures
            match found {
                Some(data) => lookup(self@, word@) == Some((data.0@, data.1)),
                None => lookup(self@, word@) is None,
            },
    {
        match self.find(word) {
            Some(i) => Some(clone_word_data(&self.inner[i])),
            None => None,
        }
    }
}

} // verus!
