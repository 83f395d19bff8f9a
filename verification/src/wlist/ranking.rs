//! The order in which candidates are offered: the more frequent word first,
//! and of two equally frequent words the one that comes first in the
//! lexicographic order.

use vstd::prelude::*;
use vstd::relations::{sorted_by, total_ordering};
use vstd::seq_lib::{lemma_sorted_unique, to_multiset_build, to_multiset_insert};

use crate::text::{chars_of, lemma_codes_differ};
use crate::wlist::word::{clone_word_data, entries_of, Entry, WordData};

verus! {

/// From position `i` on, `a` comes before `b` in the lexicographic order or
/// equals it, given that the two agree before `i`: characters are compared by
/// their codes, and a word comes before its extensions.
pub open spec fn lex_le_from(a: Seq<char>, b: Seq<char>, i: int) -> bool
    decreases a.len() - i,
{
    if i >= a.len() {
        true
    } else if i >= b.len() {
        false
    } else if a[i] == b[i] {
        lex_le_from(a, b, i + 1)
    } else {
        (a[i] as u32) < (b[i] as u32)
    }
}

/// `a` comes before `b` in the lexicographic order, or equals it.
pub open spec fn lex_le(a: Seq<char>, b: Seq<char>) -> bool {
    lex_le_from(a, b, 0)
}

/// `a` is offered before `b` or equals it: it is more frequent, or as
/// frequent and not behind `b` in the lexicographic order.
pub open spec fn ranks_before(a: Entry, b: Entry) -> bool {
    a.1 > b.1 || (a.1 == b.1 && lex_le(a.0, b.0))
}

/// The order of the candidates, as a relation.
pub open spec fn ranking() -> spec_fn(Entry, Entry) -> bool {
    |a: Entry, b: Entry| ranks_before(a, b)
}

/// The entries in the order in which they are offered.
pub open spec fn ranked(entries: Seq<Entry>) -> Seq<Entry> {
    entries.sort_by(ranking())
}

proof fn lemma_lex_reflexive(a: Seq<char>, i: int)
    requires
        0 <= i,
    ensures
        lex_le_from(a, a, i),
    decreases a.len() - i,
{
    if i < a.len() {
        lemma_lex_reflexive(a, i + 1);
    }
}

proof fn lemma_lex_antisymmetric(a: Seq<char>, b: Seq<char>, i: int)
    requires
        0 <= i <= a.len(),
        i <= b.len(),
        forall|j: int| 0 <= j < i ==> a[j] == b[j],
        lex_le_from(a, b, i),
        lex_le_from(b, a, i),
    ensures
        a == b,
    decreases a.len() - i,
{
    if i < a.len() && i < b.len() {
        lemma_lex_antisymmetric(a, b, i + 1);
    } else {
        assert(a =~= b);
    }
}

proof fn lemma_lex_transitive(a: Seq<char>, b: Seq<char>, c: Seq<char>, i: int)
    requires
        0 <= i,
        lex_le_from(a, b, i),
        lex_le_from(b, c, i),
    ensures
        lex_le_from(a, c, i),
    decreases a.len() - i,
{
    if i < a.len() && i < b.len() && i < c.len() && a[i] == b[i] && b[i] == c[i] {
        lemma_lex_transitive(a, b, c, i + 1);
    }
}

proof fn lemma_lex_total(a: Seq<char>, b: Seq<char>, i: int)
    requires
        0 <= i,
    ensures
        lex_le_from(a, b, i) || lex_le_from(b, a, i),
    decreases a.len() - i,
{
    if i < a.len() && i < b.len() {
        if a[i] == b[i] {
            lemma_lex_total(a, b, i + 1);
        } else {
            lemma_codes_differ(a[i], b[i]);
        }
    }
}

/// The order of the candidates is a total order: any two entries are
/// comparable, and only equal entries rank the same.
pub proof fn lemma_ranking_total()
    ensures
        total_ordering(ranking()),
{
    let r = ranking();
    assert forall|x: Entry| #[trigger] r(x, x) by {
        lemma_lex_reflexive(x.0, 0);
    }
    assert forall|x: Entry, y: Entry| #[trigger] r(x, y) && #[trigger] r(y, x) implies x == y by {
        lemma_lex_antisymmetric(x.0, y.0, 0);
    }
    assert forall|x: Entry, y: Entry, z: Entry| #[trigger]
        r(x, y) && #[trigger] r(y, z) implies r(x, z) by {
        if x.1 == y.1 && y.1 == z.1 {
            lemma_lex_transitive(x.0, y.0, z.0, 0);
        }
    }
    assert forall|x: Entry, y: Entry| #[trigger] r(x, y) || #[trigger] r(y, x) by {
        lemma_lex_total(x.0, y.0, 0);
    }
}

/// The ranked entries are in order and hold what was given, each entry as
/// often as it was given.
pub proof fn lemma_ranked(entries: Seq<Entry>)
    ensures
        sorted_by(ranked(entries), ranking()),
        ranked(entries).to_multiset() == entries.to_multiset(),
        ranked(entries).len() == entries.len(),
{
    lemma_ranking_total();
    entries.lemma_sort_by_ensures(ranking());
    vstd::seq_lib::to_multiset_len(entries);
    vstd::seq_lib::to_multiset_len(ranked(entries));
}

/// The ranked entries hold exactly the entries that were given.
pub proof fn lemma_ranked_contains(entries: Seq<Entry>, entry: Entry)
    ensures
        ranked(entries).contains(entry) <==> entries.contains(entry),
{
    lemma_ranked(entries);
    vstd::seq_lib::to_multiset_contains(entries, entry);
    vstd::seq_lib::to_multiset_contains(ranked(entries), entry);
}

/// The first of the ranked entries is offered before every other one.
pub proof fn lemma_ranked_first(entries: Seq<Entry>, i: int)
    requires
        0 <= i < ranked(entries).len(),
    ensures
        ranks_before(ranked(entries)[0], ranked(entries)[i]),
{
    lemma_ranked(entries);
    lemma_ranking_total();
    let r = ranking();
    if i > 0 {
        assert(r(ranked(entries)[0], ranked(entries)[i]));
    } else {
        assert(r(ranked(entries)[0], ranked(entries)[0]));
    }
}

/// The order of the entries decides the outcome: a sequence that is in order
/// and holds the same entries as the given ones is the ranked sequence.
pub proof fn lemma_ranked_unique(entries: Seq<Entry>, sorted: Seq<Entry>)
    requires
        sorted_by(sorted, ranking()),
        sorted.to_multiset() == entries.to_multiset(),
    ensures
        sorted == ranked(entries),
{
    lemma_ranking_total();
    entries.lemma_sort_by_ensures(ranking());
    lemma_sorted_unique(sorted, ranked(entries), ranking());
}

/// Whether `a` comes before `b` in the lexicographic order, or equals it.
pub fn lex_le_exec(a: &Vec<char>, b: &Vec<char>) -> (le: bool)
    ensures
        le == lex_le(a@, b@),
{
    let mut i: usize = 0;
    while i < a.len()
        invariant
            i <= a.len(),
            lex_le(a@, b@) == lex_le_from(a@, b@, i as int),
        decreases a.len() - i,
    {
        if i >= b.len() {
            return false;
        }
        if a[i] != b[i] {
            return (a[i] as u32) < (b[i] as u32);
        }
        i += 1;
    }
    true
}

/// Whether `a` is offered before `b` or equals it.
pub fn ranks_before_exec(a: &WordData, b: &WordData) -> (before: bool)
    ensures
        before == ranks_before((a.0@, a.1), (b.0@, b.1)),
{
    if a.1 != b.1 {
        a.1 > b.1
    } else {
        lex_le_exec(&chars_of(a.0.as_str()), &chars_of(b.0.as_str()))
    }
}

/// The given words in the order in which they are offered: by descending
/// frequency, and equally frequent words in lexicographic order.
pub fn rank(words: &Vec<WordData>) -> (sorted: Vec<WordData>)
    ensures
        entries_of(sorted@) == ranked(entries_of(words@)),
{
    let ghost given = entries_of(words@);
    let mut sorted: Vec<WordData> = Vec::new();
    let mut i: usize = 0;
    proof {
        lemma_ranking_total();
        assert(entries_of(sorted@) =~= given.take(0));
    }
    while i < words.len()
        invariant
            i <= words.len(),
            given == entries_of(words@),
            total_ordering(ranking()),
            sorted_by(entries_of(sorted@), ranking()),
            entries_of(sorted@).to_multiset() == given.take(i as int).to_multiset(),
        decreases words.len() - i,
    {
        let next = clone_word_data(&words[i]);
        let ghost before = entries_of(sorted@);
        let ghost entry = (next.0@, next.1);
        let mut at: usize = 0;
        while at < sorted.len() && ranks_before_exec(&sorted[at], &next)
            invariant
                at <= sorted.len(),
                before == entries_of(sorted@),
                entry == (next.0@, next.1),
                forall|j: int| 0 <= j < at ==> ranks_before(#[trigger] before[j], entry),
            decreases sorted.len() - at,
        {
            at += 1;
        }
        sorted.insert(at, next);
        proof {
            let after = entries_of(sorted@);
            let r = ranking();
            assert(after =~= before.insert(at as int, entry));
            to_multiset_insert(before, at as int, entry);
            assert(given.take(i + 1) =~= given.take(i as int).push(entry));
            to_multiset_build(given.take(i as int), entry);
            assert forall|j: int, k: int| 0 <= j < k < after.len() implies #[trigger] r(
                after[j],
                after[k],
            ) by {
                if k < at {
                    assert(r(before[j], before[k]));
                } else if k == at {
                    assert(ranks_before(before[j], entry));
                } else if j < at {
                    assert(r(before[j], before[k - 1]));
                } else if j == at {
                    assert(r(before[at as int], entry) || r(entry, before[at as int]));
                    if k - 1 > at {
                        assert(r(before[at as int], before[k - 1]));
                        assert(r(entry, before[at as int]) && r(before[at as int], before[k - 1])
                            ==> r(entry, before[k - 1]));
                    }
                } else {
                    assert(r(before[j - 1], before[k - 1]));
                }
            }
        }
        i += 1;
    }
    proof {
        assert(given.take(words@.len() as int) == given);
        lemma_ranked_unique(given, entries_of(sorted@));
    }
    sorted
}

} // verus!
