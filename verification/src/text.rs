//! Words as sequences of characters: conversion between `String` and
//! `Vec<char>`, and the counting of positions.

use vstd::prelude::*;

verus! {

/// `String::push` appends one character to the string.
pub assume_specification[ String::push ](s: &mut String, c: char)
    ensures
        final(s)@ == old(s)@.push(c),
;

/// Different characters have different codes.
pub proof fn lemma_codes_differ(a: char, b: char)
    ensures
        (a as u32 == b as u32) == (a == b),
{
}

/// The code of a character is below the surrogates or above them, and no
/// greater than the greatest code.
pub proof fn lemma_code_of_char(c: char)
    ensures
        (c as u32) < 0xD800 || (0xE000 <= (c as u32) && (c as u32) <= 0x10FFFF),
{
}

/// The first `i + 1` items of a sequence are the first `i` and the item at `i`.
pub proof fn lemma_take_push<A>(s: Seq<A>, i: int)
    requires
        0 <= i < s.len(),
    ensures
        s.take(i + 1) == s.take(i).push(s[i]),
{
    assert(s.take(i + 1) =~= s.take(i).push(s[i]));
}

/// The characters of `s`, in order.
pub fn chars_of(s: &str) -> (v: Vec<char>)
    ensures
        v@ == s@,
{
    let mut v: Vec<char> = Vec::new();
    for c in it: s.chars()
        invariant
            it.seq() == s@,
            v@ == s@.take(it.index()),
    {
        v.push(c);
    }
    assert(s@.take(s@.len() as int) == s@);
    v
}

/// The string made of the characters of `v`, in order.
pub fn string_of(v: &Vec<char>) -> (s: String)
    ensures
        s@ == v@,
{
    let mut s = String::new();
    let mut i: usize = 0;
    while i < v.len()
        invariant
            i <= v.len(),
            s@ == v@.take(i as int),
        decreases v.len() - i,
    {
        s.push(v[i]);
        i += 1;
    }
    assert(v@.take(v@.len() as int) == v@);
    s
}

/// How many of the positions `0 .. n` satisfy `p`.
pub open spec fn count_where(n: nat, p: spec_fn(int) -> bool) -> nat
    decreases n,
{
    if n == 0 {
        0
    } else {
        count_where((n - 1) as nat, p) + if p(n - 1) {
            1nat
        } else {
            0nat
        }
    }
}

/// The positions of `word` that hold `c`.
pub open spec fn holds(word: Seq<char>, c: char) -> spec_fn(int) -> bool {
    |i: int| word[i] == c
}

/// How often `c` occurs in `word`.
pub open spec fn occurrences(word: Seq<char>, c: char) -> nat {
    count_where(word.len(), holds(word, c))
}

/// No more than `n` positions can satisfy a predicate.
pub proof fn lemma_count_where_bound(n: nat, p: spec_fn(int) -> bool)
    ensures
        count_where(n, p) <= n,
    decreases n,
{
    if n > 0 {
        lemma_count_where_bound((n - 1) as nat, p);
    }
}

/// Predicates that agree on `0 .. n` are satisfied equally often there.
pub proof fn lemma_count_where_agree(n: nat, p: spec_fn(int) -> bool, q: spec_fn(int) -> bool)
    requires
        forall|i: int| #![trigger p(i)] #![trigger q(i)] 0 <= i < n ==> p(i) == q(i),
    ensures
        count_where(n, p) == count_where(n, q),
    decreases n,
{
    if n > 0 {
        lemma_count_where_agree((n - 1) as nat, p, q);
    }
}

/// Where `p` holds exactly when one of the exclusive `q` and `r` holds, the
/// count of `p` is the sum of the counts of `q` and `r`.
pub proof fn lemma_count_where_split(
    n: nat,
    p: spec_fn(int) -> bool,
    q: spec_fn(int) -> bool,
    r: spec_fn(int) -> bool,
)
    requires
        forall|i: int| 0 <= i < n ==> #[trigger] p(i) == (q(i) || r(i)),
        forall|i: int| #![trigger q(i)] #![trigger r(i)] 0 <= i < n ==> !(q(i) && r(i)),
    ensures
        count_where(n, p) == count_where(n, q) + count_where(n, r),
    decreases n,
{
    if n > 0 {
        lemma_count_where_split((n - 1) as nat, p, q, r);
    }
}

/// A predicate that holds nowhere in `0 .. n` is counted zero times, and one
/// that holds somewhere there at least once.
pub proof fn lemma_count_where_zero(n: nat, p: spec_fn(int) -> bool)
    ensures
        count_where(n, p) == 0 <==> forall|i: int| 0 <= i < n ==> !#[trigger] p(i),
    decreases n,
{
    if n > 0 {
        lemma_count_where_zero((n - 1) as nat, p);
        if count_where(n, p) == 0 {
            assert forall|i: int| 0 <= i < n implies !#[trigger] p(i) by {
                if i >= n - 1 {
                    assert(i == n - 1);
                }
            }
        }
    }
}

/// Where `q` differs from `p` only at position `k`, at which `p` holds and `q`
/// does not, `q` is counted once less.
pub proof fn lemma_count_where_drop_one(
    n: nat,
    p: spec_fn(int) -> bool,
    q: spec_fn(int) -> bool,
    k: int,
)
    requires
        0 <= k < n,
        p(k),
        !q(k),
        forall|i: int| #![trigger p(i)] #![trigger q(i)] 0 <= i < n && i != k ==> p(i) == q(i),
    ensures
        count_where(n, q) + 1 == count_where(n, p),
    decreases n,
{
    if k == n - 1 {
        lemma_count_where_agree((n - 1) as nat, p, q);
    } else {
        lemma_count_where_drop_one((n - 1) as nat, p, q, k);
    }
}

/// A character occurs zero times in a word exactly if the word does not
/// hold it.
pub proof fn lemma_occurrences_zero(word: Seq<char>, c: char)
    ensures
        occurrences(word, c) == 0 <==> !word.contains(c),
{
    lemma_count_where_zero(word.len(), holds(word, c));
    if word.contains(c) {
        let j = choose|j: int| 0 <= j < word.len() && word[j] == c;
        assert(holds(word, c)(j));
    }
}

/// How often `c` occurs in `word`.
pub fn count_char(word: &Vec<char>, c: char) -> (n: usize)
    ensures
        n == occurrences(word@, c),
{
    let mut n: usize = 0;
    let mut i: usize = 0;
    while i < word.len()
        invariant
            i <= word.len(),
            n == count_where(i as nat, holds(word@, c)),
            n <= i,
        decreases word.len() - i,
    {
        if word[i] == c {
            n += 1;
        }
        i += 1;
    }
    n
}

} // verus!
