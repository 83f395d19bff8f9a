//! What the rounds of a game tell about the solution: for each character the
//! positions it is confirmed at, the positions it is rejected at, and the
//! range of how often it occurs.

use std::collections::{HashMap, HashSet};
use std::ops::Range;
use vstd::prelude::*;
use vstd::std_specs::hash::group_hash_axioms;
use vstd::std_specs::iter::IteratorSpec;

use crate::game::evaluation::{Evaluation, EvaluationUnit};
use crate::game::response::{evaluations_of, GuessResponse, Status};
use crate::game::rounds_of;
use crate::game::scoring::marked;
use crate::text::{chars_of, count_char, count_where, lemma_codes_differ, occurrences};
use crate::wlist::word::Word;

verus! {

/// The constraints by character, keyed by the character's code.
pub type CharMap = HashMap<u32, CharInfo>;

/// What is known of one character.
#[derive(Debug, PartialEq, Eq)]
pub struct CharInfo {
    confirmed_indexes: HashSet<usize>,
    bad_indexes: HashSet<usize>,
    occurences_amount: Range<usize>,
}

/// What the rounds so far tell about the solution.
#[derive(Debug, PartialEq, Eq)]
pub struct SolverState {
    char_map: CharMap,
    pattern: Vec<Option<char>>,
}

/// What is known of one character, as plain values.
pub ghost struct CharConstraint {
    /// The positions at which the character was matched.
    pub confirmed: Set<usize>,
    /// The positions at which the character was guessed and not matched.
    pub rejected: Set<usize>,
    /// The solution holds the character at least this often.
    pub min: nat,
    /// The solution holds the character at most this often.
    pub max: nat,
}

/// What is known of a character before it has been guessed, in a game of
/// words of the given length.
pub open spec fn unknown(length: nat) -> CharConstraint {
    CharConstraint { confirmed: Set::empty(), rejected: Set::empty(), min: 0, max: length }
}

impl CharConstraint {
    /// The character is known to occur in the solution.
    pub open spec fn part_of_solution(self) -> bool {
        self.min > 0 && self.max > 0
    }

    /// The constraint allows `word` where `c` is concerned: `c` occurs in it
    /// as often as the range asks, and at no rejected position.
    pub open spec fn allows(self, c: char, word: Seq<char>) -> bool {
        &&& self.min <= occurrences(word, c) <= self.max
        &&& forall|i: int| 0 <= i < word.len() && word[i] == c ==> !self.rejected.contains(i as usize)
    }
}

/// What the rounds so far tell about the solution, as plain values.
pub ghost struct Constraints {
    /// For each position the character that was matched there, if any was.
    pub pattern: Seq<Option<char>>,
    /// What is known of each character that was guessed.
    pub per_char: Map<char, CharConstraint>,
}

/// The constraints of a map that is keyed by character codes, by character.
pub open spec fn per_char_of(map: Map<u32, CharInfo>) -> Map<char, CharConstraint> {
    Map::new(|c: char| map.contains_key(c as u32), |c: char| map[c as u32]@)
}

/// What is known of `c`: what was recorded of it, or that it is unknown.
pub open spec fn known(per_char: Map<char, CharConstraint>, c: char, length: nat) -> CharConstraint {
    if per_char.contains_key(c) {
        per_char[c]
    } else {
        unknown(length)
    }
}

/// What is known of a character after it was guessed at position `i` with the
/// given status, `tally` being how often the same round has marked the
/// character as matched or existing before that position.
///
/// A matched letter confirms its position, any other rejects it. A matched or
/// existing letter raises the least number of occurrences to the tally with
/// this letter counted in. A wrong letter after a tally of at least one lowers
/// the greatest number of occurrences to that tally.
pub open spec fn observed(known: CharConstraint, i: usize, status: Status, tally: nat) -> CharConstraint {
    match status {
        Status::Matched => CharConstraint {
            confirmed: known.confirmed.insert(i),
            min: if known.min < tally + 1 { tally + 1 } else { known.min },
            ..known
        },
        Status::Exists => CharConstraint {
            rejected: known.rejected.insert(i),
            min: if known.min < tally + 1 { tally + 1 } else { known.min },
            ..known
        },
        Status::Wrong => CharConstraint {
            rejected: known.rejected.insert(i),
            max: if tally >= 1 && known.max > tally { tally } else { known.max },
            ..known
        },
    }
}

/// The constraints after position `i` of a round has been taken in.
pub open spec fn observe(state: Constraints, length: nat, units: Seq<EvaluationUnit>, i: int) -> Constraints {
    let c = units[i].0;
    let status = units[i].1;
    let tally = count_where(i as nat, marked(units, c));
    Constraints {
        pattern: if status == Status::Matched && i < state.pattern.len() {
            state.pattern.update(i, Some(c))
        } else {
            state.pattern
        },
        per_char: state.per_char.insert(
            c,
            observed(known(state.per_char, c, length), i as usize, status, tally),
        ),
    }
}

/// The constraints after the first `n` positions of a round have been taken
/// in, from the left.
pub open spec fn observe_round(state: Constraints, length: nat, units: Seq<EvaluationUnit>, n: nat) -> Constraints
    decreases n,
{
    if n == 0 {
        state
    } else {
        observe(observe_round(state, length, units, (n - 1) as nat), length, units, n - 1)
    }
}

/// The constraints at the start of a game of words of the given length:
/// nothing is matched and no character is known.
pub open spec fn blank(length: nat) -> Constraints {
    Constraints { pattern: Seq::new(length, |i: int| None::<char>), per_char: Map::empty() }
}

/// The constraints that a history of rounds amounts to, each round taken in
/// after the ones before it.
pub open spec fn fold_rounds(length: nat, rounds: Seq<Seq<EvaluationUnit>>) -> Constraints
    decreases rounds.len(),
{
    if rounds.len() == 0 {
        blank(length)
    } else {
        observe_round(
            fold_rounds(length, rounds.drop_last()),
            length,
            rounds.last(),
            rounds.last().len(),
        )
    }
}

/// The word has the length of the pattern and holds, at each position at
/// which a character is matched, that character.
pub open spec fn fits_pattern(pattern: Seq<Option<char>>, word: Seq<char>) -> bool {
    &&& word.len() == pattern.len()
    &&& forall|i: int| 0 <= i < pattern.len() && pattern[i] is Some ==> word[i] == pattern[i]->0
}

impl Constraints {
    /// The constraints leave `word` in play: it fits the pattern, and every
    /// character that was guessed occurs in it as often as its range asks
    /// and at none of its rejected positions.
    pub open spec fn admits(self, word: Seq<char>) -> bool {
        &&& fits_pattern(self.pattern, word)
        &&& forall|c: char| #[trigger]
            self.per_char.contains_key(c) ==> self.per_char[c].allows(c, word)
    }
}

impl CharConstraint {
    /// `later` says all that this constraint says, and maybe more: its range
    /// lies within this one's, and it holds all positions that this one holds.
    pub open spec fn tightened_to(self, later: CharConstraint) -> bool {
        &&& self.min <= later.min
        &&& later.max <= self.max
        &&& self.confirmed.subset_of(later.confirmed)
        &&& self.rejected.subset_of(later.rejected)
    }

    /// No word has the character as often as the constraint asks.
    pub open spec fn impossible(self) -> bool {
        self.min > self.max
    }
}

impl Constraints {
    /// `later` knows every character that these constraints know, and says of
    /// each character all that these say of it.
    pub open spec fn tightened_to(self, later: Constraints, length: nat) -> bool {
        &&& later.pattern.len() == self.pattern.len()
        &&& forall|c: char| #[trigger]
            self.per_char.contains_key(c) ==> later.per_char.contains_key(c)
        &&& forall|c: char| #[trigger]
            known(self.per_char, c, length).tightened_to(known(later.per_char, c, length))
    }
}

/// Taking in a position of a round only tightens what is known: no range
/// grows, and no position is forgotten.
pub proof fn lemma_observe_tightens(state: Constraints, length: nat, units: Seq<EvaluationUnit>, i: int)
    requires
        0 <= i < units.len(),
    ensures
        state.tightened_to(observe(state, length, units, i), length),
{
}

/// Taking in a round only tightens what is known.
pub proof fn lemma_observe_round_tightens(
    state: Constraints,
    length: nat,
    units: Seq<EvaluationUnit>,
    n: nat,
)
    requires
        n <= units.len(),
    ensures
        state.tightened_to(observe_round(state, length, units, n), length),
    decreases n,
{
    if n > 0 {
        let before = observe_round(state, length, units, (n - 1) as nat);
        lemma_observe_round_tightens(state, length, units, (n - 1) as nat);
        lemma_observe_tightens(before, length, units, n - 1);
        let after = observe(before, length, units, n - 1);
        assert forall|c: char| #[trigger]
            known(state.per_char, c, length).tightened_to(known(after.per_char, c, length)) by {
            assert(known(state.per_char, c, length).tightened_to(
                known(before.per_char, c, length),
            ));
            assert(known(before.per_char, c, length).tightened_to(known(after.per_char, c, length)));
        }
        assert forall|c: char| #[trigger]
            state.per_char.contains_key(c) implies after.per_char.contains_key(c) by {
            assert(before.per_char.contains_key(c));
        }
    }
}

/// What the first `k` rounds of a history tell is only tightened by the
/// rounds that follow: the range of a character only ever shrinks.
pub proof fn lemma_fold_tightens(length: nat, rounds: Seq<Seq<EvaluationUnit>>, k: int)
    requires
        0 <= k <= rounds.len(),
    ensures
        fold_rounds(length, rounds.take(k)).tightened_to(fold_rounds(length, rounds), length),
    decreases rounds.len(),
{
    if k == rounds.len() {
        assert(rounds.take(k) == rounds);
    } else {
        let front = rounds.drop_last();
        assert(front.take(k) == rounds.take(k));
        lemma_fold_tightens(length, front, k);
        let early = fold_rounds(length, rounds.take(k));
        let before = fold_rounds(length, front);
        let after = fold_rounds(length, rounds);
        lemma_observe_round_tightens(before, length, rounds.last(), rounds.last().len());
        assert forall|c: char| #[trigger]
            known(early.per_char, c, length).tightened_to(known(after.per_char, c, length)) by {
            assert(known(early.per_char, c, length).tightened_to(
                known(before.per_char, c, length),
            ));
            assert(known(before.per_char, c, length).tightened_to(known(after.per_char, c, length)));
        }
        assert forall|c: char| #[trigger]
            early.per_char.contains_key(c) implies after.per_char.contains_key(c) by {
            assert(before.per_char.contains_key(c));
        }
    }
}

/// A word that a constraint allows is allowed by every constraint that says
/// less.
pub proof fn lemma_allowed_before(
    earlier: CharConstraint,
    later: CharConstraint,
    c: char,
    word: Seq<char>,
)
    requires
        earlier.tightened_to(later),
        later.allows(c, word),
    ensures
        earlier.allows(c, word),
{
}

/// A character of which nothing is known is allowed in every word that is no
/// longer than the words of the game.
pub proof fn lemma_unknown_allows(length: nat, c: char, word: Seq<char>)
    requires
        word.len() <= length,
    ensures
        unknown(length).allows(c, word),
{
    crate::text::lemma_count_where_bound(word.len(), crate::text::holds(word, c));
}

/// A word that the constraints admit holds every character of which at
/// least one occurrence is asked.
pub proof fn lemma_admitted_holds_all(constraints: Constraints, word: Seq<char>)
    requires
        constraints.admits(word),
    ensures
        holds_all(constraints.per_char, word, false),
{
    assert forall|c: char| #[trigger]
        constraints.per_char.contains_key(c) && asked_for(
            constraints.per_char[c],
            false,
        ) implies word.contains(c) by {
        assert(constraints.per_char[c].allows(c, word));
        crate::text::lemma_occurrences_zero(word, c);
    }
}

/// Constraints that ask the impossible of some character admit no word.
pub proof fn lemma_impossible_admits_nothing(constraints: Constraints, c: char, word: Seq<char>)
    requires
        constraints.per_char.contains_key(c),
        constraints.per_char[c].impossible(),
    ensures
        !constraints.admits(word),
{
    assert(!constraints.per_char[c].allows(c, word));
}

/// Folding is a function of the history: two states that the same rounds
/// amount to are equal.
pub proof fn lemma_fold_deterministic(
    length: nat,
    rounds: Seq<Seq<EvaluationUnit>>,
    first: Constraints,
    second: Constraints,
)
    requires
        first == fold_rounds(length, rounds),
        second == fold_rounds(length, rounds),
    ensures
        first == second,
{
}

/// A character is asked for: it occurs at least once, and, where
/// `with_max` is set, its greatest number of occurrences is not zero.
pub open spec fn asked_for(known: CharConstraint, with_max: bool) -> bool {
    known.min > 0 && (with_max ==> known.max > 0)
}

/// The word holds every character that is asked for.
pub open spec fn holds_all(per_char: Map<char, CharConstraint>, word: Seq<char>, with_max: bool) -> bool {
    forall|c: char| #[trigger]
        per_char.contains_key(c) && asked_for(per_char[c], with_max) ==> word.contains(c)
}

/// The code is the code of a character.
pub open spec fn is_char_code(code: u32) -> bool {
    code < 0xD800 || (0xE000 <= code && code <= 0x10FFFF)
}

/// One of the first `n` letters of the round has the given code.
pub open spec fn guessed_code(units: Seq<EvaluationUnit>, n: nat, code: u32) -> bool {
    exists|j: int| 0 <= j < n && #[trigger] units[j].0 as u32 == code
}

/// Every key of the map is the code of a character.
pub open spec fn codes_only(map: Map<u32, CharInfo>) -> bool {
    forall|code: u32| #[trigger] map.contains_key(code) ==> is_char_code(code)
}

/// Whether some letter has the given code.
fn has_code(letters: &Vec<char>, code: u32) -> (found: bool)
    ensures
        found == exists|j: int| 0 <= j < letters.len() && #[trigger] letters[j] as u32 == code,
{
    let mut j: usize = 0;
    while j < letters.len()
        invariant
            j <= letters.len(),
            forall|k: int| 0 <= k < j ==> #[trigger] letters[k] as u32 != code,
        decreases letters.len() - j,
    {
        if letters[j] as u32 == code {
            return true;
        }
        j += 1;
    }
    false
}

impl View for SolverState {
    type V = Constraints;

    closed spec fn view(&self) -> Constraints {
        Constraints { pattern: self.pattern@, per_char: per_char_of(self.char_map@) }
    }
}

/// How often the round marks `c` as matched or existing before position `i`.
fn marks_before(units: &Vec<EvaluationUnit>, i: usize, c: char) -> (tally: usize)
    requires
        i <= units.len(),
    ensures
        tally == count_where(i as nat, marked(units@, c)),
        tally <= i,
{
    let mut tally: usize = 0;
    let mut j: usize = 0;
    while j < i
        invariant
            j <= i,
            i <= units.len(),
            tally == count_where(j as nat, marked(units@, c)),
            tally <= j,
        decreases i - j,
    {
        let unit = units[j];
        if unit.0 == c && unit.1 != Status::Wrong {
            tally += 1;
        }
        j += 1;
    }
    tally
}

impl SolverState {
    /// The state in which no position and no character is known.
    pub fn new() -> (state: Self)
        ensures
            state@ == blank(0),
            state.char_map_spec() == Map::<u32, CharInfo>::empty(),
    {
        let state = Self { char_map: HashMap::new(), pattern: Vec::new() };
        assert(state@.pattern =~= blank(0).pattern);
        assert(state@.per_char =~= blank(0).per_char);
        state
    }

    /// The state at the start of a game of words of the given length.
    pub fn start(length: usize) -> (state: Self)
        ensures
            state@ == blank(length as nat),
            state.char_map_spec() == Map::<u32, CharInfo>::empty(),
    {
        let mut pattern: Vec<Option<char>> = Vec::new();
        let mut i: usize = 0;
        while i < length
            invariant
                i <= length,
                pattern.len() == i,
                forall|j: int| 0 <= j < i ==> pattern[j] == None::<char>,
            decreases length - i,
        {
            pattern.push(None);
            i += 1;
        }
        let state = Self { char_map: HashMap::new(), pattern };
        assert(state@.pattern =~= blank(length as nat).pattern);
        assert(state@.per_char =~= blank(length as nat).per_char);
        state
    }

    /// The constraints by the code of their character.
    pub closed spec fn char_map_spec(&self) -> Map<u32, CharInfo> {
        self.char_map@
    }

    pub fn char_map(&self) -> (map: &CharMap)
        ensures
            map@ == self.char_map_spec(),
            per_char_of(map@) == self@.per_char,
    {
        &self.char_map
    }

    pub fn char_map_mut(&mut self) -> (map: &mut CharMap)
        ensures
            map@ == old(self).char_map_spec(),
            final(self).char_map_spec() == final(map)@,
            per_char_of(map@) == old(self)@.per_char,
            final(self)@ == (Constraints {
                per_char: per_char_of(final(map)@),
                ..old(self)@
            }),
    {
        &mut self.char_map
    }

    /// For each position the character that was matched there, if any was.
    pub fn pattern(&self) -> (pattern: &Vec<Option<char>>)
        ensures
            pattern@ == self@.pattern,
    {
        &self.pattern
    }

    /// Takes in position `i` of a round.
    pub fn observe(&mut self, length: usize, units: &Vec<EvaluationUnit>, i: usize)
        requires
            i < units.len(),
        ensures
            final(self)@ == observe(old(self)@, length as nat, units@, i as int),
            final(self).char_map_spec().dom() == old(self).char_map_spec().dom().insert(
                units[i as int].0 as u32,
            ),
            forall|code: u32|
                code != units[i as int].0 as u32 && #[trigger] old(self).char_map_spec().contains_key(
                    code,
                ) ==> final(self).char_map_spec()[code] == old(self).char_map_spec()[code],
    {
        self.observe_unit(length, units, i, units[i].0, units[i].1);
    }

    fn observe_unit(
        &mut self,
        length: usize,
        units: &Vec<EvaluationUnit>,
        i: usize,
        c: char,
        status: Status,
    )
        requires
            i < units.len(),
            units[i as int] == (c, status),
        ensures
            final(self)@ == observe(old(self)@, length as nat, units@, i as int),
            final(self).char_map_spec().dom() == old(self).char_map_spec().dom().insert(c as u32),
            forall|code: u32|
                code != c as u32 && #[trigger] old(self).char_map_spec().contains_key(code)
                    ==> final(self).char_map_spec()[code] == old(self).char_map_spec()[code],
    {
        broadcast use group_hash_axioms;

        let tally = marks_before(units, i, c);
        if status == Status::Matched && i < self.pattern.len() {
            self.pattern.set(i, Some(c));
        }
        let ghost before = self.char_map@;
        let code = c as u32;
        let info = self.char_map.entry(code).or_insert(CharInfo::new(length));
        info.take_in(i, status, tally);
        proof {
            let target = observe(old(self)@, length as nat, units@, i as int);
            assert(self.char_map@.contains_key(code));
            assert(self.char_map@[code]@ == observed(
                known(old(self)@.per_char, c, length as nat),
                i,
                status,
                tally as nat,
            ));
            assert(forall|k: u32|
                k != code ==> self.char_map@.contains_key(k) == before.contains_key(k));
            assert(forall|k: u32|
                k != code && before.contains_key(k) ==> self.char_map@[k] == before[k]);
            assert forall|d: char| #[trigger]
                self@.per_char.contains_key(d) == target.per_char.contains_key(d) by {
                lemma_codes_differ(d, c);
            }
            assert forall|d: char| #[trigger]
                target.per_char.contains_key(d) implies self@.per_char[d] == target.per_char[d] by {
                lemma_codes_differ(d, c);
            }
            assert(self@.per_char =~= target.per_char);
            assert(self@.pattern =~= target.pattern);
            assert(self.char_map@.dom() =~= before.dom().insert(code));
        }
    }

    /// Whether the letters hold every character that is asked for.
    fn check_required(&self, letters: &Vec<char>, with_max: bool) -> (held: bool)
        ensures
            held == holds_all(self@.per_char, letters@, with_max),
    {
        broadcast use group_hash_axioms;

        let ghost map = self.char_map@;
        for pair in it: self.char_map.iter()
            invariant
                map == self.char_map@,
                it.seq() == vstd::std_specs::hash::spec_hash_map_iter(&self.char_map).remaining(),
                forall|j: int|
                    0 <= j < it.index() && is_char_code(*(#[trigger] it.seq()[j]).0) && asked_for(
                        (*it.seq()[j].1)@,
                        with_max,
                    ) ==> exists|k: int|
                        0 <= k < letters.len() && #[trigger] letters[k] as u32 == *it.seq()[j].0,
        {
            let code = *pair.0;
            let info = pair.1;
            let is_char = code < 0xD800 || (0xE000 <= code && code <= 0x10FFFF);
            let asked = info.occurences_amount.start > 0 && (!with_max
                || info.occurences_amount.end > 0);
            if is_char && asked && !has_code(letters, code) {
                proof {
                    let c = code as char;
                    assert(map.contains_key(code));
                    assert(self@.per_char.contains_key(c));
                    assert(asked_for(self@.per_char[c], with_max));
                    if letters@.contains(c) {
                        let k = choose|k: int| 0 <= k < letters.len() && letters[k] == c;
                        assert(letters[k] as u32 == code);
                    }
                }
                return false;
            }
        }
        proof {
            let seq = vstd::std_specs::hash::spec_hash_map_iter(&self.char_map).remaining();
            assert forall|c: char| #[trigger]
                self@.per_char.contains_key(c) && asked_for(
                    self@.per_char[c],
                    with_max,
                ) implies letters@.contains(c) by {
                let code = c as u32;
                assert(map.contains_key(code));
                assert(seq.contains((&code, &map[code])));
                let j = choose|j: int| 0 <= j < seq.len() && seq[j] == (&code, &map[code]);
                assert(is_char_code(*seq[j].0)) by {
                    crate::text::lemma_code_of_char(c);
                }
                let k = choose|k: int|
                    0 <= k < letters.len() && #[trigger] letters[k] as u32 == *seq[j].0;
                lemma_codes_differ(letters[k], c);
                assert(letters@[k] == c);
            }
        }
        true
    }

    /// The entries of the characters that are known to be part of the
    /// solution, each by the code of its character, in no said order.
    pub fn get_all_known_contained(&self) -> (known: Vec<(&u32, &CharInfo)>)
        ensures
            forall|j: int|
                0 <= j < known.len() ==> self.char_map_spec().contains_key(*(#[trigger] known[j]).0)
                    && self.char_map_spec()[*known[j].0] == *known[j].1
                    && known[j].1@.part_of_solution(),
            forall|code: u32| #[trigger]
                self.char_map_spec().contains_key(code)
                    && self.char_map_spec()[code]@.part_of_solution() ==> exists|j: int|
                    0 <= j < known.len() && *(#[trigger] known[j]).0 == code,
    {
        broadcast use group_hash_axioms;

        let ghost map = self.char_map@;
        let mut known: Vec<(&u32, &CharInfo)> = Vec::new();
        for pair in it: self.char_map.iter()
            invariant
                map == self.char_map@,
                it.seq() == vstd::std_specs::hash::spec_hash_map_iter(&self.char_map).remaining(),
                forall|j: int|
                    0 <= j < known.len() ==> map.contains_key(*(#[trigger] known[j]).0)
                        && map[*known[j].0] == *known[j].1 && known[j].1@.part_of_solution(),
                forall|i: int|
                    0 <= i < it.index() && (*(#[trigger] it.seq()[i]).1)@.part_of_solution()
                        ==> exists|j: int|
                        0 <= j < known.len() && *(#[trigger] known[j]).0 == *it.seq()[i].0,
        {
            if pair.1.part_of_solution() {
                let ghost before = known@;
                known.push(pair);
                proof {
                    let last = known.len() - 1;
                    assert(*known[last as int].0 == *pair.0);
                    assert forall|i: int|
                        0 <= i < it.index() + 1 && (*(#[trigger] it.seq()[i]).1)@.part_of_solution() implies exists|
                        j: int,
                    |
                        0 <= j < known.len() && *(#[trigger] known[j]).0 == *it.seq()[i].0 by {
                        if i < it.index() {
                            let j = choose|j: int|
                                0 <= j < before.len() && *(#[trigger] before[j]).0
                                    == *it.seq()[i].0;
                            assert(*known[j].0 == *it.seq()[i].0);
                        } else {
                            assert(*known[last as int].0 == *it.seq()[i].0);
                        }
                    }
                }
            }
        }
        proof {
            let seq = vstd::std_specs::hash::spec_hash_map_iter(&self.char_map).remaining();
            assert forall|code: u32| #[trigger]
                map.contains_key(code) && map[code]@.part_of_solution() implies exists|j: int|
                0 <= j < known.len() && *(#[trigger] known[j]).0 == code by {
                assert(seq.contains((&code, &map[code])));
                let i = choose|i: int| 0 <= i < seq.len() && seq[i] == (&code, &map[code]);
                assert((*seq[i].1)@.part_of_solution());
            }
        }
        known
    }

    /// Whether `guess` holds every character that is known to be part of the
    /// solution.
    pub fn has_all_known_contained(&self, guess: &Word) -> (held: bool)
        ensures
            held == holds_all(self@.per_char, guess@, true),
    {
        let letters = chars_of(guess.as_str());
        self.check_required(&letters, true)
    }

    /// Whether the letter at position `idx` is allowed there: nothing is
    /// known of it, or it occurs in the word as often as its range asks and
    /// was not rejected at this position.
    fn letter_allowed(&self, letters: &Vec<char>, idx: usize, c: char) -> (allowed: bool)
        requires
            idx < letters.len(),
            letters[idx as int] == c,
        ensures
            allowed == (self@.per_char.contains_key(c) ==> {
                &&& self@.per_char[c].min <= occurrences(letters@, c) <= self@.per_char[c].max
                &&& !self@.per_char[c].rejected.contains(idx)
            }),
    {
        broadcast use group_hash_axioms;

        let code = c as u32;
        match self.char_map.get(&code) {
            Some(info) => {
                let occ = count_char(letters, c);
                info.occurences_amount.start <= occ && occ <= info.occurences_amount.end
                    && !info.has_been_tried(idx)
            },
            None => true,
        }
    }

    /// Whether the constraints leave `word` in play.
    pub fn admits(&self, word: &Word) -> (admitted: bool)
        ensures
            admitted == self@.admits(word@),
    {
        let letters = chars_of(word.as_str());
        if letters.len() != self.pattern.len() {
            return false;
        }
        let mut i: usize = 0;
        while i < letters.len()
            invariant
                i <= letters.len(),
                letters@ == word@,
                letters.len() == self.pattern.len(),
                forall|j: int|
                    0 <= j < i && self.pattern[j] is Some ==> letters[j] == self.pattern[j]->0,
                forall|j: int|
                    0 <= j < i && self@.per_char.contains_key(#[trigger] letters[j]) ==> {
                        &&& self@.per_char[letters[j]].min <= occurrences(letters@, letters[j])
                            <= self@.per_char[letters[j]].max
                        &&& !self@.per_char[letters[j]].rejected.contains(j as usize)
                    },
            decreases letters.len() - i,
        {
            let fixed = match self.pattern[i] {
                Some(c) => c == letters[i],
                None => true,
            };
            if !fixed {
                return false;
            }
            if !self.letter_allowed(&letters, i, letters[i]) {
                proof {
                    let c = letters[i as int];
                    assert(self@.per_char.contains_key(c));
                    assert(!self@.per_char[c].allows(c, word@));
                }
                return false;
            }
            i += 1;
        }
        if !self.check_required(&letters, false) {
            proof {
                let c = choose|c: char| #[trigger]
                    self@.per_char.contains_key(c) && asked_for(self@.per_char[c], false)
                        && !letters@.contains(c);
                crate::text::lemma_occurrences_zero(word@, c);
                assert(!self@.per_char[c].allows(c, word@));
            }
            return false;
        }
        proof {
            assert forall|c: char| #[trigger] self@.per_char.contains_key(c) implies self@.per_char[c].allows(
                c,
                word@,
            ) by {
                crate::text::lemma_occurrences_zero(word@, c);
                if word@.contains(c) {
                    let j = choose|j: int| 0 <= j < word@.len() && word@[j] == c;
                    assert(letters[j] == c);
                }
            }
        }
        true
    }

    /// The state that the rounds of a game of words of the given length
    /// amount to.
    pub fn fold(length: usize, responses: &Vec<GuessResponse>) -> (state: Self)
        ensures
            state@ == fold_rounds(length as nat, evaluations_of(rounds_of(responses@))),
            codes_only(state.char_map_spec()),
    {
        let ghost rounds = evaluations_of(rounds_of(responses@));
        let mut state = Self::start(length);
        let mut i: usize = 0;
        assert(rounds.take(0) =~= Seq::<Seq<EvaluationUnit>>::empty());
        while i < responses.len()
            invariant
                i <= responses.len(),
                rounds == evaluations_of(rounds_of(responses@)),
                state@ == fold_rounds(length as nat, rounds.take(i as int)),
                codes_only(state.char_map_spec()),
            decreases responses.len() - i,
        {
            state.observe_round(length, responses[i].evaluation());
            proof {
                let next = rounds.take(i + 1);
                assert(next.drop_last() == rounds.take(i as int));
                assert(next.last() == responses[i as int]@.evaluation);
            }
            i += 1;
        }
        assert(rounds.take(responses@.len() as int) == rounds);
        state
    }

    /// Takes in a round, position by position from the left.
    pub fn observe_round(&mut self, length: usize, evaluation: &Evaluation)
        ensures
            final(self)@ == observe_round(
                old(self)@,
                length as nat,
                evaluation@,
                evaluation@.len(),
            ),
            forall|code: u32| #[trigger]
                final(self).char_map_spec().contains_key(code) <==> old(
                    self,
                ).char_map_spec().contains_key(code) || guessed_code(
                    evaluation@,
                    evaluation@.len(),
                    code,
                ),
            codes_only(old(self).char_map_spec()) ==> codes_only(final(self).char_map_spec()),
    {
        let units = evaluation.inner();
        let mut i: usize = 0;
        while i < units.len()
            invariant
                i <= units.len(),
                units@ == evaluation@,
                self@ == observe_round(old(self)@, length as nat, evaluation@, i as nat),
                forall|code: u32| #[trigger]
                    self.char_map_spec().contains_key(code) <==> old(
                        self,
                    ).char_map_spec().contains_key(code) || guessed_code(
                        evaluation@,
                        i as nat,
                        code,
                    ),
            decreases units.len() - i,
        {
            let ghost before = self.char_map_spec();
            self.observe(length, units, i);
            proof {
                let added = units[i as int].0 as u32;
                assert(guessed_code(evaluation@, (i + 1) as nat, added));
                assert forall|code: u32| #[trigger]
                    self.char_map_spec().contains_key(code) <==> old(
                        self,
                    ).char_map_spec().contains_key(code) || guessed_code(
                        evaluation@,
                        (i + 1) as nat,
                        code,
                    ) by {
                    assert(self.char_map_spec().dom().contains(code) == before.dom().insert(
                        added,
                    ).contains(code));
                    if guessed_code(evaluation@, (i + 1) as nat, code) && code != added {
                        let j = choose|j: int|
                            0 <= j < i + 1 && #[trigger] evaluation@[j].0 as u32 == code;
                        assert(guessed_code(evaluation@, i as nat, code));
                    }
                    if guessed_code(evaluation@, i as nat, code) {
                        let j = choose|j: int|
                            0 <= j < i && #[trigger] evaluation@[j].0 as u32 == code;
                        assert(evaluation@[j].0 as u32 == code);
                    }
                }
            }
            i += 1;
        }
        proof {
            if codes_only(old(self).char_map_spec()) {
                assert forall|code: u32| #[trigger]
                    self.char_map_spec().contains_key(code) implies is_char_code(code) by {
                    if !old(self).char_map_spec().contains_key(code) {
                        let j = choose|j: int|
                            0 <= j < evaluation@.len() && #[trigger] evaluation@[j].0 as u32
                                == code;
                        crate::text::lemma_code_of_char(evaluation@[j].0);
                    }
                }
            }
        }
    }
}

/// A copy of a set of positions.
fn clone_indexes(indexes: &HashSet<usize>) -> (copy: HashSet<usize>)
    ensures
        copy@ == indexes@,
{
    broadcast use group_hash_axioms;

    let mut copy: HashSet<usize> = HashSet::new();
    for index in it: indexes.iter()
        invariant
            it.seq() == vstd::std_specs::hash::spec_hash_keys_iter(indexes).remaining(),
            forall|x: usize|
                copy@.contains(x) <==> exists|j: int|
                    0 <= j < it.index() && *(#[trigger] it.seq()[j]) == x,
    {
        let ghost before = copy@;
        let ghost at = it.index();
        copy.insert(*index);
        proof {
            assert forall|x: usize| copy@.contains(x) implies exists|j: int|
                0 <= j < at + 1 && *(#[trigger] it.seq()[j]) == x by {
                if before.contains(x) {
                    let j = choose|j: int| 0 <= j < at && *(#[trigger] it.seq()[j]) == x;
                    assert(*it.seq()[j] == x);
                } else {
                    assert(*it.seq()[at] == x);
                }
            }
        }
    }
    proof {
        let seq = vstd::std_specs::hash::spec_hash_keys_iter(indexes).remaining();
        assert forall|x: usize| copy@.contains(x) == indexes@.contains(x) by {
            if copy@.contains(x) {
                let j = choose|j: int| 0 <= j < seq.len() && *(#[trigger] seq[j]) == x;
                assert(seq.unref()[j] == x);
                assert(seq.unref().contains(x));
            }
            if indexes@.contains(x) {
                assert(seq.unref().to_set().contains(x));
                assert(seq.unref().contains(x));
                let j = choose|j: int| 0 <= j < seq.unref().len() && seq.unref()[j] == x;
                assert(*seq[j] == x);
            }
        }
        assert(copy@ =~= indexes@);
    }
    copy
}

impl Clone for CharInfo {
    fn clone(&self) -> (copy: Self)
        ensures
            copy@ == self@,
    {
        CharInfo {
            confirmed_indexes: clone_indexes(&self.confirmed_indexes),
            bad_indexes: clone_indexes(&self.bad_indexes),
            occurences_amount: self.occurences_amount.start..self.occurences_amount.end,
        }
    }
}

impl Clone for SolverState {
    fn clone(&self) -> (copy: Self)
        ensures
            copy@ == self@,
    {
        let mut pattern: Vec<Option<char>> = Vec::new();
        let mut i: usize = 0;
        while i < self.pattern.len()
            invariant
                i <= self.pattern.len(),
                pattern@ == self.pattern@.take(i as int),
            decreases self.pattern.len() - i,
        {
            pattern.push(self.pattern[i]);
            i += 1;
        }
        assert(self.pattern@.take(self.pattern@.len() as int) == self.pattern@);
        SolverState { char_map: self.char_map.clone(), pattern }
    }
}

impl View for CharInfo {
    type V = CharConstraint;

    closed spec fn view(&self) -> CharConstraint {
        CharConstraint {
            confirmed: self.confirmed_indexes@,
            rejected: self.bad_indexes@,
            min: self.occurences_amount.start as nat,
            max: self.occurences_amount.end as nat,
        }
    }
}

impl CharInfo {
    pub fn new(word_length: usize) -> (info: Self)
        ensures
            info@ == unknown(word_length as nat),
    {
        Self {
            confirmed_indexes: HashSet::new(),
            bad_indexes: HashSet::new(),
            occurences_amount: 0..word_length,
        }
    }

    /// the char was matched at this position, so it occurs at least once
    pub fn found_at(&mut self, idx: usize)
        ensures
            final(self)@ == (CharConstraint {
                confirmed: old(self)@.confirmed.insert(idx),
                min: if old(self)@.min < 1 { 1 } else { old(self)@.min },
                ..old(self)@
            }),
    {
        broadcast use group_hash_axioms;

        self.confirmed_indexes.insert(idx);

        if self.occurences_amount.start < 1 {
            self.occurences_amount.start = 1;
        }
    }

    /// tried to guess a char we know exists at this position, but it was incorrect
    pub fn tried_but_failed(&mut self, idx: usize)
        ensures
            final(self)@ == (CharConstraint {
                rejected: old(self)@.rejected.insert(idx),
                ..old(self)@
            }),
    {
        broadcast use group_hash_axioms;

        self.bad_indexes.insert(idx);
    }

    pub fn has_been_tried(&self, idx: usize) -> (tried: bool)
        ensures
            tried == self@.rejected.contains(idx),
    {
        broadcast use group_hash_axioms;

        self.bad_indexes.contains(&idx)
    }

    #[must_use]
    pub fn part_of_solution(&self) -> (part: bool)
        ensures
            part == self@.part_of_solution(),
    {
        self.occurences_amount.start > 0 && self.occurences_amount.end > 0
    }

    /// Raises the least number of occurrences to `min`, if it is lower: the
    /// range never grows.
    pub fn min_occurences(&mut self, min: usize)
        ensures
            final(self)@ == (CharConstraint {
                min: if old(self)@.min < min { min as nat } else { old(self)@.min },
                ..old(self)@
            }),
    {
        if self.occurences_amount.start < min {
            self.occurences_amount.start = min;
        }
    }

    /// Lowers the greatest number of occurrences to `max`, if it is higher:
    /// the range never grows.
    pub fn max_occurences(&mut self, max: usize)
        ensures
            final(self)@ == (CharConstraint {
                max: if old(self)@.max > max { max as nat } else { old(self)@.max },
                ..old(self)@
            }),
    {
        if self.occurences_amount.end > max {
            self.occurences_amount.end = max;
        }
    }

    /// Takes in that the character was guessed at position `i` with the given
    /// status, after `tally` earlier marks of it in the same round.
    pub fn take_in(&mut self, i: usize, status: Status, tally: usize)
        requires
            tally < usize::MAX,
        ensures
            final(self)@ == observed(old(self)@, i, status, tally as nat),
    {
        match status {
            Status::Matched => {
                self.found_at(i);
                self.min_occurences(tally + 1);
            },
            Status::Exists => {
                self.tried_but_failed(i);
                self.min_occurences(tally + 1);
            },
            Status::Wrong => {
                self.tried_but_failed(i);
                if tally >= 1 {
                    self.max_occurences(tally);
                }
            },
        }
    }

    pub fn confirmed_indexes(&self) -> (indexes: &HashSet<usize>)
        ensures
            indexes@ == self@.confirmed,
    {
        &self.confirmed_indexes
    }

    pub fn confirmed_indexes_mut(&mut self) -> (indexes: &mut HashSet<usize>)
        ensures
            indexes@ == old(self)@.confirmed,
            final(self)@ == (CharConstraint { confirmed: final(indexes)@, ..old(self)@ }),
    {
        &mut self.confirmed_indexes
    }

    pub fn tried_indexes(&self) -> (indexes: &HashSet<usize>)
        ensures
            indexes@ == self@.rejected,
    {
        &self.bad_indexes
    }

    pub fn tried_indexes_mut(&mut self) -> (indexes: &mut HashSet<usize>)
        ensures
            indexes@ == old(self)@.rejected,
            final(self)@ == (CharConstraint { rejected: final(indexes)@, ..old(self)@ }),
    {
        &mut self.bad_indexes
    }

    /// The range of occurrences: its start is the least and its end the
    /// greatest number, both included.
    pub fn occurences_amount(&self) -> (amount: &Range<usize>)
        ensures
            amount.start == self@.min,
            amount.end == self@.max,
    {
        &self.occurences_amount
    }

    /// Whether `character` occurs in the candidate as often as the range asks.
    pub fn occurences_of_char_possible(&self, solution_candidate: &str, character: char) -> (possible: bool)
        ensures
            possible == (self@.min <= occurrences(solution_candidate@, character) <= self@.max),
    {
        let occ = count_char(&chars_of(solution_candidate), character);

        self.occurences_amount.start <= occ && occ <= self.occurences_amount.end
    }
}

} // verus!
