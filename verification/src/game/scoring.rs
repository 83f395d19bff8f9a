//! The scoring of a guess against a solution, letter by letter, with the
//! bookkeeping that repeated letters need.

use vstd::prelude::*;

use crate::game::evaluation::EvaluationUnit;
use crate::game::response::Status;
use crate::text::{
    count_where, holds, lemma_count_where_agree, lemma_count_where_drop_one,
    lemma_count_where_split, lemma_count_where_zero, occurrences,
};

verus! {

/// The positions at which `word` holds `c` and `other` does not: the
/// occurrences of `c` in `word` that no exact match accounts for.
pub open spec fn unpaired(word: Seq<char>, other: Seq<char>, c: char) -> spec_fn(int) -> bool {
    |i: int| word[i] == c && other[i] != c
}

/// The positions at which both words hold `c`.
pub open spec fn paired(word: Seq<char>, other: Seq<char>, c: char) -> spec_fn(int) -> bool {
    |i: int| word[i] == c && other[i] == c
}

/// How many occurrences of `c` in the solution no exact match accounts for.
pub open spec fn spare(solution: Seq<char>, guess: Seq<char>, c: char) -> nat {
    count_where(solution.len(), unpaired(solution, guess, c))
}

/// How many of the positions before `i` guess `c` without matching.
pub open spec fn asked(solution: Seq<char>, guess: Seq<char>, c: char, i: int) -> nat {
    count_where(i as nat, unpaired(guess, solution, c))
}

/// The status of the letter at position `i` of the guess.
///
/// A letter that equals the solution's letter at its position is matched. An
/// unmatched letter exists elsewhere as long as the solution has occurrences
/// of it left that no exact match accounts for, counting the unmatched
/// guesses of the same letter from the left; it is wrong after that.
pub open spec fn status_at(solution: Seq<char>, guess: Seq<char>, i: int) -> Status {
    if guess[i] == solution[i] {
        Status::Matched
    } else if asked(solution, guess, guess[i], i) < spare(solution, guess, guess[i]) {
        Status::Exists
    } else {
        Status::Wrong
    }
}

/// The evaluation of `guess` against `solution`: each letter of the guess
/// with its status.
pub open spec fn score(solution: Seq<char>, guess: Seq<char>) -> Seq<EvaluationUnit> {
    Seq::new(guess.len(), |i: int| (guess[i], status_at(solution, guess, i)))
}

/// The positions at which an evaluation marks `c` as matched or existing.
pub open spec fn marked(units: Seq<EvaluationUnit>, c: char) -> spec_fn(int) -> bool {
    |i: int| units[i].0 == c && units[i].1 != Status::Wrong
}

/// How often an evaluation marks `c` as matched or existing.
pub open spec fn marks(units: Seq<EvaluationUnit>, c: char) -> nat {
    count_where(units.len(), marked(units, c))
}

/// The positions at which the guess holds `c` and is scored as existing.
pub open spec fn present(solution: Seq<char>, guess: Seq<char>, c: char) -> spec_fn(int) -> bool {
    |i: int| guess[i] == c && status_at(solution, guess, i) == Status::Exists
}

/// Among the first `n` positions, the letter `c` is scored as existing as
/// often as it was guessed without matching, up to the number of its spare
/// occurrences in the solution.
proof fn lemma_present_count(solution: Seq<char>, guess: Seq<char>, c: char, n: nat)
    requires
        solution.len() == guess.len(),
        n <= guess.len(),
    ensures
        count_where(n, present(solution, guess, c)) == if asked(solution, guess, c, n as int)
            < spare(solution, guess, c) {
            asked(solution, guess, c, n as int)
        } else {
            spare(solution, guess, c)
        },
    decreases n,
{
    if n > 0 {
        lemma_present_count(solution, guess, c, (n - 1) as nat);
        assert(asked(solution, guess, c, n as int) == asked(solution, guess, c, n - 1) + if unpaired(
            guess,
            solution,
            c,
        )(n - 1) {
            1nat
        } else {
            0nat
        });
    }
}

/// An evaluation never marks a letter as matched or existing more often than
/// the solution holds it.
pub proof fn lemma_multiplicity_bound(solution: Seq<char>, guess: Seq<char>, c: char)
    requires
        solution.len() == guess.len(),
    ensures
        marks(score(solution, guess), c) <= occurrences(solution, c),
{
    let n = guess.len();
    let units = score(solution, guess);
    lemma_count_where_split(
        n,
        marked(units, c),
        paired(guess, solution, c),
        present(solution, guess, c),
    );
    lemma_count_where_split(
        n,
        holds(solution, c),
        paired(guess, solution, c),
        unpaired(solution, guess, c),
    );
    lemma_present_count(solution, guess, c, n);
}

/// A word scored against itself is matched at every position.
pub proof fn lemma_self_evaluation(solution: Seq<char>)
    ensures
        score(solution, solution).len() == solution.len(),
        forall|i: int|
            0 <= i < solution.len() ==> #[trigger] score(solution, solution)[i] == (
                solution[i],
                Status::Matched,
            ),
{
}

/// The positions of the solution that hold `c` and are still free to account
/// for a guess of `c` elsewhere.
pub open spec fn free(used: Seq<bool>, solution: Seq<char>, c: char) -> spec_fn(int) -> bool {
    |k: int| !used[k] && solution[k] == c
}

/// How many positions of the solution are free to account for `c`.
pub open spec fn available(used: Seq<bool>, solution: Seq<char>, c: char) -> nat {
    count_where(solution.len(), free(used, solution, c))
}

/// The number of spare occurrences of `c` that the guesses before position
/// `i` have used up.
pub open spec fn consumed(solution: Seq<char>, guess: Seq<char>, c: char, i: int) -> nat {
    if asked(solution, guess, c, i) < spare(solution, guess, c) {
        asked(solution, guess, c, i)
    } else {
        spare(solution, guess, c)
    }
}

/// The first free position of the solution that holds `c`, if there is one.
fn first_free(used: &Vec<bool>, solution: &Vec<char>, c: char) -> (found: Option<usize>)
    requires
        used.len() == solution.len(),
    ensures
        match found {
            Some(k) => k < solution.len() && !used[k as int] && solution[k as int] == c
                && forall|j: int| 0 <= j < k ==> used[j] || solution[j] != c,
            None => available(used@, solution@, c) == 0,
        },
{
    let mut k: usize = 0;
    while k < solution.len()
        invariant
            k <= solution.len(),
            used.len() == solution.len(),
            forall|j: int| 0 <= j < k ==> used[j] || solution[j] != c,
        decreases solution.len() - k,
    {
        if !used[k] && solution[k] == c {
            return Some(k);
        }
        k += 1;
    }
    proof {
        lemma_count_where_zero(solution@.len(), free(used@, solution@, c));
    }
    None
}

/// Scores `guess` against `solution`.
///
/// The exact matches are marked first, and each takes its letter of the
/// solution out of play. Then the other letters of the guess are gone through
/// from the left: one that the solution still has in play exists elsewhere,
/// and takes the earliest such letter out of play; any other is wrong.
pub fn score_letters(solution: &Vec<char>, guess: &Vec<char>) -> (units: Vec<EvaluationUnit>)
    requires
        solution.len() == guess.len(),
    ensures
        units@ == score(solution@, guess@),
{
    let n = guess.len();
    let mut units: Vec<EvaluationUnit> = Vec::new();
    let mut used: Vec<bool> = Vec::new();
    let mut i: usize = 0;
    while i < n
        invariant
            i <= n,
            n == guess.len(),
            n == solution.len(),
            units.len() == i,
            used.len() == i,
            forall|j: int| 0 <= j < i ==> used[j] == (guess[j] == solution[j]),
            forall|j: int| 0 <= j < i ==> (#[trigger] units[j]).0 == guess[j],
            forall|j: int|
                0 <= j < i && guess[j] == solution[j] ==> (#[trigger] units[j]).1
                    == Status::Matched,
        decreases n - i,
    {
        if guess[i] == solution[i] {
            units.push((guess[i], Status::Matched));
            used.push(true);
        } else {
            units.push((guess[i], Status::Wrong));
            used.push(false);
        }
        i += 1;
    }
    proof {
        assert forall|c: char| #[trigger]
            available(used@, solution@, c) + consumed(solution@, guess@, c, 0) == spare(
                solution@,
                guess@,
                c,
            ) by {
            lemma_count_where_agree(
                n as nat,
                free(used@, solution@, c),
                unpaired(solution@, guess@, c),
            );
        }
    }
    let mut i: usize = 0;
    while i < n
        invariant
            i <= n,
            n == guess.len(),
            n == solution.len(),
            units.len() == n,
            used.len() == n,
            forall|j: int| 0 <= j < n && guess[j] == solution[j] ==> used[j],
            forall|j: int| 0 <= j < n ==> (#[trigger] units[j]).0 == guess[j],
            forall|j: int|
                0 <= j < n && guess[j] == solution[j] ==> (#[trigger] units[j]).1
                    == Status::Matched,
            forall|j: int|
                0 <= j < i ==> (#[trigger] units[j]).1 == status_at(solution@, guess@, j),
            forall|c: char| #[trigger]
                available(used@, solution@, c) + consumed(solution@, guess@, c, i as int)
                    == spare(solution@, guess@, c),
        decreases n - i,
    {
        let c = guess[i];
        let ghost before = used@;
        assert(forall|d: char|
            asked(solution@, guess@, d, i + 1) == asked(solution@, guess@, d, i as int) + if unpaired(
                guess@,
                solution@,
                d,
            )(i as int) {
                1nat
            } else {
                0nat
            });
        if c != solution[i] {
            assert(available(used@, solution@, c) + consumed(solution@, guess@, c, i as int)
                == spare(solution@, guess@, c));
            match first_free(&used, solution, c) {
                Some(k) => {
                    used.set(k, true);
                    units.set(i, (c, Status::Exists));
                    proof {
                        lemma_count_where_zero(n as nat, free(before, solution@, c));
                        assert(free(before, solution@, c)(k as int));
                        assert forall|d: char| #[trigger]
                            available(used@, solution@, d) + consumed(
                                solution@,
                                guess@,
                                d,
                                i + 1,
                            ) == spare(solution@, guess@, d) by {
                            assert(available(before, solution@, d) + consumed(
                                solution@,
                                guess@,
                                d,
                                i as int,
                            ) == spare(solution@, guess@, d));
                            if d == c {
                                lemma_count_where_drop_one(
                                    n as nat,
                                    free(before, solution@, c),
                                    free(used@, solution@, c),
                                    k as int,
                                );
                            } else {
                                lemma_count_where_agree(
                                    n as nat,
                                    free(before, solution@, d),
                                    free(used@, solution@, d),
                                );
                            }
                        }
                    }
                },
                None => {
                    units.set(i, (c, Status::Wrong));
                    proof {
                        assert forall|d: char| #[trigger]
                            available(used@, solution@, d) + consumed(
                                solution@,
                                guess@,
                                d,
                                i + 1,
                            ) == spare(solution@, guess@, d) by {
                            assert(available(before, solution@, d) + consumed(
                                solution@,
                                guess@,
                                d,
                                i as int,
                            ) == spare(solution@, guess@, d));
                        }
                    }
                },
            }
        } else {
            proof {
                assert forall|d: char| #[trigger]
                    available(used@, solution@, d) + consumed(solution@, guess@, d, i + 1)
                        == spare(solution@, guess@, d) by {
                    assert(available(before, solution@, d) + consumed(
                        solution@,
                        guess@,
                        d,
                        i as int,
                    ) == spare(solution@, guess@, d));
                }
            }
        }
        i += 1;
    }
    assert(units@ =~= score(solution@, guess@));
    units
}

} // verus!
