use std::collections::HashSet;

use wordle_analyzer::game::evaluation::Evaluation;
use wordle_analyzer::game::response::Status;
use wordle_analyzer::game::Game;
use wordle_analyzer::solve::naive::states::{CharInfo, SolverState};
use wordle_analyzer::wlist::builtin::BuiltinWList;
use wordle_analyzer::wlist::word::{Word, WordMap};

fn set(indexes: &[usize]) -> HashSet<usize> {
    indexes.iter().copied().collect()
}

fn round(guess: &str, codes: &str) -> Evaluation {
    Evaluation::build(&Word::from(guess), codes).unwrap()
}

fn info<'a>(state: &'a SolverState, c: char) -> &'a CharInfo {
    state.char_map().get(&(c as u32)).unwrap()
}

#[test]
fn a_new_char_info_knows_nothing() {
    let info = CharInfo::new(5);
    assert_eq!(info.occurences_amount(), &(0..5));
    assert!(info.confirmed_indexes().is_empty());
    assert!(info.tried_indexes().is_empty());
    assert!(!info.part_of_solution());
    assert!(!info.has_been_tried(0));
    assert!(info.occurences_of_char_possible("nines", 'n'));
    assert!(info.occurences_of_char_possible("which", 'n'));
}

#[test]
fn char_info_records_what_it_is_told() {
    let mut info = CharInfo::new(5);
    info.found_at(3);
    assert_eq!(info.confirmed_indexes(), &set(&[3]));
    assert_eq!(info.occurences_amount(), &(1..5));
    assert!(info.part_of_solution());
    info.tried_but_failed(1);
    info.tried_but_failed(4);
    assert_eq!(info.tried_indexes(), &set(&[1, 4]));
    assert!(info.has_been_tried(4));
    assert!(!info.has_been_tried(3));
    info.min_occurences(2);
    info.max_occurences(2);
    assert_eq!(info.occurences_amount(), &(2..2));
    assert!(info.occurences_of_char_possible("nines", 'n'));
    assert!(!info.occurences_of_char_possible("lines", 'n'));
    assert!(!info.occurences_of_char_possible("nnnns", 'n'));
    info.found_at(0);
    assert_eq!(info.occurences_amount(), &(2..2));
    info.max_occurences(0);
    assert_eq!(info.occurences_amount(), &(2..0));
    assert!(!info.part_of_solution());
    info.min_occurences(0);
    assert_eq!(info.occurences_amount(), &(2..0));
    assert!(!info.part_of_solution());
    info.max_occurences(7);
    assert_eq!(info.occurences_amount(), &(2..0));
}

#[test]
fn the_range_is_only_raised_from_below_and_lowered_from_above() {
    let mut info = CharInfo::new(5);
    info.min_occurences(2);
    assert_eq!(info.occurences_amount(), &(2..5));
    info.min_occurences(1);
    assert_eq!(info.occurences_amount(), &(2..5));
    info.max_occurences(3);
    assert_eq!(info.occurences_amount(), &(2..3));
    info.max_occurences(4);
    assert_eq!(info.occurences_amount(), &(2..3));
    info.take_in(0, Status::Wrong, 1);
    assert_eq!(info.occurences_amount(), &(2..1));
    info.take_in(1, Status::Wrong, 0);
    assert_eq!(info.occurences_amount(), &(2..1));
    info.take_in(2, Status::Exists, 2);
    assert_eq!(info.occurences_amount(), &(3..1));
    info.take_in(4, Status::Matched, 0);
    assert_eq!(info.occurences_amount(), &(3..1));
    assert_eq!(info.tried_indexes(), &set(&[0, 1, 2]));
    assert_eq!(info.confirmed_indexes(), &set(&[4]));
    let copy = info.clone();
    assert_eq!(copy, info);
    assert_eq!(copy.tried_indexes(), &set(&[0, 1, 2]));
}

#[test]
fn the_parts_of_a_char_info_can_be_changed() {
    let mut info = CharInfo::new(5);
    info.confirmed_indexes_mut().insert(2);
    info.tried_indexes_mut().insert(3);
    info.min_occurences(1);
    assert_eq!(info.confirmed_indexes(), &set(&[2]));
    assert!(info.has_been_tried(3));
    assert!(info.part_of_solution());
}

#[test]
fn a_round_is_taken_in_from_the_left() {
    let mut state = SolverState::start(5);
    assert_eq!(state.pattern(), &vec![None; 5]);
    assert!(state.char_map().is_empty());
    // solution `nines`
    state.observe_round(5, &round("sides", "xcxcc"));
    assert_eq!(state.pattern(), &vec![None, Some('i'), None, Some('e'), Some('s')]);
    assert_eq!(state.char_map().len(), 4);
    // the first `s` is wrong before any `s` was counted: no more than rejected
    assert_eq!(info(&state, 's').occurences_amount(), &(1..5));
    assert_eq!(info(&state, 's').tried_indexes(), &set(&[0]));
    assert_eq!(info(&state, 's').confirmed_indexes(), &set(&[4]));
    assert_eq!(info(&state, 'i').occurences_amount(), &(1..5));
    assert_eq!(info(&state, 'i').confirmed_indexes(), &set(&[1]));
    assert_eq!(info(&state, 'd').occurences_amount(), &(0..5));
    assert_eq!(info(&state, 'd').tried_indexes(), &set(&[2]));
    assert!(state.admits(&Word::from("nines")));
    assert!(state.admits(&Word::from("lines")));
    assert!(!state.admits(&Word::from("sides")));
    assert!(!state.admits(&Word::from("sines")));
}

#[test]
fn a_wrong_letter_after_counted_ones_caps_the_range() {
    let mut state = SolverState::start(5);
    // solution `abcde`: one `a`, and the second guess of it is wrong
    state.observe_round(5, &round("axxxa", "cxxxx"));
    assert_eq!(info(&state, 'a').occurences_amount(), &(1..1));
    assert_eq!(info(&state, 'a').confirmed_indexes(), &set(&[0]));
    assert_eq!(info(&state, 'a').tried_indexes(), &set(&[4]));
    // three `x`, all wrong with nothing counted before
    assert_eq!(info(&state, 'x').occurences_amount(), &(0..5));
    assert_eq!(info(&state, 'x').tried_indexes(), &set(&[1, 2, 3]));
    // two present and then one wrong
    let mut state = SolverState::start(5);
    state.observe_round(5, &round("eeexx", "ffxxx"));
    assert_eq!(info(&state, 'e').occurences_amount(), &(2..2));
    assert_eq!(info(&state, 'e').tried_indexes(), &set(&[0, 1, 2]));
    // a later round raises the least number and never the greatest
    state.observe_round(5, &round("eeexe", "ffxxf"));
    assert_eq!(info(&state, 'e').occurences_amount(), &(3..2));
    assert!(!state.admits(&Word::from("abeec")));
}

#[test]
fn observe_takes_in_one_position() {
    let units = vec![('n', Status::Exists), ('n', Status::Matched), ('n', Status::Wrong)];
    let mut state = SolverState::start(3);
    state.observe(3, &units, 1);
    // the tally counts the mark at 0 although it was not taken in
    assert_eq!(info(&state, 'n').occurences_amount(), &(2..3));
    assert_eq!(state.pattern(), &vec![None, Some('n'), None]);
    state.observe(3, &units, 2);
    assert_eq!(info(&state, 'n').occurences_amount(), &(2..2));
    // a position beyond the pattern leaves the pattern as it is
    let mut state = SolverState::start(1);
    state.observe(1, &units, 1);
    assert_eq!(state.pattern(), &vec![None]);
    assert_eq!(info(&state, 'n').confirmed_indexes(), &set(&[1]));
    assert_eq!(SolverState::new().pattern().len(), 0);
}

#[test]
fn folding_a_history_twice_gives_the_same_state() {
    let wl = BuiltinWList::new(
        String::from("(two)"),
        WordMap::from_words(vec![(Word::from("which"), 2), (Word::from("lines"), 1)]),
    );
    let mut game = Game::build(5, false, 6, &wl, false).unwrap();
    game.guess(&Word::from("which"), Some(round("which", "xxfxx"))).unwrap();
    game.guess(&Word::from("lines"), Some(round("lines", "xcccc"))).unwrap();
    let first = SolverState::fold(5, game.responses());
    let second = SolverState::fold(5, game.responses());
    assert_eq!(first, second);
    assert_eq!(first.clone(), first);
    assert_eq!(first.pattern(), second.pattern());
    assert_eq!(first.pattern(), &vec![None, Some('i'), Some('n'), Some('e'), Some('s')]);
    assert_eq!(first.char_map().len(), second.char_map().len());
    for (code, info) in first.char_map().iter() {
        let other = second.char_map().get(code).unwrap();
        assert_eq!(info.occurences_amount(), other.occurences_amount());
        assert_eq!(info.confirmed_indexes(), other.confirmed_indexes());
        assert_eq!(info.tried_indexes(), other.tried_indexes());
    }
    assert_eq!(info(&first, 'i').tried_indexes(), &set(&[2]));
    assert_eq!(info(&first, 'i').confirmed_indexes(), &set(&[1]));
    assert_eq!(SolverState::fold(5, &vec![]).char_map().len(), 0);
}

#[test]
fn known_characters_have_to_be_contained() {
    let mut state = SolverState::start(5);
    state.observe_round(5, &round("which", "xxfxx"));
    let known = state.get_all_known_contained();
    assert_eq!(known.len(), 1);
    assert_eq!(*known[0].0, 'i' as u32);
    assert!(state.has_all_known_contained(&Word::from("lines")));
    assert!(!state.has_all_known_contained(&Word::from("about")));
    // a character with an empty range is not counted as known
    state.char_map_mut().get_mut(&('i' as u32)).unwrap().max_occurences(0);
    assert_eq!(state.get_all_known_contained().len(), 0);
    assert!(state.has_all_known_contained(&Word::from("about")));
    // but no word is admitted any more
    assert!(!state.admits(&Word::from("about")));
    assert!(!state.admits(&Word::from("lines")));
}

#[test]
fn admits_checks_pattern_range_and_rejected_positions() {
    let mut state = SolverState::start(5);
    state.observe_round(5, &round("which", "xxfxx"));
    assert!(state.admits(&Word::from("lines")));
    // `i` at its rejected position
    assert!(!state.admits(&Word::from("trips")));
    // no `i` at all
    assert!(!state.admits(&Word::from("about")));
    // `h` at a rejected position
    assert!(!state.admits(&Word::from("their")));
    // not of the pattern's length
    assert!(!state.admits(&Word::from("line")));
    assert!(!state.admits(&Word::from("liners")));
    state.observe_round(5, &round("lines", "xcccc"));
    assert!(state.admits(&Word::from("nines")));
    assert!(!state.admits(&Word::from("lines")));
    assert!(!state.admits(&Word::from("nides")));
}
