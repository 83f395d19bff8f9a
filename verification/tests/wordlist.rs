use wordle_analyzer::error::Error;
use wordle_analyzer::wlist::builtin::BuiltinWList;
use wordle_analyzer::wlist::ranking::{lex_le_exec, rank, ranks_before_exec};
use wordle_analyzer::wlist::word::{Word, WordData, WordMap};
use wordle_analyzer::wlist::{count_letters, words_of_matches, WordList};

fn pair(text: &str, frequency: f64) -> WordData {
    (Word::from(text), frequency.to_bits())
}

fn small_list() -> BuiltinWList {
    let words = vec![
        pair("lines", 0.3),
        pair("wines", 0.1),
        pair("mines", 0.3),
        pair("which", 0.9),
        pair("nines", 0.05),
    ];
    BuiltinWList::new(
        String::from("(small)"),
        WordMap::from_words(words).with_threshold(0.2f64.to_bits()),
    )
}

fn chars(text: &str) -> Vec<char> {
    text.chars().collect()
}

#[test]
fn frequencies_rank_as_the_numbers_they_stand_for() {
    let values: [f64; 7] = [0.0, 1e-12, 3.3e-9, 0.00012, 0.0021, 0.5, 1.0];
    for low in 0..values.len() {
        for high in 0..values.len() {
            assert_eq!(
                values[low] < values[high],
                values[low].to_bits() < values[high].to_bits()
            );
        }
    }
}

#[test]
fn a_word_map_holds_each_word_once() {
    let mut map = WordMap::new();
    assert!(map.is_empty());
    assert_eq!(map.threshold(), 0);
    assert_eq!(map.n_common(), 3000);
    map.insert(Word::from("alpha"), 5);
    map.insert(Word::from("beta"), 7);
    map.insert(Word::from("alpha"), 9);
    assert_eq!(map.len(), 2);
    assert!(!map.is_empty());
    assert_eq!(map.inner(), &vec![(Word::from("alpha"), 9), (Word::from("beta"), 7)]);
    assert_eq!(map.keys(), vec![Word::from("alpha"), Word::from("beta")]);
    assert_eq!(map.values(), vec![9, 7]);
    assert_eq!(map.get("alpha"), Some((Word::from("alpha"), 9)));
    assert_eq!(map.get("gamma"), None);
    assert_eq!(map.get("alph"), None);
    let copy = map.clone().with_threshold(8);
    assert_eq!(copy.inner(), map.inner());
    assert_eq!(copy.threshold(), 8);
    assert_eq!(WordMap::default().len(), 0);
}

#[test]
fn from_words_lets_the_later_entry_count() {
    let map = WordMap::from_words(vec![
        (Word::from("a"), 1),
        (Word::from("b"), 2),
        (Word::from("a"), 3),
        (Word::from("c"), 4),
        (Word::from("b"), 5),
    ]);
    assert_eq!(
        map.inner(),
        &vec![(Word::from("a"), 3), (Word::from("b"), 5), (Word::from("c"), 4)]
    );
}

#[test]
fn only_words_with_len_counts_characters() {
    let mut map = WordMap::from_words(vec![
        (Word::from("lines"), 1),
        (Word::from("line"), 2),
        (Word::from("müßig"), 3),
        (Word::from("longer"), 4),
    ])
    .with_threshold(2);
    map.only_words_with_len(5);
    assert_eq!(map.keys(), vec![Word::from("lines"), Word::from("müßig")]);
    assert_eq!(map.threshold(), 2);
    let list = BuiltinWList::from_words(
        String::from("(four)"),
        vec![(Word::from("lines"), 1), (Word::from("line"), 2), (Word::from("line"), 6)],
        3,
        4,
    );
    assert_eq!(list.wordmap().inner(), &vec![(Word::from("line"), 6)]);
    assert_eq!(list.name(), "(four)");
    assert_eq!(list.solutions(), vec![(Word::from("line"), 6)]);
}

#[test]
fn the_lexicographic_order_goes_by_the_first_difference() {
    assert!(lex_le_exec(&chars("lines"), &chars("mines")));
    assert!(!lex_le_exec(&chars("mines"), &chars("lines")));
    assert!(lex_le_exec(&chars("line"), &chars("lines")));
    assert!(!lex_le_exec(&chars("lines"), &chars("line")));
    assert!(lex_le_exec(&chars("lines"), &chars("lines")));
    assert!(lex_le_exec(&chars(""), &chars("a")));
    assert!(lex_le_exec(&chars("Zebra"), &chars("apple")));
    assert!(lex_le_exec(&chars("zebra"), &chars("äpfel")));
}

#[test]
fn the_more_frequent_word_ranks_first_and_ties_go_by_the_word() {
    assert!(ranks_before_exec(&pair("zzzzz", 0.5), &pair("aaaaa", 0.4)));
    assert!(!ranks_before_exec(&pair("aaaaa", 0.4), &pair("zzzzz", 0.5)));
    assert!(ranks_before_exec(&pair("lines", 0.3), &pair("mines", 0.3)));
    assert!(!ranks_before_exec(&pair("mines", 0.3), &pair("lines", 0.3)));
    assert!(ranks_before_exec(&pair("mines", 0.3), &pair("mines", 0.3)));
    let words = vec![
        pair("wines", 0.1),
        pair("mines", 0.3),
        pair("which", 0.9),
        pair("lines", 0.3),
        pair("mines", 0.3),
        pair("nines", 0.05),
    ];
    let ranked = rank(&words);
    assert_eq!(
        ranked,
        vec![
            pair("which", 0.9),
            pair("lines", 0.3),
            pair("mines", 0.3),
            pair("mines", 0.3),
            pair("wines", 0.1),
            pair("nines", 0.05),
        ]
    );
    assert_eq!(rank(&ranked), ranked);
    assert_eq!(rank(&vec![]), vec![]);
}

#[test]
fn a_list_offers_its_words_by_likelihood() {
    let wl = small_list();
    assert_eq!(
        wl.sort_likelihood(),
        vec![
            pair("which", 0.9),
            pair("lines", 0.3),
            pair("mines", 0.3),
            pair("wines", 0.1),
            pair("nines", 0.05),
        ]
    );
    assert_eq!(wl.n_most_likely(2), vec![pair("which", 0.9), pair("lines", 0.3)]);
    assert_eq!(wl.n_most_likely(0), vec![]);
    assert_eq!(wl.n_most_likely(9).len(), 5);
    assert_eq!(wl.get_word(&Word::from("mines")), Some(pair("mines", 0.3)));
    assert_eq!(wl.get_word(&Word::from("pines")), None);
    assert_eq!(wl.length_range(), 5..5);
    assert_eq!(wl.raw_wordlist(), "lines\nwines\nmines\nwhich\nnines\n");
    let copy = wl.clone();
    assert_eq!(copy.name(), "(small)");
    assert_eq!(copy.wordmap().inner(), wl.wordmap().inner());
}

#[test]
fn solutions_are_the_words_above_the_threshold() {
    let wl = small_list();
    assert_eq!(
        wl.solutions(),
        vec![pair("lines", 0.3), pair("mines", 0.3), pair("which", 0.9)]
    );
    assert_eq!(wl.amount(), 3);
    let over = wl.over_threashold();
    assert_eq!(over.inner(), &wl.solutions());
    assert_eq!(over.threshold(), 0.2f64.to_bits());
    for _ in 0..30 {
        let solution = wl.rand_solution().unwrap();
        assert!(wl.solutions().contains(&solution));
        let word = wl.rand_word().unwrap();
        assert_eq!(wl.get_word(&word.0), Some(word));
    }
    let none = BuiltinWList::new(String::from("(none)"), WordMap::new());
    assert_eq!(none.rand_solution(), None);
    assert_eq!(none.rand_word(), None);
    assert_eq!(none.amount(), 0);
    assert_eq!(none.raw_wordlist(), "");
}

#[test]
fn get_words_matching_searches_with_the_pattern() {
    let wl = small_list();
    assert_eq!(
        wl.get_words_matching(String::from(".ines")).unwrap(),
        vec![pair("lines", 0.3), pair("mines", 0.3), pair("wines", 0.1), pair("nines", 0.05)]
    );
    assert_eq!(wl.get_words_matching(String::from("wh...")).unwrap(), vec![pair("which", 0.9)]);
    assert_eq!(wl.get_words_matching(String::from(".....")).unwrap().len(), 5);
    assert_eq!(wl.get_words_matching(String::from("q....")).unwrap(), vec![]);
    // a match that is no word of the list is passed over
    assert_eq!(wl.get_words_matching(String::from("ine")).unwrap(), vec![]);
    match wl.get_words_matching(String::from("(....")) {
        Err(Error::WordlistError { .. }) => {}
        other => panic!("{:?}", other),
    }
}

#[test]
fn words_of_matches_looks_each_text_up() {
    let wl = small_list();
    let found = vec![
        String::from("nines"),
        String::from("pines"),
        String::from("which"),
        String::from("nines"),
    ];
    assert_eq!(
        words_of_matches(wl.wordmap(), &found),
        vec![pair("which", 0.9), pair("nines", 0.05), pair("nines", 0.05)]
    );
}

#[test]
fn letters_are_counted_over_all_words() {
    let wl = BuiltinWList::new(
        String::from("(three)"),
        WordMap::from_words(vec![pair("nines", 0.3), pair("sides", 0.2), pair("in", 0.1)]),
    );
    assert_eq!(
        wl.letter_counts(),
        vec![('n', 3), ('i', 3), ('e', 2), ('s', 3), ('d', 1)]
    );
    assert_eq!(count_letters(&chars("abca")), vec![('a', 2), ('b', 1), ('c', 1)]);
    assert_eq!(count_letters(&chars("")), vec![]);
    let none = BuiltinWList::new(String::from("(none)"), WordMap::new());
    assert_eq!(none.letter_counts(), vec![]);
}
