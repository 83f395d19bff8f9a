use wordle_analyzer::error::{Error, GameError};
use wordle_analyzer::game::evaluation::{Evaluation, Highlight};
use wordle_analyzer::game::response::Status;
use wordle_analyzer::game::Game;
use wordle_analyzer::wlist::builtin::BuiltinWList;
use wordle_analyzer::wlist::word::{Word, WordData, WordMap};
use wordle_analyzer::wlist::WordList;

fn word(text: &str, frequency: f64) -> WordData {
    (Word::from(text), frequency.to_bits())
}

fn wordlist() -> BuiltinWList {
    let words = vec![
        word("which", 0.0021),
        word("their", 0.0019),
        word("about", 0.0018),
        word("being", 0.0009),
        word("since", 0.0006),
        word("lines", 0.00012),
        word("crate", 0.00003),
        word("slate", 0.00002),
        word("mines", 0.000019),
        word("sides", 0.000018),
        word("wines", 0.000017),
        word("pines", 0.000016),
        word("indie", 0.000015),
        word("ninja", 0.000014),
        word("nines", 0.000002),
    ];
    BuiltinWList::new(String::from("(test)"), WordMap::from_words(words))
}

fn evaluated(solution: &str, guess: &str) -> String {
    Game::<BuiltinWList>::evaluate(word(solution, 0.002), &Word::from(guess)).unwrap().encode()
}

#[test]
fn test_eval_simple() {
    let wl = wordlist();
    let builder = Game::builder(&wl)
        .length(5)
        .max_steps(6)
        .solution(Some(wl.get_word(&Word::from("crate")).unwrap()))
        .precompute(false);

    let mut game = builder.build().unwrap();
    let guess = Word::from("slate");
    game.guess(&guess, None).unwrap();
    let correct = Evaluation::build(&guess, "xxccc").unwrap();
    assert_eq!(*game.last_response().unwrap().evaluation(), correct);

    let mut game = builder.build().unwrap();
    let guess = Word::from("about");
    game.guess(&guess, None).unwrap();
    let correct = Evaluation::build(&guess, "fxxxf").unwrap();
    assert_eq!(*game.last_response().unwrap().evaluation(), correct);
}

#[test]
fn test_eval_reoccuring_char() {
    let wl = wordlist();
    let builder = Game::builder(&wl)
        .solution(Some(wl.get_word(&Word::from("nines")).unwrap()))
        .precompute(false);

    let mut game = builder.build().unwrap();
    let guess = Word::from("pines");
    game.guess(&guess, None).unwrap();
    let correct = Evaluation::build(&guess, "xcccc").unwrap();
    assert_eq!(*game.last_response().unwrap().evaluation(), correct);

    let mut game = builder.build().unwrap();
    let guess = Word::from("sides");
    game.guess(&guess, None).unwrap();
    let correct = Evaluation::build(&guess, "xcxcc").unwrap();
    assert_eq!(*game.last_response().unwrap().evaluation(), correct);

    let mut game = builder.build().unwrap();
    let guess = Word::from("ninja");
    game.guess(&guess, None).unwrap();
    let correct = Evaluation::build(&guess, "cccxx").unwrap();
    assert_eq!(*game.last_response().unwrap().evaluation(), correct);

    let mut game = builder.build().unwrap();
    let guess = Word::from("which");
    game.guess(&guess, None).unwrap();
    let correct = Evaluation::build(&guess, "xxfxx").unwrap();
    assert_eq!(*game.last_response().unwrap().evaluation(), correct);

    let mut game = builder.build().unwrap();
    let guess = Word::from("indie");
    game.guess(&guess, None).unwrap();
    let correct = Evaluation::build(&guess, "ffxxf").unwrap();
    assert_eq!(*game.last_response().unwrap().evaluation(), correct);
}

#[test]
fn evaluate_scores_the_named_scenarios() {
    assert_eq!(evaluated("nines", "pines"), "xcccc");
    assert_eq!(evaluated("nines", "sides"), "xcxcc");
    assert_eq!(evaluated("nines", "ninja"), "cccxx");
    assert_eq!(evaluated("nines", "which"), "xxfxx");
    assert_eq!(evaluated("nines", "indie"), "ffxxf");
    assert_eq!(evaluated("crate", "slate"), "xxccc");
    assert_eq!(evaluated("crate", "about"), "fxxxf");
}

#[test]
fn evaluate_keeps_exact_matches_from_being_taken() {
    // the second `e` is matched, so the first one finds no `e` left
    assert_eq!(evaluated("abcde", "eexxe"), "xxxxc");
    // one spare `l`, three guessed without a match
    assert_eq!(evaluated("llama", "xllll"), "xcfxx");
    // two spare `a`, three guessed without a match
    assert_eq!(evaluated("aabcd", "xxaaa"), "xxffx");
    assert_eq!(evaluated("", ""), "");
}

#[test]
fn evaluate_of_a_word_against_itself_is_all_matched() {
    for text in ["nines", "aaaaa", "which", "a"] {
        let evaluation =
            Game::<BuiltinWList>::evaluate(word(text, 0.002), &Word::from(text)).unwrap();
        assert_eq!(evaluation.inner().len(), text.chars().count());
        assert!(evaluation.inner().iter().all(|unit| unit.1 == Status::Matched));
    }
}

#[test]
fn evaluate_never_marks_a_letter_more_often_than_the_solution_holds_it() {
    let words = ["nines", "sides", "eerie", "aabbb", "babab", "lllll", "geese", "esses"];
    for solution in words {
        for guess in words {
            let evaluation =
                Game::<BuiltinWList>::evaluate(word(solution, 0.002), &Word::from(guess)).unwrap();
            for c in guess.chars() {
                let marks = evaluation
                    .inner()
                    .iter()
                    .filter(|unit| unit.0 == c && unit.1 != Status::Wrong)
                    .count();
                let held = solution.chars().filter(|s| *s == c).count();
                assert!(marks <= held, "{} against {}: {}", guess, solution, c);
            }
        }
    }
}

#[test]
fn evaluate_refuses_a_guess_of_another_length() {
    let refused = Game::<BuiltinWList>::evaluate(word("nines", 0.002), &Word::from("nine"));
    assert_eq!(refused, Err(GameError::GuessHasWrongLength(4)));
}

#[test]
fn build_reads_each_code_in_both_cases() {
    let guess = Word::from("abcdefgh");
    let evaluation = Evaluation::build(&guess, "xfecmXFC").unwrap();
    let statuses: Vec<Status> = evaluation.inner().iter().map(|unit| unit.1).collect();
    assert_eq!(
        statuses,
        vec![
            Status::Wrong,
            Status::Exists,
            Status::Exists,
            Status::Matched,
            Status::Matched,
            Status::Wrong,
            Status::Exists,
            Status::Matched,
        ]
    );
    assert_eq!(evaluation.guess(), guess);
    let other = Evaluation::build(&Word::from("abc"), "EM?").unwrap();
    assert_eq!(other.encode(), "fcx");
}

#[test]
fn build_refuses_codes_of_another_length() {
    match Evaluation::build(&Word::from("nines"), "xxfx") {
        Err(Error::GameError { source: GameError::GuessAndEvalNotSameLen((guess, codes)) }) => {
            assert_eq!(guess, "nines");
            assert_eq!(codes, "xxfx");
        }
        other => panic!("{:?}", other),
    }
}

#[test]
fn an_evaluation_written_and_read_back_is_the_same() {
    for (guess, codes) in [("which", "xxfxx"), ("since", "fcfxf"), ("lines", "xcccc"), ("", "")] {
        let evaluation = Evaluation::build(&Word::from(guess), codes).unwrap();
        assert_eq!(evaluation.encode(), codes);
        let back = Evaluation::build(&evaluation.guess(), &evaluation.encode()).unwrap();
        assert_eq!(back, evaluation);
    }
}

#[test]
fn colorized_display_gives_each_status_its_highlight() {
    let evaluation = Evaluation::build(&Word::from("abc"), "xfc").unwrap();
    assert_eq!(
        evaluation.colorized_display(),
        vec![('a', Highlight::Plain), ('b', Highlight::Yellow), ('c', Highlight::Green)]
    );
}

#[test]
fn inner_mut_changes_the_evaluation() {
    let mut evaluation = Evaluation::build(&Word::from("ab"), "xx").unwrap();
    evaluation.inner_mut().push(('c', Status::Matched));
    assert_eq!(evaluation.encode(), "xxc");
    assert_eq!(evaluation.guess(), "abc");
    assert_eq!(Evaluation::default().inner().len(), 0);
    assert_eq!(Evaluation::from(vec![('q', Status::Exists)]).encode(), "f");
}

#[test]
fn guess_refuses_in_the_order_length_finished_word() {
    let wl = wordlist();
    // a game without steps takes no guess
    let none = Game::builder(&wl).max_steps(0).solution(Some(word("nines", 0.002)));
    let mut game = none.build().unwrap();
    assert!(!game.finished());
    assert_eq!(
        game.guess(&Word::from("which"), None).err(),
        Some(GameError::TryingToPlayAFinishedGame)
    );
    let builder = Game::builder(&wl).max_steps(1).solution(Some(word("nines", 0.002)));
    let mut game = builder.build().unwrap();
    assert_eq!(
        game.guess(&Word::from("toolong"), None).err(),
        Some(GameError::GuessHasWrongLength(7))
    );
    assert_eq!(
        game.guess(&Word::from("zzzzz"), None).err(),
        Some(GameError::WordNotInWordlist(Word::from("zzzzz")))
    );
    assert_eq!(game.step(), 0);
    assert_eq!(game.responses().len(), 0);
    // with one step allowed the first guess is taken and finishes the game
    let response = game.guess(&Word::from("which"), None).unwrap();
    assert_eq!(response.step(), 1);
    assert!(response.finished());
    assert!(!response.won());
    assert!(game.finished());
    assert!(!game.won());
    assert_eq!(
        game.guess(&Word::from("zzzzz"), None).err(),
        Some(GameError::TryingToPlayAFinishedGame)
    );
    assert_eq!(
        game.guess(&Word::from("toolong"), None).err(),
        Some(GameError::GuessHasWrongLength(7))
    );
    assert_eq!(game.responses().len(), 1);
}

#[test]
fn guess_takes_a_manual_evaluation_as_it_is() {
    let wl = wordlist();
    let mut game = Game::build(5, false, 6, &wl, false).unwrap();
    assert!(game.solution().is_none());
    let guess = Word::from("which");
    assert_eq!(
        game.guess(&guess, None).err(),
        Some(GameError::InvalidEvaluationSyntax(String::new()))
    );
    let short = Evaluation::build(&Word::from("whic"), "xxfx").unwrap();
    assert_eq!(
        game.guess(&guess, Some(short)).err(),
        Some(GameError::GuessAndEvalNotSameLen((Word::from("which"), String::from("xxfx"))))
    );
    assert_eq!(game.step(), 0);
    let manual = Evaluation::build(&guess, "cxfxm").unwrap();
    let response = game.guess(&guess, Some(manual.clone())).unwrap();
    assert_eq!(*response.evaluation(), manual);
    assert_eq!(response.guess(), &guess);
    assert_eq!(response.encode(), "cxfxc");
    assert_eq!(response.solution(), None);
    assert_eq!(response.step(), 1);
    assert_eq!(response.max_steps(), 6);
    assert_eq!(game.step(), 1);
    assert_eq!(game.last_response(), Some(&response));
    assert_eq!(game.made_guesses(), vec![&guess]);
    // a manual evaluation counts even where the solution is known
    game.set_solution(Some(word("nines", 0.002)));
    let manual = Evaluation::build(&Word::from("nines"), "xxxxx").unwrap();
    let response = game.guess(&Word::from("nines"), Some(manual)).unwrap();
    assert_eq!(response.encode(), "xxxxx");
    assert!(!game.finished());
}

#[test]
fn guess_scores_against_a_solution_of_the_same_length_only() {
    let wl = wordlist();
    let mut game = Game::build(5, false, 6, &wl, false).unwrap();
    game.set_solution(Some(word("nine", 0.002)));
    assert_eq!(
        game.guess(&Word::from("which"), None).err(),
        Some(GameError::GuessHasWrongLength(5))
    );
}

#[test]
fn a_game_is_won_by_the_solution_and_lost_after_too_many_steps() {
    let wl = wordlist();
    let builder = Game::builder(&wl).max_steps(2).solution(Some(word("nines", 0.002)));
    let mut game = builder.build().unwrap();
    assert!(!game.finished());
    assert!(!game.won());
    game.guess(&Word::from("which"), None).unwrap();
    assert!(!game.finished());
    let response = game.guess(&Word::from("nines"), None).unwrap();
    assert!(response.won());
    assert!(response.finished());
    assert!(game.finished());
    assert!(game.won());
    assert_eq!(
        game.guess(&Word::from("nines"), None).err(),
        Some(GameError::TryingToPlayAFinishedGame)
    );

    let mut game = builder.build().unwrap();
    game.guess(&Word::from("which"), None).unwrap();
    assert!(!game.finished());
    game.guess(&Word::from("their"), None).unwrap();
    assert!(game.finished());
    assert!(!game.won());
    assert_eq!(game.step(), 2);
    assert_eq!(
        game.guess(&Word::from("being"), None).err(),
        Some(GameError::TryingToPlayAFinishedGame)
    );
}

#[test]
fn undo_discards_the_last_rounds() {
    let wl = wordlist();
    let builder = Game::builder(&wl).solution(Some(word("nines", 0.002)));
    let mut game = builder.build().unwrap();
    assert_eq!(game.max_steps(), 6);
    for guess in ["which", "their", "being"] {
        game.guess(&Word::from(guess), None).unwrap();
    }
    assert!(game.undo(2).is_ok());
    assert_eq!(game.made_guesses(), vec![&Word::from("which")]);
    assert_eq!(game.step(), 3);
    assert!(game.undo(5).is_ok());
    assert_eq!(game.responses().len(), 0);
    assert!(game.undo(0).is_ok());
    assert_eq!(game.responses().len(), 0);
}

#[test]
fn a_built_game_has_the_settings_of_its_builder() {
    let wl = wordlist();
    let other = wordlist();
    let builder = Game::builder(&wl);
    let game = builder.build().unwrap();
    assert_eq!(game.length(), 5);
    assert_eq!(game.max_steps(), 6);
    assert_eq!(game.step(), 0);
    // a solution is picked from the list
    let picked = game.solution().unwrap().clone();
    assert_eq!(wl.get_word(&picked.0), Some(picked));

    let builder = Game::builder(&wl)
        .length(4)
        .max_steps(9)
        .precompute(true)
        .generate_solution(false)
        .wordlist(&other);
    let game = builder.build().unwrap();
    assert_eq!(game.length(), 4);
    assert_eq!(game.max_steps(), 9);
    assert!(game.solution().is_none());
    assert_eq!(game.wordlist().wordmap().len(), 15);
    let copy = game.clone();
    assert_eq!(copy.length(), 4);
    assert_eq!(copy.max_steps(), 9);
}
