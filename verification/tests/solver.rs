use wordle_analyzer::error::{Error, GameError, SolverError};
use wordle_analyzer::game::evaluation::Evaluation;
use wordle_analyzer::game::Game;
use wordle_analyzer::solve::naive::{candidates_for, filter_candidates, render_pattern};
use wordle_analyzer::solve::naive::states::SolverState;
use wordle_analyzer::solve::{
    AnyBuiltinSolver, BuiltinSolverNames, NaiveSolver, Solver, StupidSolver,
};
use wordle_analyzer::wlist::builtin::BuiltinWList;
use wordle_analyzer::wlist::word::{Word, WordData, WordMap};
use wordle_analyzer::wlist::WordList;

fn entry(text: &str, frequency: f64) -> WordData {
    (Word::from(text), frequency.to_bits())
}

fn list_of(words: Vec<WordData>) -> BuiltinWList {
    BuiltinWList::new(String::from("(test)"), WordMap::from_words(words))
}

fn common_words() -> BuiltinWList {
    list_of(vec![
        entry("which", 0.0021),
        entry("their", 0.0019),
        entry("about", 0.0018),
        entry("being", 0.0009),
        entry("since", 0.0006),
        entry("lines", 0.00012),
        entry("mines", 0.000019),
        entry("wines", 0.000017),
        entry("pines", 0.000016),
        entry("nines", 0.000002),
    ])
}

#[test]
fn test_build_builtin_solvers() {
    let wl = common_words();
    let _stupid_solver =
        AnyBuiltinSolver::Stupid(StupidSolver::build(&wl).expect("could not build naive solver"));
    let _naive_solver =
        AnyBuiltinSolver::Naive(NaiveSolver::build(&wl).expect("could not build naive solver"));
}

fn rhyming_words() -> BuiltinWList {
    list_of(vec![
        entry("which", 0.0021),
        entry("their", 0.0019),
        entry("being", 0.0009),
        entry("since", 0.0006),
        entry("lines", 0.00012),
        entry("mines", 0.000019),
        entry("wines", 0.000017),
        entry("pines", 0.000016),
        entry("fines", 0.000015),
        entry("vines", 0.000014),
        entry("dines", 0.000013),
        entry("nines", 0.000002),
    ])
}

#[test]
fn test_naive_play_predetermined_game() {
    let wl = rhyming_words();
    let sl =
        AnyBuiltinSolver::Naive(NaiveSolver::build(&wl).expect("could not build naive solver"));
    let mut game = Game::build(5, false, 6, &wl, false).unwrap();
    game.set_solution(Some(entry("nines", 0.002))); // The accuracy is made up but shouldn't
                                                    // matter
    sl.make_a_move(&mut game).unwrap();
    assert_eq!(game.responses().last().unwrap().guess(), &Word::from("which"));
    // `their`, `being` and `since` hold a letter at a position at which
    // `which` had it rejected
    sl.make_a_move(&mut game).unwrap();
    assert_eq!(game.responses().last().unwrap().guess(), &Word::from("lines"));
    sl.make_a_move(&mut game).unwrap();
    assert_eq!(game.responses().last().unwrap().guess(), &Word::from("mines"));
    // `wines` has `w` where `which` had it rejected
    sl.make_a_move(&mut game).unwrap();
    assert_eq!(game.responses().last().unwrap().guess(), &Word::from("pines"));
    sl.make_a_move(&mut game).unwrap();
    assert_eq!(game.responses().last().unwrap().guess(), &Word::from("fines"));
    assert!(!game.finished());
    sl.make_a_move(&mut game).unwrap();
    assert_eq!(game.responses().last().unwrap().guess(), &Word::from("vines"));

    // naive is at the moment too bad to solve "nines"
    assert!(game.finished());
    assert!(!game.won());
    assert_eq!(game.step(), 6);
    assert_eq!(game.responses().len(), 6);
    match sl.make_a_move(&mut game) {
        Err(Error::GameError { source: GameError::TryingToPlayAFinishedGame }) => {}
        other => panic!("{:?}", other),
    }
}

#[test]
fn test_naive_play_predetermined_game_manually() {
    let wl = rhyming_words();
    let sl =
        AnyBuiltinSolver::Naive(NaiveSolver::build(&wl).expect("could not build naive solver"));
    // we don't insert the solution yet,
    // pretend that a user inputs guesses manually
    let mut game = Game::build(5, false, 6, &wl, false).unwrap();
    let _actual_solution: Option<WordData> = Some(entry("nines", 0.002));
    let mut next_guess: Word;

    next_guess = sl.guess_for(&game).unwrap();
    assert_eq!(next_guess, Word::from("which"));
    game.guess(&next_guess.clone(), Some(Evaluation::build(&next_guess, "xxfxx").unwrap()))
        .unwrap();

    next_guess = sl.guess_for(&game).unwrap();
    assert_eq!(next_guess, Word::from("lines"));
    game.guess(&next_guess.clone(), Some(Evaluation::build(&next_guess, "xcccc").unwrap()))
        .unwrap();

    next_guess = sl.guess_for(&game).unwrap();
    assert_eq!(next_guess, Word::from("mines"));
    game.guess(&next_guess.clone(), Some(Evaluation::build(&next_guess, "xcccc").unwrap()))
        .unwrap();

    next_guess = sl.guess_for(&game).unwrap();
    assert_eq!(next_guess, Word::from("pines"));
    game.guess(&next_guess.clone(), Some(Evaluation::build(&next_guess, "xcccc").unwrap()))
        .unwrap();

    next_guess = sl.guess_for(&game).unwrap();
    assert_eq!(next_guess, Word::from("fines"));
    game.guess(&next_guess.clone(), Some(Evaluation::build(&next_guess, "xcccc").unwrap()))
        .unwrap();

    next_guess = sl.guess_for(&game).unwrap();
    assert_eq!(next_guess, Word::from("vines"));
    game.guess(&next_guess.clone(), Some(Evaluation::build(&next_guess, "xcccc").unwrap()))
        .unwrap();

    // naive is at the moment too bad to solve "nines"
    assert!(game.finished());
    assert!(!game.won());
    assert_eq!(game.step(), 6);
    assert_eq!(
        game.made_guesses(),
        vec![
            &Word::from("which"),
            &Word::from("lines"),
            &Word::from("mines"),
            &Word::from("pines"),
            &Word::from("fines"),
            &Word::from("vines"),
        ]
    );
    // the solver still has a word to offer, and the game takes no more
    next_guess = sl.guess_for(&game).unwrap();
    assert_eq!(next_guess, Word::from("dines"));
    assert_eq!(
        game.guess(&next_guess.clone(), Some(Evaluation::build(&next_guess, "xcccc").unwrap()))
            .err(),
        Some(GameError::TryingToPlayAFinishedGame)
    );
}

#[test]
fn naive_starts_with_the_most_frequent_word() {
    let wl = common_words();
    let sl = AnyBuiltinSolver::Naive(NaiveSolver::build(&wl).unwrap());
    let mut game = Game::build(5, false, 6, &wl, false).unwrap();
    game.set_solution(Some(entry("nines", 0.002)));
    assert_eq!(sl.guess_for(&game).unwrap(), Word::from("which"));
    sl.make_a_move(&mut game).unwrap();
    assert_eq!(game.responses().last().unwrap().guess(), &Word::from("which"));
    assert_eq!(game.responses().last().unwrap().encode(), "xxfxx");
}

#[test]
fn naive_plays_a_predetermined_game_to_the_end() {
    let wl = common_words();
    let sl = NaiveSolver::build(&wl).unwrap();
    let mut game = Game::build(5, false, 6, &wl, false).unwrap();
    game.set_solution(Some(entry("nines", 0.002)));
    // which: `h` is rejected at 1 and 4, `i` at 2 and `c` at 3, so `their`,
    // `being` and `since` are out; `lines` is the most frequent word left
    sl.make_a_move(&mut game).unwrap();
    assert_eq!(game.responses().last().unwrap().guess(), &Word::from("which"));
    sl.make_a_move(&mut game).unwrap();
    assert_eq!(game.responses().last().unwrap().guess(), &Word::from("lines"));
    assert_eq!(game.responses().last().unwrap().encode(), "xcccc");
    sl.make_a_move(&mut game).unwrap();
    assert_eq!(game.responses().last().unwrap().guess(), &Word::from("mines"));
    // `wines` is out, since `w` was rejected at 0
    sl.make_a_move(&mut game).unwrap();
    assert_eq!(game.responses().last().unwrap().guess(), &Word::from("pines"));
    assert!(!game.finished());
    sl.make_a_move(&mut game).unwrap();
    assert_eq!(game.responses().last().unwrap().guess(), &Word::from("nines"));
    assert!(game.finished());
    assert!(game.won());
    // every word that fits has been guessed
    match sl.make_a_move(&mut game) {
        Err(Error::SolverError { source: SolverError::NoMatches(Some(solution)) }) => {
            assert_eq!(solution, entry("nines", 0.002));
        }
        other => panic!("{:?}", other),
    }
    assert_eq!(game.responses().len(), 5);
    // the stupid solver still answers, and the finished game refuses
    let stupid = StupidSolver::build(&wl).unwrap();
    match stupid.make_a_move(&mut game) {
        Err(Error::GameError { source: GameError::TryingToPlayAFinishedGame }) => {}
        other => panic!("{:?}", other),
    }
    assert_eq!(game.responses().len(), 5);
}

#[test]
fn naive_follows_manual_evaluations() {
    let wl = common_words();
    let sl = AnyBuiltinSolver::Naive(NaiveSolver::build(&wl).unwrap());
    let mut game = Game::build(5, false, 6, &wl, false).unwrap();
    let mut next_guess: Word;

    next_guess = sl.guess_for(&game).unwrap();
    assert_eq!(next_guess, Word::from("which"));
    game.guess(&next_guess.clone(), Some(Evaluation::build(&next_guess, "xxfxx").unwrap()))
        .unwrap();

    next_guess = sl.guess_for(&game).unwrap();
    assert_eq!(next_guess, Word::from("lines"));
    game.guess(&next_guess.clone(), Some(Evaluation::build(&next_guess, "xcccc").unwrap()))
        .unwrap();

    next_guess = sl.guess_for(&game).unwrap();
    assert_eq!(next_guess, Word::from("mines"));
    game.guess(&next_guess.clone(), Some(Evaluation::build(&next_guess, "xcccc").unwrap()))
        .unwrap();

    next_guess = sl.guess_for(&game).unwrap();
    assert_eq!(next_guess, Word::from("pines"));
    game.guess(&next_guess.clone(), Some(Evaluation::build(&next_guess, "xcccc").unwrap()))
        .unwrap();

    next_guess = sl.guess_for(&game).unwrap();
    assert_eq!(next_guess, Word::from("nines"));
    game.guess(&next_guess.clone(), Some(Evaluation::build(&next_guess, "ccccc").unwrap()))
        .unwrap();
    assert!(game.finished());
    assert!(game.won());
    assert_eq!(game.step(), 5);
}

#[test]
fn impossible_manual_evaluations_leave_no_candidate() {
    let wl = common_words();
    let sl = NaiveSolver::build(&wl).unwrap();
    let mut game = Game::build(5, false, 6, &wl, false).unwrap();
    let guess = Word::from("which");
    // `w` is matched at the first position ...
    game.guess(&guess, Some(Evaluation::build(&guess, "cxxxx").unwrap())).unwrap();
    // ... and then said to be somewhere else
    let guess = Word::from("wines");
    game.guess(&guess, Some(Evaluation::build(&guess, "fxxxx").unwrap())).unwrap();
    match sl.guess_for(&game) {
        Err(Error::SolverError { source: SolverError::NoMatches(None) }) => {}
        other => panic!("{:?}", other),
    }
    match sl.make_a_move(&mut game) {
        Err(Error::SolverError { source: SolverError::NoMatches(None) }) => {}
        other => panic!("{:?}", other),
    }
    assert_eq!(game.responses().len(), 2);
    match sl.play(&mut game) {
        Err(Error::SolverError { source: SolverError::NoMatches(None) }) => {}
        other => panic!("{:?}", other),
    }

    // two different letters matched at one position
    let mut game = Game::build(5, false, 6, &wl, false).unwrap();
    game.set_solution(Some(entry("nines", 0.002)));
    let guess = Word::from("lines");
    game.guess(&guess, Some(Evaluation::build(&guess, "cxxxx").unwrap())).unwrap();
    let guess = Word::from("mines");
    game.guess(&guess, Some(Evaluation::build(&guess, "cxxxx").unwrap())).unwrap();
    match sl.guess_for(&game) {
        Err(Error::SolverError { source: SolverError::NoMatches(Some(solution)) }) => {
            assert_eq!(solution, entry("nines", 0.002));
        }
        other => panic!("{:?}", other),
    }
}

#[test]
fn naive_does_not_guess_a_word_twice() {
    let wl = list_of(vec![entry("aaaaa", 0.5), entry("bbbbb", 0.4)]);
    let sl = NaiveSolver::build(&wl).unwrap();
    let mut game = Game::build(5, false, 6, &wl, false).unwrap();
    let guess = Word::from("aaaaa");
    // an evaluation that rules nothing out: no letter of the round is known
    game.guess(&guess, Some(Evaluation::build(&Word::from("zzzzz"), "xxxxx").unwrap()))
        .unwrap();
    assert_eq!(game.made_guesses(), vec![&guess]);
    assert_eq!(sl.guess_for(&game).unwrap(), Word::from("bbbbb"));
}

#[test]
fn naive_fails_on_an_empty_list_and_on_a_refused_pattern() {
    let wl = list_of(vec![]);
    let sl = NaiveSolver::build(&wl).unwrap();
    let game = Game::build(5, false, 6, &wl, false).unwrap();
    match sl.guess_for(&game) {
        Err(Error::SolverError { source: SolverError::NoMatches(None) }) => {}
        other => panic!("{:?}", other),
    }
    // a matched `(` makes a pattern that cannot be compiled
    let wl = list_of(vec![entry("(a", 0.5)]);
    let sl = NaiveSolver::build(&wl).unwrap();
    let mut game = Game::build(2, false, 6, &wl, false).unwrap();
    let guess = Word::from("(a");
    game.guess(&guess, Some(Evaluation::build(&guess, "cx").unwrap())).unwrap();
    match sl.guess_for(&game) {
        Err(Error::WordlistError { .. }) => {}
        other => panic!("{:?}", other),
    }
}

#[test]
fn candidates_for_lists_what_is_left_in_order() {
    let wl = common_words();
    let mut game = Game::build(5, false, 6, &wl, false).unwrap();
    assert_eq!(candidates_for(&game).unwrap().len(), 10);
    assert_eq!(candidates_for(&game).unwrap()[0], entry("which", 0.0021));
    let guess = Word::from("which");
    game.guess(&guess, Some(Evaluation::build(&guess, "xxfxx").unwrap())).unwrap();
    let left = candidates_for(&game).unwrap();
    assert_eq!(
        left,
        vec![
            entry("lines", 0.00012),
            entry("mines", 0.000019),
            entry("pines", 0.000016),
            entry("nines", 0.000002),
        ]
    );
    assert_eq!(candidates_for(&game).unwrap(), left);
    let guess = Word::from("lines");
    game.guess(&guess, Some(Evaluation::build(&guess, "ccccx").unwrap())).unwrap();
    match candidates_for(&game) {
        Err(Error::SolverError { source: SolverError::NoMatches(None) }) => {}
        other => panic!("{:?}", other),
    }
}

#[test]
fn render_pattern_writes_a_dot_for_each_open_position() {
    assert_eq!(render_pattern(&vec![None, Some('i'), None, Some('e'), Some('s')]), ".i.es");
    assert_eq!(render_pattern(&vec![]), "");
}

#[test]
fn filter_candidates_ranks_what_is_left() {
    let mut state = SolverState::start(5);
    state.observe_round(5, &Evaluation::build(&Word::from("which"), "xxfxx").unwrap());
    let guessed = Word::from("since");
    let matches = vec![
        entry("nines", 0.1),
        entry("which", 0.9),
        entry("pines", 0.4),
        entry("since", 0.8),
        entry("mines", 0.4),
        entry("about", 0.7),
        entry("lines", 0.5),
        entry("toolong", 0.9),
    ];
    let left = filter_candidates(&state, &vec![&guessed], &matches);
    assert_eq!(
        left,
        vec![entry("lines", 0.5), entry("mines", 0.4), entry("pines", 0.4), entry("nines", 0.1)]
    );
    // twice the same
    assert_eq!(filter_candidates(&state, &vec![&guessed], &matches), left);
}

#[test]
fn play_runs_until_the_game_has_finished() {
    let wl = common_words();
    let sl = NaiveSolver::build(&wl).unwrap();
    let builder = Game::builder(&wl).solution(Some(entry("lines", 0.1))).max_steps(6);
    let mut game = builder.build().unwrap();
    let last = sl.play(&mut game).unwrap();
    assert!(last.won());
    assert!(game.won());
    assert_eq!(last.guess(), &Word::from("lines"));
    assert_eq!(game.made_guesses(), vec![&Word::from("which"), &Word::from("lines")]);
    assert_eq!(game.last_response(), Some(&last));

    let last = sl.play_owned(builder.build().unwrap()).unwrap();
    assert_eq!(last.step(), 2);
    assert_eq!(last.solution(), Some(entry("lines", 0.1)));

    let game = builder.build().unwrap();
    assert_eq!(sl.solve(&game).unwrap(), Some(entry("lines", 0.1)));
    assert_eq!(game.responses().len(), 0);

    // a game without a solution cannot be played without evaluations
    let mut game = Game::build(5, false, 6, &wl, false).unwrap();
    match sl.play(&mut game) {
        Err(Error::GameError { source: GameError::InvalidEvaluationSyntax(_) }) => {}
        other => panic!("{:?}", other),
    }
}

#[test]
fn play_stops_a_game_that_runs_out_of_steps() {
    let wl = common_words();
    let sl = AnyBuiltinSolver::Naive(NaiveSolver::build(&wl).unwrap());
    let builder = Game::builder(&wl).solution(Some(entry("nines", 0.002))).max_steps(2);
    let mut game = builder.build().unwrap();
    let last = sl.play(&mut game).unwrap();
    assert!(last.finished());
    assert!(!last.won());
    assert_eq!(game.step(), 2);
    assert_eq!(game.made_guesses(), vec![&Word::from("which"), &Word::from("lines")]);
}

#[test]
fn stupid_guesses_a_word_of_its_list() {
    let wl = common_words();
    let sl = StupidSolver::build(&wl).unwrap();
    let game = Game::build(5, false, 6, &wl, false).unwrap();
    for _ in 0..20 {
        let guess = sl.guess_for(&game).unwrap();
        assert!(wl.get_word(&guess).is_some());
    }
    let empty = list_of(vec![]);
    let sl = AnyBuiltinSolver::from(StupidSolver::build(&empty).unwrap());
    let game = Game::build(5, false, 6, &empty, false).unwrap();
    match sl.guess_for(&game) {
        Err(Error::SolverError { source: SolverError::NoMatches(None) }) => {}
        other => panic!("{:?}", other),
    }
}

#[test]
fn solver_names_are_read_in_any_case() {
    assert_eq!("naive".parse::<BuiltinSolverNames>(), Ok(BuiltinSolverNames::Naive));
    assert_eq!("NAIVE".parse::<BuiltinSolverNames>(), Ok(BuiltinSolverNames::Naive));
    assert_eq!(BuiltinSolverNames::parse("StUpId"), Ok(BuiltinSolverNames::Stupid));
    assert_eq!(BuiltinSolverNames::parse("clever"), Err(SolverError::UnknownBuiltinSolver));
    assert_eq!(BuiltinSolverNames::from_lowercase("stupid"), Ok(BuiltinSolverNames::Stupid));
    assert_eq!(
        BuiltinSolverNames::from_lowercase("Naive"),
        Err(SolverError::UnknownBuiltinSolver)
    );
    assert_eq!(BuiltinSolverNames::default(), BuiltinSolverNames::Naive);
    assert_eq!(BuiltinSolverNames::Naive.name(), "Naive");
    assert_eq!(BuiltinSolverNames::Stupid.name(), "Stupid");
    let wl = common_words();
    assert!(matches!(BuiltinSolverNames::Naive.to_solver(&wl), AnyBuiltinSolver::Naive(_)));
    assert!(matches!(BuiltinSolverNames::Stupid.to_solver(&wl), AnyBuiltinSolver::Stupid(_)));
    assert!(matches!(AnyBuiltinSolver::build(&wl), Ok(AnyBuiltinSolver::Naive(_))));
    let boxed = NaiveSolver::build(&wl).unwrap().boxed();
    let game = Game::build(5, false, 6, &wl, false).unwrap();
    assert_eq!(boxed.guess_for(&game).unwrap(), Word::from("which"));
}
