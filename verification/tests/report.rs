use wordle_analyzer::bench::report::Report;
use wordle_analyzer::bench::DEFAULT_N;
use wordle_analyzer::game::summary::Summary;
use wordle_analyzer::game::Game;
use wordle_analyzer::solve::{NaiveSolver, Solver};
use wordle_analyzer::wlist::builtin::BuiltinWList;
use wordle_analyzer::wlist::word::{Word, WordMap};
use wordle_analyzer::{DEFAULT_MAX_STEPS, DEFAULT_WORD_LENGTH};

fn three_words() -> BuiltinWList {
    BuiltinWList::new(
        String::from("(three)"),
        WordMap::from_words(vec![
            (Word::from("which"), 3),
            (Word::from("lines"), 2),
            (Word::from("nines"), 1),
        ]),
    )
}

#[test]
fn the_defaults_are_five_letters_six_steps_fifty_games() {
    assert_eq!(DEFAULT_WORD_LENGTH, 5);
    assert_eq!(DEFAULT_MAX_STEPS, 6);
    assert_eq!(DEFAULT_N, 50);
}

#[test]
fn a_report_counts_wins_and_steps() {
    let wl = three_words();
    let sl = NaiveSolver::build(&wl).unwrap();
    let builder = Game::builder(&wl).max_steps(2);
    let mut report = Report::new(builder.build().unwrap());
    assert_eq!(report.n(), 0);
    assert_eq!(report.max_steps(), 2);
    assert!(!report.finished());
    assert!(report.benchtime().is_none());
    assert!(report.avg_time().is_none());
    for solution in ["which", "lines", "nines"] {
        let builder =
            Game::builder(&wl).max_steps(2).solution(Some((Word::from(solution), 1)));
        report.add(sl.play_owned(builder.build().unwrap()).unwrap());
    }
    assert_eq!(report.n(), 3);
    // `which` at once, `lines` with the second guess, `nines` not in two
    assert_eq!(report.total_wins(), 2);
    assert_eq!(report.total_steps(), 0 + 1 + 1);
    assert_eq!(report.data().len(), 3);
    assert!(report.avg_time().is_none());
    report.finalize();
    assert!(report.finished());
    assert!(report.benchtime().unwrap() >= chrono::TimeDelta::zero());
    assert!(report.avg_time().unwrap() <= report.benchtime().unwrap());
}

#[test]
fn an_empty_report_has_no_average_time() {
    let wl = three_words();
    let builder = Game::builder(&wl);
    let mut report = Report::new(builder.build().unwrap());
    report.finalize();
    assert!(report.benchtime().is_some());
    assert!(report.avg_time().is_none());
    assert_eq!(report.total_wins(), 0);
    assert_eq!(report.total_steps(), 0);
}

#[test]
fn a_summary_piles_games_up() {
    let wl = three_words();
    let games = vec![
        Game::build(5, false, 6, &wl, false).unwrap(),
        Game::build(4, false, 6, &wl, false).unwrap(),
    ];
    let extra = Game::build(3, false, 6, &wl, false).unwrap();
    let mut summary = Summary::from_games(&games);
    assert_eq!(summary.len(), 2);
    summary.push(&extra);
    assert_eq!(summary.pop().unwrap().length(), 3);
    assert_eq!(summary.pop().unwrap().length(), 4);
    assert_eq!(summary.pop().unwrap().length(), 5);
    assert!(summary.pop().is_none());
    assert_eq!(Summary::<BuiltinWList>::new().len(), 0);
    assert_eq!(Summary::from(vec![&extra]).len(), 1);
}
