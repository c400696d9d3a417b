use wordle_solver::constraints::ConstraintSet;
use wordle_solver::game::{Game, GameError};
use wordle_solver::letters::LetterSet;
use wordle_solver::score::{is_solved, score, Mark};
use wordle_solver::solver::{narrow, solve, solve_with_budget, Session, SolveError, MAX_GUESSES};
use wordle_solver::word::{words_from_lines, Word};

fn w(s: &str) -> Word {
    Word::parse(s).unwrap()
}

fn dict(words: &[&str]) -> Vec<Word> {
    words.iter().map(|s| w(s)).collect()
}

#[test]
fn parse_accepts_five_letters() {
    assert_eq!(w("crane").bytes(), *b"crane");
    assert_eq!(w("CRaNe").bytes(), *b"CRaNe");
}

#[test]
fn parse_rejects_bad_lines() {
    assert!(Word::parse("").is_none());
    assert!(Word::parse("cran").is_none());
    assert!(Word::parse("cranes").is_none());
    assert!(Word::parse("cr4ne").is_none());
    assert!(Word::parse("cr ne").is_none());
    assert!(Word::parse("cran\u{e9}").is_none());
}

#[test]
fn words_from_lines_drops_invalid_lines_in_order() {
    let lines = vec!["crane", "toolong", "ab1de", "", "slate", "plate\r"];
    let words = words_from_lines(&lines);
    assert_eq!(words, dict(&["crane", "slate"]));
}

#[test]
fn same_as_compares_letters() {
    assert!(w("crane").same_as(&w("crane")));
    assert!(!w("crane").same_as(&w("crate")));
    assert!(!w("crane").same_as(&w("Crane")));
}

#[test]
fn score_crane_against_slate() {
    let hint = score(&w("slate"), &w("crane"));
    assert_eq!(hint, [Mark::Absent, Mark::Absent, Mark::Correct, Mark::Absent, Mark::Correct]);
}

#[test]
fn score_correct_exactly_where_letters_match() {
    let secret = w("plate");
    let guess = w("pleat");
    let hint = score(&secret, &guess);
    for i in 0..5 {
        assert_eq!(hint[i] == Mark::Correct, secret.bytes()[i] == guess.bytes()[i]);
    }
    assert_eq!(hint, [Mark::Correct, Mark::Correct, Mark::Misplaced, Mark::Misplaced, Mark::Misplaced]);
}

#[test]
fn score_absent_letter_occurs_nowhere() {
    let secret = w("slate");
    let hint = score(&secret, &w("bumpy"));
    assert_eq!(hint, [Mark::Absent; 5]);
    for i in 0..5 {
        assert!(!secret.bytes().contains(&b"bumpy"[i]));
    }
}

#[test]
fn score_repeated_letter_is_misplaced_each_time() {
    let hint = score(&w("slate"), &w("sassy"));
    assert_eq!(hint, [Mark::Correct, Mark::Misplaced, Mark::Misplaced, Mark::Misplaced, Mark::Absent]);
}

#[test]
fn score_is_case_sensitive() {
    let hint = score(&w("slate"), &w("SLATE"));
    assert_eq!(hint, [Mark::Absent; 5]);
}

#[test]
fn is_solved_only_for_all_correct() {
    assert!(is_solved(&[Mark::Correct; 5]));
    assert!(!is_solved(&[Mark::Correct, Mark::Correct, Mark::Correct, Mark::Correct, Mark::Misplaced]));
}

#[test]
fn game_guess_scores_against_secret() {
    let game = Game::from_word(w("slate"));
    assert_eq!(game.secret(), w("slate"));
    assert_eq!(game.guess(w("slate")), [Mark::Correct; 5]);
    assert_eq!(game.guess(w("least")), [Mark::Misplaced, Mark::Misplaced, Mark::Correct, Mark::Misplaced, Mark::Misplaced]);
}

#[test]
fn from_random_refuses_empty_dictionary() {
    assert!(matches!(Game::from_random(&[]), Err(GameError::EmptyDictionary)));
}

#[test]
fn from_random_draws_from_dictionary() {
    let one = dict(&["slate"]);
    for _ in 0..20 {
        let game = Game::from_random(&one).unwrap();
        assert_eq!(game.secret(), w("slate"));
    }
    let several = dict(&["crane", "slate", "plate", "slant"]);
    for _ in 0..50 {
        let game = Game::from_random(&several).unwrap();
        assert!(several.contains(&game.secret()));
    }
}

#[test]
fn letter_set_holds_each_letter_once() {
    let mut set = LetterSet::new();
    assert!(!set.contains(b'a'));
    set.insert(b'a');
    set.insert(b'b');
    set.insert(b'a');
    assert!(set.contains(b'a'));
    assert!(set.contains(b'b'));
    assert!(!set.contains(b'c'));
    assert!(!set.contains(200));
}

#[test]
fn letter_set_takes_every_ascii_letter() {
    let mut set = LetterSet::new();
    for b in (b'A'..=b'Z').chain(b'a'..=b'z') {
        set.insert(b);
        set.insert(b);
    }
    for b in (b'A'..=b'Z').chain(b'a'..=b'z') {
        assert!(set.contains(b));
    }
}

#[test]
fn new_constraints_accept_everything() {
    let cs = ConstraintSet::new();
    assert!(cs.is_consistent(&w("crane")));
    assert!(cs.is_consistent(&w("zzzzz")));
}

#[test]
fn observe_correct_pins_letter() {
    let mut cs = ConstraintSet::new();
    let hint = [Mark::Absent, Mark::Absent, Mark::Correct, Mark::Absent, Mark::Absent];
    cs.observe(&hint, &w("xyazq"));
    assert!(cs.is_consistent(&w("blade")));
    assert!(!cs.is_consistent(&w("bloke")));
    assert!(!cs.is_consistent(&w("blide")));
}

#[test]
fn observe_known_slot_keeps_first_letter() {
    let mut cs = ConstraintSet::new();
    cs.observe(&[Mark::Correct, Mark::Misplaced, Mark::Misplaced, Mark::Misplaced, Mark::Misplaced], &w("abcde"));
    cs.observe(&[Mark::Correct, Mark::Misplaced, Mark::Misplaced, Mark::Misplaced, Mark::Misplaced], &w("fghij"));
    assert!(cs.is_consistent(&w("azzzz")));
    assert!(!cs.is_consistent(&w("fzzzz")));
}

#[test]
fn observe_misplaced_is_not_enforced() {
    let mut cs = ConstraintSet::new();
    cs.observe(&[Mark::Misplaced; 5], &w("abcde"));
    assert!(cs.is_consistent(&w("zzzzz")));
    assert!(cs.is_consistent(&w("abcde")));
}

#[test]
fn excluded_letter_rejected_even_when_required() {
    let mut cs = ConstraintSet::new();
    let hint = [Mark::Misplaced, Mark::Absent, Mark::Misplaced, Mark::Misplaced, Mark::Misplaced];
    cs.observe(&hint, &w("llama"));
    assert!(!cs.is_consistent(&w("plate")));
    assert!(!cs.is_consistent(&w("zzzzl")));
    assert!(cs.is_consistent(&w("amaam")));
}

#[test]
fn narrow_keeps_order_and_drops_guess() {
    let mut cs = ConstraintSet::new();
    let guess = w("crane");
    cs.observe(&score(&w("slate"), &guess), &guess);
    let before = dict(&["crane", "slate", "plate", "slant", "blade"]);
    let after = narrow(&before, &cs, &guess);
    assert_eq!(after, dict(&["slate", "plate", "blade"]));
    assert!(after.len() <= before.len());
}

#[test]
fn narrow_never_grows() {
    let cs = ConstraintSet::new();
    let before = dict(&["crane", "crane", "slate"]);
    let after = narrow(&before, &cs, &w("crane"));
    assert_eq!(after, dict(&["slate"]));
    let again = narrow(&after, &cs, &w("plate"));
    assert!(again.len() <= after.len());
    assert_eq!(again, dict(&["slate"]));
}

#[test]
fn solve_opening_guess_is_secret() {
    let game = Game::from_word(w("crane"));
    let result = solve(game, dict(&["crane", "slate", "plate", "slant"]));
    assert_eq!(result, Ok((w("crane"), 1)));
}

#[test]
fn solve_crane_even_without_it_in_dictionary() {
    let game = Game::from_word(w("crane"));
    assert_eq!(solve(game, Vec::new()), Ok((w("crane"), 1)));
}

#[test]
fn solve_slate_from_small_dictionary() {
    let game = Game::from_word(w("slate"));
    let result = solve(game, dict(&["crane", "slate", "plate", "slant"]));
    assert_eq!(result, Ok((w("slate"), 2)));
}

#[test]
fn solve_walks_candidates_in_order() {
    let game = Game::from_word(w("slate"));
    let result = solve(game, dict(&["plate", "elate", "slate"]));
    // "plate" and then "elate" are guessed before "slate".
    assert_eq!(result, Ok((w("slate"), 4)));
}

#[test]
fn solve_reports_exhausted_candidates() {
    let game = Game::from_word(w("slate"));
    let result = solve(game, dict(&["crane", "cover"]));
    assert_eq!(result, Err(SolveError::NoCandidates));
}

#[test]
fn solve_budget_exhaustion_reports_budget() {
    let game = Game::from_word(w("slate"));
    let result = solve_with_budget(game, dict(&["plate", "slate"]), 2);
    assert_eq!(result, Ok((w("plate"), 2)));
}

#[test]
fn solve_budget_of_one_scores_nothing() {
    let game = Game::from_word(w("slate"));
    assert_eq!(solve_with_budget(game, dict(&["slate"]), 1), Ok((w("crane"), 1)));
    let game = Game::from_word(w("slate"));
    assert_eq!(solve_with_budget(game, dict(&["slate"]), 0), Ok((w("crane"), 0)));
}

#[test]
fn max_guesses_is_fifteen_thousand() {
    assert_eq!(MAX_GUESSES, 15000);
}

#[test]
fn session_steps_narrow_round_by_round() {
    let game = Game::from_word(w("slate"));
    let mut session = Session::new(game, dict(&["crane", "slate", "plate", "slant"]), MAX_GUESSES);
    assert_eq!(session.candidate_count(), 4);
    assert_eq!(session.step(), None);
    assert_eq!(session.candidate_count(), 2);
    assert_eq!(session.step(), Some(Ok((w("slate"), 2))));
}

#[test]
fn session_candidate_counts_never_grow() {
    let game = Game::from_word(w("slate"));
    let mut session = Session::new(game, dict(&["plate", "elate", "slate", "crane"]), MAX_GUESSES);
    let mut counts = vec![session.candidate_count()];
    let outcome = loop {
        match session.step() {
            None => counts.push(session.candidate_count()),
            Some(r) => break r,
        }
    };
    assert_eq!(outcome, Ok((w("slate"), 4)));
    assert_eq!(counts, vec![4, 3, 2, 1]);
}
