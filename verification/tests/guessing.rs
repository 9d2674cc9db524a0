use intro_examples::guessing::{evaluate_guess, pick_secret, play_guesses, GuessOutcome};

#[test]
fn guess_below_is_too_small() {
    assert_eq!(evaluate_guess(10, 50), GuessOutcome::TooSmall);
}

#[test]
fn guess_above_is_too_big() {
    assert_eq!(evaluate_guess(60, 50), GuessOutcome::TooBig);
}

#[test]
fn guess_exact_is_win() {
    assert_eq!(evaluate_guess(50, 50), GuessOutcome::Win);
}

#[test]
fn increasing_guesses_trace() {
    let guesses = vec![10, 30, 49, 50, 60];
    let trace = play_guesses(50, &guesses);
    assert_eq!(
        trace,
        vec![
            GuessOutcome::TooSmall,
            GuessOutcome::TooSmall,
            GuessOutcome::TooSmall,
            GuessOutcome::Win,
        ]
    );
}

#[test]
fn no_guess_read_after_win() {
    let guesses = vec![7, 7, 9];
    let trace = play_guesses(7, &guesses);
    assert_eq!(trace, vec![GuessOutcome::Win]);
}

#[test]
fn trace_without_win_answers_every_guess() {
    let guesses = vec![8, 9];
    let trace = play_guesses(5, &guesses);
    assert_eq!(trace, vec![GuessOutcome::TooBig, GuessOutcome::TooBig]);
}

#[test]
fn secret_is_within_bounds() {
    for _ in 0..100 {
        let s = pick_secret();
        assert!(1 <= s && s <= 100);
    }
}
