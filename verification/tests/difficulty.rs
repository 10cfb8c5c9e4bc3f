use number_guesser::difficulty::{resolve, resolve_difficulty, Difficulty, DifficultyProfile};
use number_guesser::error::GameError;

#[test]
fn easy_profile_is_one_to_twenty_with_five_guesses() {
    assert_eq!(
        resolve(Difficulty::Easy),
        DifficultyProfile { min: 1, max: 20, guess_budget: 5 }
    );
}

#[test]
fn medium_profile_is_one_to_fifty_with_four_guesses() {
    assert_eq!(
        resolve(Difficulty::Medium),
        DifficultyProfile { min: 1, max: 50, guess_budget: 4 }
    );
}

#[test]
fn hard_profile_is_one_to_hundred_with_three_guesses() {
    assert_eq!(
        resolve(Difficulty::Hard),
        DifficultyProfile { min: 1, max: 100, guess_budget: 3 }
    );
}

#[test]
fn every_table_profile_is_valid() {
    for difficulty in [Difficulty::Easy, Difficulty::Medium, Difficulty::Hard] {
        assert!(resolve(difficulty).is_valid());
    }
}

#[test]
fn profile_validity_needs_a_range_and_a_guess() {
    assert!(DifficultyProfile { min: 3, max: 4, guess_budget: 1 }.is_valid());
    assert!(!DifficultyProfile { min: 4, max: 4, guess_budget: 1 }.is_valid());
    assert!(!DifficultyProfile { min: 5, max: 4, guess_budget: 1 }.is_valid());
    assert!(!DifficultyProfile { min: 1, max: 20, guess_budget: 0 }.is_valid());
}

#[test]
fn difficulty_tokens_select_the_three_levels() {
    assert_eq!(Difficulty::from_str("1"), Ok(Difficulty::Easy));
    assert_eq!(Difficulty::from_str("2"), Ok(Difficulty::Medium));
    assert_eq!(Difficulty::from_str("3"), Ok(Difficulty::Hard));
}

#[test]
fn other_difficulty_tokens_are_invalid_selections() {
    for token in ["", "0", "4", "11", " 1", "1 ", "easy", "+1", "１"] {
        assert_eq!(Difficulty::from_str(token), Err(GameError::InvalidSelection));
        assert_eq!(resolve_difficulty(token), Err(GameError::InvalidSelection));
    }
}

#[test]
fn resolve_difficulty_reads_token_and_table() {
    assert_eq!(
        resolve_difficulty("1"),
        Ok(DifficultyProfile { min: 1, max: 20, guess_budget: 5 })
    );
    assert_eq!(
        resolve_difficulty("2"),
        Ok(DifficultyProfile { min: 1, max: 50, guess_budget: 4 })
    );
    assert_eq!(
        resolve_difficulty("3"),
        Ok(DifficultyProfile { min: 1, max: 100, guess_budget: 3 })
    );
}

#[test]
fn resolving_twice_gives_the_same_profile() {
    for token in ["1", "2", "3", "x"] {
        assert_eq!(resolve_difficulty(token), resolve_difficulty(token));
    }
    for difficulty in [Difficulty::Easy, Difficulty::Medium, Difficulty::Hard] {
        assert_eq!(resolve(difficulty), resolve(difficulty));
    }
}

#[test]
fn difficulty_labels() {
    assert_eq!(Difficulty::Easy.label(), "fácil");
    assert_eq!(Difficulty::Medium.label(), "médio");
    assert_eq!(Difficulty::Hard.label(), "difícil");
}
