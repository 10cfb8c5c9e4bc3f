use number_guesser::candidates::CandidateSpace;
use number_guesser::difficulty::DifficultyProfile;
use number_guesser::hint::{
    divisible_hint, give_hint, greater_than_hint, less_than_hint, Hint, HintResult,
};

fn easy() -> DifficultyProfile {
    DifficultyProfile { min: 1, max: 20, guess_budget: 5 }
}

fn space(less_than: Vec<u16>, greater_than: Vec<u16>, divisible: Vec<u16>) -> CandidateSpace {
    CandidateSpace { less_than, greater_than, divisible }
}

#[test]
fn hint_tokens_name_the_three_categories() {
    assert_eq!(Hint::from_str("1"), Ok(Hint::LessThan));
    assert_eq!(Hint::from_str("2"), Ok(Hint::GreaterThan));
    assert_eq!(Hint::from_str("4"), Ok(Hint::Divisible));
}

#[test]
fn other_hint_tokens_name_nothing() {
    for token in ["", "0", "3", "5", "12", "1 ", "less"] {
        assert_eq!(Hint::from_str(token), Err(()));
    }
}

#[test]
fn relation_words() {
    assert_eq!(Hint::LessThan.relation(), "less than");
    assert_eq!(Hint::GreaterThan.relation(), "greater than");
    assert_eq!(Hint::Divisible.relation(), "divisible by");
}

#[test]
fn less_than_hint_cuts_at_the_last_guess() {
    let mut nums: Vec<u16> = vec![13, 14, 15, 16, 17, 18, 19, 20];
    let hint = less_than_hint(Some(15), 5, &mut nums);
    assert_eq!(hint, 18);
    assert_eq!(nums, vec![13, 14]);
}

#[test]
fn less_than_hint_cuts_at_the_drawn_value_for_a_guess_elsewhere() {
    let mut nums: Vec<u16> = vec![13, 14, 15, 16, 17, 18, 19, 20];
    let hint = less_than_hint(Some(5), 5, &mut nums);
    assert_eq!(hint, 18);
    assert_eq!(nums, vec![13, 14, 15, 16, 17]);
}

#[test]
fn less_than_hint_cuts_at_the_drawn_value_without_a_guess() {
    let mut nums: Vec<u16> = vec![13, 14, 15, 16];
    let hint = less_than_hint(None, 3, &mut nums);
    assert_eq!(hint, 16);
    assert_eq!(nums, vec![13, 14, 15]);
}

#[test]
fn less_than_hint_can_empty_the_collection() {
    let mut nums: Vec<u16> = vec![13, 14, 15];
    assert_eq!(less_than_hint(None, 0, &mut nums), 13);
    assert_eq!(nums, Vec::<u16>::new());
    let mut nums: Vec<u16> = vec![13, 14, 15];
    assert_eq!(less_than_hint(Some(13), 2, &mut nums), 15);
    assert_eq!(nums, Vec::<u16>::new());
}

#[test]
fn less_than_hint_cuts_at_the_first_place_of_a_repeated_guess() {
    let mut nums: Vec<u16> = vec![30, 31, 32, 31, 33];
    assert_eq!(less_than_hint(Some(31), 4, &mut nums), 33);
    assert_eq!(nums, vec![30]);
    let mut nums: Vec<u16> = vec![30, 31, 32, 31, 33];
    assert_eq!(less_than_hint(None, 3, &mut nums), 31);
    assert_eq!(nums, vec![30, 31, 32]);
}

#[test]
fn greater_than_hint_drops_the_prefix_through_the_drawn_value() {
    let mut nums: Vec<u16> = (1..=11).collect();
    let hint = greater_than_hint(4, &mut nums);
    assert_eq!(hint, 5);
    assert_eq!(nums, vec![6, 7, 8, 9, 10, 11]);
}

#[test]
fn greater_than_hint_at_both_ends() {
    let mut nums: Vec<u16> = vec![1, 2, 3];
    assert_eq!(greater_than_hint(0, &mut nums), 1);
    assert_eq!(nums, vec![2, 3]);
    assert_eq!(greater_than_hint(1, &mut nums), 3);
    assert_eq!(nums, Vec::<u16>::new());
}

#[test]
fn divisible_hint_clears_the_divisors() {
    let mut nums: Vec<u16> = vec![2, 3, 4, 6, 12];
    assert_eq!(divisible_hint(3, &mut nums), 6);
    assert_eq!(nums, Vec::<u16>::new());
    let mut nums: Vec<u16> = vec![17];
    assert_eq!(divisible_hint(0, &mut nums), 17);
    assert_eq!(nums, Vec::<u16>::new());
}

#[test]
fn eligibility_follows_the_sizes() {
    let fresh = CandidateSpace::build(12, &easy());
    assert_eq!(
        fresh.eligible_hints(),
        vec![Hint::LessThan, Hint::GreaterThan, Hint::Divisible]
    );
    assert_eq!(space(vec![13], vec![10, 11], vec![]).eligible_hints(), vec![Hint::GreaterThan]);
    assert_eq!(space(vec![13, 14], vec![11], vec![]).eligible_hints(), vec![Hint::LessThan]);
    assert_eq!(space(vec![13], vec![11], vec![2]).eligible_hints(), vec![Hint::Divisible]);
    assert_eq!(
        space(vec![13, 14], vec![], vec![3]).eligible_hints(),
        vec![Hint::LessThan, Hint::Divisible]
    );
    assert_eq!(space(vec![13], vec![11], vec![]).eligible_hints(), Vec::<Hint>::new());
    assert_eq!(space(vec![], vec![], vec![]).eligible_hints(), Vec::<Hint>::new());
}

#[test]
fn apply_hint_narrows_the_collection_of_its_category() {
    let mut candidates = CandidateSpace::build(12, &easy());
    assert_eq!(candidates.apply_hint(Hint::GreaterThan, 4, Some(5)), 5);
    assert_eq!(candidates.greater_than, vec![6, 7, 8, 9, 10, 11]);
    assert_eq!(candidates.less_than, vec![13, 14, 15, 16, 17, 18, 19, 20]);
    assert_eq!(candidates.divisible, vec![2, 3, 4, 6, 12]);

    assert_eq!(candidates.apply_hint(Hint::LessThan, 7, Some(16)), 20);
    assert_eq!(candidates.less_than, vec![13, 14, 15]);
    assert_eq!(candidates.greater_than, vec![6, 7, 8, 9, 10, 11]);
    assert_eq!(candidates.divisible, vec![2, 3, 4, 6, 12]);

    assert_eq!(candidates.apply_hint(Hint::Divisible, 1, Some(16)), 3);
    assert_eq!(candidates.divisible, Vec::<u16>::new());
    assert_eq!(candidates.less_than, vec![13, 14, 15]);
    assert_eq!(candidates.greater_than, vec![6, 7, 8, 9, 10, 11]);
    assert_eq!(candidates.eligible_hints(), vec![Hint::LessThan, Hint::GreaterThan]);
}

#[test]
fn no_hint_is_available_once_nothing_can_narrow() {
    for _ in 0..50 {
        let mut candidates = space(vec![13], vec![11], vec![]);
        assert_eq!(candidates.next_hint(Some(4)), HintResult::NoHintAvailable);
        assert_eq!(candidates.less_than, vec![13]);
        assert_eq!(candidates.greater_than, vec![11]);
        assert_eq!(candidates.divisible, Vec::<u16>::new());
        let mut empty = space(vec![], vec![], vec![]);
        assert_eq!(empty.next_hint(None), HintResult::NoHintAvailable);
        assert_eq!(empty.less_than.len() + empty.greater_than.len() + empty.divisible.len(), 0);
    }
}

#[test]
fn the_only_eligible_category_is_chosen() {
    for _ in 0..50 {
        let mut candidates = space(vec![13], vec![11], vec![7]);
        assert_eq!(
            candidates.next_hint(None),
            HintResult::Hint { category: Hint::Divisible, value: 7 }
        );
        assert_eq!(candidates.divisible, Vec::<u16>::new());
        assert_eq!(candidates.less_than, vec![13]);
        assert_eq!(candidates.greater_than, vec![11]);
    }
}

#[test]
fn a_greater_than_hint_leaves_what_follows_its_value() {
    for _ in 0..50 {
        let mut candidates = space(vec![], vec![4, 5, 6, 7], vec![]);
        match candidates.next_hint(Some(2)) {
            HintResult::Hint { category: Hint::GreaterThan, value } => {
                assert!((4..=7).contains(&value));
                let rest: Vec<u16> = (value + 1..=7).collect();
                assert_eq!(candidates.greater_than, rest);
            }
            other => panic!("{:?}", other),
        }
    }
}

#[test]
fn a_less_than_hint_cuts_at_the_guess_whatever_value_it_draws() {
    for _ in 0..50 {
        let mut candidates = space(vec![13, 14, 15, 16, 17], vec![], vec![]);
        match candidates.next_hint(Some(15)) {
            HintResult::Hint { category: Hint::LessThan, value } => {
                assert!((13..=17).contains(&value));
                assert_eq!(candidates.less_than, vec![13, 14]);
            }
            other => panic!("{:?}", other),
        }
        let mut candidates = space(vec![13, 14, 15, 16, 17], vec![], vec![]);
        match candidates.next_hint(Some(3)) {
            HintResult::Hint { category: Hint::LessThan, value } => {
                let kept: Vec<u16> = (13..value).collect();
                assert_eq!(candidates.less_than, kept);
            }
            other => panic!("{:?}", other),
        }
    }
}

#[test]
fn every_category_and_every_position_is_drawn() {
    let mut categories = [false; 3];
    let mut values = [false; 3];
    for _ in 0..400 {
        let mut candidates = space(vec![30, 31, 32], vec![10, 11, 12], vec![2, 5, 10]);
        match candidates.next_hint(None) {
            HintResult::Hint { category, value } => {
                let (kind, pool): (usize, [u16; 3]) = match category {
                    Hint::LessThan => (0, [30, 31, 32]),
                    Hint::GreaterThan => (1, [10, 11, 12]),
                    Hint::Divisible => (2, [2, 5, 10]),
                };
                categories[kind] = true;
                let position = pool.iter().position(|&n| n == value).unwrap();
                values[position] = true;
            }
            HintResult::NoHintAvailable => panic!("a hint was available"),
        }
    }
    assert_eq!(categories, [true; 3]);
    assert_eq!(values, [true; 3]);
}

#[test]
fn hints_only_shrink_the_space_until_none_is_left() {
    for secret in 1..=20u16 {
        let mut candidates = CandidateSpace::build(secret, &easy());
        let mut divisible_hints = 0;
        let mut requests = 0;
        loop {
            let before = (
                candidates.less_than.clone(),
                candidates.greater_than.clone(),
                candidates.divisible.clone(),
            );
            let eligible = candidates.eligible_hints();
            let result = candidates.next_hint(Some(secret.wrapping_add(requests) % 21));
            requests += 1;
            assert!(candidates.less_than.len() <= before.0.len());
            assert!(candidates.greater_than.len() <= before.1.len());
            assert!(candidates.divisible.len() <= before.2.len());
            assert!(before.0.starts_with(&candidates.less_than));
            assert!(before.1.ends_with(&candidates.greater_than));
            assert!(candidates.less_than.iter().all(|&n| n > secret));
            assert!(candidates.greater_than.iter().all(|&n| n < secret));
            assert!(candidates.divisible.iter().all(|&d| secret % d == 0));
            assert!(candidates.less_than.windows(2).all(|pair| pair[0] < pair[1]));
            assert!(candidates.greater_than.windows(2).all(|pair| pair[0] < pair[1]));
            assert!(candidates.divisible.windows(2).all(|pair| pair[0] < pair[1]));
            match result {
                HintResult::NoHintAvailable => {
                    assert!(eligible.is_empty());
                    assert!(before.0.len() <= 1 && before.1.len() <= 1 && before.2.is_empty());
                    assert_eq!(candidates.less_than, before.0);
                    assert_eq!(candidates.greater_than, before.1);
                    break;
                }
                HintResult::Hint { category, value } => {
                    assert!(eligible.contains(&category));
                    match category {
                        Hint::LessThan => {
                            assert!(before.0.contains(&value));
                            assert!(secret < value);
                            assert!(candidates.less_than.len() < before.0.len());
                            assert_eq!(candidates.greater_than, before.1);
                            assert_eq!(candidates.divisible, before.2);
                        }
                        Hint::GreaterThan => {
                            assert!(before.1.contains(&value));
                            assert!(secret > value);
                            let rest: Vec<u16> = (value + 1..secret).collect();
                            assert_eq!(candidates.greater_than, rest);
                            assert!(candidates.greater_than.iter().all(|&n| n > value));
                            assert_eq!(candidates.less_than, before.0);
                            assert_eq!(candidates.divisible, before.2);
                        }
                        Hint::Divisible => {
                            divisible_hints += 1;
                            assert!(before.2.contains(&value));
                            assert_eq!(secret % value, 0);
                            assert!(candidates.divisible.is_empty());
                            assert_eq!(candidates.less_than, before.0);
                            assert_eq!(candidates.greater_than, before.1);
                        }
                    }
                }
            }
            assert!(requests <= 60);
        }
        assert!(divisible_hints <= 1);
    }
}

#[test]
fn a_divisible_hint_is_given_once_for_a_prime() {
    let mut candidates = CandidateSpace::build(17, &easy());
    assert_eq!(candidates.divisible, vec![17]);
    assert_eq!(candidates.apply_hint(Hint::Divisible, 0, None), 17);
    assert_eq!(candidates.divisible, Vec::<u16>::new());
    for _ in 0..40 {
        match candidates.next_hint(Some(3)) {
            HintResult::Hint { category, .. } => assert_ne!(category, Hint::Divisible),
            HintResult::NoHintAvailable => break,
        }
        assert!(!candidates.eligible_hints().contains(&Hint::Divisible));
    }
}

#[test]
fn give_hint_tells_the_hint_it_took() {
    for _ in 0..50 {
        let mut candidates = space(vec![13], vec![6, 7, 8], vec![]);
        let text = give_hint(Some(5), &mut candidates);
        let told = [6u16, 7, 8]
            .iter()
            .find(|&&v| text == format!("Hint: the number is greater than {}.", v))
            .copied();
        match told {
            Some(value) => {
                let rest: Vec<u16> = (value + 1..=8).collect();
                assert_eq!(candidates.greater_than, rest);
            }
            None => panic!("{}", text),
        }
    }
    let mut done = space(vec![13], vec![11], vec![]);
    assert_eq!(give_hint(Some(5), &mut done), "No more hints available.");
    assert_eq!(done.less_than, vec![13]);
    assert_eq!(done.greater_than, vec![11]);
}
