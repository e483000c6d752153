use deeplearning::evolution::selection::{select_elites, Leaders};
use deeplearning::fitness::Fitness;

fn scores(values: &[f64]) -> Vec<Fitness> {
    values.iter().map(|value| Fitness::from_bits(value.to_bits())).collect()
}

fn leaders(best: usize, second: usize) -> Leaders {
    Leaders { best: Some(best), second: Some(second) }
}

#[test]
fn the_two_highest_scores_lead() {
    let generation = scores(&[1.0, 7.5, -3.0, 9.0, 2.0]);
    assert_eq!(select_elites(&generation, 1), leaders(3, 1));
}

#[test]
fn a_tie_for_the_lead_goes_to_the_first_seen() {
    let generation = scores(&[4.0, 9.0, 9.0, 1.0]);
    assert_eq!(select_elites(&generation, 1), leaders(1, 2));
}

#[test]
fn a_tie_for_second_goes_to_the_first_seen() {
    let generation = scores(&[5.0, 7.0, 5.0]);
    assert_eq!(select_elites(&generation, 1), leaders(1, 0));
    let generation = scores(&[5.0, 5.0, 7.0]);
    assert_eq!(select_elites(&generation, 1), leaders(2, 0));
    let generation = scores(&[7.0, 5.0, 7.0]);
    assert_eq!(select_elites(&generation, 1), leaders(0, 2));
}

#[test]
fn all_equal_scores_are_led_by_the_first_two() {
    let generation = scores(&[3.0, 3.0, 3.0, 3.0]);
    assert_eq!(select_elites(&generation, 3), leaders(0, 1));
}

#[test]
fn scores_far_below_zero_are_ranked_like_any_other() {
    let generation = scores(&[-20000.0, -10000.0, -30000.0]);
    assert_eq!(select_elites(&generation, 1), leaders(1, 0));
}

#[test]
fn what_is_not_a_number_never_leads_a_number() {
    let generation = scores(&[f64::NAN, -1.0, f64::NAN, -2.0]);
    assert_eq!(select_elites(&generation, 2), leaders(1, 3));
}

#[test]
fn no_score_has_no_leader_and_one_score_has_one() {
    assert_eq!(select_elites(&scores(&[]), 4), Leaders { best: None, second: None });
    assert_eq!(select_elites(&scores(&[2.0]), 4), Leaders { best: Some(0), second: None });
}

#[test]
fn the_leaders_do_not_depend_on_the_number_of_slices() {
    let generations = vec![
        scores(&[1.0, 2.0]),
        scores(&[2.0, 1.0]),
        scores(&[4.0, 9.0, 9.0, 1.0, 9.0, 4.0, 0.0]),
        scores(&[0.5, -0.5, 7.0, 7.0, 3.0, 8.0, 8.0, 8.0, -1.0, 2.0, 6.0]),
        scores(&[5.0, 4.0, 3.0, 2.0, 1.0, 0.0]),
        scores(&[0.0, 1.0, 2.0, 3.0, 4.0, 5.0]),
    ];
    for generation in &generations {
        let expected = select_elites(generation, 1);
        for threads in 0..generation.len() + 3 {
            assert_eq!(select_elites(generation, threads), expected);
        }
        assert_eq!(select_elites(generation, usize::MAX), expected);
    }
}

#[test]
fn no_one_outside_the_leaders_scores_higher() {
    let values = [0.5, -0.5, 7.0, 7.0, 3.0, 8.0, 8.0, 8.0, -1.0, 2.0, 6.0];
    let generation = scores(&values);
    let found = select_elites(&generation, 4);
    let best = found.best.unwrap();
    let second = found.second.unwrap();
    assert_ne!(best, second);
    assert!(values[best] >= values[second]);
    for (index, value) in values.iter().enumerate() {
        if index != best && index != second {
            assert!(*value <= values[second]);
        }
    }
}

#[test]
fn scan_looks_at_its_range_only() {
    let generation = scores(&[9.0, 1.0, 5.0, 3.0, 8.0]);
    assert_eq!(Leaders::scan(&generation, 1, 4), leaders(2, 3));
    assert_eq!(Leaders::scan(&generation, 2, 2), Leaders::nobody());
    assert_eq!(Leaders::scan(&generation, 4, 5), Leaders { best: Some(4), second: None });
}

#[test]
fn offer_takes_in_one_more_score() {
    let generation = scores(&[2.0, 6.0, 4.0, 6.0]);
    let mut running = Leaders::nobody();
    running = running.offer(&generation, 0, 0);
    assert_eq!(running, Leaders { best: Some(0), second: None });
    running = running.offer(&generation, 0, 1);
    assert_eq!(running, leaders(1, 0));
    running = running.offer(&generation, 0, 2);
    assert_eq!(running, leaders(1, 2));
    running = running.offer(&generation, 0, 3);
    assert_eq!(running, leaders(1, 3));
}

#[test]
fn merge_prefers_the_left_side_on_a_tie() {
    let generation = scores(&[6.0, 2.0, 6.0, 6.0]);
    let left = Leaders::scan(&generation, 0, 2);
    let right = Leaders::scan(&generation, 2, 4);
    assert_eq!(left, leaders(0, 1));
    assert_eq!(right, leaders(2, 3));
    assert_eq!(left.merge(right, &generation, 0, 2, 4), leaders(0, 2));
}

#[test]
fn merge_takes_both_leaders_from_the_better_side() {
    let generation = scores(&[1.0, 2.0, 8.0, 9.0]);
    let left = Leaders::scan(&generation, 0, 2);
    let right = Leaders::scan(&generation, 2, 4);
    assert_eq!(left.merge(right, &generation, 0, 2, 4), leaders(3, 2));
    let generation = scores(&[8.0, 9.0, 1.0, 2.0]);
    let left = Leaders::scan(&generation, 0, 2);
    let right = Leaders::scan(&generation, 2, 4);
    assert_eq!(left.merge(right, &generation, 0, 2, 4), leaders(1, 0));
}

#[test]
fn merge_with_an_empty_side_keeps_the_other() {
    let generation = scores(&[1.0, 2.0, 3.0]);
    let all = Leaders::scan(&generation, 0, 3);
    assert_eq!(Leaders::nobody().merge(all, &generation, 0, 0, 3), all);
    assert_eq!(all.merge(Leaders::nobody(), &generation, 0, 3, 3), all);
}
