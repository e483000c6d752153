use deeplearning::evolution::stop::{Progress, StopRule};
use deeplearning::fitness::Fitness;

fn fitness(value: f64) -> Fitness {
    Fitness::from_bits(value.to_bits())
}

fn progress_after(history: &[f64]) -> Progress {
    let mut progress = Progress::start();
    for best in history {
        progress.observe(fitness(*best));
    }
    progress
}

fn first_stop(rule: StopRule, history: &[f64]) -> Option<usize> {
    let mut progress = Progress::start();
    for (generation, best) in history.iter().enumerate() {
        progress.observe(fitness(*best));
        if rule.fires(&progress) {
            return Some(generation);
        }
    }
    None
}

#[test]
fn a_run_starts_with_nothing_scored() {
    let progress = Progress::start();
    assert_eq!(progress, Progress { generation: 0, best: None, stagnant: 0 });
}

#[test]
fn the_first_score_opens_generation_zero() {
    let progress = progress_after(&[4.0]);
    assert_eq!(progress, Progress { generation: 0, best: Some(fitness(4.0)), stagnant: 0 });
}

#[test]
fn each_later_score_closes_a_generation() {
    let progress = progress_after(&[4.0, 5.0, 6.0]);
    assert_eq!(progress.generation, 2);
    assert_eq!(progress.best, Some(fitness(6.0)));
    assert_eq!(progress.stagnant, 0);
}

#[test]
fn the_streak_counts_generations_without_a_rise() {
    assert_eq!(progress_after(&[4.0, 4.0]).stagnant, 1);
    assert_eq!(progress_after(&[4.0, 3.0, 3.5]).stagnant, 0);
    assert_eq!(progress_after(&[4.0, 3.0, 3.0, 2.0]).stagnant, 3);
    assert_eq!(progress_after(&[1.0, 2.0, 2.0, 2.0, 3.0]).stagnant, 0);
    assert_eq!(progress_after(&[1.0, 2.0, 2.0, 2.0, 3.0, 3.0]).stagnant, 1);
}

#[test]
fn nothing_fires_before_the_first_score() {
    let progress = Progress::start();
    assert!(!StopRule::GenerationReached(0).fires(&progress));
    assert!(!StopRule::HasNotImprovedSince(0).fires(&progress));
    assert!(!StopRule::FitnessReached(fitness(f64::NEG_INFINITY)).fires(&progress));
    assert!(!StopRule::Never.fires(&progress));
}

#[test]
fn fitness_reached_fires_at_the_threshold() {
    let rule = StopRule::FitnessReached(fitness(5.0));
    assert!(!rule.fires(&progress_after(&[4.999])));
    assert!(rule.fires(&progress_after(&[5.0])));
    assert!(rule.fires(&progress_after(&[1.0, 6.0])));
    assert_eq!(first_stop(rule, &[1.0, 2.0, 7.0, 8.0]), Some(2));
}

#[test]
fn fitness_reached_never_fires_for_a_threshold_that_is_not_a_number() {
    let rule = StopRule::FitnessReached(fitness(f64::NAN));
    assert!(!rule.fires(&progress_after(&[f64::INFINITY])));
    assert!(!rule.fires(&progress_after(&[f64::NAN])));
}

#[test]
fn generation_reached_fires_after_exactly_that_many_generations() {
    for count in 0..6 {
        let history = [1.0, 1.0, 2.0, 0.0, 5.0, 5.0, 5.0, 9.0];
        assert_eq!(first_stop(StopRule::GenerationReached(count), &history), Some(count));
    }
}

#[test]
fn has_not_improved_since_fires_at_the_end_of_the_plateau() {
    for count in 1..6 {
        for rise in 1..5 {
            let mut history: Vec<f64> = (0..rise).map(|step| step as f64).collect();
            let top = (rise - 1) as f64;
            for _ in 0..count {
                history.push(top);
            }
            history.push(top);
            history.push(top);
            assert_eq!(
                first_stop(StopRule::HasNotImprovedSince(count), &history),
                Some(rise + count - 1)
            );
        }
    }
}

#[test]
fn has_not_improved_since_starts_over_after_a_rise() {
    let history = [1.0, 1.0, 1.0, 2.0, 2.0, 2.0, 2.0];
    assert_eq!(first_stop(StopRule::HasNotImprovedSince(3), &history), Some(6));
    assert_eq!(first_stop(StopRule::HasNotImprovedSince(2), &history), Some(2));
}

#[test]
fn has_not_improved_since_counts_a_fall_as_no_rise() {
    let history = [5.0, 4.0, 3.0];
    assert_eq!(first_stop(StopRule::HasNotImprovedSince(2), &history), Some(2));
}

#[test]
fn has_not_improved_since_zero_fires_at_once() {
    assert_eq!(first_stop(StopRule::HasNotImprovedSince(0), &[3.0, 4.0]), Some(0));
}

#[test]
fn never_does_not_fire() {
    assert_eq!(first_stop(StopRule::Never, &[1.0, 1.0, 1.0, f64::INFINITY]), None);
}
