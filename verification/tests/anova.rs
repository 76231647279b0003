use statrs::distribution::{ContinuousCDF, FisherSnedecor};
use std::cell::Cell;
use ustat::anova::{plan_anova, AnovaError, AnovaPlan};
use ustat::bisect::{search, Bisection, Probability, TOLERANCE_PARTS};

fn value(p: Probability) -> f64 {
    p.numerator as f64 / p.denominator as f64
}

/// The F-statistic of the groups, by the sums of squares.
fn f_statistic(groups: &Vec<Vec<f64>>) -> (f64, AnovaPlan) {
    let sizes: Vec<usize> = groups.iter().map(|g| g.len()).collect();
    let plan = plan_anova(&sizes).unwrap();
    let all_sum: f64 = groups.iter().flat_map(|g| g.iter()).sum();
    let correction = all_sum * all_sum / plan.total as f64;
    let ss_total = groups.iter().flat_map(|g| g.iter()).map(|x| x * x).sum::<f64>() - correction;
    let ss_between = groups
        .iter()
        .map(|g| {
            let s: f64 = g.iter().sum();
            s * s / g.len() as f64
        })
        .sum::<f64>()
        - correction;
    let ss_within = ss_total - ss_between;
    let ms_between = ss_between / plan.df_between as f64;
    let ms_within = ss_within / plan.df_within as f64;
    (ms_between / ms_within, plan)
}

#[test]
fn degrees_of_freedom_of_three_groups() {
    assert_eq!(
        plan_anova(&vec![3, 4, 5]),
        Ok(AnovaPlan { groups: 3, total: 12, df_between: 2, df_within: 9 })
    );
}

#[test]
fn groups_of_one_value_leave_no_freedom_within() {
    assert_eq!(
        plan_anova(&vec![1, 1]),
        Ok(AnovaPlan { groups: 2, total: 2, df_between: 1, df_within: 0 })
    );
}

#[test]
fn fewer_than_two_groups_cannot_be_compared() {
    assert_eq!(plan_anova(&vec![]), Err(AnovaError::TooFewGroups { groups: 0 }));
    assert_eq!(plan_anova(&vec![9]), Err(AnovaError::TooFewGroups { groups: 1 }));
    assert_eq!(plan_anova(&vec![0]), Err(AnovaError::TooFewGroups { groups: 1 }));
}

#[test]
fn an_empty_group_cannot_be_compared() {
    assert_eq!(plan_anova(&vec![3, 0, 5]), Err(AnovaError::EmptyGroup { index: 1 }));
    assert_eq!(plan_anova(&vec![0, 5]), Err(AnovaError::EmptyGroup { index: 0 }));
    assert_eq!(plan_anova(&vec![2, 5, 0]), Err(AnovaError::EmptyGroup { index: 2 }));
}

#[test]
fn the_first_empty_group_is_named() {
    assert_eq!(plan_anova(&vec![3, 0, 5, 0]), Err(AnovaError::EmptyGroup { index: 1 }));
    assert_eq!(plan_anova(&vec![0, 0]), Err(AnovaError::EmptyGroup { index: 0 }));
}

#[test]
fn the_largest_groups_add_up() {
    let plan = plan_anova(&vec![usize::MAX, usize::MAX, usize::MAX]).unwrap();
    assert_eq!(plan.total, 3 * (usize::MAX as u128));
    assert_eq!(plan.df_within, 3 * (usize::MAX as u128) - 3);
    assert_eq!(plan.df_between, 2);
}

#[test]
fn a_new_search_asks_about_one_half() {
    let bisection = Bisection::new();
    assert!(!bisection.converged());
    assert_eq!(bisection.candidate(), Probability { numerator: 1, denominator: 2 });
}

#[test]
fn an_exceeding_quantile_moves_the_lower_bound_up() {
    let mut bisection = Bisection::new();
    bisection.advance(true);
    assert_eq!(bisection.candidate(), Probability { numerator: 3, denominator: 4 });
    bisection.advance(true);
    assert_eq!(bisection.candidate(), Probability { numerator: 7, denominator: 8 });
}

#[test]
fn a_quantile_that_does_not_exceed_moves_the_upper_bound_down() {
    let mut bisection = Bisection::new();
    bisection.advance(false);
    assert_eq!(bisection.candidate(), Probability { numerator: 1, denominator: 4 });
    bisection.advance(true);
    assert_eq!(bisection.candidate(), Probability { numerator: 3, denominator: 8 });
    bisection.advance(false);
    assert_eq!(bisection.candidate(), Probability { numerator: 5, denominator: 16 });
}

#[test]
fn the_search_converges_after_fourteen_answers() {
    let mut bisection = Bisection::new();
    let mut answers = 0;
    while !bisection.converged() {
        bisection.advance(answers % 3 == 0);
        answers += 1;
    }
    assert_eq!(answers, 14);
    assert_eq!(bisection.candidate().denominator, 32768);
    // the interval is narrower than the tolerance, the one before it was not
    assert!(bisection.candidate().denominator / 2 >= TOLERANCE_PARTS);
    assert!(bisection.candidate().denominator / 4 < TOLERANCE_PARTS);
}

#[test]
fn a_converged_search_stays_where_it_is() {
    let mut bisection = Bisection::new();
    while !bisection.converged() {
        bisection.advance(true);
    }
    let result = bisection.candidate();
    bisection.advance(true);
    assert_eq!(bisection.candidate(), result);
    bisection.advance(false);
    assert_eq!(bisection.candidate(), result);
    assert!(bisection.converged());
}

#[test]
fn search_asks_fourteen_times() {
    let calls = Cell::new(0);
    let result = search(|_p: Probability| {
        calls.set(calls.get() + 1);
        false
    });
    assert_eq!(calls.get(), 14);
    assert_eq!(result, Probability { numerator: 1, denominator: 32768 });
}

#[test]
fn search_asks_about_the_midpoints() {
    let asked = std::cell::RefCell::new(Vec::new());
    search(|p: Probability| {
        asked.borrow_mut().push(p);
        p.denominator == 4
    });
    let asked = asked.into_inner();
    assert_eq!(asked[0], Probability { numerator: 1, denominator: 2 });
    assert_eq!(asked[1], Probability { numerator: 1, denominator: 4 });
    assert_eq!(asked[2], Probability { numerator: 3, denominator: 8 });
    assert_eq!(asked[3], Probability { numerator: 5, denominator: 16 });
    for p in &asked {
        assert!(0 < p.numerator && p.numerator < p.denominator);
        assert_eq!(p.numerator % 2, 1);
    }
}

#[test]
fn always_exceeding_quantiles_end_next_to_one() {
    let result = search(|_p: Probability| true);
    assert_eq!(result, Probability { numerator: 32767, denominator: 32768 });
    assert!(1.0 - value(result) < 1e-4);
}

#[test]
fn search_finds_a_threshold() {
    // a question answered yes below 0.3: the bounds close in on 0.3
    let result = search(|p: Probability| value(p) < 0.3);
    assert!((value(result) - 0.3).abs() < 1e-4);
    assert_eq!(result, Probability { numerator: 9831, denominator: 32768 });
}

#[test]
fn search_brackets_every_level() {
    for (numerator, denominator) in [(0u32, 1u32), (1, 1), (1, 3), (1, 2), (5, 7), (9999, 10000)] {
        let level = numerator as f64 / denominator as f64;
        let result = search(|p: Probability| {
            (p.numerator as u64) * (denominator as u64) < (numerator as u64) * (p.denominator as u64)
        });
        assert_eq!(result.denominator, 32768);
        assert!((value(result) - level).abs() <= 1.0 / 32768.0);
    }
}

#[test]
fn a_question_answered_the_wrong_way_round_leads_to_a_bound() {
    // yes above 0.3 and no below: one half is above it, and so is all that follows
    let result = search(|p: Probability| value(p) > 0.3);
    assert_eq!(result, Probability { numerator: 32767, denominator: 32768 });
    let result = search(|p: Probability| value(p) > 0.7);
    assert_eq!(result, Probability { numerator: 1, denominator: 32768 });
}

#[test]
fn groups_with_equal_means_are_not_significant() {
    let groups = vec![vec![1.0, 2.0, 3.0, 4.0, 5.0], vec![5.0, 4.0, 3.0, 2.0, 1.0]];
    let (f, plan) = f_statistic(&groups);
    assert!(f.abs() < 1e-9);
    assert_eq!(plan.df_between, 1);
    assert_eq!(plan.df_within, 8);
    let distribution =
        FisherSnedecor::new(plan.df_between as f64, plan.df_within as f64).unwrap();
    let p = search(|p: Probability| distribution.inverse_cdf(value(p.complement())) > f);
    assert!((1.0 - value(p)).abs() < 1e-4);
}

#[test]
fn the_level_is_the_upper_tail_of_the_statistic() {
    let distribution = FisherSnedecor::new(2.0, 6.0).unwrap();
    // the statistic that 95 parts in 100 of the distribution lie below
    let f = distribution.inverse_cdf(0.95);
    let p = search(|p: Probability| distribution.inverse_cdf(value(p.complement())) > f);
    assert!((value(p) - 0.05).abs() < 1e-4);
    assert!((value(p) - (1.0 - distribution.cdf(f))).abs() < 1e-4);
}

#[test]
fn a_large_statistic_is_significant() {
    let distribution = FisherSnedecor::new(2.0, 6.0).unwrap();
    let f = 13.0;
    let p = search(|p: Probability| distribution.inverse_cdf(value(p.complement())) > f);
    assert!((value(p) - distribution.sf(f)).abs() < 1e-4);
    assert!(value(p) < 0.01);
}

#[test]
fn the_complement_keeps_the_denominator() {
    assert_eq!(
        Probability { numerator: 1, denominator: 4 }.complement(),
        Probability { numerator: 3, denominator: 4 }
    );
    assert_eq!(
        Probability { numerator: 32767, denominator: 32768 }.complement(),
        Probability { numerator: 1, denominator: 32768 }
    );
    assert_eq!(
        Probability { numerator: 0, denominator: 2 }.complement(),
        Probability { numerator: 2, denominator: 2 }
    );
    assert_eq!(
        Probability { numerator: 2, denominator: 2 }.complement(),
        Probability { numerator: 0, denominator: 2 }
    );
}

#[test]
fn the_complement_of_more_than_one_is_zero() {
    assert_eq!(
        Probability { numerator: 5, denominator: 2 }.complement(),
        Probability { numerator: 0, denominator: 2 }
    );
}

#[test]
fn search_asks_strictly_between_zero_and_one() {
    let distribution = FisherSnedecor::new(3.0, 12.0).unwrap();
    for f in [0.0, 0.5, 1.0, 4.0, 1e9] {
        // the quantile is defined from 0 to 1 only, and is never asked outside
        search(|p: Probability| {
            assert!(0 < p.numerator && p.numerator < p.denominator);
            distribution.inverse_cdf(value(p.complement())) > f
        });
    }
}

#[test]
fn f_statistic_of_three_small_groups() {
    let groups = vec![vec![1.0, 2.0, 3.0], vec![2.0, 3.0, 4.0], vec![5.0, 6.0, 7.0]];
    let (f, plan) = f_statistic(&groups);
    assert_eq!(plan, AnovaPlan { groups: 3, total: 9, df_between: 2, df_within: 6 });
    // the group means are 2, 3 and 6: 26 between the groups, 6 within them
    assert!((f - 13.0).abs() < 1e-9);
}

#[test]
fn two_searches_with_the_same_answers_agree() {
    let distribution = FisherSnedecor::new(2.0, 6.0).unwrap();
    let first =
        search(|p: Probability| distribution.inverse_cdf(value(p.complement())) > 13.0);
    let second =
        search(|p: Probability| distribution.inverse_cdf(value(p.complement())) > 13.0);
    assert_eq!(first, second);
}
