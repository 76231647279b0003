use ustat::stats::{plan_stats, MedianPosition, StatsError, StatsPlan};

/// The statistics of a sorted sample, read off it as the plan says:
/// mean, count, median, standard deviation, sum, minimum, maximum.
fn compute_stats(buffer: &Vec<f64>) -> (f64, usize, f64, f64, f64, f64, f64) {
    let plan = plan_stats(buffer.len()).unwrap();
    let accum = buffer.iter().sum::<f64>();
    let mean = accum / plan.count as f64;
    let squared_differences = buffer.iter().map(|x| (x - mean) * (x - mean)).sum::<f64>();
    let std_dev = match plan.deviation_divisor {
        Some(divisor) => (squared_differences / divisor as f64).sqrt(),
        None => f64::NAN,
    };
    let median = match plan.median {
        MedianPosition::Middle { index } => buffer[index],
        MedianPosition::Between { lower, upper } => (buffer[lower] + buffer[upper]) / 2.0,
    };
    (
        mean,
        plan.count,
        median,
        std_dev,
        accum,
        buffer[plan.min_index],
        buffer[plan.max_index],
    )
}

#[test]
fn simple_test_of_truth() {
    assert_eq!(2 + 2, 4);
}

#[test]
fn test_compute_stats() {
    let buffer = [1.0, 2.0, 3.0, 4.0, 5.0].to_vec();
    let (mean, count, median, std_dev, accum, min, max) = compute_stats(&buffer);

    assert_eq!(mean, 3.0);
    assert_eq!(count, 5);
    assert_eq!(median, 3.0);
    assert_eq!(std_dev - 1.581138 < 0.00001, true);
    assert_eq!(accum, 15.0);
    assert_eq!(min, 1.0);
    assert_eq!(max, 5.0);
}

#[test]
fn standard_deviation_of_one_to_five() {
    let buffer = vec![1.0, 2.0, 3.0, 4.0, 5.0];
    let (_, _, _, std_dev, _, _, _) = compute_stats(&buffer);
    assert!((std_dev - 1.581139).abs() < 1e-5);
}

#[test]
fn median_of_an_even_count_is_the_mean_of_the_middle_two() {
    let buffer = vec![1.0, 2.0, 3.0, 4.0];
    let (_, count, median, _, _, _, _) = compute_stats(&buffer);
    assert_eq!(count, 4);
    assert_eq!(median, 2.5);
}

#[test]
fn sum_and_count_are_those_of_the_sample() {
    let buffer = vec![-2.5, 0.0, 0.25, 8.0, 8.0, 100.0];
    let (mean, count, _, _, accum, min, max) = compute_stats(&buffer);
    assert_eq!(count, buffer.len());
    assert_eq!(accum, -2.5 + 0.0 + 0.25 + 8.0 + 8.0 + 100.0);
    assert_eq!(mean, 113.75 / 6.0);
    assert_eq!(min, -2.5);
    assert_eq!(max, 100.0);
}

#[test]
fn plan_of_an_odd_count() {
    assert_eq!(
        plan_stats(5),
        Ok(StatsPlan {
            count: 5,
            min_index: 0,
            max_index: 4,
            median: MedianPosition::Middle { index: 2 },
            deviation_divisor: Some(4),
        })
    );
}

#[test]
fn plan_of_an_even_count() {
    assert_eq!(
        plan_stats(4),
        Ok(StatsPlan {
            count: 4,
            min_index: 0,
            max_index: 3,
            median: MedianPosition::Between { lower: 1, upper: 2 },
            deviation_divisor: Some(3),
        })
    );
}

#[test]
fn plan_of_two_values() {
    assert_eq!(
        plan_stats(2),
        Ok(StatsPlan {
            count: 2,
            min_index: 0,
            max_index: 1,
            median: MedianPosition::Between { lower: 0, upper: 1 },
            deviation_divisor: Some(1),
        })
    );
}

#[test]
fn plan_of_the_largest_count() {
    let plan = plan_stats(usize::MAX).unwrap();
    assert_eq!(plan.count, usize::MAX);
    assert_eq!(plan.max_index, usize::MAX - 1);
    assert_eq!(plan.median, MedianPosition::Middle { index: usize::MAX / 2 });
    assert_eq!(plan.deviation_divisor, Some(usize::MAX - 1));
}

#[test]
fn an_empty_sample_has_no_statistics() {
    assert_eq!(plan_stats(0), Err(StatsError::EmptyData));
}

#[test]
fn a_single_value_has_a_plan_without_a_divisor() {
    assert_eq!(
        plan_stats(1),
        Ok(StatsPlan {
            count: 1,
            min_index: 0,
            max_index: 0,
            median: MedianPosition::Middle { index: 0 },
            deviation_divisor: None,
        })
    );
}

#[test]
fn a_single_value_is_its_own_statistics() {
    let buffer = vec![7.5];
    let (mean, count, median, std_dev, accum, min, max) = compute_stats(&buffer);
    assert_eq!(count, 1);
    assert_eq!(accum, 7.5);
    assert_eq!(mean, 7.5);
    assert_eq!(median, 7.5);
    assert_eq!(min, 7.5);
    assert_eq!(max, 7.5);
    assert!(std_dev.is_nan());
}

#[test]
fn only_a_single_value_has_no_divisor() {
    for count in 2..100usize {
        assert_eq!(plan_stats(count).unwrap().deviation_divisor, Some(count - 1));
    }
    assert_eq!(plan_stats(1).unwrap().deviation_divisor, None);
}

#[test]
fn every_sample_with_a_value_is_counted_whole() {
    for count in 1..100usize {
        let plan = plan_stats(count).unwrap();
        assert_eq!(plan.count, count);
        assert_eq!(plan.min_index, 0);
        assert_eq!(plan.max_index, count - 1);
    }
}

#[test]
fn the_median_positions_mirror_each_other() {
    for count in 1..200usize {
        let plan = plan_stats(count).unwrap();
        let (lower, upper) = match plan.median {
            MedianPosition::Middle { index } => (index, index),
            MedianPosition::Between { lower, upper } => (lower, upper),
        };
        assert_eq!(lower, count - 1 - upper);
        assert_eq!(upper - lower, if count % 2 == 0 { 1 } else { 0 });
    }
}

#[test]
fn two_plans_of_one_count_agree() {
    for count in 0..50usize {
        assert_eq!(plan_stats(count), plan_stats(count));
    }
}
