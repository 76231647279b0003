//! The integer side of the descriptive statistics of a sorted sample: where
//! the order statistics stand and what the sums are divided by.
//!
//! The arithmetic on the values is the caller's. What is decided here is
//! which sample has statistics at all, which positions of the sorted sample
//! hold the minimum, the maximum and the median, and the two divisors. Every
//! sample with a value has a plan; only the standard deviation needs two.

use vstd::prelude::*;

verus! {

/// Why a sample has no statistics.
#[derive(Clone, Copy, Debug, PartialEq, Eq, Structural)]
pub enum StatsError {
    /// The sample holds no value: there is no data to compute statistics
    /// for.
    EmptyData,
}

/// Where the median of a sorted sample stands.
#[derive(Clone, Copy, Debug, PartialEq, Eq, Structural)]
pub enum MedianPosition {
    /// The median is the value at `index`.
    Middle { index: usize },
    /// The median is the mean of the values at `lower` and `upper`.
    Between { lower: usize, upper: usize },
}

impl MedianPosition {
    /// The first position that the median reads.
    pub open spec fn lower(self) -> int {
        match self {
            MedianPosition::Middle { index } => index as int,
            MedianPosition::Between { lower, upper } => lower as int,
        }
    }

    /// The last position that the median reads.
    pub open spec fn upper(self) -> int {
        match self {
            MedianPosition::Middle { index } => index as int,
            MedianPosition::Between { lower, upper } => upper as int,
        }
    }
}

/// How the statistics of a sorted sample are read off it.
#[derive(Clone, Copy, Debug, PartialEq, Eq)]
pub struct StatsPlan {
    /// The number of values, by which the sum is divided for the mean.
    pub count: usize,
    /// The position of the smallest value.
    pub min_index: usize,
    /// The position of the largest value.
    pub max_index: usize,
    /// The position of the median.
    pub median: MedianPosition,
    /// What the sum of the squared differences from the mean is divided by
    /// for the variance: one less than the number of values. A sample of
    /// one value has no divisor, and its standard deviation is undefined.
    pub deviation_divisor: Option<usize>,
}

/// The divisor of the variance of `count` values.
pub open spec fn deviation_divisor(count: usize) -> Option<usize> {
    if count >= 2 {
        Some((count - 1) as usize)
    } else {
        None
    }
}

/// The position of the median in a sorted sample of `count` values: the
/// middle one of an odd number, the two that meet in the middle of an even
/// number.
pub open spec fn median_position(count: usize) -> MedianPosition
    recommends
        count > 0,
{
    if count % 2 == 1 {
        MedianPosition::Middle { index: (count / 2) as usize }
    } else {
        MedianPosition::Between { lower: (count / 2 - 1) as usize, upper: (count / 2) as usize }
    }
}

/// The plan for a sample of `count` values, or why there is none.
pub open spec fn stats_plan(count: usize) -> Result<StatsPlan, StatsError> {
    if count == 0 {
        Err(StatsError::EmptyData)
    } else {
        Ok(
            StatsPlan {
                count,
                min_index: 0,
                max_index: (count - 1) as usize,
                median: median_position(count),
                deviation_divisor: deviation_divisor(count),
            },
        )
    }
}

/// Says how to read the statistics off a sorted sample of `count` values.
///
/// A sample without values has no statistics: that is the one error. A
/// sample of a single value has all statistics but the standard deviation,
/// for which the plan holds no divisor.
pub fn plan_stats(count: usize) -> (plan: Result<StatsPlan, StatsError>)
    ensures
        plan == stats_plan(count),
{
    if count == 0 {
        return Err(StatsError::EmptyData);
    }
    let half: usize = count / 2;
    let median = if count % 2 == 1 {
        MedianPosition::Middle { index: half }
    } else {
        MedianPosition::Between { lower: half - 1, upper: half }
    };
    Ok(
        StatsPlan {
            count,
            min_index: 0,
            max_index: count - 1,
            median,
            deviation_divisor: if count >= 2 {
                Some(count - 1)
            } else {
                None
            },
        },
    )
}

/// The median stands in the middle: as many positions lie before it as
/// after it, it reads one position or two neighbours, and no other choice
/// of positions does so.
pub proof fn lemma_median_is_central(count: usize, lower: int, upper: int)
    requires
        count > 0,
    ensures
        0 <= median_position(count).lower() <= median_position(count).upper() < count,
        median_position(count).lower() == count - 1 - median_position(count).upper(),
        median_position(count).upper() - median_position(count).lower() <= 1,
        (0 <= lower <= upper < count && lower == count - 1 - upper && upper - lower <= 1) ==> (
        lower == median_position(count).lower() && upper == median_position(count).upper()),
{
}

/// Every sample with a value has a plan. It reads positions of the sample,
/// counts all its values, and divides the squared differences by one less
/// than their number, which a single value does not allow.
pub proof fn lemma_plan_reads_the_sample(count: usize)
    requires
        count >= 1,
    ensures
        stats_plan(count) matches Ok(plan) && {
            &&& plan.count == count
            &&& plan.min_index == 0
            &&& plan.max_index == count - 1
            &&& plan.min_index <= plan.median.lower() <= plan.median.upper() <= plan.max_index
            &&& count == 1 <==> plan.deviation_divisor is None
            &&& plan.deviation_divisor matches Some(divisor) ==> divisor == count - 1 && divisor > 0
        },
{
}

} // verus!
