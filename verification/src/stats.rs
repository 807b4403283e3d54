//! Descriptive statistics of one column.
//!
//! The library arranges the numbers and picks the least, the greatest and
//! the central ones. The mean, the standard deviation and the mean of the two
//! central numbers are rounding arithmetic: the caller computes them and
//! hands them in as `Moments`, and the library lets no result through that
//! is not finite.

use crate::column::NumericColumn;
use crate::number::{finite, is_finite, rank};
use crate::order::{ascending, ascending_is_sorted_permutation, sort_values};
use vstd::prelude::*;
use vstd::seq_lib::to_multiset_contains;

verus! {

/// Why a column has no statistics.
#[derive(Debug, Clone, Copy, PartialEq, Eq)]
pub enum StatsError {
    /// The column holds no number.
    EmptyInput,
    /// The column holds one number only: the sample standard deviation
    /// divides by the count less one.
    InsufficientData,
    /// The arithmetic has no finite result on this column.
    DegenerateInput,
}

/// The numbers of a column that are found by arranging it in ascending
/// order. With an odd count the two medians are one and the same place.
#[derive(Debug, Clone, Copy, PartialEq, Eq)]
pub struct OrderStatistics {
    /// The first number of the ascending arrangement.
    pub min: u64,
    /// The last number of the ascending arrangement.
    pub max: u64,
    /// The number at place `(count - 1) / 2` of the ascending arrangement.
    pub lower_median: u64,
    /// The number at place `count / 2` of the ascending arrangement.
    pub upper_median: u64,
}

/// What the caller computed of a column, in floating-point arithmetic, each
/// as a bit pattern.
#[derive(Debug, Clone, Copy, PartialEq, Eq)]
pub struct Moments {
    /// The sum of the numbers, divided by their count.
    pub mean: u64,
    /// The square root of: the sum of the squared differences from the mean,
    /// divided by the count less one.
    pub std_dev: u64,
    /// Half the sum of the lower and the upper median.
    pub mid: u64,
}

/// The statistics of a column, each as a bit pattern.
#[derive(Debug, Clone, Copy, PartialEq, Eq)]
pub struct ColumnStats {
    pub mean: u64,
    pub median: u64,
    pub std_dev: u64,
    pub min: u64,
    pub max: u64,
}

/// The order statistics of a sequence of numbers.
pub open spec fn order_statistics_of(values: Seq<u64>) -> Result<OrderStatistics, StatsError> {
    if values.len() == 0 {
        Err(StatsError::EmptyInput)
    } else {
        let sorted = ascending(values);
        let count = values.len() as int;
        Ok(
            OrderStatistics {
                min: sorted[0],
                max: sorted[count - 1],
                lower_median: sorted[(count - 1) / 2],
                upper_median: sorted[count / 2],
            },
        )
    }
}

/// The reason for which numbers have no statistics whatever the arithmetic
/// gives, if there is one.
pub open spec fn stats_input_error(values: Seq<u64>) -> Option<StatsError> {
    if values.len() == 0 {
        Some(StatsError::EmptyInput)
    } else if values.len() == 1 {
        Some(StatsError::InsufficientData)
    } else {
        None
    }
}

/// The median of numbers whose central two have the mean `mid`: with an odd
/// count the central number itself, with an even count `mid`.
pub open spec fn median_of(values: Seq<u64>, mid: u64) -> u64 {
    if values.len() % 2 == 0 {
        mid
    } else {
        ascending(values)[values.len() as int / 2]
    }
}

/// The statistics of a sequence of numbers of which the caller computed
/// `moments`.
pub open spec fn stats_of(values: Seq<u64>, moments: Moments) -> Result<ColumnStats, StatsError> {
    match stats_input_error(values) {
        Some(e) => Err(e),
        None => {
            let median = median_of(values, moments.mid);
            if is_finite(moments.mean) && is_finite(moments.std_dev) && is_finite(median) {
                Ok(
                    ColumnStats {
                        mean: moments.mean,
                        median,
                        std_dev: moments.std_dev,
                        min: ascending(values)[0],
                        max: ascending(values)[values.len() - 1],
                    },
                )
            } else {
                Err(StatsError::DegenerateInput)
            }
        },
    }
}

/// The least and the greatest number are numbers of the sequence, and every
/// number of the sequence lies between them; the medians lie between them
/// too, the lower no later than the upper.
pub proof fn order_statistics_bound(values: Seq<u64>)
    requires
        values.len() > 0,
    ensures
        order_statistics_of(values) matches Ok(found) && {
            &&& values.contains(found.min)
            &&& values.contains(found.max)
            &&& values.contains(found.lower_median)
            &&& values.contains(found.upper_median)
            &&& forall|i: int|
                0 <= i < values.len() ==> rank(found.min) <= rank(#[trigger] values[i]) <= rank(
                    found.max,
                )
            &&& rank(found.min) <= rank(found.lower_median) <= rank(found.upper_median) <= rank(
                found.max,
            )
        },
{
    let sorted = ascending(values);
    let count = values.len() as int;
    ascending_is_sorted_permutation(values);
    assert forall|k: int| 0 <= k < count implies values.contains(#[trigger] sorted[k]) by {
        to_multiset_contains(sorted, sorted[k]);
        to_multiset_contains(values, sorted[k]);
    }
    assert forall|i: int| 0 <= i < values.len() implies rank(sorted[0]) <= rank(
        #[trigger] values[i],
    ) <= rank(sorted[count - 1]) by {
        to_multiset_contains(values, values[i]);
        to_multiset_contains(sorted, values[i]);
        let k = choose|k: int| 0 <= k < sorted.len() && sorted[k] == values[i];
        assert(rank(sorted[0]) <= rank(sorted[k]));
        assert(rank(sorted[k]) <= rank(sorted[count - 1]));
    }
    assert(sorted[0] == sorted[0] && sorted[count - 1] == sorted[count - 1]);
    assert(rank(sorted[0]) <= rank(sorted[(count - 1) / 2]));
    assert(rank(sorted[(count - 1) / 2]) <= rank(sorted[count / 2]));
    assert(rank(sorted[count / 2]) <= rank(sorted[count - 1]));
}

/// Picks the least, the greatest and the central numbers of a column.
pub fn order_statistics(values: &NumericColumn) -> (r: Result<OrderStatistics, StatsError>)
    ensures
        r == order_statistics_of(values@),
{
    let count: usize = values.len();
    if count == 0 {
        return Err(StatsError::EmptyInput);
    }
    let sorted = sort_values(values.values());
    Ok(
        OrderStatistics {
            min: sorted[0],
            max: sorted[count - 1],
            lower_median: sorted[(count - 1) / 2],
            upper_median: sorted[count / 2],
        },
    )
}

/// Puts the statistics of a column together from its order statistics and
/// from the arithmetic that the caller did on it.
///
/// A column without numbers has no statistics; nor has a column of one
/// number, for which the standard deviation is undefined. A mean, a
/// standard deviation or a median that is not finite is refused.
pub fn calculate_stats(values: &NumericColumn, moments: &Moments) -> (r: Result<
    ColumnStats,
    StatsError,
>)
    ensures
        r == stats_of(values@, *moments),
{
    let count: usize = values.len();
    if count == 0 {
        return Err(StatsError::EmptyInput);
    }
    if count == 1 {
        return Err(StatsError::InsufficientData);
    }
    let sorted = sort_values(values.values());
    let median: u64 = if count % 2 == 0 {
        moments.mid
    } else {
        sorted[count / 2]
    };
    if finite(moments.mean) && finite(moments.std_dev) && finite(median) {
        Ok(
            ColumnStats {
                mean: moments.mean,
                median,
                std_dev: moments.std_dev,
                min: sorted[0],
                max: sorted[count - 1],
            },
        )
    } else {
        Err(StatsError::DegenerateInput)
    }
}

} // verus!
