//! The decisions around a least-squares line through paired numbers.
//!
//! Slope, intercept and coefficient of determination are rounding
//! arithmetic: the caller computes them and hands them in as
//! `FitArithmetic`. The library decides whether the two columns admit a
//! line at all, pairs the observations, and lets no result through that is
//! not finite.

use crate::column::NumericColumn;
use crate::number::{equal_numbers, finite, is_finite, same_number};
use vstd::prelude::*;

verus! {

/// Why two columns have no line through them.
#[derive(Debug, Clone, Copy, PartialEq, Eq)]
pub enum RegressionError {
    /// The two columns differ in length.
    LengthMismatch,
    /// There are fewer than two observations.
    InsufficientData,
    /// All numbers of one column are the same, so that a denominator of the
    /// fit is zero; or the arithmetic has no finite result.
    DegenerateInput,
}

/// What the caller computed of two columns `x` and `y` of `n` numbers each,
/// in floating-point arithmetic, each as a bit pattern.
#[derive(Debug, Clone, Copy, PartialEq, Eq)]
pub struct FitArithmetic {
    /// `(n * sum(x * y) - sum(x) * sum(y)) / (n * sum(x * x) - sum(x) * sum(x))`.
    pub slope: u64,
    /// `(sum(y) - slope * sum(x)) / n`.
    pub intercept: u64,
    /// One less the quotient of the sum of `(y - (slope * x + intercept))`
    /// squared by the sum of `(y - sum(y) / n)` squared.
    pub r_squared: u64,
}

/// A fitted line and the observations it was fitted to, in the order in
/// which they were given. Every number is a bit pattern.
#[derive(Debug, Clone, PartialEq, Eq)]
pub struct RegressionResult {
    pub slope: u64,
    pub intercept: u64,
    pub r_squared: u64,
    pub points: Vec<(u64, u64)>,
}

/// A `RegressionResult` with its points as a sequence.
pub struct RegressionView {
    pub slope: u64,
    pub intercept: u64,
    pub r_squared: u64,
    pub points: Seq<(u64, u64)>,
}

impl View for RegressionResult {
    type V = RegressionView;

    open spec fn view(&self) -> RegressionView {
        RegressionView {
            slope: self.slope,
            intercept: self.intercept,
            r_squared: self.r_squared,
            points: self.points@,
        }
    }
}

/// Whether all numbers of a sequence are the same number.
pub open spec fn is_constant(values: Seq<u64>) -> bool {
    forall|i: int| 0 <= i < values.len() ==> same_number(#[trigger] values[i], values[0])
}

/// The reason for which two columns admit no line whatever the arithmetic
/// gives, if there is one.
pub open spec fn fit_input_error(x: Seq<u64>, y: Seq<u64>) -> Option<RegressionError> {
    if x.len() != y.len() {
        Some(RegressionError::LengthMismatch)
    } else if x.len() < 2 {
        Some(RegressionError::InsufficientData)
    } else if is_constant(x) || is_constant(y) {
        Some(RegressionError::DegenerateInput)
    } else {
        None
    }
}

/// The observations `(x[i], y[i])`, in the order of `x`.
pub open spec fn paired(x: Seq<u64>, y: Seq<u64>) -> Seq<(u64, u64)> {
    Seq::new(x.len(), |i: int| (x[i], y[i]))
}

/// The regression of `y` on `x`, of which the caller computed `fit`.
pub open spec fn regression_of(x: Seq<u64>, y: Seq<u64>, fit: FitArithmetic) -> Result<
    RegressionView,
    RegressionError,
> {
    match fit_input_error(x, y) {
        Some(e) => Err(e),
        None => if is_finite(fit.slope) && is_finite(fit.intercept) && is_finite(fit.r_squared) {
            Ok(
                RegressionView {
                    slope: fit.slope,
                    intercept: fit.intercept,
                    r_squared: fit.r_squared,
                    points: paired(x, y),
                },
            )
        } else {
            Err(RegressionError::DegenerateInput)
        },
    }
}

/// The outcome of a regression, with its points as a sequence.
pub open spec fn regression_view(r: Result<RegressionResult, RegressionError>) -> Result<
    RegressionView,
    RegressionError,
> {
    match r {
        Ok(found) => Ok(found@),
        Err(e) => Err(e),
    }
}

/// Tells whether all numbers of `values` are the same number.
fn constant(values: &Vec<u64>) -> (r: bool)
    ensures
        r == is_constant(values@),
{
    let mut i: usize = 1;
    while i < values.len()
        invariant
            1 <= i,
            forall|j: int| 1 <= j < i && j < values@.len() ==> same_number(
                #[trigger] values@[j],
                values@[0],
            ),
        decreases values@.len() - i,
    {
        if !equal_numbers(values[i], values[0]) {
            return false;
        }
        i = i + 1;
    }
    true
}

/// Decides whether two columns admit a line: they have the same length,
/// hold two observations or more, and neither holds one number throughout.
pub fn check_fit_input(x: &NumericColumn, y: &NumericColumn) -> (r: Result<(), RegressionError>)
    ensures
        r == match fit_input_error(x@, y@) {
            Some(e) => Err::<(), RegressionError>(e),
            None => Ok(()),
        },
{
    if x.len() != y.len() {
        Err(RegressionError::LengthMismatch)
    } else if x.len() < 2 {
        Err(RegressionError::InsufficientData)
    } else if constant(x.values()) || constant(y.values()) {
        Err(RegressionError::DegenerateInput)
    } else {
        Ok(())
    }
}

/// Puts a regression together from two columns and from the arithmetic
/// that the caller did on them. The points are the observations in the
/// order in which the columns give them.
pub fn linear_regression(x: &NumericColumn, y: &NumericColumn, fit: &FitArithmetic) -> (r: Result<
    RegressionResult,
    RegressionError,
>)
    ensures
        regression_view(r) == regression_of(x@, y@, *fit),
{
    match check_fit_input(x, y) {
        Err(e) => { return Err(e); },
        Ok(()) => {},
    }
    if !(finite(fit.slope) && finite(fit.intercept) && finite(fit.r_squared)) {
        return Err(RegressionError::DegenerateInput);
    }
    let xs = x.values();
    let ys = y.values();
    let mut points: Vec<(u64, u64)> = Vec::new();
    let mut i: usize = 0;
    while i < xs.len()
        invariant
            i <= xs@.len(),
            xs@.len() == ys@.len(),
            points@.len() == i,
            forall|j: int| 0 <= j < i ==> #[trigger] points@[j] == (xs@[j], ys@[j]),
        decreases xs@.len() - i,
    {
        points.push((xs[i], ys[i]));
        i = i + 1;
    }
    assert(points@ =~= paired(x@, y@));
    Ok(
        RegressionResult {
            slope: fit.slope,
            intercept: fit.intercept,
            r_squared: fit.r_squared,
            points,
        },
    )
}

} // verus!
