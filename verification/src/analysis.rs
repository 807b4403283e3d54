//! The analysis of two columns of one table: statistics of each and the
//! regression of the second on the first.
//!
//! The analysis needs work that the library does not do itself: converting
//! fields to numbers, and rounding arithmetic. So it is made in steps.
//! `analyze_data` takes the answers that the caller has so far and says
//! what it needs next, or how the analysis ended. It keeps nothing between
//! calls: each call starts from the table.

use crate::column::{
    column_fields, column_fields_of, column_values_of, numbers_of, numeric_column,
    ExtractionError, ExtractionErrorView, NumericColumn,
};
use crate::regression::{
    linear_regression, regression_of, FitArithmetic, RegressionError, RegressionResult,
    RegressionView,
};
use crate::stats::{
    calculate_stats, order_statistics, order_statistics_of, stats_input_error, stats_of,
    ColumnStats, Moments, OrderStatistics, StatsError,
};
use crate::table::{Table, TableView};
use vstd::prelude::*;

verus! {

/// Why an analysis failed: the error of the step that failed, as that step
/// gave it.
#[derive(Debug, Clone, PartialEq, Eq)]
pub enum AnalysisError {
    Extraction(ExtractionError),
    Stats(StatsError),
    Regression(RegressionError),
}

/// An `AnalysisError` with its texts as sequences.
pub enum AnalysisErrorView {
    Extraction(ExtractionErrorView),
    Stats(StatsError),
    Regression(RegressionError),
}

impl View for AnalysisError {
    type V = AnalysisErrorView;

    open spec fn view(&self) -> AnalysisErrorView {
        match self {
            AnalysisError::Extraction(e) => AnalysisErrorView::Extraction(e@),
            AnalysisError::Stats(e) => AnalysisErrorView::Stats(*e),
            AnalysisError::Regression(e) => AnalysisErrorView::Regression(*e),
        }
    }
}

/// The statistics of the two columns and the regression of `y` on `x`.
#[derive(Debug, Clone, PartialEq, Eq)]
pub struct AnalysisResult {
    pub x_stats: ColumnStats,
    pub y_stats: ColumnStats,
    pub regression: RegressionResult,
}

/// An `AnalysisResult` with the points of its regression as a sequence.
pub struct AnalysisView {
    pub x_stats: ColumnStats,
    pub y_stats: ColumnStats,
    pub regression: RegressionView,
}

impl View for AnalysisResult {
    type V = AnalysisView;

    open spec fn view(&self) -> AnalysisView {
        AnalysisView {
            x_stats: self.x_stats,
            y_stats: self.y_stats,
            regression: self.regression@,
        }
    }
}

/// The rounding arithmetic of an analysis, as the caller computed it.
#[derive(Debug, Clone, Copy, PartialEq, Eq)]
pub struct Arithmetic {
    /// Of the x column.
    pub x: Moments,
    /// Of the y column.
    pub y: Moments,
    /// Of the two columns together.
    pub fit: FitArithmetic,
}

/// What the caller has answered so far. An answer that was not asked for
/// yet is `None`.
#[derive(Debug, Clone, PartialEq, Eq)]
pub struct Answers {
    /// The fields of the x column, each converted to a bit pattern, or
    /// `None` where the field could not be converted.
    pub x_numbers: Option<Vec<Option<u64>>>,
    /// The same for the y column.
    pub y_numbers: Option<Vec<Option<u64>>>,
    /// The arithmetic on the two columns.
    pub arithmetic: Option<Arithmetic>,
}

/// `Answers` with sequences for vectors.
pub struct AnswersView {
    pub x_numbers: Option<Seq<Option<u64>>>,
    pub y_numbers: Option<Seq<Option<u64>>>,
    pub arithmetic: Option<Arithmetic>,
}

impl View for Answers {
    type V = AnswersView;

    open spec fn view(&self) -> AnswersView {
        AnswersView {
            x_numbers: match self.x_numbers {
                Some(numbers) => Some(numbers@),
                None => None,
            },
            y_numbers: match self.y_numbers {
                Some(numbers) => Some(numbers@),
                None => None,
            },
            arithmetic: self.arithmetic,
        }
    }
}

/// Where an analysis stands: what it needs next, or how it ended.
#[derive(Debug, PartialEq, Eq)]
pub enum Progress {
    /// The fields of the x column are to be converted to numbers, and handed
    /// in as `Answers::x_numbers`.
    ConvertX { fields: Vec<String> },
    /// The fields of the y column are to be converted to numbers, and handed
    /// in as `Answers::y_numbers`.
    ConvertY { fields: Vec<String> },
    /// The arithmetic on the two columns is to be done, and handed in as
    /// `Answers::arithmetic`. The columns come with their order statistics,
    /// which hold the central numbers that `Moments::mid` is the mean of.
    Compute { x: Vec<u64>, y: Vec<u64>, x_order: OrderStatistics, y_order: OrderStatistics },
    /// The analysis is complete.
    Done(AnalysisResult),
    /// The analysis failed.
    Failed(AnalysisError),
}

/// `Progress` with sequences for vectors and texts.
pub enum ProgressView {
    ConvertX { fields: Seq<Seq<char>> },
    ConvertY { fields: Seq<Seq<char>> },
    Compute { x: Seq<u64>, y: Seq<u64>, x_order: OrderStatistics, y_order: OrderStatistics },
    Done(AnalysisView),
    Failed(AnalysisErrorView),
}

impl View for Progress {
    type V = ProgressView;

    open spec fn view(&self) -> ProgressView {
        match self {
            Progress::ConvertX { fields } => ProgressView::ConvertX { fields: fields.deep_view() },
            Progress::ConvertY { fields } => ProgressView::ConvertY { fields: fields.deep_view() },
            Progress::Compute { x, y, x_order, y_order } => ProgressView::Compute {
                x: x@,
                y: y@,
                x_order: *x_order,
                y_order: *y_order,
            },
            Progress::Done(found) => ProgressView::Done(found@),
            Progress::Failed(e) => ProgressView::Failed(e@),
        }
    }
}

/// The analysis of two columns of numbers for which the caller did the
/// arithmetic: the statistics of `x`, then those of `y`, then the
/// regression. The first step that fails ends it, with its own error.
pub open spec fn compose(x: Seq<u64>, y: Seq<u64>, arithmetic: Arithmetic) -> Result<
    AnalysisView,
    AnalysisErrorView,
> {
    match stats_of(x, arithmetic.x) {
        Err(e) => Err(AnalysisErrorView::Stats(e)),
        Ok(x_stats) => match stats_of(y, arithmetic.y) {
            Err(e) => Err(AnalysisErrorView::Stats(e)),
            Ok(y_stats) => match regression_of(x, y, arithmetic.fit) {
                Err(e) => Err(AnalysisErrorView::Regression(e)),
                Ok(regression) => Ok(AnalysisView { x_stats, y_stats, regression }),
            },
        },
    }
}

/// Where the analysis of two columns of numbers stands. Without the
/// arithmetic it asks for it, unless the statistics fail whatever the
/// arithmetic gives.
pub open spec fn columns_progress(x: Seq<u64>, y: Seq<u64>, arithmetic: Option<Arithmetic>) -> ProgressView {
    match arithmetic {
        Some(done) => match compose(x, y, done) {
            Ok(found) => ProgressView::Done(found),
            Err(e) => ProgressView::Failed(e),
        },
        None => match stats_input_error(x) {
            Some(e) => ProgressView::Failed(AnalysisErrorView::Stats(e)),
            None => match stats_input_error(y) {
                Some(e) => ProgressView::Failed(AnalysisErrorView::Stats(e)),
                None => ProgressView::Compute {
                    x,
                    y,
                    x_order: order_statistics_of(x).unwrap(),
                    y_order: order_statistics_of(y).unwrap(),
                },
            },
        },
    }
}

/// Where the analysis of the columns `x_col` and `y_col` of a table
/// stands, given the answers so far. The x column is fetched and read as
/// numbers first, then the y column; then come the statistics and the
/// regression.
pub open spec fn analysis_of(
    table: TableView,
    x_col: Seq<char>,
    y_col: Seq<char>,
    answers: AnswersView,
) -> ProgressView {
    match column_fields_of(table, x_col) {
        Err(e) => ProgressView::Failed(AnalysisErrorView::Extraction(e)),
        Ok(x_fields) => match answers.x_numbers {
            None => ProgressView::ConvertX { fields: x_fields },
            Some(x_numbers) => match numbers_of(x_fields, x_numbers) {
                Err(e) => ProgressView::Failed(AnalysisErrorView::Extraction(e)),
                Ok(x) => match column_fields_of(table, y_col) {
                    Err(e) => ProgressView::Failed(AnalysisErrorView::Extraction(e)),
                    Ok(y_fields) => match answers.y_numbers {
                        None => ProgressView::ConvertY { fields: y_fields },
                        Some(y_numbers) => match numbers_of(y_fields, y_numbers) {
                            Err(e) => ProgressView::Failed(AnalysisErrorView::Extraction(e)),
                            Ok(y) => columns_progress(x, y, answers.arithmetic),
                        },
                    },
                },
            },
        },
    }
}

/// Whether an analysis has ended, well or badly.
pub open spec fn has_ended(progress: ProgressView) -> bool {
    progress is Done || progress is Failed
}

/// Whether `later` holds every answer that `earlier` holds, unchanged.
pub open spec fn extends(later: AnswersView, earlier: AnswersView) -> bool {
    &&& earlier.x_numbers is Some ==> later.x_numbers == earlier.x_numbers
    &&& earlier.y_numbers is Some ==> later.y_numbers == earlier.y_numbers
    &&& earlier.arithmetic is Some ==> later.arithmetic == earlier.arithmetic
}

/// The analysis has no state of its own: on the same table, the same
/// column names and the same answers it stands at the same place, with the
/// same result down to the last bit.
pub proof fn analysis_is_repeatable(
    table: TableView,
    x_col: Seq<char>,
    y_col: Seq<char>,
    answers: AnswersView,
    first: ProgressView,
    second: ProgressView,
)
    requires
        first == analysis_of(table, x_col, y_col, answers),
        second == analysis_of(table, x_col, y_col, answers),
    ensures
        first == second,
{
}

/// The two columns of an analysis have one number for each row of the
/// table, so they are of one length.
proof fn columns_are_of_one_length(
    table: TableView,
    x_col: Seq<char>,
    y_col: Seq<char>,
    x_numbers: Seq<Option<u64>>,
    y_numbers: Seq<Option<u64>>,
)
    requires
        column_fields_of(table, x_col) is Ok,
        column_fields_of(table, y_col) is Ok,
        numbers_of(column_fields_of(table, x_col)->Ok_0, x_numbers) is Ok,
        numbers_of(column_fields_of(table, y_col)->Ok_0, y_numbers) is Ok,
    ensures
        numbers_of(column_fields_of(table, x_col)->Ok_0, x_numbers)->Ok_0.len()
            == table.rows.len(),
        numbers_of(column_fields_of(table, y_col)->Ok_0, y_numbers)->Ok_0.len()
            == table.rows.len(),
{
}

/// An analysis that has ended stays as it ended: answers handed in
/// afterwards, beside those it ended on, change nothing.
pub proof fn ended_analysis_is_settled(
    table: TableView,
    x_col: Seq<char>,
    y_col: Seq<char>,
    earlier: AnswersView,
    later: AnswersView,
)
    requires
        extends(later, earlier),
        has_ended(analysis_of(table, x_col, y_col, earlier)),
    ensures
        analysis_of(table, x_col, y_col, later) == analysis_of(table, x_col, y_col, earlier),
{
    if column_fields_of(table, x_col) is Ok && earlier.x_numbers is Some {
        let x_fields = column_fields_of(table, x_col)->Ok_0;
        let x_numbers = earlier.x_numbers.unwrap();
        if numbers_of(x_fields, x_numbers) is Ok && column_fields_of(table, y_col) is Ok
            && earlier.y_numbers is Some {
            let y_fields = column_fields_of(table, y_col)->Ok_0;
            let y_numbers = earlier.y_numbers.unwrap();
            if numbers_of(y_fields, y_numbers) is Ok {
                columns_are_of_one_length(table, x_col, y_col, x_numbers, y_numbers);
            }
        }
    }
}

/// With every answer at hand the analysis ends. It ends well exactly when
/// both columns are read as numbers and the statistics of each and the
/// regression succeed, in that order; the first step that fails gives the
/// error.
pub proof fn complete_answers_end_the_analysis(
    table: TableView,
    x_col: Seq<char>,
    y_col: Seq<char>,
    answers: AnswersView,
)
    requires
        answers.x_numbers is Some,
        answers.y_numbers is Some,
        answers.arithmetic is Some,
    ensures
        has_ended(analysis_of(table, x_col, y_col, answers)),
        analysis_of(table, x_col, y_col, answers) == (match column_values_of(
            table,
            x_col,
            answers.x_numbers.unwrap(),
        ) {
            Err(e) => ProgressView::Failed(AnalysisErrorView::Extraction(e)),
            Ok(x) => match column_values_of(table, y_col, answers.y_numbers.unwrap()) {
                Err(e) => ProgressView::Failed(AnalysisErrorView::Extraction(e)),
                Ok(y) => match compose(x, y, answers.arithmetic.unwrap()) {
                    Ok(found) => ProgressView::Done(found),
                    Err(e) => ProgressView::Failed(e),
                },
            },
        }),
{
}

/// Carries the analysis of two columns of numbers on as far as the
/// arithmetic at hand allows.
fn analyze_columns(x: NumericColumn, y: NumericColumn, arithmetic: &Option<Arithmetic>) -> (r:
    Progress)
    ensures
        r@ == columns_progress(x@, y@, *arithmetic),
{
    match arithmetic {
        Some(done) => {
            let x_stats = match calculate_stats(&x, &done.x) {
                Ok(found) => found,
                Err(e) => { return Progress::Failed(AnalysisError::Stats(e)); },
            };
            let y_stats = match calculate_stats(&y, &done.y) {
                Ok(found) => found,
                Err(e) => { return Progress::Failed(AnalysisError::Stats(e)); },
            };
            match linear_regression(&x, &y, &done.fit) {
                Ok(regression) => Progress::Done(AnalysisResult { x_stats, y_stats, regression }),
                Err(e) => Progress::Failed(AnalysisError::Regression(e)),
            }
        },
        None => {
            if x.len() < 2 || y.len() < 2 {
                let e = if x.len() == 0 {
                    StatsError::EmptyInput
                } else if x.len() == 1 {
                    StatsError::InsufficientData
                } else if y.len() == 0 {
                    StatsError::EmptyInput
                } else {
                    StatsError::InsufficientData
                };
                return Progress::Failed(AnalysisError::Stats(e));
            }
            let x_order = match order_statistics(&x) {
                Ok(found) => found,
                Err(e) => { return Progress::Failed(AnalysisError::Stats(e)); },
            };
            let y_order = match order_statistics(&y) {
                Ok(found) => found,
                Err(e) => { return Progress::Failed(AnalysisError::Stats(e)); },
            };
            Progress::Compute { x: x.into_values(), y: y.into_values(), x_order, y_order }
        },
    }
}

/// Carries the analysis of the columns `x_col` and `y_column` of `table`
/// on as far as `answers` allow, and says what is needed next or how the
/// analysis ended. The table is read, never changed.
pub fn analyze_data(table: &Table, x_col: &str, y_column: &str, answers: &Answers) -> (r: Progress)
    ensures
        r@ == analysis_of(table@, x_col@, y_column@, answers@),
{
    let x_fields = match column_fields(table, x_col) {
        Ok(fields) => fields,
        Err(e) => { return Progress::Failed(AnalysisError::Extraction(e)); },
    };
    let x = match &answers.x_numbers {
        None => { return Progress::ConvertX { fields: x_fields }; },
        Some(numbers) => match numeric_column(&x_fields, numbers) {
            Ok(column) => column,
            Err(e) => { return Progress::Failed(AnalysisError::Extraction(e)); },
        },
    };
    let y_fields = match column_fields(table, y_column) {
        Ok(fields) => fields,
        Err(e) => { return Progress::Failed(AnalysisError::Extraction(e)); },
    };
    let y = match &answers.y_numbers {
        None => { return Progress::ConvertY { fields: y_fields }; },
        Some(numbers) => match numeric_column(&y_fields, numbers) {
            Ok(column) => column,
            Err(e) => { return Progress::Failed(AnalysisError::Extraction(e)); },
        },
    };
    analyze_columns(x, y, &answers.arithmetic)
}

} // verus!
