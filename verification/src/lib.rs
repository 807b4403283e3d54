//! Tables of comma-separated text, numeric columns, order statistics and the
//! decisions around a least-squares fit.
//!
//! Numbers are held as the bit patterns of IEEE 754 binary64 values. The
//! library orders, selects and validates them; rounding arithmetic (sums,
//! quotients, square roots) and the conversion of a decimal literal to its
//! nearest binary number are done by the caller and handed in.

pub mod analysis;
pub mod column;
pub mod decimal;
pub mod number;
pub mod order;
pub mod reader;
pub mod regression;
pub mod search;
pub mod stats;
pub mod table;

pub use analysis::{analyze_data, AnalysisError, AnalysisResult, Answers, Arithmetic, Progress};
pub use column::{column_fields, get_column_values, ExtractionError, NumericColumn};
pub use regression::{check_fit_input, linear_regression, FitArithmetic, RegressionError, RegressionResult};
pub use stats::{calculate_stats, order_statistics, ColumnStats, Moments, OrderStatistics, StatsError};
pub use table::{parse_csv, ParseError, Table};
