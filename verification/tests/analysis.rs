use csv_analysis::analysis::{analyze_data, AnalysisError, AnalysisResult, Answers, Arithmetic, Progress};
use csv_analysis::column::ExtractionError;
use csv_analysis::regression::{FitArithmetic, RegressionError};
use csv_analysis::stats::{Moments, OrderStatistics, StatsError};
use csv_analysis::table::{parse_csv, Table};

fn table(text: &str) -> Table {
    match parse_csv(text) {
        Ok(table) => table,
        Err(e) => panic!("{:?}", e),
    }
}

fn convert(fields: &[String]) -> Vec<Option<u64>> {
    fields.iter().map(|f| f.parse::<f64>().ok().map(f64::to_bits)).collect()
}

fn floats(bits: &[u64]) -> Vec<f64> {
    bits.iter().map(|b| f64::from_bits(*b)).collect()
}

fn moments(values: &[f64], order: &OrderStatistics) -> Moments {
    let n = values.len() as f64;
    let mean = values.iter().sum::<f64>() / n;
    let squares: f64 = values.iter().map(|x| (x - mean) * (x - mean)).sum();
    let std_dev = (squares / (n - 1.0)).sqrt();
    let mid = (f64::from_bits(order.lower_median) + f64::from_bits(order.upper_median)) / 2.0;
    Moments { mean: mean.to_bits(), std_dev: std_dev.to_bits(), mid: mid.to_bits() }
}

fn fit(x: &[f64], y: &[f64]) -> FitArithmetic {
    let n = x.len() as f64;
    let sum_x: f64 = x.iter().sum();
    let sum_y: f64 = y.iter().sum();
    let sum_xy: f64 = x.iter().zip(y.iter()).map(|(a, b)| a * b).sum();
    let sum_xx: f64 = x.iter().map(|a| a * a).sum();
    let slope = (n * sum_xy - sum_x * sum_y) / (n * sum_xx - sum_x * sum_x);
    let intercept = (sum_y - slope * sum_x) / n;
    let mean_y = sum_y / n;
    let ss_tot: f64 = y.iter().map(|b| (b - mean_y) * (b - mean_y)).sum();
    let ss_res: f64 = x
        .iter()
        .zip(y.iter())
        .map(|(a, b)| (b - (slope * a + intercept)) * (b - (slope * a + intercept)))
        .sum();
    let r_squared = 1.0 - ss_res / ss_tot;
    FitArithmetic {
        slope: slope.to_bits(),
        intercept: intercept.to_bits(),
        r_squared: r_squared.to_bits(),
    }
}

/// Runs an analysis to its end, answering what it asks for.
fn run(table: &Table, x_col: &str, y_col: &str) -> Result<AnalysisResult, AnalysisError> {
    let mut answers = Answers { x_numbers: None, y_numbers: None, arithmetic: None };
    for _ in 0..4 {
        match analyze_data(table, x_col, y_col, &answers) {
            Progress::ConvertX { fields } => answers.x_numbers = Some(convert(&fields)),
            Progress::ConvertY { fields } => answers.y_numbers = Some(convert(&fields)),
            Progress::Compute { x, y, x_order, y_order } => {
                let (x, y) = (floats(&x), floats(&y));
                answers.arithmetic = Some(Arithmetic {
                    x: moments(&x, &x_order),
                    y: moments(&y, &y_order),
                    fit: fit(&x, &y),
                });
            }
            Progress::Done(found) => return Ok(found),
            Progress::Failed(e) => return Err(e),
        }
    }
    panic!("the analysis did not end");
}

const DATA: &str = "x,y,label\n1,2,a\n2,4,b\n3,6,c\n4,8,d\n";

#[test]
fn analysis_asks_for_each_answer_in_turn() {
    let t = table(DATA);
    let mut answers = Answers { x_numbers: None, y_numbers: None, arithmetic: None };
    let first = analyze_data(&t, "x", "y", &answers);
    assert_eq!(
        first,
        Progress::ConvertX { fields: vec!["1".into(), "2".into(), "3".into(), "4".into()] }
    );
    answers.x_numbers = Some(vec![1.0, 2.0, 3.0, 4.0].into_iter().map(|v: f64| Some(v.to_bits())).collect());
    let second = analyze_data(&t, "x", "y", &answers);
    assert_eq!(
        second,
        Progress::ConvertY { fields: vec!["2".into(), "4".into(), "6".into(), "8".into()] }
    );
    answers.y_numbers = Some(vec![2.0, 4.0, 6.0, 8.0].into_iter().map(|v: f64| Some(v.to_bits())).collect());
    let third = analyze_data(&t, "x", "y", &answers);
    assert_eq!(
        third,
        Progress::Compute {
            x: vec![1.0f64.to_bits(), 2.0f64.to_bits(), 3.0f64.to_bits(), 4.0f64.to_bits()],
            y: vec![2.0f64.to_bits(), 4.0f64.to_bits(), 6.0f64.to_bits(), 8.0f64.to_bits()],
            x_order: OrderStatistics {
                min: 1.0f64.to_bits(),
                max: 4.0f64.to_bits(),
                lower_median: 2.0f64.to_bits(),
                upper_median: 3.0f64.to_bits(),
            },
            y_order: OrderStatistics {
                min: 2.0f64.to_bits(),
                max: 8.0f64.to_bits(),
                lower_median: 4.0f64.to_bits(),
                upper_median: 6.0f64.to_bits(),
            },
        }
    );
}

#[test]
fn analysis_of_two_columns() {
    let found = run(&table(DATA), "x", "y").unwrap();
    assert_eq!(f64::from_bits(found.x_stats.mean), 2.5);
    assert_eq!(f64::from_bits(found.x_stats.median), 2.5);
    assert_eq!(f64::from_bits(found.x_stats.min), 1.0);
    assert_eq!(f64::from_bits(found.x_stats.max), 4.0);
    assert_eq!(f64::from_bits(found.x_stats.std_dev), (5.0f64 / 3.0).sqrt());
    assert_eq!(f64::from_bits(found.y_stats.mean), 5.0);
    assert_eq!(f64::from_bits(found.y_stats.median), 5.0);
    assert_eq!(f64::from_bits(found.y_stats.min), 2.0);
    assert_eq!(f64::from_bits(found.y_stats.max), 8.0);
    assert_eq!(f64::from_bits(found.regression.slope), 2.0);
    assert_eq!(f64::from_bits(found.regression.intercept), 0.0);
    assert_eq!(f64::from_bits(found.regression.r_squared), 1.0);
    assert_eq!(
        found.regression.points,
        vec![
            (1.0f64.to_bits(), 2.0f64.to_bits()),
            (2.0f64.to_bits(), 4.0f64.to_bits()),
            (3.0f64.to_bits(), 6.0f64.to_bits()),
            (4.0f64.to_bits(), 8.0f64.to_bits()),
        ]
    );
}

#[test]
fn analysis_twice_gives_the_same_result() {
    let t = table("a,b\n0.1,1.7\n0.2,2.9\n0.35,3.1\n0.4,5.5\n0.9,4.4\n");
    let first = run(&t, "a", "b");
    let second = run(&t, "a", "b");
    assert!(first.is_ok());
    assert_eq!(first, second);
}

#[test]
fn analysis_of_a_missing_x_column_fails_at_once() {
    let t = table(DATA);
    let answers = Answers { x_numbers: None, y_numbers: None, arithmetic: None };
    assert_eq!(
        analyze_data(&t, "nope", "y", &answers),
        Progress::Failed(AnalysisError::Extraction(ExtractionError::ColumnNotFound {
            column_name: "nope".to_string()
        }))
    );
}

#[test]
fn analysis_of_a_missing_y_column_fails_after_x_was_read() {
    let t = table(DATA);
    let none = Answers { x_numbers: None, y_numbers: None, arithmetic: None };
    assert!(matches!(analyze_data(&t, "x", "nope", &none), Progress::ConvertX { .. }));
    assert_eq!(
        run(&t, "x", "nope"),
        Err(AnalysisError::Extraction(ExtractionError::ColumnNotFound {
            column_name: "nope".to_string()
        }))
    );
}

#[test]
fn analysis_reports_a_bad_x_field_before_a_missing_y_column() {
    let t = table("x,y\n1,2\noops,4\n");
    assert_eq!(
        run(&t, "x", "nope"),
        Err(AnalysisError::Extraction(ExtractionError::NumericParseError {
            row_index: 1,
            raw_value: "oops".to_string()
        }))
    );
}

#[test]
fn analysis_reports_a_bad_y_field() {
    let t = table("x,y\n1,2\n2,\n");
    assert_eq!(
        run(&t, "x", "y"),
        Err(AnalysisError::Extraction(ExtractionError::NumericParseError {
            row_index: 1,
            raw_value: String::new()
        }))
    );
}

#[test]
fn analysis_of_a_text_column_fails() {
    assert_eq!(
        run(&table(DATA), "x", "label"),
        Err(AnalysisError::Extraction(ExtractionError::NumericParseError {
            row_index: 0,
            raw_value: "a".to_string()
        }))
    );
}

#[test]
fn analysis_without_rows_fails_before_any_arithmetic() {
    let t = table("x,y\n");
    let answers = Answers { x_numbers: Some(vec![]), y_numbers: Some(vec![]), arithmetic: None };
    assert_eq!(
        analyze_data(&t, "x", "y", &answers),
        Progress::Failed(AnalysisError::Stats(StatsError::EmptyInput))
    );
    assert_eq!(run(&t, "x", "y"), Err(AnalysisError::Stats(StatsError::EmptyInput)));
}

#[test]
fn analysis_of_one_row_fails_before_any_arithmetic() {
    let t = table("x,y\n1,2\n");
    assert_eq!(run(&t, "x", "y"), Err(AnalysisError::Stats(StatsError::InsufficientData)));
    let any = Arithmetic {
        x: Moments { mean: 0, std_dev: 0, mid: 0 },
        y: Moments { mean: 0, std_dev: 0, mid: 0 },
        fit: FitArithmetic { slope: 0, intercept: 0, r_squared: 0 },
    };
    let answers = Answers {
        x_numbers: Some(vec![Some(1.0f64.to_bits())]),
        y_numbers: Some(vec![Some(2.0f64.to_bits())]),
        arithmetic: Some(any),
    };
    assert_eq!(
        analyze_data(&t, "x", "y", &answers),
        Progress::Failed(AnalysisError::Stats(StatsError::InsufficientData))
    );
}

#[test]
fn analysis_of_a_constant_column_fails_in_the_regression() {
    let t = table("x,y\n1,2\n1,3\n1,5\n");
    assert_eq!(run(&t, "x", "y"), Err(AnalysisError::Regression(RegressionError::DegenerateInput)));
    assert_eq!(run(&t, "y", "x"), Err(AnalysisError::Regression(RegressionError::DegenerateInput)));
}

#[test]
fn analysis_reports_statistics_before_the_regression() {
    let t = table("x,y\n1e308,1\n1e308,2\n1e308,4\n");
    assert_eq!(run(&t, "x", "y"), Err(AnalysisError::Stats(StatsError::DegenerateInput)));
}

#[test]
fn analysis_of_a_column_with_itself() {
    let found = run(&table(DATA), "x", "x").unwrap();
    assert_eq!(found.x_stats, found.y_stats);
    assert_eq!(f64::from_bits(found.regression.slope), 1.0);
    assert_eq!(f64::from_bits(found.regression.intercept), 0.0);
    assert_eq!(f64::from_bits(found.regression.r_squared), 1.0);
}

#[test]
fn analysis_leaves_the_table_as_it_was() {
    let t = table(DATA);
    let _ = run(&t, "x", "y");
    assert_eq!(t, table(DATA));
}
