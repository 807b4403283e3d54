use csv_analysis::column::NumericColumn;
use csv_analysis::stats::{calculate_stats, order_statistics, ColumnStats, Moments, OrderStatistics, StatsError};

fn column(values: &[f64]) -> NumericColumn {
    NumericColumn::new(values.iter().map(|v| v.to_bits()).collect()).unwrap()
}

/// The arithmetic that a caller does on a column.
fn moments(values: &[f64], order: &OrderStatistics) -> Moments {
    let n = values.len() as f64;
    let mean = values.iter().sum::<f64>() / n;
    let squares: f64 = values.iter().map(|x| (x - mean) * (x - mean)).sum();
    let std_dev = (squares / (n - 1.0)).sqrt();
    let mid = (f64::from_bits(order.lower_median) + f64::from_bits(order.upper_median)) / 2.0;
    Moments { mean: mean.to_bits(), std_dev: std_dev.to_bits(), mid: mid.to_bits() }
}

fn stats(values: &[f64]) -> Result<ColumnStats, StatsError> {
    let c = column(values);
    let order = order_statistics(&c)?;
    calculate_stats(&c, &moments(values, &order))
}

#[test]
fn stats_of_eight_numbers() {
    let s = stats(&[2.0, 4.0, 4.0, 4.0, 5.0, 5.0, 7.0, 9.0]).unwrap();
    assert_eq!(f64::from_bits(s.mean), 5.0);
    assert!((f64::from_bits(s.std_dev) - 2.138).abs() < 0.001);
    assert_eq!(f64::from_bits(s.std_dev), (32.0f64 / 7.0).sqrt());
    assert_eq!(f64::from_bits(s.median), 4.5);
    assert_eq!(f64::from_bits(s.min), 2.0);
    assert_eq!(f64::from_bits(s.max), 9.0);
}

#[test]
fn stats_do_not_depend_on_the_order_of_the_numbers() {
    let s = stats(&[9.0, 4.0, 5.0, 2.0, 4.0, 7.0, 5.0, 4.0]).unwrap();
    assert_eq!(f64::from_bits(s.median), 4.5);
    assert_eq!(f64::from_bits(s.min), 2.0);
    assert_eq!(f64::from_bits(s.max), 9.0);
}

#[test]
fn stats_of_nothing_fail() {
    let empty = column(&[]);
    let any = Moments { mean: 0, std_dev: 0, mid: 0 };
    assert_eq!(calculate_stats(&empty, &any), Err(StatsError::EmptyInput));
    assert_eq!(order_statistics(&empty), Err(StatsError::EmptyInput));
}

#[test]
fn stats_of_one_number_fail_each_time() {
    let one = column(&[3.0]);
    let order = order_statistics(&one).unwrap();
    let m = moments(&[3.0], &order);
    assert_eq!(calculate_stats(&one, &m), Err(StatsError::InsufficientData));
    assert_eq!(calculate_stats(&one, &m), Err(StatsError::InsufficientData));
    let finite = Moments { mean: 3.0f64.to_bits(), std_dev: 0, mid: 3.0f64.to_bits() };
    assert_eq!(calculate_stats(&one, &finite), Err(StatsError::InsufficientData));
}

#[test]
fn median_of_an_odd_count_is_the_central_number() {
    let c = column(&[5.0, 1.0, 3.0]);
    let handed = Moments { mean: 3.0f64.to_bits(), std_dev: 2.0f64.to_bits(), mid: f64::NAN.to_bits() };
    let s = calculate_stats(&c, &handed).unwrap();
    assert_eq!(f64::from_bits(s.median), 3.0);
    assert_eq!(f64::from_bits(s.mean), 3.0);
    assert_eq!(f64::from_bits(s.std_dev), 2.0);
}

#[test]
fn median_of_an_even_count_is_the_mean_of_the_central_two() {
    let s = stats(&[1.0, 10.0, 2.0, 4.0]).unwrap();
    assert_eq!(f64::from_bits(s.median), 3.0);
    let two = stats(&[-1.0, 2.0]).unwrap();
    assert_eq!(f64::from_bits(two.median), 0.5);
    assert_eq!(f64::from_bits(two.mean), 0.5);
}

#[test]
fn order_statistics_of_a_column() {
    let o = order_statistics(&column(&[4.0, -2.0, 8.0, 6.0])).unwrap();
    assert_eq!(
        o,
        OrderStatistics {
            min: (-2.0f64).to_bits(),
            max: 8.0f64.to_bits(),
            lower_median: 4.0f64.to_bits(),
            upper_median: 6.0f64.to_bits(),
        }
    );
    let odd = order_statistics(&column(&[4.0, -2.0, 8.0])).unwrap();
    assert_eq!(odd.lower_median, 4.0f64.to_bits());
    assert_eq!(odd.upper_median, 4.0f64.to_bits());
    let one = order_statistics(&column(&[4.0])).unwrap();
    assert_eq!(one.min, 4.0f64.to_bits());
    assert_eq!(one.max, 4.0f64.to_bits());
    assert_eq!(one.lower_median, one.upper_median);
}

#[test]
fn order_statistics_with_negative_numbers_and_zeros() {
    let o = order_statistics(&column(&[0.0, -0.0, -3.5, -1e-300, 2.0])).unwrap();
    assert_eq!(f64::from_bits(o.min), -3.5);
    assert_eq!(f64::from_bits(o.max), 2.0);
    assert_eq!(o.lower_median, (-0.0f64).to_bits());
    let zeros = order_statistics(&column(&[0.0, -0.0])).unwrap();
    assert_eq!(zeros.min, (-0.0f64).to_bits());
    assert_eq!(zeros.max, 0.0f64.to_bits());
}

#[test]
fn stats_of_equal_numbers_have_no_spread() {
    let s = stats(&[2.5, 2.5, 2.5]).unwrap();
    assert_eq!(f64::from_bits(s.std_dev), 0.0);
    assert_eq!(f64::from_bits(s.mean), 2.5);
    assert_eq!(s.min, s.max);
}

#[test]
fn stats_refuse_arithmetic_that_is_not_finite() {
    let c = column(&[1.0, 2.0]);
    let ok = Moments { mean: 1.5f64.to_bits(), std_dev: 0.5f64.to_bits(), mid: 1.5f64.to_bits() };
    assert!(calculate_stats(&c, &ok).is_ok());
    let bad_mean = Moments { mean: f64::INFINITY.to_bits(), ..ok };
    assert_eq!(calculate_stats(&c, &bad_mean), Err(StatsError::DegenerateInput));
    let bad_dev = Moments { std_dev: f64::NAN.to_bits(), ..ok };
    assert_eq!(calculate_stats(&c, &bad_dev), Err(StatsError::DegenerateInput));
    let bad_mid = Moments { mid: f64::NEG_INFINITY.to_bits(), ..ok };
    assert_eq!(calculate_stats(&c, &bad_mid), Err(StatsError::DegenerateInput));
}

#[test]
fn stats_of_numbers_whose_sum_overflows_fail() {
    assert_eq!(stats(&[1e308, 1e308, 1e308]), Err(StatsError::DegenerateInput));
}

#[test]
fn stats_twice_are_the_same() {
    let values = [0.1, 0.2, 0.3, 0.7];
    assert_eq!(stats(&values), stats(&values));
}
