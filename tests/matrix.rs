use temperature_parser::error::TMFromStrError;
use temperature_parser::temp_mat::{output_rows, Dims, TempMat};

fn num(t: &str) -> Option<f64> {
    t.parse::<f64>().ok()
}

#[test]
fn from_str_deals_values_round_robin() {
    let m = TempMat::from_str("1 2\n3 4\n", 2, num).unwrap();
    assert_eq!(m.shape(), Dims(2, 2));
    assert_eq!(m.channel(0), &vec![1.0, 3.0]);
    assert_eq!(m.channel(1), &vec![2.0, 4.0]);
}

#[test]
fn from_str_eight_values_four_channels() {
    let m = TempMat::from_str("1 2 3 4 5 6 7 8", 4, num).unwrap();
    assert_eq!(m.shape(), Dims(4, 2));
    assert_eq!(m.channel(0), &vec![1.0, 5.0]);
    assert_eq!(m.channel(3), &vec![4.0, 8.0]);
}

#[test]
fn from_str_rejects_count_not_divisible() {
    let text = "1 2 3 4 5 6 7 8 9 10";
    let r = TempMat::from_str(text, 4, num);
    assert_eq!(r.err(), Some(TMFromStrError::InvalidDimensions { col: 4 }));
}

#[test]
fn from_str_rejects_zero_channels() {
    let r = TempMat::from_str("1 2", 0, num);
    assert_eq!(r.err(), Some(TMFromStrError::InvalidDimensions { col: 0 }));
}

#[test]
fn from_str_reports_first_bad_token() {
    let r = TempMat::from_str("1 x 3 y", 4, num);
    assert_eq!(r.err(), Some(TMFromStrError::InvalidNumber { index: 1 }));
}

#[test]
fn from_str_parse_error_comes_before_dimension_check() {
    let r = TempMat::from_str("1 2 oops", 2, num);
    assert_eq!(r.err(), Some(TMFromStrError::InvalidNumber { index: 2 }));
}

#[test]
fn from_str_empty_text_gives_empty_channels() {
    let m = TempMat::from_str(" \n\t ", 3, num).unwrap();
    assert_eq!(m.shape(), Dims(3, 0));
}

#[test]
fn from_values_single_channel_reads_back_k() {
    let values: Vec<f64> = (0..5).map(|i| i as f64).collect();
    let m = TempMat::from_values(&values, 1).unwrap();
    assert_eq!(m.shape(), Dims(1, 5));
}

#[test]
fn from_values_k_times_n_gives_k_per_channel() {
    let values: Vec<f64> = (0..12).map(|i| i as f64).collect();
    let m = TempMat::from_values(&values, 4).unwrap();
    assert_eq!(m.shape(), Dims(4, 3));
    for c in 0..4 {
        assert_eq!(m.channel(c).len(), 3);
        assert_eq!(m.channel(c), &vec![c as f64, (c + 4) as f64, (c + 8) as f64]);
    }
    let two = TempMat::from_values(&vec![1.0, 2.0], 2).unwrap();
    assert_eq!(two.channel(1), &vec![2.0]);
}

#[test]
fn from_values_ten_values_four_channels_fails() {
    let values: Vec<f64> = (0..10).map(|i| i as f64).collect();
    let r = TempMat::from_values(&values, 4);
    assert_eq!(r.err(), Some(TMFromStrError::InvalidDimensions { col: 4 }));
}

#[test]
fn new_has_empty_channels() {
    let m: TempMat<f64> = TempMat::new(3);
    assert_eq!(m.shape(), Dims(3, 0));
    assert_eq!(m.channel_count(), 3);
    let z: TempMat<f64> = TempMat::new(0);
    assert_eq!(z.shape(), Dims(0, 0));
}

#[test]
fn from_channels_requires_equal_lengths() {
    assert!(TempMat::from_channels(vec![vec![1.0], vec![2.0, 3.0]]).is_none());
    let m = TempMat::from_channels(vec![vec![1.0, 2.0], vec![3.0, 4.0]]).unwrap();
    assert_eq!(m.shape(), Dims(2, 2));
    assert_eq!(m.channel(1), &vec![3.0, 4.0]);
}

#[test]
fn interp_fixed_step_slopes() {
    let m = TempMat::from_str("1.0 3.0 7.0", 1, num).unwrap();
    let dt = 2.0;
    let d = m.interp(|a: f64, b: f64| (b - a) / dt);
    assert_eq!(d.channel(0), &vec![1.0, 2.0]);
    assert_eq!(d.shape(), Dims(1, 2));
}

#[test]
fn interp_is_one_shorter_per_channel() {
    let m = TempMat::from_str("4 8 1 0 2 6 5 5 5", 3, num).unwrap();
    let d = m.interp(|a: f64, b: f64| (b - a) / 30.0);
    assert_eq!(m.shape().1, d.shape().1 + 1);
    for k in 0..3 {
        assert_eq!(m.channel(k).len(), d.channel(k).len() + 1);
    }
}

#[test]
fn interp_of_short_channels_is_empty() {
    let one = TempMat::from_str("5", 1, num).unwrap();
    assert_eq!(one.interp(|a: f64, b: f64| b - a).shape(), Dims(1, 0));
    let none: TempMat<f64> = TempMat::new(2);
    assert_eq!(none.interp(|a: f64, b: f64| b - a).shape(), Dims(2, 0));
}

#[test]
fn output_rows_one_per_interval() {
    let m = TempMat::from_str("0 12.34 0 13.84 0 10.0 0 11.0", 2, num).unwrap();
    let d = m.interp(|a: f64, b: f64| (b - a) / 30.0);
    let rows = output_rows(&m, &d, 1);
    assert_eq!(rows.len(), 3);
    assert_eq!(rows[0].index, 0);
    assert_eq!(rows[0].y0, 12.34);
    assert!((rows[0].slope - 0.05).abs() < 1e-9);
    assert_eq!(rows[2].index, 2);
    assert_eq!(rows[2].y0, 10.0);
}

#[test]
fn dims_display() {
    assert_eq!(Dims(4, 10).display(), "(4, 10)");
    assert_eq!(Dims(0, 1234).display(), "(0, 1234)");
}
