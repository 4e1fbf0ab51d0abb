use temperature_parser::error::TMFromStrError;
use temperature_parser::timed::{TimedMat, NUM_CORES, TIME_STEP_SIZE};

fn num(t: &str) -> Option<f64> {
    t.parse::<f64>().ok()
}

#[test]
fn row_timestamps_step_by_thirty() {
    let text = "1 2 3 4\n5 6 7 8\n1 1 1 1\n2 2 2 2\n3 3 3 3\n9 9 9 9\n";
    let m = TimedMat::from_rows(text, TIME_STEP_SIZE, num).unwrap();
    assert_eq!(m.times(), &vec![0, 30, 60, 90, 120, 150]);
    assert_eq!(m.sample(0, 0), (0, 1.0));
    assert_eq!(m.sample(3, 1), (30, 8.0));
    assert_eq!(m.sample(2, 5), (150, 9.0));
    assert_eq!(m.values().channel_count(), NUM_CORES);
}

#[test]
fn rows_without_final_newline_and_with_crlf() {
    let m = TimedMat::from_rows("1 2 3 4\r\n5 6 7 8", 10, num).unwrap();
    assert_eq!(m.times(), &vec![0, 10]);
    assert_eq!(m.values().channel(1), &vec![2.0, 6.0]);
}

#[test]
fn row_with_three_fields_is_rejected() {
    let r = TimedMat::from_rows("1 2 3 4\n5 6 7\n1 2 3 4\n", TIME_STEP_SIZE, num);
    assert_eq!(r.err(), Some(TMFromStrError::WrongFieldCount { line: 2, found: 3 }));
}

#[test]
fn row_with_five_fields_is_rejected() {
    let r = TimedMat::from_rows("1 2 3 4 5\n", TIME_STEP_SIZE, num);
    assert_eq!(r.err(), Some(TMFromStrError::WrongFieldCount { line: 1, found: 5 }));
}

#[test]
fn blank_line_is_rejected() {
    let r = TimedMat::from_rows("1 2 3 4\n\n1 2 3 4\n", TIME_STEP_SIZE, num);
    assert_eq!(r.err(), Some(TMFromStrError::WrongFieldCount { line: 2, found: 0 }));
}

#[test]
fn row_with_bad_number_is_rejected() {
    let r = TimedMat::from_rows("1 2 3 4\n1 2 3 4\n1 2 abc 4\n", TIME_STEP_SIZE, num);
    assert_eq!(r.err(), Some(TMFromStrError::InvalidField { line: 3, field: 2 }));
}

#[test]
fn empty_text_has_no_rows() {
    let m = TimedMat::from_rows("", TIME_STEP_SIZE, num).unwrap();
    assert!(m.times().is_empty());
    assert_eq!(m.values().channel_count(), NUM_CORES);
}

#[test]
fn interp_by_time_uses_actual_deltas() {
    let m = TimedMat::from_parts(vec![0, 30, 90], vec![vec![1.0, 3.0, 7.0]]).unwrap();
    let d = m.interp_by_time(|a: f64, b: f64, dt: u64| (b - a) / dt as f64);
    let c = d.channel(0);
    assert_eq!(c.len(), 2);
    assert!((c[0] - 2.0 / 30.0).abs() < 1e-12);
    assert!((c[1] - 4.0 / 60.0).abs() < 1e-12);
    assert!((c[0] - 0.0667).abs() < 1e-4);
    assert!((c[1] - 0.0667).abs() < 1e-4);
}

#[test]
fn interp_by_time_of_rows() {
    let m = TimedMat::from_rows("0 0 0 0\n30 60 90 120\n", TIME_STEP_SIZE, num).unwrap();
    let d = m.interp_by_time(|a: f64, b: f64, dt: u64| (b - a) / dt as f64);
    assert_eq!(d.channel(0), &vec![1.0]);
    assert_eq!(d.channel(3), &vec![4.0]);
}

#[test]
fn from_parts_checks_times_and_lengths() {
    assert!(TimedMat::from_parts(vec![0, 30, 30], vec![vec![1.0, 2.0, 3.0]]).is_none());
    assert!(TimedMat::from_parts(vec![30, 0], vec![vec![1.0, 2.0]]).is_none());
    assert!(TimedMat::from_parts(vec![0, 30], vec![vec![1.0]]).is_none());
    assert!(TimedMat::from_parts(vec![0, 30], vec![vec![1.0, 2.0], vec![3.0, 4.0]]).is_some());
}
