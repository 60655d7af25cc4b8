use spinners::clock::measure;
use std::time::{Duration, Instant};

#[test]
fn elapsed_between_two_instants() {
    let start = Instant::now();
    let stop = start + Duration::new(1, 234_000_000);
    assert_eq!(measure(start, Some(stop)), (1, 234_000_000));
}

#[test]
fn elapsed_splits_seconds_from_nanoseconds() {
    let start = Instant::now();
    let stop = start + Duration::from_nanos(3_000_000_007);
    assert_eq!(measure(start, Some(stop)), (3, 7));
}

#[test]
fn elapsed_to_an_earlier_stop_is_zero() {
    let stop = Instant::now();
    let start = stop + Duration::from_secs(5);
    assert_eq!(measure(start, Some(stop)), (0, 0));
}

#[test]
fn elapsed_to_now_is_measured() {
    let start = Instant::now();
    let (secs, nanos) = measure(start, None);
    assert!(secs < 60);
    assert!(nanos < 1_000_000_000);
    let later = measure(start, None);
    assert!(later >= (secs, nanos));
}
