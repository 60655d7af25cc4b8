use spinners::elapsed::{format_elapsed, round_to_millis, FIELD_WIDTH};

fn field(secs: u64, nanos: u32) -> String {
    String::from_utf8(format_elapsed(secs, nanos)).unwrap()
}

#[test]
fn field_of_one_second_234_is_right_aligned_in_ten_columns() {
    assert_eq!(field(1, 234_000_000), "     1.234");
}

#[test]
fn field_of_zero_elapsed() {
    assert_eq!(field(0, 0), "     0.000");
}

#[test]
fn field_keeps_leading_zeros_of_the_fraction() {
    assert_eq!(field(7, 5_000_000), "     7.005");
    assert_eq!(field(7, 50_000_000), "     7.050");
}

#[test]
fn field_rounds_to_the_nearest_millisecond() {
    assert_eq!(field(0, 1_499_999), "     0.001");
    assert_eq!(field(0, 1_500_001), "     0.002");
    assert_eq!(field(3, 999_499_999), "     3.999");
}

#[test]
fn field_rounds_half_way_to_the_even_millisecond() {
    assert_eq!(field(0, 500_000), "     0.000");
    assert_eq!(field(0, 1_500_000), "     0.002");
    assert_eq!(field(0, 2_500_000), "     0.002");
    assert_eq!(field(0, 62_500_000), "     0.062");
}

#[test]
fn field_carries_into_the_seconds() {
    assert_eq!(field(0, 999_500_000), "     1.000");
    assert_eq!(field(9, 999_999_999), "    10.000");
}

#[test]
fn field_of_exactly_ten_columns_has_no_blank() {
    assert_eq!(field(123_456, 789_000_000), "123456.789");
}

#[test]
fn field_wider_than_ten_columns_is_not_cut() {
    assert_eq!(field(12_345_678, 1_000_000), "12345678.001");
    assert_eq!(field(u64::MAX, 999_999_999), "18446744073709551616.000");
}

#[test]
fn field_counts_nanoseconds_beyond_a_second() {
    assert_eq!(field(0, 4_000_000_000), "     4.000");
    assert_eq!(field(1, u32::MAX), "     5.295");
}

#[test]
fn field_has_three_digits_after_its_only_point() {
    let cases: [(u64, u32); 6] = [
        (0, 0),
        (0, 999_999_999),
        (59, 123_456_789),
        (3_600, 1),
        (99_999, 999_500_000),
        (u64::MAX, 0),
    ];
    for (secs, nanos) in cases {
        let text = field(secs, nanos);
        assert!(text.len() >= FIELD_WIDTH);
        let point = text.len() - 4;
        assert_eq!(text.matches('.').count(), 1);
        assert_eq!(text.as_bytes()[point], b'.');
        assert!(text[point + 1..].bytes().all(|b| b.is_ascii_digit()));
        let whole = text[..point].trim_start_matches(' ');
        assert!(!whole.is_empty());
        assert!(whole.bytes().all(|b| b.is_ascii_digit()));
    }
}

#[test]
fn millis_are_rounded_from_the_whole_duration() {
    assert_eq!(round_to_millis(0, 0), 0);
    assert_eq!(round_to_millis(1, 234_000_000), 1_234);
    assert_eq!(round_to_millis(1, 234_500_000), 1_234);
    assert_eq!(round_to_millis(1, 235_500_000), 1_236);
    assert_eq!(round_to_millis(1, 234_500_001), 1_235);
    assert_eq!(round_to_millis(u64::MAX, 999_999_999), 18_446_744_073_709_551_616_000);
}

fn float_field(secs: u64, nanos: u32) -> String {
    let seconds: f64 = std::time::Duration::new(secs, nanos).as_secs_f64();
    format!("{seconds:>10.3}")
}

#[test]
fn field_agrees_with_float_formatting_away_from_half_milliseconds() {
    let mut state: u64 = 0x2545_f491_4f6c_dd1d;
    let mut compared: u32 = 0;
    while compared < 20_000 {
        state = state
            .wrapping_mul(6_364_136_223_846_793_005)
            .wrapping_add(1_442_695_040_888_963_407);
        let secs = (state >> 44) % 1_000_000;
        let nanos = ((state >> 12) % 1_000_000_000) as u32;
        if nanos % 1_000_000 == 500_000 {
            continue;
        }
        assert_eq!(field(secs, nanos), float_field(secs, nanos), "{secs} s {nanos} ns");
        compared += 1;
    }
}

#[test]
fn field_agrees_with_float_formatting_next_to_half_milliseconds() {
    for secs in [0u64, 1, 59, 3_600, 86_400, 999_999] {
        for millis in [0u32, 1, 2, 499, 500, 998, 999] {
            for off in [499_999u32, 500_001] {
                let nanos = millis * 1_000_000 + off;
                assert_eq!(field(secs, nanos), float_field(secs, nanos), "{secs} s {nanos} ns");
            }
        }
    }
}

#[test]
fn field_agrees_with_float_formatting_on_half_milliseconds_exact_in_binary() {
    for secs in [0u64, 1, 2, 7, 1_024] {
        for sixteenths in [1u32, 3, 5, 7, 9, 11, 13, 15] {
            let nanos = sixteenths * 62_500_000;
            assert_eq!(field(secs, nanos), float_field(secs, nanos), "{secs} s {nanos} ns");
        }
    }
}
