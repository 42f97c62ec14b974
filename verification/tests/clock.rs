use starship_config_manager::{
    backup_stamp, current_date, current_stamp, current_time, is_stamp, rfc3339, UnixTime,
};

#[test]
fn stamp_of_the_epoch() {
    let at = UnixTime { secs: 0, nanos: 0 };
    assert_eq!(backup_stamp(at), Some("19700101_000000".to_string()));
}

#[test]
fn stamp_has_second_resolution() {
    let at = UnixTime { secs: 1_700_000_000, nanos: 999_999_999 };
    assert_eq!(backup_stamp(at), Some("20231114_221320".to_string()));
    let next = UnixTime { secs: 1_700_000_001, nanos: 0 };
    assert_eq!(backup_stamp(next), Some("20231114_221321".to_string()));
}

#[test]
fn stamp_before_the_epoch() {
    let at = UnixTime { secs: -1, nanos: 0 };
    assert_eq!(backup_stamp(at), Some("19691231_235959".to_string()));
}

#[test]
fn stamp_of_a_moment_out_of_range_is_none() {
    assert_eq!(backup_stamp(UnixTime { secs: i64::MAX, nanos: 0 }), None);
    assert_eq!(backup_stamp(UnixTime { secs: i64::MIN, nanos: 0 }), None);
    assert_eq!(backup_stamp(UnixTime { secs: 0, nanos: 2_000_000_000 }), None);
}

#[test]
fn rfc3339_of_whole_seconds() {
    let at = UnixTime { secs: 1_700_000_000, nanos: 0 };
    assert_eq!(rfc3339(at), Some("2023-11-14T22:13:20+00:00".to_string()));
    let epoch = UnixTime { secs: 0, nanos: 0 };
    assert_eq!(rfc3339(epoch), Some("1970-01-01T00:00:00+00:00".to_string()));
}

#[test]
fn rfc3339_keeps_the_fraction() {
    let at = UnixTime { secs: 0, nanos: 500_000_000 };
    assert_eq!(rfc3339(at), Some("1970-01-01T00:00:00.500+00:00".to_string()));
    let fine = UnixTime { secs: 0, nanos: 1 };
    assert_eq!(rfc3339(fine), Some("1970-01-01T00:00:00.000000001+00:00".to_string()));
}

#[test]
fn rfc3339_of_a_moment_out_of_range_is_none() {
    assert_eq!(rfc3339(UnixTime { secs: i64::MAX, nanos: 0 }), None);
}

#[test]
fn the_clock_gives_a_moment_after_2020() {
    let now = current_time().expect("the system clock stands after 1970");
    assert!(now.secs > 1_577_836_800);
    assert!(now.nanos < 1_000_000_000);
}

#[test]
fn later_moments_have_later_stamps() {
    let moments: [i64; 6] = [
        0,
        59,
        86_399,
        86_400,
        1_700_000_000,
        253_402_300_799,
    ];
    let stamps: Vec<String> = moments
        .iter()
        .map(|secs| backup_stamp(UnixTime { secs: *secs, nanos: 0 }).unwrap())
        .collect();
    assert_eq!(stamps[5], "99991231_235959");
    for pair in stamps.windows(2) {
        assert!(pair[0] < pair[1]);
        assert_eq!(pair[0].len(), 15);
    }
}

#[test]
fn moments_after_the_epoch_keep_their_numbers() {
    assert_eq!(UnixTime::after_epoch(5, 7), Some(UnixTime { secs: 5, nanos: 7 }));
    assert_eq!(UnixTime::after_epoch(0, 0), Some(UnixTime { secs: 0, nanos: 0 }));
    assert_eq!(
        UnixTime::after_epoch(i64::MAX as u64, 999_999_999),
        Some(UnixTime { secs: i64::MAX, nanos: 999_999_999 })
    );
}

#[test]
fn moments_that_cannot_be_held_are_none() {
    assert_eq!(UnixTime::after_epoch(i64::MAX as u64 + 1, 0), None);
    assert_eq!(UnixTime::after_epoch(u64::MAX, 0), None);
    assert_eq!(UnixTime::after_epoch(0, 1_000_000_000), None);
    assert_eq!(UnixTime::before_epoch(0, 1_000_000_000), None);
    assert_eq!(UnixTime::before_epoch(1 << 63, 1), None);
    assert_eq!(UnixTime::before_epoch((1 << 63) + 1, 0), None);
    assert_eq!(UnixTime::before_epoch(u64::MAX, 0), None);
}

#[test]
fn moments_before_the_epoch_count_nanoseconds_forward() {
    assert_eq!(UnixTime::before_epoch(0, 0), Some(UnixTime { secs: 0, nanos: 0 }));
    assert_eq!(UnixTime::before_epoch(1, 0), Some(UnixTime { secs: -1, nanos: 0 }));
    assert_eq!(UnixTime::before_epoch(0, 1), Some(UnixTime { secs: -1, nanos: 999_999_999 }));
    assert_eq!(
        UnixTime::before_epoch(1, 250_000_000),
        Some(UnixTime { secs: -2, nanos: 750_000_000 })
    );
    assert_eq!(UnixTime::before_epoch(1 << 63, 0), Some(UnixTime { secs: i64::MIN, nanos: 0 }));
    assert_eq!(
        UnixTime::before_epoch(i64::MAX as u64, 1),
        Some(UnixTime { secs: i64::MIN, nanos: 999_999_999 })
    );
}

#[test]
fn a_moment_just_before_the_epoch_is_written_in_1969() {
    let at = UnixTime::before_epoch(0, 500_000_000).unwrap();
    assert_eq!(rfc3339(at), Some("1969-12-31T23:59:59.500+00:00".to_string()));
    assert_eq!(backup_stamp(at), Some("19691231_235959".to_string()));
}

#[test]
fn stamps_are_recognised() {
    assert!(is_stamp("20240102_030405"));
    assert!(is_stamp("00000101_000000"));
    assert!(is_stamp("99991231_235959"));
    assert!(is_stamp("20240231_000000"));
}

#[test]
fn text_of_another_layout_is_no_stamp() {
    assert!(!is_stamp(""));
    assert!(!is_stamp("20240102_03040"));
    assert!(!is_stamp("20240102_0304050"));
    assert!(!is_stamp("20240102-030405"));
    assert!(!is_stamp("2024010_2030405"));
    assert!(!is_stamp("2024O102_030405"));
    assert!(!is_stamp("+0240102_030405"));
    assert!(!is_stamp("２０２４0102_030405"));
    assert!(!is_stamp("20240102_03040５"));
}

#[test]
fn numbers_out_of_range_make_no_stamp() {
    assert!(!is_stamp("20240002_030405"));
    assert!(!is_stamp("20241302_030405"));
    assert!(!is_stamp("20240100_030405"));
    assert!(!is_stamp("20240132_030405"));
    assert!(!is_stamp("20240102_240405"));
    assert!(!is_stamp("20240102_036005"));
    assert!(!is_stamp("20240102_030460"));
}

#[test]
fn what_is_written_for_four_digit_years_is_a_stamp() {
    for secs in [0i64, 1, 951_782_400, 1_700_000_000, 253_402_300_799, -62_167_219_200] {
        let stamp = backup_stamp(UnixTime { secs, nanos: 0 }).unwrap();
        assert!(is_stamp(&stamp), "{}", stamp);
    }
}

#[test]
fn years_of_more_than_four_digits_have_no_stamp() {
    assert!(backup_stamp(UnixTime { secs: 253_402_300_799, nanos: 0 }).is_some());
    assert_eq!(backup_stamp(UnixTime { secs: 253_402_300_800, nanos: 0 }), None);
    assert_eq!(
        rfc3339(UnixTime { secs: 253_402_300_800, nanos: 0 }),
        Some("+10000-01-01T00:00:00+00:00".to_string())
    );
}

#[test]
fn years_before_zero_have_no_stamp() {
    assert_eq!(
        backup_stamp(UnixTime { secs: -62_167_219_200, nanos: 0 }),
        Some("00000101_000000".to_string())
    );
    assert_eq!(backup_stamp(UnixTime { secs: -62_167_219_201, nanos: 0 }), None);
}

#[test]
fn a_leap_second_has_no_stamp() {
    assert_eq!(
        backup_stamp(UnixTime { secs: 59, nanos: 999_999_999 }),
        Some("19700101_000059".to_string())
    );
    assert_eq!(backup_stamp(UnixTime { secs: 59, nanos: 1_500_000_000 }), None);
    assert_eq!(
        rfc3339(UnixTime { secs: 59, nanos: 1_500_000_000 }),
        Some("1970-01-01T00:00:60.500+00:00".to_string())
    );
}

#[test]
fn the_clock_gives_a_stamp_and_a_date() {
    let stamp = current_stamp().expect("the system clock stands in a year of four digits");
    assert!(is_stamp(&stamp));
    assert!(stamp.as_str() > "20200101_000000");
    let date = current_date().expect("the system clock stands after 1970");
    assert_eq!(&date[..4], &stamp[..4]);
    assert!(date.ends_with("+00:00"));
}
