use epochs_egui::{all_schemes, convert, to_raw, CalendarDateTime, ConversionError, Epoch, TimeUnit};

fn dt(year: i32, month: u32, day: u32, hour: u32, minute: u32, second: u32, nanosecond: u32) -> CalendarDateTime {
    CalendarDateTime { year, month, day, hour, minute, second, nanosecond }
}

fn epoch_start() -> CalendarDateTime {
    dt(1970, 1, 1, 0, 0, 0, 0)
}

#[test]
fn unix_zero_is_epoch_start() {
    assert_eq!(convert(Epoch::Unix, 0), Ok(epoch_start()));
}

#[test]
fn zero_is_origin_for_every_scheme() {
    for s in all_schemes() {
        assert_eq!(convert(s, 0), Ok(s.origin()));
        assert_eq!(s.origin(), epoch_start());
    }
}

#[test]
fn unix_seconds_scenario() {
    assert_eq!(convert(Epoch::Unix, 1_600_000_000), Ok(dt(2020, 9, 13, 12, 26, 40, 0)));
}

#[test]
fn java_milliseconds_scenario() {
    assert_eq!(convert(Epoch::Java, 1_600_000_000_000), Ok(dt(2020, 9, 13, 12, 26, 40, 0)));
}

#[test]
fn mozilla_microseconds_scenario() {
    assert_eq!(
        convert(Epoch::Mozilla, 1_600_000_000_000_000),
        Ok(dt(2020, 9, 13, 12, 26, 40, 0))
    );
}

#[test]
fn apfs_minus_one_is_last_nanosecond_of_1969() {
    assert_eq!(convert(Epoch::Apfs, -1), Ok(dt(1969, 12, 31, 23, 59, 59, 999_999_999)));
}

#[test]
fn negative_sub_second_counts_round_down() {
    assert_eq!(convert(Epoch::Java, -1), Ok(dt(1969, 12, 31, 23, 59, 59, 999_000_000)));
    assert_eq!(convert(Epoch::Mozilla, -1_500_000), Ok(dt(1969, 12, 31, 23, 59, 58, 500_000_000)));
    assert_eq!(convert(Epoch::Apfs, -1_000_000_000), Ok(dt(1969, 12, 31, 23, 59, 59, 0)));
}

#[test]
fn fractional_parts_are_kept() {
    assert_eq!(
        convert(Epoch::Apfs, 1_234_567_890_123_456_789),
        Ok(dt(2009, 2, 13, 23, 31, 30, 123_456_789))
    );
    assert_eq!(convert(Epoch::Java, 1_234_567_890_123), Ok(dt(2009, 2, 13, 23, 31, 30, 123_000_000)));
}

#[test]
fn leap_day_decodes() {
    // 2000-02-29T00:00:00
    assert_eq!(convert(Epoch::Unix, 951_782_400), Ok(dt(2000, 2, 29, 0, 0, 0, 0)));
    // 2100 is no leap year: 2100-02-28 is followed by 2100-03-01
    assert_eq!(convert(Epoch::Unix, 4_107_456_000), Ok(dt(2100, 2, 28, 0, 0, 0, 0)));
    assert_eq!(convert(Epoch::Unix, 4_107_542_400), Ok(dt(2100, 3, 1, 0, 0, 0, 0)));
}

#[test]
fn all_schemes_lists_four_with_distinct_labels() {
    let schemes = all_schemes();
    assert_eq!(schemes, vec![Epoch::Apfs, Epoch::Java, Epoch::Mozilla, Epoch::Unix]);
    assert_eq!(schemes, all_schemes());
    for (i, a) in schemes.iter().enumerate() {
        for b in schemes.iter().skip(i + 1) {
            assert_ne!(a.label(), b.label());
        }
    }
    assert_eq!(Epoch::Apfs.label(), "APFS (nanoseconds)");
    assert_eq!(Epoch::Unix.label(), "Unix (seconds)");
}

#[test]
fn units_match_schemes() {
    assert_eq!(Epoch::Apfs.unit(), TimeUnit::Nanoseconds);
    assert_eq!(Epoch::Java.unit(), TimeUnit::Milliseconds);
    assert_eq!(Epoch::Mozilla.unit(), TimeUnit::Microseconds);
    assert_eq!(Epoch::Unix.unit(), TimeUnit::Seconds);
    assert_eq!(TimeUnit::Milliseconds.ticks_per_second(), 1_000);
    assert_eq!(TimeUnit::Microseconds.nanos_per_tick(), 1_000);
    assert_eq!(Epoch::Java.origin_offset_seconds(), 0);
}

#[test]
fn conversion_is_deterministic() {
    for s in all_schemes() {
        for raw in [i64::MIN, -1, 0, 1, 1_600_000_000, i64::MAX] {
            assert_eq!(convert(s, raw), convert(s, raw));
        }
    }
}

#[test]
fn larger_counts_decode_later() {
    for s in all_schemes() {
        let raws = [-1_000_000_001i64, -1, 0, 1, 999, 1_600_000_000, 1_600_000_001];
        for w in raws.windows(2) {
            let a = convert(s, w[0]).unwrap();
            let b = convert(s, w[1]).unwrap();
            assert!(a < b);
        }
    }
}

#[test]
fn round_trip_truncates_to_unit() {
    // 2009-02-13T23:31:30.123456789 is 1_234_567_890_123_456_789 ns after 1970
    let t = dt(2009, 2, 13, 23, 31, 30, 123_456_789);
    assert_eq!(convert(Epoch::Apfs, 1_234_567_890_123_456_789), Ok(t));
    assert_eq!(convert(Epoch::Mozilla, 1_234_567_890_123_456), Ok(dt(2009, 2, 13, 23, 31, 30, 123_456_000)));
    assert_eq!(convert(Epoch::Java, 1_234_567_890_123), Ok(dt(2009, 2, 13, 23, 31, 30, 123_000_000)));
    assert_eq!(convert(Epoch::Unix, 1_234_567_890), Ok(dt(2009, 2, 13, 23, 31, 30, 0)));
}

#[test]
fn apfs_extremes_decode() {
    assert_eq!(convert(Epoch::Apfs, i64::MAX), Ok(dt(2262, 4, 11, 23, 47, 16, 854_775_807)));
    assert_eq!(convert(Epoch::Apfs, i64::MIN), Ok(dt(1677, 9, 21, 0, 12, 43, 145_224_192)));
}

#[test]
fn unix_extremes_are_out_of_range() {
    assert_eq!(convert(Epoch::Unix, i64::MAX), Err(ConversionError::OutOfRange));
    assert_eq!(convert(Epoch::Unix, i64::MIN), Err(ConversionError::OutOfRange));
    assert_eq!(convert(Epoch::Java, i64::MAX), Err(ConversionError::OutOfRange));
}

#[test]
fn calendar_range_edges() {
    assert_eq!(convert(Epoch::Unix, 8_210_266_876_799), Ok(dt(262142, 12, 31, 23, 59, 59, 0)));
    assert_eq!(convert(Epoch::Unix, 8_210_266_876_800), Err(ConversionError::OutOfRange));
    assert_eq!(convert(Epoch::Unix, -8_334_601_228_800), Ok(dt(-262143, 1, 1, 0, 0, 0, 0)));
    assert_eq!(convert(Epoch::Unix, -8_334_601_228_801), Err(ConversionError::OutOfRange));
}

#[test]
fn to_raw_gives_exact_counts() {
    assert_eq!(to_raw(Epoch::Unix, &dt(2020, 9, 13, 12, 26, 40, 0)), Some(1_600_000_000));
    assert_eq!(to_raw(Epoch::Mozilla, &dt(2020, 9, 13, 12, 26, 40, 0)), Some(1_600_000_000_000_000));
    assert_eq!(to_raw(Epoch::Apfs, &dt(1969, 12, 31, 23, 59, 59, 999_999_999)), Some(-1));
    assert_eq!(to_raw(Epoch::Java, &dt(1969, 12, 31, 23, 59, 59, 999_500_000)), Some(-1));
    assert_eq!(to_raw(Epoch::Unix, &dt(1969, 12, 31, 23, 59, 59, 999_999_999)), Some(-1));
    assert_eq!(to_raw(Epoch::Apfs, &dt(1677, 9, 21, 0, 12, 43, 145_224_192)), Some(i64::MIN));
    assert_eq!(to_raw(Epoch::Apfs, &dt(1677, 9, 21, 0, 12, 43, 145_224_191)), None);
    assert_eq!(to_raw(Epoch::Apfs, &dt(3000, 1, 1, 0, 0, 0, 0)), None);
    assert_eq!(to_raw(Epoch::Unix, &dt(262142, 12, 31, 23, 59, 59, 0)), Some(8_210_266_876_799));
}

#[test]
fn encoding_then_decoding_truncates_to_unit() {
    let samples = [
        dt(2009, 2, 13, 23, 31, 30, 123_456_789),
        dt(1969, 12, 31, 23, 59, 59, 999_999_999),
        dt(2000, 2, 29, 12, 0, 0, 1),
        dt(1900, 3, 1, 6, 7, 8, 900_000_001),
        dt(2262, 4, 11, 23, 47, 16, 854_775_807),
    ];
    for s in all_schemes() {
        let per_tick = s.unit().nanos_per_tick() as u32;
        for t in samples {
            let raw = to_raw(s, &t).unwrap();
            let cut = CalendarDateTime { nanosecond: t.nanosecond / per_tick * per_tick, ..t };
            assert_eq!(convert(s, raw), Ok(cut));
        }
    }
}
