use chrono::{Datelike, NaiveDate};
use forecast::dates::{Date, Span, DAY_MAX, DAY_MIN};
use forecast::errors::EngineError;
use forecast::labels::u64_to_dec;
use forecast::ranges::{get_ranges, partition, ranges_total};

fn day(y: i32, m: u32, d: u32) -> Date {
    let num = NaiveDate::from_ymd_opt(y, m, d).unwrap().num_days_from_ce() as i64;
    Date::from_day(num).unwrap()
}

fn span(start: Date, end: Date) -> Span {
    Span::new(start, end).unwrap()
}

#[test]
fn partition_keeps_the_end_of_range_drift() {
    // 2024-01-01 .. 2024-01-31: 30 days, chunk 6; the cursor walks
    // 01-01..01-07, 01-08..01-14, 01-15..01-21, 01-22..01-28, 01-29..02-04,
    // and the final end deliberately overshoots the span's end date.
    let s = span(day(2024, 1, 1), day(2024, 1, 31));
    let w = vec![20, 20, 20, 20, 20];
    let ranges = partition(s, 5, &w);
    assert_eq!(ranges.len(), 5);
    let expected = [
        (day(2024, 1, 1), day(2024, 1, 7)),
        (day(2024, 1, 8), day(2024, 1, 14)),
        (day(2024, 1, 15), day(2024, 1, 21)),
        (day(2024, 1, 22), day(2024, 1, 28)),
        (day(2024, 1, 29), day(2024, 2, 4)),
    ];
    for (r, (start, end)) in ranges.iter().zip(expected) {
        assert_eq!(r.start, start);
        assert_eq!(r.end, end);
    }
    assert_ne!(ranges[4].end, day(2024, 1, 31));
}

#[test]
fn partition_labels_render_the_dates_and_day_count() {
    let s = span(day(2024, 1, 1), day(2024, 1, 31));
    let ranges = partition(s, 5, &vec![20, 20, 20, 20, 20]);
    assert_eq!(ranges[0].label, "2024-01-01 - 2024-01-07 (6 days)");
    assert_eq!(ranges[4].label, "2024-01-29 - 2024-02-04 (6 days)");
}

#[test]
fn sub_ranges_are_contiguous() {
    let s = span(day(2023, 2, 10), day(2023, 12, 24));
    let ranges = partition(s, 7, &vec![10, 20, 30]);
    for pair in ranges.windows(2) {
        assert_eq!(pair[1].start.day, pair[0].end.day + 1);
        assert!(pair[1].start.day > pair[0].start.day);
    }
}

#[test]
fn partition_count_ignores_the_weight_array_length() {
    let s = span(day(2024, 1, 1), day(2024, 1, 31));
    for w in [vec![], vec![50], vec![10, 10, 10, 10, 10, 10, 10]] {
        let ranges = partition(s, 5, &w);
        assert_eq!(ranges.len(), 5);
        for (i, r) in ranges.iter().enumerate() {
            assert_eq!(r.value, w.get(i).copied().unwrap_or(0));
        }
    }
}

#[test]
fn partition_attaches_the_advisory_flags() {
    let s = span(day(2024, 1, 1), day(2024, 1, 31));
    let ranges = partition(s, 5, &vec![30, 0, 30, 30, 30]);
    assert!(ranges[0].can_floor && !ranges[0].can_ceil);
    assert!(!ranges[1].can_floor && !ranges[1].can_ceil);
    let ranges = partition(s, 5, &vec![10, 10, 10, 10, 10]);
    assert!(!ranges[2].can_floor && ranges[2].can_ceil);
}

#[test]
fn a_single_day_span_yields_zero_length_ranges() {
    let d = day(2024, 6, 15);
    let ranges = partition(span(d, d), 5, &vec![20, 20, 20, 20, 20]);
    assert_eq!(ranges.len(), 5);
    for (i, r) in ranges.iter().enumerate() {
        assert_eq!(r.start.day, d.day + i as i64);
        assert_eq!(r.end, r.start);
        assert!(r.label.ends_with("(0 days)"));
    }
}

#[test]
fn get_ranges_is_the_five_way_partition() {
    let start = day(2024, 1, 1);
    let end = day(2024, 1, 31);
    let w = vec![20, 20, 20, 20, 20];
    let a = get_ranges(start, end, &w);
    let b = partition(span(start, end), 5, &w);
    assert_eq!(a.len(), b.len());
    for (x, y) in a.iter().zip(b.iter()) {
        assert_eq!(x.start, y.start);
        assert_eq!(x.end, y.end);
        assert_eq!(x.label, y.label);
        assert_eq!(x.value, y.value);
        assert_eq!(x.can_floor, y.can_floor);
        assert_eq!(x.can_ceil, y.can_ceil);
    }
}

#[test]
fn ranges_total_sums_the_carried_values() {
    let s = span(day(2024, 1, 1), day(2024, 1, 31));
    let ranges = partition(s, 5, &vec![30, 30, 0, 30, 30]);
    assert_eq!(ranges_total(&ranges), 120);
}

#[test]
fn span_validation_rejects_a_reversed_pair() {
    let r = Span::new(day(2024, 1, 31), day(2024, 1, 1));
    assert_eq!(r.unwrap_err(), EngineError::InvalidSpan);
}

#[test]
fn span_validation_rejects_out_of_range_days() {
    let good = Date { day: 0 };
    let bad = Date { day: DAY_MAX + 1 };
    assert_eq!(Span::new(good, bad).unwrap_err(), EngineError::InvalidSpan);
    assert_eq!(Span::new(Date { day: DAY_MIN - 1 }, good).unwrap_err(), EngineError::InvalidSpan);
    assert!(Span::new(good, good).is_ok());
}

#[test]
fn date_from_day_checks_the_calendar_range() {
    assert_eq!(Date::from_day(738885), Some(Date { day: 738885 }));
    assert_eq!(Date::from_day(DAY_MAX), Some(Date { day: DAY_MAX }));
    assert_eq!(Date::from_day(DAY_MAX + 1), None);
    assert_eq!(Date::from_day(DAY_MIN - 1), None);
}

#[test]
fn day_numbers_agree_with_the_calendar() {
    // day 1 is January 1 of year 1
    assert_eq!(day(1, 1, 1).day, 1);
    assert_eq!(day(2024, 1, 1).day, 738886);
}

#[test]
fn decimal_rendering_writes_plain_base_ten() {
    assert_eq!(u64_to_dec(0), "0");
    assert_eq!(u64_to_dec(7), "7");
    assert_eq!(u64_to_dec(10), "10");
    assert_eq!(u64_to_dec(909), "909");
    assert_eq!(u64_to_dec(u64::MAX), "18446744073709551615");
}
