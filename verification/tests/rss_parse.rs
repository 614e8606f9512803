use kbotop::rss::parse::{normalized_date, offset_minutes, parse_numeric_date, parse_rfc822_date, shift_to_kst};

#[test]
fn normalized_date_absorbs_feed_format_variance() {
    assert_eq!(normalized_date("Fri, 24 Jul 2026 11:26:41 +0900"), "20260724112641");
    assert_eq!(normalized_date("2026-07-24 09:18:39"), "20260724091839");
    assert_eq!(normalized_date("2026-07-23T22:25:00+09:00"), "20260723222500");
    assert_eq!(normalized_date("Fri, 24 Jul 2026 02:04:07 GMT"), "20260724110407");
    assert_eq!(normalized_date("2026-07-24"), "20260724000000");
    assert_eq!(normalized_date(""), "");
    assert_eq!(normalized_date("어제"), "");
    assert_eq!(normalized_date("Mon, bogus"), "");
}

#[test]
fn normalized_date_unifies_same_instant_across_feed_formats() {
    let expected = "20260724110407";
    assert_eq!(normalized_date("Fri, 24 Jul 2026 02:04:07 GMT"), expected, "스포티비뉴스류 GMT(진짜 UTC)");
    assert_eq!(normalized_date("2026-07-24 11:04:07"), expected, "타임존 표기 없음 = KST");
    assert_eq!(normalized_date("2026-07-24T11:04:07+09:00"), expected, "명시적 KST 오프셋(ISO8601)");
    assert_eq!(normalized_date("Fri, 24 Jul 2026 11:04:07 +0900"), expected, "스포츠조선류 +0900");
}

#[test]
fn normalized_date_gmt_rolls_over_midnight_to_next_day_kst() {
    assert_eq!(normalized_date("Thu, 23 Jul 2026 20:00:00 GMT"), "20260724050000");
}

#[test]
fn normalized_date_gmt_rolls_over_year_boundary() {
    assert_eq!(normalized_date("Wed, 31 Dec 2025 20:00:00 GMT"), "20260101050000");
}

#[test]
fn normalized_date_never_panics_on_garbage_offsets() {
    for input in [
        "not a date",
        "Fri, 99 Zzz 2026 99:99:99 GMT",
        "2026-13-99T99:99:99+99:99",
        "Fri, 24 Jul 2026 02:04:07 +",
        "Fri, 24 Jul 2026 02:04:07 -",
        "2026-07-24T11:04:07+",
        "2026-07-24TZ",
    ] {
        let _ = normalized_date(input);
    }
}

#[test]
fn a_zulu_marker_without_time_shifts_the_date_to_kst_morning() {
    assert_eq!(normalized_date("2026-07-24TZ"), "20260724090000");
}

#[test]
fn offset_minutes_reads_each_form() {
    assert_eq!(offset_minutes("GMT"), Some(0));
    assert_eq!(offset_minutes(" utc "), Some(0));
    assert_eq!(offset_minutes("Z"), Some(0));
    assert_eq!(offset_minutes("+0900"), Some(540));
    assert_eq!(offset_minutes("+09:00"), Some(540));
    assert_eq!(offset_minutes("-0500"), Some(-300));
    assert_eq!(offset_minutes("+09"), Some(540));
    assert_eq!(offset_minutes("+"), None);
    assert_eq!(offset_minutes("KST"), None);
    assert_eq!(offset_minutes("+123"), None);
}

#[test]
fn numeric_dates_split_off_the_offset_after_the_time_marker() {
    assert_eq!(parse_numeric_date("2026-07-23T22:25:00+09:00"), Some((2026, 7, 23, 22, 25, 0, Some(540))));
    assert_eq!(parse_numeric_date("2026-07-23T22:25:00-05:00"), Some((2026, 7, 23, 22, 25, 0, Some(-300))));
    assert_eq!(parse_numeric_date("2026-07-24 09:18:39"), Some((2026, 7, 24, 9, 18, 39, None)));
    assert_eq!(parse_numeric_date("2026-07"), None);
}

#[test]
fn rfc822_dates_read_with_or_without_weekday() {
    assert_eq!(parse_rfc822_date("Fri, 24 Jul 2026 02:04:07 GMT"), Some((2026, 7, 24, 2, 4, 7, Some(0))));
    assert_eq!(parse_rfc822_date("24 jul 2026"), Some((2026, 7, 24, 0, 0, 0, None)));
    assert_eq!(parse_rfc822_date("24 Jul 2026 1:2"), Some((2026, 7, 24, 12, 0, 0, None)));
    assert_eq!(parse_rfc822_date("Fri, 24 Foo 2026"), None);
}

#[test]
fn shifting_crosses_month_ends_exactly() {
    assert_eq!(shift_to_kst(2026, 2, 28, 20, 0, 5, 540), (2026, 3, 1, 5, 0, 5));
    assert_eq!(shift_to_kst(2024, 2, 28, 20, 0, 5, 540), (2024, 2, 29, 5, 0, 5));
    assert_eq!(shift_to_kst(2026, 1, 1, 1, 0, 0, -120), (2025, 12, 31, 23, 0, 0));
}

#[test]
fn an_offset_other_than_kst_is_moved_to_kst() {
    assert_eq!(normalized_date("2026-07-24T02:00:00-05:00"), "20260724160000");
}
