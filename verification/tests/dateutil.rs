use kbotop::dateutil::{civil_from_days, days_from_civil, format_civil, kst_days, parse_hms_secs};

#[test]
fn civil_from_days_converts_known_boundary_dates() {
    assert_eq!(civil_from_days(0), (1970, 1, 1));
    assert_eq!(civil_from_days(19782), (2024, 2, 29));
    assert_eq!(civil_from_days(20819), (2027, 1, 1));
}

#[test]
fn days_from_civil_roundtrips_with_civil_from_days() {
    for days in [0i64, 19782, 20819, 20657] {
        let (y, m, d) = civil_from_days(days);
        assert_eq!(days_from_civil(y, m, d), days);
    }
}

#[test]
fn parse_hms_secs_converts_valid_time_to_seconds_since_midnight() {
    assert_eq!(parse_hms_secs("00:00:00"), Some(0));
    assert_eq!(parse_hms_secs("20:56:14"), Some(20 * 3600 + 56 * 60 + 14));
    assert_eq!(parse_hms_secs("23:59:59"), Some(23 * 3600 + 59 * 60 + 59));
}

#[test]
fn parse_hms_secs_rejects_out_of_range_or_malformed_input() {
    assert_eq!(parse_hms_secs("24:00:00"), None, "hours are 0..24");
    assert_eq!(parse_hms_secs("10:60:00"), None, "minutes are 0..60");
    assert_eq!(parse_hms_secs("10:00:60"), None, "seconds are 0..60");
    assert_eq!(parse_hms_secs("garbage"), None);
    assert_eq!(parse_hms_secs(""), None);
}

#[test]
fn parse_hms_secs_defaults_missing_seconds_and_ignores_extra_fields() {
    assert_eq!(parse_hms_secs("07:05"), Some(7 * 3600 + 5 * 60));
    assert_eq!(parse_hms_secs("07:05:09:99"), Some(7 * 3600 + 5 * 60 + 9));
    assert_eq!(parse_hms_secs("+7:05"), Some(7 * 3600 + 5 * 60));
    assert_eq!(parse_hms_secs("-1:05"), None);
}

#[test]
fn days_from_civil_of_known_dates() {
    assert_eq!(days_from_civil(1970, 1, 1), 0);
    assert_eq!(days_from_civil(2024, 2, 29), 19782);
    assert_eq!(days_from_civil(1969, 12, 31), -1);
    assert_eq!(days_from_civil(2000, 3, 1), 11017);
    assert_eq!(days_from_civil(1600, 2, 29), -135081);
}

#[test]
fn civil_from_days_handles_negative_counts_and_century_leap_rules() {
    assert_eq!(civil_from_days(-1), (1969, 12, 31));
    assert_eq!(civil_from_days(-135081), (1600, 2, 29));
    assert_eq!(civil_from_days(days_from_civil(1900, 3, 1) - 1), (1900, 2, 28));
    assert_eq!(civil_from_days(days_from_civil(2100, 3, 1) - 1), (2100, 2, 28));
}

#[test]
fn format_civil_pads_fields() {
    assert_eq!(format_civil(0), "1970-01-01");
    assert_eq!(format_civil(19782), "2024-02-29");
    assert_eq!(format_civil(days_from_civil(5, 3, 7)), "0005-03-07");
    assert_eq!(format_civil(days_from_civil(-5, 3, 7)), "-005-03-07");
    assert_eq!(format_civil(days_from_civil(12345, 11, 30)), "12345-11-30");
}

#[test]
fn kst_days_moves_to_the_next_day_at_fifteen_utc() {
    assert_eq!(kst_days(0), 0);
    assert_eq!(kst_days(15 * 3600 - 1), 0);
    assert_eq!(kst_days(15 * 3600), 1);
}

#[test]
fn kst_days_reads_its_seconds_with_the_bits_of_a_signed_count() {
    assert_eq!(kst_days(u64::MAX), 0);
    assert_eq!(kst_days(u64::MAX - 32400), -1);
}
