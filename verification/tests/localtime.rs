use kbotop::localtime::{
    is_supported_setting, offset_abbrev, parse_offset, parse_tzif, resolve_from, TimeZone,
    KST_OFFSET_SECS,
};

#[test]
fn parses_numeric_offset_forms() {
    assert_eq!(parse_offset("+09:00"), Some(9 * 3600));
    assert_eq!(parse_offset("-04:00"), Some(-4 * 3600));
    assert_eq!(parse_offset("UTC+9"), Some(9 * 3600));
    assert_eq!(parse_offset("+0530"), Some(5 * 3600 + 30 * 60));
    assert_eq!(parse_offset("-0330"), Some(-(3 * 3600 + 30 * 60)));
    assert_eq!(parse_offset(" +09 "), Some(9 * 3600));
}

#[test]
fn rejects_non_numeric_or_out_of_range() {
    assert_eq!(parse_offset("Asia/Seoul"), None);
    assert_eq!(parse_offset(""), None);
    assert_eq!(parse_offset("+99:00"), None);
    assert_eq!(parse_offset("+09:99"), None);
    assert_eq!(parse_offset("garbage"), None);
}

#[test]
fn explicit_setting_wins_over_detection() {
    assert_eq!(resolve_from(Some("kst"), Some("+03:00"), None, 0).offset_secs, KST_OFFSET_SECS);
    assert_eq!(resolve_from(Some("-04:00"), Some("+03:00"), None, 0).offset_secs, -4 * 3600);
    assert_eq!(resolve_from(Some("+05:30"), None, None, 0).offset_secs, 5 * 3600 + 30 * 60);
}

#[test]
fn unknown_setting_falls_through_without_panic() {
    let tz = resolve_from(Some("Mars/Olympus"), None, None, 1_800_000_000);
    assert!(tz.offset_secs.abs() <= 14 * 3600);
    assert_eq!(resolve_from(Some("Mars/Olympus"), Some("-02:00"), None, 0).offset_secs, -2 * 3600);
    assert_eq!(resolve_from(Some("auto"), None, None, 0), TimeZone::kst());
}

#[test]
fn malformed_tzif_is_rejected_without_panic() {
    assert_eq!(parse_tzif(&[], 0), None);
    assert_eq!(parse_tzif(b"NOPE", 0), None);
    assert_eq!(parse_tzif(&[0u8; 100], 0), None);
    let mut truncated = b"TZif2".to_vec();
    truncated.extend_from_slice(&[0u8; 30]);
    assert_eq!(parse_tzif(&truncated, 0), None);
}

#[test]
fn kst_is_recognized_as_the_kbo_baseline() {
    assert!(TimeZone::kst().is_kst());
    assert!(!TimeZone::from_offset(-4 * 3600).is_kst());
}

#[test]
fn offset_abbrev_formats_hours_and_minutes() {
    assert_eq!(offset_abbrev(9 * 3600), "UTC+9");
    assert_eq!(offset_abbrev(-4 * 3600), "UTC-4");
    assert_eq!(offset_abbrev(5 * 3600 + 30 * 60), "UTC+5:30");
}

#[test]
fn supported_settings_are_auto_kst_and_offsets() {
    assert!(is_supported_setting(""));
    assert!(is_supported_setting(" AUTO "));
    assert!(is_supported_setting("Kst"));
    assert!(is_supported_setting("-04:00"));
    assert!(!is_supported_setting("Asia/Seoul"));
}

/// A version 1 zone file with two types (EST, EDT) and one transition.
fn v1_file(transition: i32) -> Vec<u8> {
    let mut d = b"TZif".to_vec();
    d.push(0);
    d.extend_from_slice(&[0u8; 15]);
    for n in [0u32, 0, 0, 1, 2, 8] {
        d.extend_from_slice(&n.to_be_bytes());
    }
    d.extend_from_slice(&transition.to_be_bytes());
    d.push(1);
    d.extend_from_slice(&(-5 * 3600i32).to_be_bytes());
    d.push(0);
    d.push(0);
    d.extend_from_slice(&(-4 * 3600i32).to_be_bytes());
    d.push(1);
    d.push(4);
    d.extend_from_slice(b"EST\0EDT\0");
    d
}

#[test]
fn tzif_picks_the_type_in_force() {
    let d = v1_file(1000);
    let before = parse_tzif(&d, 999).unwrap();
    assert_eq!(before.offset_secs, -5 * 3600);
    assert_eq!(before.abbrev, "EST");
    let after = parse_tzif(&d, 1000).unwrap();
    assert_eq!(after.offset_secs, -4 * 3600);
    assert_eq!(after.abbrev, "EDT");
    let tz = resolve_from(None, None, Some(&d), 2000);
    assert_eq!(tz.abbrev, "EDT");
}

#[test]
fn tzif_negative_transition_times_are_signed() {
    let d = v1_file(-1000);
    assert_eq!(parse_tzif(&d, -1001).unwrap().abbrev, "EST");
    assert_eq!(parse_tzif(&d, -1000).unwrap().abbrev, "EDT");
}
