use tt_spotify_bot::gui_native::settings_dialog::{entered_settings, parse_cache_fields};

#[test]
fn ordinary_cache_numbers_are_accepted() {
    assert_eq!(parse_cache_fields("1024", "7"), Ok((1024, 7)));
    assert_eq!(parse_cache_fields(" 512 ", " 30 "), Ok((512, 30)));
}

#[test]
fn zero_is_allowed_in_both_boxes() {
    // They mean different things - keep nothing, and never expire - but
    // both are legitimate and must not be rejected as empty.
    assert_eq!(parse_cache_fields("0", "0"), Ok((0, 0)));
}

#[test]
fn an_empty_box_is_refused_rather_than_read_as_zero() {
    // Clearing the box and saving would otherwise silently mean "keep no
    // music at all".
    assert!(parse_cache_fields("", "7").is_err());
    assert!(parse_cache_fields("1024", "").is_err());
}

#[test]
fn absurd_numbers_are_refused() {
    assert!(parse_cache_fields("99999999999", "7").is_err());
    assert!(parse_cache_fields("1024", "99999").is_err());
}

#[test]
fn the_message_says_which_box_is_wrong() {
    let limit = parse_cache_fields("x", "7").unwrap_err();
    assert!(limit.to_lowercase().contains("limit"), "got {limit:?}");
    let days = parse_cache_fields("1024", "x").unwrap_err();
    assert!(days.to_lowercase().contains("days"), "got {days:?}");
}

#[test]
fn each_complaint_is_worded_for_its_field() {
    let complaint = |l: &str, d: &str| parse_cache_fields(l, d).unwrap_err();
    assert_eq!(complaint("-1", "7"), "Saved music limit must be a whole number of MB (0 for none).");
    assert_eq!(complaint("1", "x"), "Days must be a whole number (0 to keep tracks until the space runs out).");
    assert_eq!(complaint("1048577", "7"), "Saved music limit is too large; use a value in MB.");
    assert_eq!(complaint("1048576", "3651"), "Days is too large; use 3650 or fewer, or 0 to keep tracks.");
    assert_eq!(parse_cache_fields("1048576", "3650"), Ok((1048576, 3650)));
}

#[test]
fn the_settings_are_what_was_entered() {
    let s = entered_settings(false, " 321", "12 ").unwrap();
    assert!(!s.check_updates_on_startup);
    assert_eq!((s.cache_limit_mb, s.cache_keep_days), (321, 12));
    assert!(entered_settings(true, "", "12").is_err());
}
