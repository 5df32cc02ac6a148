use tt_spotify_bot::settings::{
    loaded, settings_path, AppSettings, DEFAULT_CACHE_KEEP_DAYS, DEFAULT_CACHE_LIMIT_MB,
};
use tt_spotify_bot::paths::PathStyle;

const UNIX: PathStyle = PathStyle::Unix;

#[test]
fn default_has_update_check_on() {
    assert!(AppSettings::default().check_updates_on_startup);
}

#[test]
fn the_keep_age_is_seven_days_by_default() {
    let s = AppSettings::default();
    assert_eq!(s.cache_keep_duration(), 7 * 86_400);
}

#[test]
fn zero_keep_days_turns_the_age_rule_off_rather_than_deleting_everything() {
    // Read the wrong way round this would evict the whole cache on the
    // first sweep.
    let s = AppSettings { cache_keep_days: 0, ..AppSettings::default() };
    assert!(s.cache_keep_duration() > 365 * 86_400 * 100);
}

#[test]
fn the_limit_is_reported_in_bytes() {
    let s = AppSettings { cache_limit_mb: 512, ..AppSettings::default() };
    assert_eq!(s.cache_limit_bytes(), 512 * 1024 * 1024);
    assert!(!s.caching_off());
}

#[test]
fn zero_means_keep_nothing_rather_than_keep_everything() {
    // A zero ceiling used to arrive at the sweep as "no ceiling", which
    // switched the size rule off and let the cache grow without end -
    // the exact opposite of what the box says.
    let s = AppSettings { cache_limit_mb: 0, ..AppSettings::default() };
    assert_eq!(s.cache_limit_bytes(), 0, "zero must stay a ceiling of zero");
    assert!(s.caching_off());
}

#[test]
fn an_absurd_limit_does_not_wrap_around() {
    let s = AppSettings { cache_limit_mb: u64::MAX, ..AppSettings::default() };
    assert!(s.cache_limit_bytes() > 0);
}

#[test]
fn settings_that_cannot_be_read_are_the_defaults() {
    let s = loaded(None);
    assert!(s.check_updates_on_startup);
    assert_eq!(s.cache_limit_mb, DEFAULT_CACHE_LIMIT_MB);
    assert_eq!(s.cache_keep_days, DEFAULT_CACHE_KEEP_DAYS);
    let mine = AppSettings { check_updates_on_startup: false, cache_limit_mb: 1, cache_keep_days: 2 };
    assert_eq!(loaded(Some(mine)), mine);
}

#[test]
fn the_settings_file_lives_in_the_state_folder() {
    assert_eq!(settings_path(UNIX, "/data"), "/data/state/settings.json");
}

#[test]
fn a_large_limit_is_as_large_as_a_number_can_be() {
    let s = AppSettings { cache_limit_mb: u64::MAX, ..AppSettings::default() };
    assert_eq!(s.cache_limit_bytes(), u64::MAX);
}
