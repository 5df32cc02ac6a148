use tt_spotify_bot::logging::{
    instance_log_dir, log_path_from_config, newest_log_file, reports_audio_key_failure, Level,
    DEFAULT_FILTER,
};
use tracing_subscriber::EnvFilter;
use tt_spotify_bot::spotify::audio_key::KeyFailures;
use tt_spotify_bot::paths::PathStyle;

const UNIX: PathStyle = PathStyle::Unix;

/// Hand a record to the watch, as the log does.
fn watch(record: &mut KeyFailures, level: Level, message: &str) {
    if reports_audio_key_failure(level, message) {
        record.note_failure(1_000);
    }
}

#[test]
fn symphonia_is_quieter_than_everything_else() {
    // The point of the filter: the decode spam is suppressed while normal
    // logging stays at info.
    assert!(DEFAULT_FILTER.starts_with("info"));
    for target in [
        "symphonia_core",
        "symphonia_bundle_mp3",
        "symphonia_format_isomp4",
        "symphonia_metadata",
    ] {
        assert!(
            DEFAULT_FILTER.contains(&format!("{target}=error")),
            "{target} is not held at error, so its decode spam returns"
        );
    }
}

#[test]
fn each_instance_logs_into_its_own_folder() {
    // Shared directories made one instance's retention depend on how noisy
    // its neighbours were.
    let (dir_a, name_a) = log_path_from_config(UNIX, "/data/logs", "/anywhere/config/alpha.json");
    let (dir_b, _) = log_path_from_config(UNIX, "/data/logs", "/anywhere/config/beta.json");
    assert_ne!(dir_a, dir_b);
    assert!(dir_a.ends_with("alpha"), "got {}", dir_a);
    assert_eq!(name_a, "log");
}

#[test]
fn newest_log_file_picks_the_latest_date() {
    let days: Vec<String> = ["2026-08-01.log", "2026-08-09.log", "2026-07-30.log"]
        .iter()
        .map(|s| s.to_string())
        .collect();
    let newest = newest_log_file(Some(&days)).expect("a log should be found");
    assert_eq!(days[newest], "2026-08-09.log");
}

#[test]
fn newest_log_file_is_none_for_an_empty_or_missing_folder() {
    assert!(newest_log_file(Some(&vec![])).is_none());
    assert!(newest_log_file(None).is_none());
}

#[test]
fn a_librespot_key_failure_is_seen_through_the_layer() {
    let mut record = KeyFailures::new();
    watch(&mut record, Level::Error, "error audio key 0 1");
    assert!(
        record.failed_recently(1_000),
        "the layer did not recognise librespot's key failure"
    );
}

#[test]
fn the_warning_form_is_seen_too() {
    let mut record = KeyFailures::new();
    watch(
        &mut record,
        Level::Warn,
        "Unable to load key, continuing without decryption: Service unavailable { audio key error }",
    );
    assert!(record.failed_recently(1_000));
}

#[test]
fn ordinary_logging_does_not_arm_the_blame() {
    let mut record = KeyFailures::new();
    watch(&mut record, Level::Warn, "skipping junk at 4096 bytes");
    watch(&mut record, Level::Error, "Unable to read audio file: end of stream");
    watch(&mut record, Level::Info, "error audio key 0 1"); // below warn: ignored
    assert!(
        !record.failed_recently(1_000),
        "a skip was blamed on the audio key with no key failure"
    );
}

#[test]
fn an_instance_logs_below_the_logs_folder() {
    assert_eq!(instance_log_dir(UNIX, "/data/logs", "home"), "/data/logs/home");
    assert_eq!(log_path_from_config(UNIX, "/data/logs", "/").0, "/data/logs/bot");
    assert_eq!(log_path_from_config(UNIX, "/data/logs", "a/b.c.json").0, "/data/logs/b.c");
}

#[test]
fn the_default_filter_parses() {
    // A malformed directive would crash every ordinary startup.
    let filter = EnvFilter::new(DEFAULT_FILTER);
    let rendered = filter.to_string();
    assert!(rendered.contains("symphonia_core"), "got: {rendered}");
}
