use tt_spotify_bot::audio_cache::{
    cache_entry, clear, clearable_dirs, human_size, is_partial, is_protected, plan_eviction,
    size_bytes, Cleared, Entry, Swept, PROTECTED,
};
use tt_spotify_bot::paths::PathStyle;

const UNIX: PathStyle = PathStyle::Unix;

const SECOND: u64 = 1_000_000_000;
const DAY_SECS: u64 = 86_400;

fn entry(name: &str, size: u64, days_ago: u64) -> Entry {
    Entry {
        path: name.to_string(),
        size,
        last_used: (365 * DAY_SECS - days_ago * DAY_SECS) * SECOND,
    }
}

fn now() -> u64 {
    365 * DAY_SECS * SECOND
}

fn names(v: &[Entry]) -> Vec<String> {
    let mut n: Vec<String> = v.iter().map(|e| e.path.clone()).collect();
    n.sort();
    n
}

#[test]
fn a_clearable_entry_that_reached_the_sdk_would_be_dropped() {
    assert!(is_protected(UNIX, "/root/cache/TEAMTALK_DLL"));
    assert!(is_protected(UNIX, "/root/cache/TEAMTALK_DLL/sub"));
    assert!(!is_protected(UNIX, "/root/cache/spotify_cache/audio"));
}

#[test]
fn the_teamtalk_sdk_is_not_one_of_the_clearable_directories() {
    let dirs = clearable_dirs(UNIX, "/root/cache");
    assert!(
        !dirs.iter().any(|d| d.contains(PROTECTED)),
        "the SDK must never be clearable, got {dirs:?}"
    );
}

#[test]
fn a_track_nobody_played_for_longer_than_the_age_goes() {
    let doomed = plan_eviction(
        UNIX,
        vec![entry("old", 10, 8), entry("fresh", 10, 1)],
        Some(1_000_000),
        7 * DAY_SECS,
        now(),
    );
    assert_eq!(names(&doomed), vec!["old"]);
}

#[test]
fn a_track_played_yesterday_survives_being_ancient() {
    // The whole point of the bump: age counts from the last play, not from
    // when it was downloaded.
    let doomed = plan_eviction(UNIX, vec![entry("classic", 10, 0)], Some(1_000_000), 7 * DAY_SECS, now());
    assert!(doomed.is_empty(), "a track played today must not be evicted");
}

#[test]
fn over_the_limit_the_least_recently_played_goes_first() {
    let doomed = plan_eviction(
        UNIX,
        vec![entry("a", 100, 1), entry("b", 100, 3), entry("c", 100, 2)],
        Some(250),
        30 * DAY_SECS,
        now(),
    );
    assert_eq!(names(&doomed), vec!["b"], "oldest play should go, and only it");
}

#[test]
fn it_stops_deleting_as_soon_as_it_fits() {
    let doomed = plan_eviction(
        UNIX,
        vec![entry("a", 100, 1), entry("b", 100, 4), entry("c", 100, 3)],
        Some(150),
        30 * DAY_SECS,
        now(),
    );
    assert_eq!(names(&doomed), vec!["b", "c"], "should free just enough");
}

#[test]
fn a_cache_that_fits_and_is_fresh_loses_nothing() {
    let doomed = plan_eviction(
        UNIX,
        vec![entry("a", 10, 1), entry("b", 10, 2)],
        Some(1_000),
        7 * DAY_SECS,
        now(),
    );
    assert!(doomed.is_empty());
}

#[test]
fn the_two_rules_do_not_evict_the_same_file_twice() {
    // A stale file also over the limit must be counted once, or the freed
    // total is reported as more than was really there.
    let doomed = plan_eviction(
        UNIX,
        vec![entry("stale", 100, 40), entry("fresh", 100, 0)],
        Some(50),
        7 * DAY_SECS,
        now(),
    );
    assert_eq!(names(&doomed), vec!["fresh", "stale"]);
    assert_eq!(doomed.len(), 2, "no duplicates");
}

#[test]
fn spotify_and_youtube_are_one_pool_not_two() {
    // The design decision, pinned: a YouTube track can be evicted to make
    // room for Spotify and the other way round. Nothing splits the budget.
    let doomed = plan_eviction(
        UNIX,
        vec![
            Entry { path: "spotify_cache/audio/a9/x".to_string(), size: 100, last_used: entry("", 0, 1).last_used },
            Entry { path: "youtube/v.m4a".to_string(), size: 100, last_used: entry("", 0, 5).last_used },
        ],
        Some(150),
        30 * DAY_SECS,
        now(),
    );
    assert_eq!(
        names(&doomed),
        vec!["youtube/v.m4a"],
        "the older play should go regardless of which service it came from"
    );
}

#[test]
fn a_zero_limit_clears_the_lot() {
    let doomed = plan_eviction(
        UNIX,
        vec![entry("a", 10, 0), entry("b", 10, 0)],
        Some(0),
        30 * DAY_SECS,
        now(),
    );
    assert_eq!(doomed.len(), 2);
}

#[test]
fn a_file_with_a_timestamp_in_the_future_is_not_treated_as_ancient() {
    // Clock skew, or a file copied in from elsewhere. duration_since fails
    // here, and reading that as "very old" would delete it immediately.
    let future = Entry {
        path: "future".to_string(),
        size: 10,
        last_used: now() + 60 * 60 * SECOND,
    };
    let doomed = plan_eviction(UNIX, vec![future], Some(1_000), 7 * DAY_SECS, now());
    assert!(doomed.is_empty());
}

#[test]
fn a_download_in_progress_is_never_evicted() {
    assert!(is_partial(UNIX, "/c/youtube/abc.1234.part"));
    assert!(!is_partial(UNIX, "/c/youtube/abc.m4a"));
    assert!(!is_partial(UNIX, "/c/spotify_cache/audio/a9/x"));
}

#[test]
fn sizes_read_the_way_a_person_would_say_them() {
    assert_eq!(human_size(0), "0 bytes");
    assert_eq!(human_size(999), "999 bytes");
    assert_eq!(human_size(2048), "2 KB");
    assert_eq!(human_size(56 * 1024 * 1024), "56 MB");
    assert_eq!(human_size(3 * 1024 * 1024 * 1024 / 2), "1.5 GB");
}

#[test]
fn the_clearable_folders_lie_below_the_cache() {
    assert_eq!(clearable_dirs(UNIX, "/c"), ["/c/spotify_cache/audio", "/c/youtube"]);
    assert!(clearable_dirs(UNIX, "/TEAMTALK_DLL/c").is_empty());
}

#[test]
fn files_used_at_the_same_time_go_in_the_order_of_their_paths() {
    let doomed = plan_eviction(
        UNIX,
        vec![entry("a.b", 100, 1), entry("a/b", 100, 1), entry("z", 100, 1)],
        Some(150),
        30 * DAY_SECS,
        now(),
    );
    let order: Vec<&str> = doomed.iter().map(|e| e.path.as_str()).collect();
    assert_eq!(order, ["a/b", "a.b"]);
}

#[test]
fn without_a_limit_only_the_age_counts() {
    let doomed = plan_eviction(
        UNIX,
        vec![entry("old", u64::MAX, 40), entry("new", u64::MAX, 1), entry("new2", u64::MAX, 1)],
        None,
        7 * DAY_SECS,
        now(),
    );
    assert_eq!(names(&doomed), ["old"]);
    // Exactly as old as allowed is not too old.
    let doomed = plan_eviction(UNIX, vec![entry("edge", 1, 7)], None, 7 * DAY_SECS, now());
    assert!(doomed.is_empty());
}

#[test]
fn a_partial_file_is_left_out_of_the_listing() {
    assert!(cache_entry(UNIX, "/c/youtube/busy.999.part".to_string(), 100, Some(5)).is_none());
    let e = cache_entry(UNIX, "/c/youtube/done.m4a".to_string(), 100, None).unwrap();
    assert_eq!((e.size, e.last_used), (100, 0));
}

#[test]
fn the_first_error_is_what_clearing_reports() {
    let done = |dir: &str, size, error: Option<&str>| Cleared {
        dir: dir.to_string(),
        size,
        error: error.map(|e| e.to_string()),
    };
    assert_eq!(clear(&vec![done("/a", 4096, None), done("/b", 2048, None)]).unwrap(), 4096 + 2048);
    let e = clear(&vec![done("/a", 1, None), done("/b", 2, Some("busy")), done("/c", 3, Some("x"))]);
    assert_eq!(e.unwrap_err().message(), "Config: Could not clear the cache (/b: busy)");
    assert_eq!(size_bytes(&vec![1000, 2000]), 3000);
}

#[test]
fn a_sweep_reports_what_it_freed() {
    let swept = Swept::default().add(1000).add(1048);
    assert_eq!(swept, Swept { removed: 2, freed: 2048 });
    assert_eq!(swept.report().as_deref(), Some("Cache: removed 2 file(s), freed 2 KB"));
    assert_eq!(Swept::default().report(), None);
}

#[test]
fn sizes_round_as_a_person_would_and_ties_go_to_the_even() {
    assert_eq!(human_size(1023), "1023 bytes");
    assert_eq!(human_size(1024), "1 KB");
    assert_eq!(human_size(1536), "2 KB");
    assert_eq!(human_size(2560), "2 KB");
    assert_eq!(human_size(1024 * 1024 - 1), "1024 KB");
    assert_eq!(human_size(1024 * 1024 * 1024), "1.0 GB");
    assert_eq!(human_size(10 * 1024 * 1024 * 1024 + 1), "10.0 GB");
    for bytes in [
        0,
        1,
        1025,
        1 << 20,
        (1 << 20) + (1 << 19),
        (1 << 30) - 1,
        (1 << 30) + 53_687_091,
        (1 << 30) + 53_687_092,
        (1 << 53) + 1,
        (1 << 54) + 2,
        (1 << 60) + 12_345_678,
        u64::MAX,
        u64::MAX - 1024,
    ] {
        let b = bytes as f64;
        let expected = if bytes >= 1 << 30 {
            format!("{:.1} GB", b / 1073741824.0)
        } else if bytes >= 1 << 20 {
            format!("{:.0} MB", b / 1048576.0)
        } else if bytes >= 1024 {
            format!("{:.0} KB", b / 1024.0)
        } else {
            format!("{bytes} bytes")
        };
        assert_eq!(human_size(bytes), expected);
    }
}

#[test]
fn the_sdk_is_protected_on_windows_too() {
    assert!(is_protected(PathStyle::Windows, r"C:\cache\TEAMTALK_DLL\sub"));
    assert!(!is_protected(PathStyle::Windows, r"C:\cache\youtube"));
    assert!(is_partial(PathStyle::Windows, r"C:\cache\youtube\abc.1234.part"));
}
