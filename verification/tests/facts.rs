use std::cell::Cell;
use tt_spotify_bot::gui_native::facts::{needs_refresh, FactsCache, MAX_AGE};
use tt_spotify_bot::gui_native::menu::MenuFacts;

fn facts(installed: bool) -> MenuFacts {
    MenuFacts {
        spotify_signed_in: false,
        youtube_installed: installed,
        spotify_user: None,
    }
}

#[test]
fn the_first_read_always_hits_the_disk() {
    assert!(needs_refresh(None, 1_000_000, MAX_AGE, false));
}

#[test]
fn a_fresh_reading_is_reused() {
    let now: u64 = 1_000_000;
    let read_at = now - 1 * 1000;
    assert!(!needs_refresh(Some(read_at), now, MAX_AGE, false));
}

#[test]
fn an_old_reading_is_taken_again() {
    let now: u64 = 1_000_000;
    let read_at = now - 60 * 1000;
    assert!(needs_refresh(Some(read_at), now, MAX_AGE, false));
}

#[test]
fn being_marked_stale_beats_freshness() {
    // An install that just finished must show immediately, not in 15s.
    let now: u64 = 1_000_000;
    let read_at = now - 10;
    assert!(needs_refresh(Some(read_at), now, MAX_AGE, true));
}

#[test]
fn a_stamp_from_the_future_is_re_read_rather_than_panicking() {
    let now: u64 = 1_000_000;
    let ahead = now + 1 * 1000;
    assert!(needs_refresh(Some(ahead), now, MAX_AGE, false));
}

#[test]
fn repeated_reads_touch_the_disk_once() {
    // The point of the cache: opening the menu repeatedly must not repeat
    // the filesystem work.
    let calls = Cell::new(0);
    let mut cache = FactsCache::new();
    let fetch = || {
        calls.set(calls.get() + 1);
        facts(false)
    };
    for _ in 0..5 {
        cache.get(500, fetch);
    }
    assert_eq!(calls.get(), 1, "the facts were read {} times", calls.get());
}

#[test]
fn marking_stale_forces_exactly_one_more_read() {
    let calls = Cell::new(0);
    let mut cache = FactsCache::new();
    let fetch = || {
        calls.set(calls.get() + 1);
        facts(false)
    };
    cache.get(500, fetch);
    cache.mark_stale();
    cache.get(500, fetch);
    cache.get(500, fetch);
    assert_eq!(calls.get(), 2);
}

#[test]
fn the_cached_value_is_what_gets_returned() {
    let mut cache = FactsCache::new();
    let first = cache.get(500, || facts(true));
    let second = cache.get(500, || facts(false)); // would differ if re-read
    assert!(first.youtube_installed);
    assert!(
        second.youtube_installed,
        "the second call returned a fresh reading instead of the cache"
    );
}

#[test]
fn an_old_reading_is_read_again_through_the_cache() {
    let mut cache = FactsCache::new();
    assert!(cache.staleness_flag());
    assert!(!cache.get(1_000, || facts(false)).youtube_installed);
    assert!(!cache.staleness_flag());
    assert!(!cache.get(1_000 + MAX_AGE - 1, || facts(true)).youtube_installed);
    assert!(cache.get(1_000 + MAX_AGE, || facts(true)).youtube_installed);
}
