use tt_spotify_bot::bot::queue::{PrevAction, Queue, QueueEntry};
use tt_spotify_bot::bot::state::RepeatMode;
use tt_spotify_bot::spotify::types::SpotifyTrack;
use tt_spotify_bot::track::Track;

fn entry(id: &str) -> QueueEntry {
    QueueEntry {
        track: Track::Spotify(SpotifyTrack {
            id: id.to_string(),
            name: format!("Track {id}"),
            artists: vec!["Artist".to_string()],
            album: "Album".to_string(),
            duration_ms: 180_000,
            uri: format!("spotify:track:{id}"),
        }),
        requester: "tester".to_string(),
        allow_recommend: true,
    }
}

fn entries(n: usize) -> Vec<QueueEntry> {
    (0..n).map(|i| entry(&i.to_string())).collect()
}

/// A queue playing `a` with `b`, `c` queued from a source.
fn playing_abc() -> Queue {
    let mut q = Queue::new();
    q.push_source(vec![entry("a"), entry("b"), entry("c")]);
    q
}

fn current_id(q: &Queue) -> Option<String> {
    q.current().map(|e| e.track.id().to_string())
}

fn upcoming_ids(q: &Queue) -> Vec<String> {
    q.upcoming().iter().map(|e| e.track.id().to_string()).collect()
}

#[test]
fn the_first_track_added_starts_playing() {
    let q = playing_abc();
    assert_eq!(current_id(&q).as_deref(), Some("a"));
    assert_eq!(upcoming_ids(&q), ["b", "c"]);
}

#[test]
fn a_refill_after_the_queue_ran_out_becomes_the_current_track() {
    // The bug that started this: radio refilled an exhausted queue, and the
    // tracks sat there unplayable because nothing was current.
    let mut q = Queue::new();
    q.push_source(vec![entry("a")]);
    assert!(q.advance(RepeatMode::Off, false).is_none(), "queue runs out");
    assert!(q.current().is_none());

    q.push_source(vec![entry("r1"), entry("r2")]);

    assert_eq!(current_id(&q).as_deref(), Some("r1"), "the refill starts playing");
    assert_eq!(
        q.advance_manual(RepeatMode::Off, false).map(|e| e.track.id().to_string()),
        Some("r2".to_string()),
        "and a skip can move through it"
    );
}

#[test]
fn an_explicit_pick_plays_before_the_rest_of_the_source() {
    let mut q = playing_abc();
    q.push_next(entry("x"));
    assert_eq!(upcoming_ids(&q), ["x", "b", "c"]);
    assert_eq!(
        q.advance(RepeatMode::Off, false).map(|e| e.track.id().to_string()),
        Some("x".to_string())
    );
}

#[test]
fn explicit_picks_keep_the_order_they_were_asked_for() {
    let mut q = playing_abc();
    q.push_next(entry("x"));
    q.push_next(entry("y"));
    assert_eq!(upcoming_ids(&q), ["x", "y", "b", "c"]);
}

#[test]
fn a_manual_skip_moves_even_under_repeat_track() {
    let mut q = playing_abc();
    assert_eq!(
        q.advance_manual(RepeatMode::Track, false).map(|e| e.track.id().to_string()),
        Some("b".to_string())
    );
}

#[test]
fn a_manual_skip_past_the_last_track_loops_under_repeat_track() {
    let mut q = Queue::new();
    q.push_source(vec![entry("a")]);
    assert_eq!(
        q.advance_manual(RepeatMode::Track, false).map(|e| e.track.id().to_string()),
        Some("a".to_string()),
        "one-track queue loops back to itself"
    );
}

#[test]
fn a_manual_skip_at_the_end_without_repeat_stops() {
    let mut q = playing_abc();
    q.advance_manual(RepeatMode::Off, false);
    q.advance_manual(RepeatMode::Off, false);
    assert!(q.advance_manual(RepeatMode::Off, false).is_none());
    assert!(q.current().is_none());
}

#[test]
fn repeat_queue_replays_everything_that_was_played() {
    let mut q = playing_abc();
    q.advance(RepeatMode::Queue, false); // b
    q.advance(RepeatMode::Queue, false); // c
    q.advance(RepeatMode::Queue, false); // wraps to a
    assert_eq!(current_id(&q).as_deref(), Some("a"));
    assert_eq!(upcoming_ids(&q), ["b", "c"], "the whole queue is back");
}

#[test]
fn repeat_queue_replays_a_queue_longer_than_the_history_cap() {
    // History is bounded so an endless source cannot grow the queue, but
    // repeat-queue rebuilds the queue *from* history: capping it there
    // would silently drop the front of a long playlist on every lap.
    let mut q = Queue::with_history_cap(3);
    q.push_source(entries(10));
    for _ in 0..10 {
        q.advance(RepeatMode::Queue, false);
    }
    assert_eq!(current_id(&q).as_deref(), Some("0"), "back to the first track");
    assert_eq!(q.upcoming_len(), 9, "the whole playlist came back");
}

#[test]
fn history_is_bounded_so_an_endless_source_cannot_grow_the_queue() {
    let mut q = Queue::with_history_cap(2);
    q.push_source(entries(6));
    for _ in 0..5 {
        q.advance(RepeatMode::Off, false);
    }
    assert_eq!(q.history_len(), 2, "only the recent past is kept");
    assert_eq!(current_id(&q).as_deref(), Some("5"));
}

#[test]
fn previous_early_in_a_track_steps_back() {
    let mut q = playing_abc();
    q.advance(RepeatMode::Off, false); // now on b
    assert_eq!(q.go_prev(1_000), PrevAction::MovedBack);
    assert_eq!(current_id(&q).as_deref(), Some("a"));
}

#[test]
fn previous_late_in_a_track_restarts_it() {
    let mut q = playing_abc();
    q.advance(RepeatMode::Off, false); // now on b
    assert_eq!(q.go_prev(30_000), PrevAction::RestartCurrent);
    assert_eq!(current_id(&q).as_deref(), Some("b"), "still on the same track");
}

#[test]
fn previous_with_nothing_played_yet_does_nothing() {
    let mut q = playing_abc();
    assert_eq!(q.go_prev(0), PrevAction::NothingBehind);
    assert_eq!(current_id(&q).as_deref(), Some("a"));
}

#[test]
fn stepping_back_then_forward_returns_to_where_you_were() {
    let mut q = playing_abc();
    q.advance(RepeatMode::Off, false); // b
    q.go_prev(0); // back to a
    assert_eq!(
        q.advance_manual(RepeatMode::Off, false).map(|e| e.track.id().to_string()),
        Some("b".to_string())
    );
}

#[test]
fn shuffle_keeps_every_track_and_plays_each_once() {
    let mut q = Queue::new();
    q.push_source(entries(8));
    q.shuffle_source();

    let mut played = vec![current_id(&q).unwrap()];
    while let Some(e) = q.advance(RepeatMode::Off, true) {
        played.push(e.track.id().to_string());
    }
    played.sort();
    let expected: Vec<String> = (0..8).map(|i| i.to_string()).collect();
    assert_eq!(played, expected, "every track plays exactly once");
}

#[test]
fn shuffle_leaves_explicit_picks_in_order() {
    let mut q = playing_abc();
    q.push_next(entry("x"));
    q.push_next(entry("y"));
    q.shuffle_source();
    let ids = upcoming_ids(&q);
    assert_eq!(&ids[..2], ["x", "y"], "explicit picks stay put and stay first");
}

#[test]
fn removing_past_the_end_or_at_zero_returns_nothing() {
    let mut q = playing_abc();
    assert!(q.remove_upcoming(0).is_none());
    assert!(q.remove_upcoming(99).is_none());
    assert_eq!(q.upcoming_len(), 2, "queue untouched");
}

#[test]
fn remove_cannot_touch_the_playing_track() {
    let mut q = playing_abc();
    q.remove_upcoming(1);
    q.remove_upcoming(1);
    assert_eq!(current_id(&q).as_deref(), Some("a"));
    assert_eq!(q.upcoming_len(), 0);
}

#[test]
fn position_counts_through_the_queue() {
    let mut q = playing_abc();
    assert_eq!(q.position(), (1, 3));
    q.advance(RepeatMode::Off, false);
    assert_eq!(q.position(), (2, 3));
    q.advance(RepeatMode::Off, false);
    assert_eq!(q.position(), (3, 3));
}

#[test]
fn position_stays_right_past_the_history_cap() {
    // History is capped, so it cannot be what answers "which track is
    // this" on a playlist longer than the cap.
    let mut q = Queue::with_history_cap(2);
    q.push_source(entries(10));
    for _ in 0..6 {
        q.advance(RepeatMode::Off, false);
    }
    assert_eq!(q.position(), (7, 10));
}

#[test]
fn position_restarts_on_a_new_lap() {
    let mut q = playing_abc();
    for _ in 0..3 {
        q.advance(RepeatMode::Queue, false);
    }
    assert_eq!(q.position(), (1, 3), "back to the top of the queue");
}

#[test]
fn position_steps_back_with_previous() {
    let mut q = playing_abc();
    q.advance(RepeatMode::Off, false);
    assert_eq!(q.position(), (2, 3));
    q.go_prev(0);
    assert_eq!(q.position(), (1, 3));
}

#[test]
fn position_is_zero_when_nothing_plays() {
    let q = Queue::new();
    assert_eq!(q.position(), (0, 0));
}

#[test]
fn clear_upcoming_keeps_the_track_that_is_playing() {
    let mut q = playing_abc();
    q.push_next(entry("x"));
    q.clear_upcoming();
    assert_eq!(current_id(&q).as_deref(), Some("a"));
    assert_eq!(q.upcoming_len(), 0);
}

#[test]
fn clear_forgets_everything() {
    let mut q = playing_abc();
    q.advance(RepeatMode::Off, false);
    q.clear();
    assert!(q.is_empty());
    assert!(q.current().is_none());
    assert_eq!(q.go_prev(0), PrevAction::NothingBehind, "history is gone too");
}

#[test]
fn auto_advance_per_repeat_mode() {
    let cases = [
        // Off: walks forward, then stops.
        (RepeatMode::Off, Some("b"), Some("c"), None),
        // Track: stays put on every end-of-track.
        (RepeatMode::Track, Some("a"), Some("a"), Some("a")),
        // Queue: walks forward, then starts over.
        (RepeatMode::Queue, Some("b"), Some("c"), Some("a")),
    ];
    for (repeat, first, second, third) in cases {
        let mut q = playing_abc();
        for expected in [first, second, third] {
            let got = q.advance(repeat, false).map(|e| e.track.id().to_string());
            assert_eq!(got.as_deref(), expected);
        }
    }
}

#[test]
fn remove_upcoming_counts_the_way_the_queue_is_displayed() {
    for (n, removed) in [(1, "x"), (2, "b"), (3, "c")] {
        let mut q = playing_abc();
        q.push_next(entry("x")); // upcoming is now x, b, c
        let got = q.remove_upcoming(n).map(|e| e.track.id().to_string());
        assert_eq!(got.as_deref(), Some(removed));
    }
}

#[test]
fn peeking_shows_what_the_next_advance_plays() {
    for repeat in [RepeatMode::Off, RepeatMode::Track, RepeatMode::Queue] {
        let mut q = playing_abc();
        q.push_next(entry("x"));
        for _ in 0..8 {
            let peeked = q.peek_next(repeat).map(|e| e.track.id().to_string());
            let played = q.advance(repeat, false).map(|e| e.track.id().to_string());
            assert_eq!(peeked, played);
        }
    }
}

#[test]
fn all_entries_lists_the_past_the_present_and_what_is_coming() {
    let mut q = playing_abc();
    q.advance(RepeatMode::Off, false);
    let ids: Vec<String> = q.all_entries().iter().map(|e| e.track.id().to_string()).collect();
    assert_eq!(ids, ["a", "b", "c"]);
}

#[test]
fn shuffling_a_long_source_changes_its_order_at_least_once_in_a_while() {
    let in_order: Vec<String> = (1..16).map(|i| i.to_string()).collect();
    let mut changed = false;
    for _ in 0..20 {
        let mut q = Queue::new();
        q.push_source(entries(16));
        q.shuffle_source();
        changed = changed || upcoming_ids(&q) != in_order;
    }
    assert!(changed);
}
