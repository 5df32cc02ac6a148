use tt_spotify_bot::bot::state::{song_key, PlaybackStatus, PlayerState, RepeatMode};
use tt_spotify_bot::services::Service;
use tt_spotify_bot::spotify::types::SpotifyTrack;
use tt_spotify_bot::track::Track;

fn track(id: &str) -> Track {
    Track::Spotify(SpotifyTrack {
        id: id.to_string(),
        name: format!("Track {id}"),
        artists: vec!["Artist".to_string()],
        album: "Album".to_string(),
        duration_ms: 180_000,
        uri: format!("spotify:track:{id}"),
    })
}

/// A track whose `display_name()` is exactly `display` ("Artists - Name").
fn named(id: &str, display: &str) -> Track {
    let (artists, name) = display.split_once(" - ").unwrap_or(("", display));
    Track::Spotify(SpotifyTrack {
        id: id.to_string(),
        name: name.to_string(),
        artists: vec![artists.to_string()],
        album: "Album".to_string(),
        duration_ms: 180_000,
        uri: format!("spotify:track:{id}"),
    })
}

/// Queue `n` tracks from a source, the first of which starts playing.
fn fill(state: &mut PlayerState, n: usize) {
    let tracks: Vec<Track> = (0..n).map(|i| track(&i.to_string())).collect();
    state.enqueue_source(tracks, "tester".to_string(), true);
}

#[test]
fn insert_and_pick_search_results() {
    let mut state = PlayerState::new();
    state.insert_search_results(7, vec![track("a"), track("b")]);
    assert_eq!(state.pick_search_result(7, 1).unwrap().id(), "b");
    assert!(state.get_search_results(7).is_some());
    assert!(state.remove_search_results(7));
    assert!(state.get_search_results(7).is_none());
}

#[test]
fn one_users_results_do_not_disturb_anothers() {
    // Expiry itself is the cache's job now (and is covered in bot::cache);
    // what this file still owns is that results are kept per user.
    let mut state = PlayerState::new();
    state.insert_search_results(1, vec![track("a")]);
    state.insert_search_results(2, vec![track("b")]);
    assert_eq!(state.pick_search_result(1, 0).unwrap().id(), "a");
    assert!(state.remove_search_results(1));
    assert!(state.get_search_results(1).is_none());
    assert!(state.get_search_results(2).is_some(), "other users are untouched");
}

#[test]
fn begin_bulk_load_increments_and_returns_generation() {
    let mut state = PlayerState::new();
    let g1 = state.begin_bulk_load();
    let g2 = state.begin_bulk_load();
    assert_eq!(g2, g1 + 1);
    assert_eq!(state.bulk_load_generation, g2);
}

#[test]
fn clear_invalidates_bulk_load_generation() {
    let mut state = PlayerState::new();
    let g = state.begin_bulk_load();
    state.clear();
    assert_ne!(state.bulk_load_generation, g);
}

#[test]
fn clear_upcoming_keeps_current_and_invalidates_bulk_loader() {
    let mut state = PlayerState::new();
    fill(&mut state, 3);
    let g = state.begin_bulk_load();
    state.clear_upcoming();
    assert_eq!(state.current().unwrap().track.id(), "0", "current keeps playing");
    assert_eq!(state.upcoming_len(), 0);
    assert_ne!(state.bulk_load_generation, g);
}

#[test]
fn clear_resets_the_queue_status_and_position() {
    let mut state = PlayerState::new();
    fill(&mut state, 3);
    state.status = PlaybackStatus::Playing;
    state.position_ms = 42_000;
    state.clear();
    assert!(state.current().is_none());
    assert_eq!(state.upcoming_len(), 0);
    assert_eq!(state.status, PlaybackStatus::Idle);
    assert_eq!(state.position_ms, 0);
}

#[test]
fn filter_unqueued_drops_tracks_already_in_queue() {
    let mut state = PlayerState::new();
    state.enqueue_source(vec![track("a"), track("b")], "u".into(), true);
    let fresh = state.filter_unqueued(vec![track("b"), track("c")]);
    assert_eq!(fresh.len(), 1);
    assert_eq!(fresh[0].id(), "c");
}

#[test]
fn filter_unqueued_keeps_all_when_queue_empty() {
    let state = PlayerState::new();
    let fresh = state.filter_unqueued(vec![track("a"), track("b")]);
    assert_eq!(fresh.len(), 2);
}

#[test]
fn filter_unqueued_still_sees_tracks_that_already_played() {
    // Played tracks move to history; radio must not offer them straight
    // back as fresh recommendations.
    let mut state = PlayerState::new();
    fill(&mut state, 2);
    state.advance();
    let fresh = state.filter_unqueued(vec![track("0"), track("new")]);
    assert_eq!(fresh.len(), 1);
    assert_eq!(fresh[0].id(), "new");
}

#[test]
fn filter_unqueued_similar_drops_a_rerelease_of_a_queued_song() {
    let mut state = PlayerState::new();
    state.enqueue_source(vec![named("a", "Artist - Song")], "u".into(), true);
    let fresh = state.filter_unqueued_similar(vec![
        named("b", "Artist - Song (Remastered 2011)"),
        named("c", "Artist - Another Song"),
    ]);
    assert_eq!(fresh.len(), 1, "the remaster is the same song under a new id");
    assert_eq!(fresh[0].id(), "c");
}

#[test]
fn filter_unqueued_similar_drops_duplicates_within_the_incoming_batch() {
    let state = PlayerState::new();
    let fresh = state.filter_unqueued_similar(vec![
        named("a", "Artist - Song"),
        named("b", "Artist - Song - 2011 Remaster"),
    ]);
    assert_eq!(fresh.len(), 1);
}

#[test]
fn song_key_ignores_remaster_and_edition_suffixes() {
    let base = song_key("Artist - Song");
    assert_eq!(song_key("Artist - Song - 2011 Remaster"), base);
    assert_eq!(song_key("Artist - Song (Remastered 2011)"), base);
    assert_eq!(song_key("Artist - Song (Single Version)"), base);
    assert_eq!(song_key("Artist - Song - Radio Edit"), base);
}

#[test]
fn song_key_ignores_case_punctuation_and_spacing() {
    assert_eq!(song_key("Artist - Don't Stop"), song_key("ARTIST  -  Dont  Stop"));
}

#[test]
fn song_key_keeps_genuinely_different_recordings_apart() {
    let base = song_key("Artist - Song");
    assert_ne!(song_key("Artist - Song (Live)"), base, "a live take is a different recording");
    assert_ne!(song_key("Artist - Song (Acoustic)"), base);
    assert_ne!(song_key("Artist - Other Song"), base);
    assert_ne!(song_key("Other Artist - Song"), base);
}

#[test]
fn queue_display_shows_the_current_track_then_upcoming_only() {
    // Like Spotify: the queue is what is coming, not a log of what played.
    let mut state = PlayerState::new();
    fill(&mut state, 4);
    state.advance();
    let display = state.queue_display();
    assert!(display.contains("Track 1"), "current track should be shown: {display}");
    assert!(display.contains("Track 2") && display.contains("Track 3"));
    assert!(!display.contains("Track 0"), "played tracks are not listed: {display}");
}

#[test]
fn queue_display_numbers_upcoming_tracks_the_way_queue_rm_counts() {
    // `queue rm 1` removes the next track up, so it must be listed as 1.
    let mut state = PlayerState::new();
    fill(&mut state, 3);
    let display = state.queue_display();
    assert!(display.contains("1.") && display.contains("Track 1"), "got: {display}");
    assert!(display.contains("2.") && display.contains("Track 2"), "got: {display}");
}

#[test]
fn queue_display_says_when_nothing_is_upcoming() {
    let mut state = PlayerState::new();
    fill(&mut state, 1);
    let display = state.queue_display();
    assert!(display.contains("Track 0"), "current track still shown: {display}");
    assert!(display.to_lowercase().contains("nothing upcoming"), "got: {display}");
}

#[test]
fn queue_display_includes_service_marker() {
    let mut state = PlayerState::new();
    fill(&mut state, 1);
    let display = state.queue_display();
    assert!(display.contains("[SP]"), "expected [SP] marker, got: {display}");
    assert!(!display.contains("[YT]"));
}

#[test]
fn a_playlist_added_while_shuffle_is_on_lands_shuffled() {
    // Otherwise shuffle only affects what was queued before it was turned
    // on, and the next playlist plays straight through.
    let mut ordered = true;
    for _ in 0..20 {
        let mut state = PlayerState::new();
        state.shuffle = true;
        fill(&mut state, 8);
        let ids: Vec<String> = state.upcoming().iter().map(|e| e.track.id().to_string()).collect();
        let in_order: Vec<String> = (1..8).map(|i| i.to_string()).collect();
        if ids != in_order {
            ordered = false;
            break;
        }
    }
    assert!(!ordered, "20 additions in a row all kept their original order");
}

#[test]
fn shuffle_keeps_every_queued_track() {
    let mut state = PlayerState::new();
    state.shuffle = true;
    fill(&mut state, 8);
    let mut ids: Vec<String> = state.upcoming().iter().map(|e| e.track.id().to_string()).collect();
    ids.push(state.current().unwrap().track.id().to_string());
    ids.sort();
    let expected: Vec<String> = (0..8).map(|i| i.to_string()).collect();
    assert_eq!(ids, expected, "shuffling must not lose or duplicate tracks");
}

#[test]
fn repeat_mode_is_one_setting_not_two_flags() {
    let mut state = PlayerState::new();
    assert_eq!(state.repeat, RepeatMode::Off);
    state.repeat = RepeatMode::Track;
    assert!(state.repeats_track());
    assert!(!state.repeats_queue(), "selecting one repeat mode clears the other");
    state.repeat = RepeatMode::Queue;
    assert!(state.repeats_queue());
    assert!(!state.repeats_track());
}

#[test]
fn repeat_mode_round_trips_through_the_config_flags() {
    assert_eq!(RepeatMode::from_flags(false, false), RepeatMode::Off);
    assert_eq!(RepeatMode::from_flags(true, false), RepeatMode::Track);
    assert_eq!(RepeatMode::from_flags(false, true), RepeatMode::Queue);
    assert_eq!(RepeatMode::from_flags(true, true), RepeatMode::Track);
    assert_eq!(RepeatMode::Queue.to_flags(), (false, true));
    assert_eq!(RepeatMode::Off.to_flags(), (false, false));
}

#[test]
fn repeat_active_is_false_with_no_modes_or_shuffle_only() {
    let mut state = PlayerState::new();
    assert!(!state.repeat_active());
    state.shuffle = true;
    assert!(!state.repeat_active(), "shuffle alone is not a repeat mode");
}

#[test]
fn repeat_active_is_true_for_either_repeat_mode() {
    let mut state = PlayerState::new();
    state.repeat = RepeatMode::Track;
    assert!(state.repeat_active());
    state.repeat = RepeatMode::Queue;
    assert!(state.repeat_active());
}

#[test]
fn auto_advance_gate_admits_one_signal_at_a_time() {
    let mut state = PlayerState::new();
    assert!(state.try_arm_auto_advance(), "first end-of-track should advance");
    assert!(!state.try_arm_auto_advance(), "a second signal for the same track is a duplicate");
}

#[test]
fn releasing_an_unarmed_auto_advance_gate_is_harmless() {
    let mut state = PlayerState::new();
    state.release_auto_advance();
    assert!(state.try_arm_auto_advance());
}

#[test]
fn auto_advance_gate_rearms_once_the_advance_is_consumed() {
    let mut state = PlayerState::new();
    assert!(state.try_arm_auto_advance());
    state.release_auto_advance();
    assert!(state.try_arm_auto_advance(), "the next track must be able to advance");
}

#[test]
fn clearing_the_queue_releases_a_pending_auto_advance() {
    let mut state = PlayerState::new();
    assert!(state.try_arm_auto_advance());
    state.clear();
    assert!(state.try_arm_auto_advance());
}

#[test]
fn active_service_defaults_to_spotify() {
    assert_eq!(PlayerState::new().active_service, Service::Spotify);
}

#[test]
fn snapshot_queue_with_played_current_and_upcoming() {
    let mut state = PlayerState::new();
    fill(&mut state, 5);
    state.advance();
    state.advance();
    assert_eq!(
        state.queue_display(),
        "> Now playing [SP]: Artist - Track 2 [3:00]\n  1. [SP]: Artist - Track 3 [3:00]\n  2. [SP]: Artist - Track 4 [3:00]"
    );
}

#[test]
fn snapshot_queue_with_nothing_upcoming() {
    let mut state = PlayerState::new();
    fill(&mut state, 2);
    state.advance();
    assert_eq!(
        state.queue_display(),
        "> Now playing [SP]: Artist - Track 1 [3:00]\n  Nothing upcoming"
    );
}

#[test]
fn snapshot_queue_empty() {
    assert_eq!(PlayerState::new().queue_display(), "Queue is empty");
}

// -- rendered text --

#[test]
fn snapshot_mode_line() {
    let mut state = PlayerState::new();
    let shown: Vec<String> = [
        (RepeatMode::Off, false),
        (RepeatMode::Track, false),
        (RepeatMode::Queue, false),
        (RepeatMode::Off, true),
        (RepeatMode::Queue, true),
    ]
    .into_iter()
    .map(|(repeat, shuffle)| {
        state.repeat = repeat;
        state.shuffle = shuffle;
        state.mode_display()
    })
    .collect();
    assert_eq!(
        shown,
        ["No modes active", "Repeat Track", "Repeat Queue", "Shuffle", "Repeat Queue, Shuffle"]
    );
}

// -- the queue behaves under arbitrary command sequences --

/// A small generator, so that a failing sequence can be repeated.
struct Rolls(u64);

impl Rolls {
    fn below(&mut self, n: u64) -> u64 {
        self.0 = self.0.wrapping_mul(6364136223846793005).wrapping_add(1442695040888963407);
        (self.0 >> 33) % n
    }
}

fn apply(state: &mut PlayerState, rolls: &mut Rolls, next_id: &mut u32) {
    match rolls.below(10) {
        0 => {
            state.enqueue_next(track(&next_id.to_string()), "u".into(), true);
            *next_id += 1;
        }
        1 => {
            let n = 1 + rolls.below(3);
            let batch: Vec<Track> = (0..n)
                .map(|_| {
                    let t = track(&next_id.to_string());
                    *next_id += 1;
                    t
                })
                .collect();
            state.enqueue_source(batch, "u".into(), false);
        }
        2 => {
            state.advance();
        }
        3 => {
            state.advance_manual();
        }
        4 => {
            state.go_prev(rolls.below(5_000) as u32);
        }
        5 => {
            state.remove_upcoming(rolls.below(6) as usize);
        }
        6 => state.clear_upcoming(),
        7 => state.clear(),
        8 => {
            state.repeat = match rolls.below(3) {
                0 => RepeatMode::Off,
                1 => RepeatMode::Track,
                _ => RepeatMode::Queue,
            }
        }
        _ => state.shuffle = rolls.below(2) == 1,
    }
}

#[test]
fn a_skip_always_moves_while_tracks_are_queued() {
    for seed in 0..200 {
        let mut rolls = Rolls(seed);
        let mut state = PlayerState::new();
        let mut next_id = 0u32;
        for step in 0..40 {
            apply(&mut state, &mut rolls, &mut next_id);
            if state.upcoming_len() > 0 {
                let before = state.upcoming_len();
                assert!(
                    state.advance_manual().is_some(),
                    "{before} tracks queued but the skip found nothing (seed {seed}, step {step})"
                );
            }
        }
    }
}

#[test]
fn nothing_is_queued_without_something_playing() {
    for seed in 0..200 {
        let mut rolls = Rolls(seed);
        let mut state = PlayerState::new();
        let mut next_id = 0u32;
        for step in 0..40 {
            apply(&mut state, &mut rolls, &mut next_id);
            assert!(
                !(state.current().is_none() && state.upcoming_len() > 0),
                "tracks are queued with nothing playing (seed {seed}, step {step})"
            );
        }
    }
}
