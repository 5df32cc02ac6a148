use tt_spotify_bot::bot::commands::{BotCommand, PlaybackMode};
use tt_spotify_bot::bot::runner::{
    after_call, batch_end, channel_to_join, connects_at_startup, exit_reason, initial_state, initial_volume,
    is_for_bot, now_playing_status, startup_versions, Action, AfterCall, BotExit, PlayerSignal, Processor,
    RadioAnswer, RunnerEvent, ServerLink, BULK_BG_BATCH, MAX_CONSECUTIVE_START_FAILURES,
    PRIVATE_MESSAGE, RECONNECT_DEADLINE_MS,
};
use tt_spotify_bot::bot::state::{PlaybackStatus, PlayerState, RepeatMode};
use tt_spotify_bot::config::{BotConfig, ConfigChange};
use tt_spotify_bot::services::Service;
use tt_spotify_bot::spotify::types::SpotifyTrack;
use tt_spotify_bot::track::Track;

const USER: i32 = 7;

fn track(id: &str) -> Track {
    Track::Spotify(SpotifyTrack {
        id: id.to_string(),
        name: format!("T{id}"),
        artists: vec!["A".to_string()],
        album: "Album".to_string(),
        duration_ms: 60_000,
        uri: format!("spotify:track:{id}"),
    })
}

fn tracks(ids: &[&str]) -> Vec<Track> {
    ids.iter().map(|id| track(id)).collect()
}

fn processor() -> Processor {
    Processor::new(PlayerState::new(), 5, 10)
}

/// A processor that plays the first of some tracks.
fn playing(ids: &[&str]) -> Processor {
    let mut p = processor();
    p.resolved(tracks(ids), false, USER, "me");
    p.started(true);
    p.state.status = PlaybackStatus::Playing;
    p
}

fn texts(actions: &[Action]) -> Vec<String> {
    actions
        .iter()
        .map(|a| match a {
            Action::Reply { user_id, text } => format!("{user_id}: {text}"),
            Action::SetStatus(text) => format!("status {text}"),
            Action::Report(RunnerEvent::Idle) => "idle".to_string(),
            Action::Report(RunnerEvent::Playing(name)) => format!("playing {name}"),
            Action::StopAudio => "stop".to_string(),
            Action::Load { uri, .. } => format!("load {uri}"),
            Action::Preload { uri } => format!("preload {uri}"),
            Action::SchedulePrefetch { seed_uri } => format!("later {seed_uri}"),
            Action::Recommend { seed_uri, batch, played, user_id } => {
                format!("recommend {seed_uri} {batch} {} {user_id}", played.join(","))
            }
            Action::Prefetch { seed_uri, batch, played } => {
                format!("prefetch {seed_uri} {batch} {}", played.join(","))
            }
            Action::Enqueue(BotCommand::Next { user_id, after_track }) => {
                format!("next {user_id} {}", after_track.as_deref().unwrap_or("-"))
            }
            Action::Enqueue(BotCommand::StartCurrent) => "start".to_string(),
            Action::Enqueue(BotCommand::PreloadNext) => "preload next".to_string(),
            Action::SeekTo { position_ms, .. } => format!("seek {position_ms}"),
            Action::LoadRest { generation, requester } => format!("rest {generation} {requester}"),
            Action::SaveVolumeLater => "save volume".to_string(),
            Action::Save(ConfigChange::Radio(on)) => format!("save radio {on}"),
            Action::Exit(reason) => format!("exit {reason:?}"),
            other => format!("{other:?}"),
        })
        .collect()
}

#[test]
fn a_found_track_is_loaded_and_then_announced() {
    let mut p = processor();
    let out = p.handle(
        BotCommand::SearchAndPlay {
            query: "q".to_string(),
            user_id: USER,
            user_name: "me".to_string(),
        },
        50,
    );
    assert!(matches!(&out[..], [Action::Resolve { query, limit: 5, user_id: USER, .. }] if query == "q"));
    assert_eq!(texts(&p.resolved(tracks(&["1"]), false, USER, "me")), ["load spotify:track:1"]);
    assert_eq!(
        texts(&p.started(true)),
        ["7: Now playing: A - T1", "status Playing A - T1", "playing A - T1"]
            .map(|s| s.replace("status Playing A - T1", &format!("status {}", now_playing_status("A - T1", &p.state))))
    );
    assert_eq!(p.state.status, PlaybackStatus::Loading);
    assert_eq!(p.state.tracks_played, 1);
}

#[test]
fn nothing_found_says_so() {
    let mut p = processor();
    assert_eq!(texts(&p.resolved(vec![], false, USER, "me")), ["7: No results found"]);
    let out = texts(&p.resolve_failed("boom", USER));
    assert_eq!(out.len(), 1);
    assert!(out[0].ends_with("boom"), "{out:?}");
}

#[test]
fn a_skip_loads_what_comes_next() {
    let mut p = playing(&["1", "2"]);
    let out = p.handle(BotCommand::Next { user_id: USER, after_track: None }, 50);
    assert_eq!(texts(&out), ["load spotify:track:2"]);
    p.started(true);
    // The queue has run out, and radio is off.
    let out = p.handle(BotCommand::Next { user_id: USER, after_track: None }, 50);
    assert_eq!(texts(&out)[0], "7: End of queue");
    assert_eq!(p.state.status, PlaybackStatus::Idle);
}

#[test]
fn a_stale_advance_is_dropped() {
    let mut p = playing(&["1", "2"]);
    p.state.auto_advance_pending = true;
    let stale = BotCommand::Next { user_id: 0, after_track: Some("spotify:track:9".to_string()) };
    assert!(p.handle(stale, 50).is_empty());
    assert!(!p.state.auto_advance_pending);
    assert_eq!(p.state.current().unwrap().track.id(), "1");
}

#[test]
fn one_track_advances_the_queue_once() {
    let mut p = playing(&["1", "2"]);
    let ended = || PlayerSignal::EndOfTrack(Some("spotify:track:1".to_string()));
    assert_eq!(texts(&p.signalled(ended())), ["next 0 spotify:track:1"]);
    assert!(p.signalled(ended()).is_empty());
    assert!(p
        .signalled(PlayerSignal::EndOfTrack(Some("spotify:track:2".to_string())))
        .is_empty());
    assert_eq!(texts(&p.signalled(PlayerSignal::TimeToPreload)), ["preload next"]);
}

#[test]
fn signals_of_the_player_are_noted() {
    let mut p = playing(&["1"]);
    p.signalled(PlayerSignal::Paused(11));
    assert_eq!((p.state.status, p.state.position_ms), (PlaybackStatus::Paused, 11));
    p.signalled(PlayerSignal::Playing(12));
    assert_eq!((p.state.status, p.state.position_ms), (PlaybackStatus::Playing, 12));
    p.signalled(PlayerSignal::Position(13));
    assert_eq!(p.state.position_ms, 13);
    assert_eq!(texts(&p.signalled(PlayerSignal::Unavailable(None))), ["next 0 spotify:track:1"]);
}

#[test]
fn loads_that_are_refused_end_in_silence() {
    let mut p = processor();
    p.resolved(tracks(&["1", "2", "3", "4"]), false, USER, "me");
    for n in 1..MAX_CONSECUTIVE_START_FAILURES {
        let out = texts(&p.started(false));
        // The advance that follows a failure is nobody's, so it is told to nobody.
        assert_eq!(out[0] == "7: Failed to start track: A - T1", n == 1);
        assert!(out.last().unwrap().starts_with("next 0 spotify:track:"));
        let after = p.state.current().map(|e| e.track.uri().to_string());
        p.handle(BotCommand::Next { user_id: 0, after_track: after }, 50);
    }
    p.started(false);
    assert_eq!(p.failures, 0);
    assert_eq!(p.state.status, PlaybackStatus::Idle);
    assert!(p.state.current().is_none());
    // A confirmation that nobody waits for changes nothing.
    assert!(p.started(true).is_empty());
}

#[test]
fn radio_goes_on_where_the_queue_ends() {
    let mut p = playing(&["1"]);
    p.state.radio_enabled = true;
    let out = p.handle(BotCommand::Next { user_id: USER, after_track: None }, 50);
    assert_eq!(texts(&out), ["recommend spotify:track:1 10 1 7"]);
    assert_eq!(texts(&p.fetching(USER)), ["7: Radio: fetching recommendations..."]);
    let out = p.recommended(RadioAnswer::Tracks(tracks(&["2", "3"])), USER);
    assert_eq!(texts(&out), ["load spotify:track:2"]);
    assert_eq!(texts(&p.started(true))[0], "7: Radio: A - T2");
}

#[test]
fn radio_without_an_answer_goes_idle() {
    for (answer, first) in [
        (RadioAnswer::NoSeed, None),
        (RadioAnswer::Tracks(vec![]), Some("7: Radio: no recommendations found")),
        (RadioAnswer::Failed("x".to_string()), Some("7: Radio failed: x")),
    ] {
        let mut p = playing(&["1"]);
        let out = texts(&p.recommended(answer, USER));
        assert_eq!(p.state.status, PlaybackStatus::Idle);
        if let Some(text) = first {
            assert_eq!(out[0], text);
        }
    }
}

#[test]
fn radio_keeps_quiet_while_repeating() {
    let mut p = playing(&["1"]);
    p.state.radio_enabled = true;
    let ask = || BotCommand::RadioPreFetch { seed_uri: "spotify:track:1".to_string() };
    assert_eq!(texts(&p.handle(ask(), 50)), ["prefetch spotify:track:1 10 1"]);
    p.handle(BotCommand::SetMode { mode: PlaybackMode::RepeatQueue, user_id: USER }, 50);
    assert_eq!(p.state.repeat, RepeatMode::Queue);
    assert!(p.handle(ask(), 50).is_empty());
    p.prefetched(tracks(&["2"]));
    assert_eq!(p.state.upcoming_len(), 0);
    p.handle(BotCommand::SetMode { mode: PlaybackMode::Off, user_id: USER }, 50);
    p.prefetched(tracks(&["2"]));
    assert_eq!(p.state.upcoming_len(), 1);
}

#[test]
fn a_batch_that_was_overtaken_is_dropped() {
    let mut p = processor();
    let out = texts(&p.resolved(tracks(&["1", "2"]), true, USER, "me"));
    let generation = p.state.bulk_load_generation;
    assert_eq!(out, [format!("rest {generation} me"), "load spotify:track:1".to_string()]);
    p.bulk_batch(generation, tracks(&["3"]), "me");
    assert_eq!(p.state.upcoming_len(), 2);
    p.handle(BotCommand::Stop { user_id: USER }, 50);
    assert!(p.bulk_batch(generation, tracks(&["4"]), "me").is_empty());
    assert_eq!(p.state.upcoming_len(), 0);
    let now = p.state.bulk_load_generation;
    assert_eq!(texts(&p.bulk_batch(now, tracks(&["5"]), "me")), ["start"]);
    assert_eq!(batch_end(0, 60), BULK_BG_BATCH);
    assert_eq!(batch_end(50, 60), 60);
}

#[test]
fn seeking_stays_within_the_track() {
    let mut p = playing(&["1"]);
    p.state.position_ms = 5_000;
    let seek = |ms| BotCommand::Seek { offset_ms: ms, user_id: USER };
    assert_eq!(texts(&p.handle(seek(-9_000), 50)), ["seek 0"]);
    assert_eq!(texts(&p.handle(seek(9_000), 50)), ["seek 9000"]);
    assert_eq!(p.state.position_ms, 9_000);
}

#[test]
fn the_volume_is_saved_once_it_rests() {
    let mut p = processor();
    let set = || BotCommand::SetVolume { percent: 30, user_id: USER };
    assert_eq!(texts(&p.handle(set(), 30)), ["save volume"]);
    assert!(p.handle(set(), 30).is_empty());
    p.volume_saved();
    assert_eq!(texts(&p.handle(set(), 30)), ["save volume"]);
    let toggle = BotCommand::RadioToggle { enable: true, user_id: USER };
    assert_eq!(texts(&p.handle(toggle, 30)), ["save radio true"]);
    assert!(p.state.radio_enabled);
}

#[test]
fn an_exit_saves_what_was_set() {
    let mut p = playing(&["1"]);
    p.state.shuffle = true;
    let out = p.handle(BotCommand::Restart { user_id: USER }, 42);
    assert!(out.iter().any(|a| matches!(
        a,
        Action::Save(ConfigChange::AtExit { radio: false, volume: 42, shuffle: true, .. })
    )));
    assert!(matches!(out.last(), Some(Action::Exit(BotExit::Restart))));
    assert_eq!(exit_reason(None, true), BotExit::Shutdown);
    assert_eq!(exit_reason(None, false), BotExit::Quit);
    assert_eq!(exit_reason(Some(BotExit::Restart), true), BotExit::Restart);
}

#[test]
fn what_is_next_is_preloaded() {
    let mut p = playing(&["1", "2"]);
    assert_eq!(texts(&p.handle(BotCommand::PreloadNext, 50)), ["preload spotify:track:2"]);
    let mut p = playing(&["1"]);
    assert!(p.handle(BotCommand::PreloadNext, 50).is_empty());
}

#[test]
fn a_config_starts_the_state() {
    let config = BotConfig {
        radio_enabled: false,
        repeat_queue: true,
        shuffle: true,
        volume: 90,
        max_volume: 70,
        default_service: Service::YouTube,
        ..BotConfig::default()
    };
    let state = initial_state(&config);
    assert_eq!(state.repeat, RepeatMode::Queue);
    assert!(state.shuffle && !state.radio_enabled);
    assert_eq!(state.active_service, Service::YouTube);
    assert_eq!(initial_volume(&config), 70);
    assert_eq!(channel_to_join("/a", None), "/a");
    assert_eq!(channel_to_join("/a", Some("/b")), "/b");
    assert!(!connects_at_startup(false, Service::YouTube));
    assert!(connects_at_startup(true, Service::YouTube));
    assert!(connects_at_startup(false, Service::Spotify));
}

#[test]
fn the_versions_are_named() {
    assert_eq!(
        startup_versions("1.2", Some(" v5 \n"), None, Some("0.8")),
        "Versions \u{2014} app: v1.2, TeamTalk SDK: v5, yt-dlp: not installed, bgutil-pot: 0.8"
    );
    assert_eq!(
        startup_versions("1.2", Some(" \n"), Some("2026"), None),
        "Versions \u{2014} app: v1.2, TeamTalk SDK: unknown, yt-dlp: 2026, bgutil-pot: not installed"
    );
}

#[test]
fn a_lost_link_is_given_up_in_the_end() {
    let mut link = ServerLink::new(3);
    assert!(!link.exhausted(u64::MAX));
    link.lost(1_000);
    link.lost(5_000);
    assert!(!link.exhausted(1_000 + RECONNECT_DEADLINE_MS));
    assert!(link.exhausted(1_001 + RECONNECT_DEADLINE_MS));
    assert!(!link.exhausted(0));
    assert_eq!(link.logged_in(1), Some(3));
    assert_eq!(link.logged_in(3), None);
    assert!(!link.exhausted(u64::MAX));
    assert!(link.entered(9, 9, 4));
    assert!(!link.entered(8, 9, 5));
    assert!(!link.entered(9, 9, 0));
    assert_eq!(link.channel, 4);
}

#[test]
fn only_private_texts_of_others_are_commands() {
    assert!(is_for_bot(PRIVATE_MESSAGE, 2, 1, "h"));
    assert!(!is_for_bot(PRIVATE_MESSAGE, 1, 1, "h"));
    assert!(!is_for_bot(2, 2, 1, "h"));
    assert!(!is_for_bot(PRIVATE_MESSAGE, 2, 1, ""));
}

#[test]
fn a_failed_sign_in_is_told_to_the_one_who_asked() {
    let mut p = processor();
    let out = p.connect_failed("no network", USER);
    assert_eq!(texts(&out), ["7: Spotify unavailable: no network"]);
    assert!(p.connect_failed("no network", 0).is_empty());
}

#[test]
fn the_room_that_is_left_is_known_before_a_step() {
    let mut p = playing(&["1", "2", "3"]);
    assert_eq!(p.state.queue.lap_len(), 3);
    assert!(p.room_for(usize::MAX - 3));
    assert!(!p.room_for(usize::MAX - 2));
    p.state.position_ms = 10;
    assert!(p.can_seek(i32::MAX - 10));
    assert!(!p.can_seek(i32::MAX - 9));
    assert!(p.can_seek(i32::MIN));
    p.state.tracks_played = u32::MAX;
    assert!(!p.room_for(0));
}

#[test]
fn a_failed_call_is_made_once_more_where_a_reconnect_worked() {
    assert_eq!(after_call(false, None, false), AfterCall::Take);
    assert_eq!(after_call(true, None, false), AfterCall::Reconnect);
    assert_eq!(after_call(true, Some(true), false), AfterCall::Again);
    assert_eq!(after_call(true, Some(false), false), AfterCall::Take);
    assert_eq!(after_call(true, Some(true), true), AfterCall::Take);
}

#[test]
fn a_background_load_ends_once_it_is_overtaken() {
    let mut p = processor();
    let load = p.state.begin_bulk_load();
    assert!(p.load_goes_on(load));
    p.state.begin_bulk_load();
    assert!(!p.load_goes_on(load));
}

#[test]
fn a_pick_is_told_its_own_place() {
    let mut p = playing(&["1", "2", "3", "4"]);
    let out = p.picked(Some(track("9")), USER, "me");
    assert_eq!(texts(&out), ["7: Queued: A - T9 (next, ~1 min)"]);
    let out = p.resolved(tracks(&["8"]), false, USER, "me");
    assert_eq!(texts(&out), ["7: Queued: A - T8 (2 ahead, ~2 min)"]);
}

#[test]
fn the_end_of_an_earlier_youtube_load_is_dropped() {
    let mut p = playing(&["1", "2"]);
    p.youtube_loaded(4);
    assert_eq!(p.youtube_load, 4);
    let stale = BotCommand::TrackEnded { generation: 3, error: None };
    assert!(p.handle(stale, 50).is_empty());
    let current = BotCommand::TrackEnded { generation: 4, error: None };
    assert_eq!(p.handle(current, 50).len(), 1);
    p.youtube_loaded(5);
    let stale = BotCommand::TrackEnded { generation: 4, error: None };
    assert!(p.handle(stale, 50).is_empty());
}
