use tt_spotify_bot::bot::commands::{
    can_dispatch, cancel_effects, decide, dispatch, help_key, is_admin_command, reply_chunks, Asker, BotCommand,
    Decision, Effect, PlaybackMode,
};
use tt_spotify_bot::bot::state::PlayerState;
use tt_spotify_bot::i18n::{Catalog, Key};
use tt_spotify_bot::services::Service;
use tt_spotify_bot::spotify::types::SpotifyTrack;
use tt_spotify_bot::track::Track;

fn asker(is_admin: bool) -> Asker {
    Asker {
        user_id: 7,
        is_admin,
        volume: 40,
        max_volume: 70,
        uptime_secs: 3_725,
        version: "1.0".to_string(),
        languages: vec![("en".to_string(), "English".to_string())],
        language: "en".to_string(),
        default_language: "en".to_string(),
    }
}

fn track(id: &str) -> Track {
    Track::Spotify(SpotifyTrack {
        id: id.to_string(),
        name: format!("T{id}"),
        artists: vec!["A".to_string()],
        album: "Album".to_string(),
        duration_ms: 60_000,
        uri: format!("spotify:track:{id}"),
    })
}

fn send(state: &mut PlayerState, is_admin: bool, text: &str) -> Decision {
    assert!(can_dispatch(text));
    dispatch(state, &Catalog::new_embedded(), &asker(is_admin), text)
}

fn keys(d: &Decision) -> Vec<Key> {
    d.effects
        .iter()
        .filter_map(|e| match e {
            Effect::Say { key, .. } => Some(*key),
            _ => None,
        })
        .collect()
}

#[test]
fn admin_commands_say_nothing_to_others() {
    for text in ["q", "quit", "rs", "restart", "jc /x", "glang de"] {
        let d = send(&mut PlayerState::new(), false, text);
        assert!(d.effects.is_empty(), "{text}");
        assert!(d.go_on, "{text}");
        assert!(is_admin_command(text.split(' ').next().unwrap()));
    }
    assert!(!is_admin_command("p"));
    assert_eq!(help_key("quit", false, Service::Spotify), Some(Key::HelpUnknown));
    assert_eq!(help_key("quit", true, Service::Spotify), Some(Key::HelpQuit));
}

#[test]
fn quitting_ends_the_listening() {
    let d = send(&mut PlayerState::new(), true, "quit");
    assert!(matches!(&d.effects[..], [Effect::Send(BotCommand::Quit { user_id: 7 })]));
    assert!(!d.go_on);
    let d = send(&mut PlayerState::new(), true, "rs");
    assert!(matches!(&d.effects[..], [Effect::Send(BotCommand::Restart { user_id: 7 })]));
    assert!(!d.go_on);
}

#[test]
fn the_volume_stays_below_its_maximum() {
    let d = send(&mut PlayerState::new(), false, "v 50");
    assert!(matches!(
        &d.effects[..],
        [
            Effect::SetVolume(50),
            Effect::Send(BotCommand::SetVolume { percent: 50, user_id: 7 }),
            Effect::Say { key: Key::VolumeSet, .. }
        ]
    ));
    let d = send(&mut PlayerState::new(), false, "v71");
    match &d.effects[..] {
        [Effect::Say { key: Key::VolumeRange, args }] => {
            assert_eq!(args[0], ("max", "70".to_string()));
            assert_eq!(args[1], ("got", "71".to_string()));
        }
        _ => panic!("the volume went up"),
    }
    assert_eq!(keys(&send(&mut PlayerState::new(), false, "v")), [Key::VolumeShow]);
}

#[test]
fn seeks_are_sent_in_milliseconds() {
    let d = send(&mut PlayerState::new(), false, "sb 10");
    assert!(matches!(
        &d.effects[..],
        [
            Effect::Send(BotCommand::Seek { offset_ms: -10_000, user_id: 7 }),
            Effect::Say { key: Key::SeekBackward, .. }
        ]
    ));
    assert!(!can_dispatch("sf 2147484"));
    assert!(can_dispatch("sf 2147483"));
    assert!(can_dispatch("sf x"));
}

#[test]
fn a_number_picks_and_zero_does_not() {
    let d = send(&mut PlayerState::new(), false, "3");
    match &d.effects[..] {
        [Effect::Send(BotCommand::SearchPick { user_id: 7, pick: 2, user_name })] => {
            assert_eq!(user_name, "User#7")
        }
        _ => panic!("no pick"),
    }
    assert!(send(&mut PlayerState::new(), false, "0").effects.is_empty());
    assert!(send(&mut PlayerState::new(), false, "  ").effects.is_empty());
}

#[test]
fn cancelling_forgets_the_search() {
    let mut state = PlayerState::new();
    state.insert_search_results(7, vec![track("1")]);
    let d = send(&mut state, false, "cancel");
    assert_eq!(keys(&d), [Key::SearchCancelled]);
    assert!(send(&mut state, false, "cancel").effects.is_empty());
}

#[test]
fn modes_are_asked_for_by_name() {
    let d = send(&mut PlayerState::new(), false, "mode r");
    assert!(d.effects.iter().any(|e| matches!(
        e,
        Effect::Send(BotCommand::SetMode { mode: PlaybackMode::RepeatTrack, user_id: 7 })
    )));
    assert_eq!(keys(&d), [Key::ModeRepeatTrack]);
    assert_eq!(keys(&send(&mut PlayerState::new(), false, "mode nonsense")), [Key::ModeUsage]);
}

#[test]
fn a_decision_takes_the_results_as_they_are() {
    let state = PlayerState::new();
    let catalog = Catalog::new_embedded();
    let d = decide(&asker(false), &catalog, &state, &None, "p", "hello");
    assert!(d.effects.iter().any(|e| matches!(
        e,
        Effect::Send(BotCommand::SearchAndPlay { query, .. }) if query == "hello"
    )));
    assert!(d.go_on);
}

#[test]
fn long_replies_are_cut_at_line_ends() {
    let text = vec!["x".repeat(200); 5].join("\n");
    let chunks = reply_chunks(&text);
    assert_eq!(chunks.len(), 3);
    assert_eq!(chunks.join("\n"), text);
}

#[test]
fn a_cancelling_word_is_answered_where_there_was_something_to_cancel() {
    let d = Decision { effects: cancel_effects(true), go_on: true };
    assert_eq!(keys(&d), [Key::SearchCancelled]);
    assert!(cancel_effects(false).is_empty());
}
