use std::sync::Mutex;
use tt_spotify_bot::player::{player_for, MediaPlayer};
use tt_spotify_bot::services::Service;

/// A player that notes what it was told.
struct Recorder {
    calls: Mutex<Vec<String>>,
}

impl Recorder {
    fn new() -> Recorder {
        Recorder { calls: Mutex::new(Vec::new()) }
    }

    fn note(&self, call: String) {
        self.calls.lock().unwrap().push(call);
    }

    fn calls(&self) -> Vec<String> {
        self.calls.lock().unwrap().clone()
    }
}

impl MediaPlayer for Recorder {
    fn load(&self, uri: &str) {
        self.note(format!("load {uri}"));
    }
    fn play(&self) {
        self.note("play".to_string());
    }
    fn pause(&self) {
        self.note("pause".to_string());
    }
    fn stop(&self) {
        self.note("stop".to_string());
    }
    fn seek(&self, position_ms: u32) {
        self.note(format!("seek {position_ms}"));
    }
    fn preload(&self, uri: &str) {
        self.note(format!("preload {uri}"));
    }
}

#[test]
fn seek_on_a_spotify_track_reaches_only_the_spotify_player() {
    let spotify = Recorder::new();
    let youtube = Recorder::new();
    player_for(Service::Spotify, &spotify, &youtube).seek(30_000);
    assert_eq!(spotify.calls(), ["seek 30000"]);
    assert!(youtube.calls().is_empty());
}

#[test]
fn seek_on_a_youtube_track_reaches_only_the_youtube_player() {
    let spotify = Recorder::new();
    let youtube = Recorder::new();
    player_for(Service::YouTube, &spotify, &youtube).seek(5_000);
    assert_eq!(youtube.calls(), ["seek 5000"]);
    assert!(spotify.calls().is_empty());
}

#[test]
fn preload_routes_by_service_too() {
    let spotify = Recorder::new();
    let youtube = Recorder::new();
    player_for(Service::Spotify, &spotify, &youtube).preload("spotify:track:abc");
    assert_eq!(spotify.calls(), ["preload spotify:track:abc"]);
    assert!(youtube.calls().is_empty());
}
