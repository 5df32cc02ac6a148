use tt_spotify_bot::services::Service;
use tt_spotify_bot::spotify::types::{parse_spotify_ref, SpotifyRef, SpotifyTrack};
use tt_spotify_bot::track::Track;

fn sp_track() -> SpotifyTrack {
    SpotifyTrack {
        id: "abc".to_string(),
        name: "Photograph".to_string(),
        artists: vec!["Ed Sheeran".to_string()],
        album: "X".to_string(),
        duration_ms: 60_000,
        uri: "spotify:track:abc".to_string(),
    }
}

#[test]
fn spotify_variant_returns_spotify_service() {
    let t: Track = sp_track().into();
    assert_eq!(t.service(), Service::Spotify);
}

#[test]
fn accessors_delegate_to_inner_spotify_track() {
    let t: Track = sp_track().into();
    assert_eq!(t.id(), "abc");
    assert_eq!(t.uri(), "spotify:track:abc");
    assert_eq!(t.duration_ms(), 60_000);
    assert_eq!(t.display_name(), "Ed Sheeran - Photograph");
    assert_eq!(t.duration_display(), "1:00");
}

#[test]
fn from_spotify_track_wraps_in_spotify_variant() {
    let t: Track = sp_track().into();
    match t {
        Track::Spotify(inner) => assert_eq!(inner.id, "abc"),
    }
}

#[test]
fn links_are_read_in_every_form() {
    let id = |r: Option<SpotifyRef>| match r {
        Some(SpotifyRef::Track(id)) => format!("track {id}"),
        Some(SpotifyRef::Album(id)) => format!("album {id}"),
        Some(SpotifyRef::Playlist(id)) => format!("playlist {id}"),
        None => "none".to_string(),
    };
    assert_eq!(id(parse_spotify_ref("spotify:track:4uLU6hMCjMI75M1A2tKUQC")), "track 4uLU6hMCjMI75M1A2tKUQC");
    assert_eq!(id(parse_spotify_ref(" spotify:album:xyz ")), "album xyz");
    assert_eq!(
        id(parse_spotify_ref("https://open.spotify.com/playlist/37i9dQ?si=abc")),
        "playlist 37i9dQ"
    );
    assert_eq!(id(parse_spotify_ref("http://open.spotify.com/track/A1")), "track A1");
    assert_eq!(id(parse_spotify_ref("look: https://open.spotify.com/album/B2!")), "album B2");
    assert_eq!(id(parse_spotify_ref("https://open.spotify.com/artist/B2")), "none");
    assert_eq!(id(parse_spotify_ref("spotify:artist:B2")), "none");
    assert_eq!(id(parse_spotify_ref("photograph")), "none");
    assert_eq!(id(parse_spotify_ref("https://open.spotify.com/track/")), "none");
}

#[test]
fn a_track_is_shown_with_all_its_artists_and_two_digits_of_seconds() {
    let mut t = sp_track();
    t.artists.push("Somebody".to_string());
    t.duration_ms = 605_999;
    assert_eq!(t.display_name(), "Ed Sheeran, Somebody - Photograph");
    assert_eq!(t.duration_display(), "10:05");
}
