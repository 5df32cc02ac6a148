use tt_spotify_bot::error::BotError;
use tt_spotify_bot::spotify::metadata::{
    artist_info, fetch_error, lookup, of_album, radio_uris, radio_uris_of, resolve, search_uri, settle,
    station_uris, track_to_spotify, Fetching, Lookup, Selection,
};
use tt_spotify_bot::spotify::player::{
    parse_bitrate, parse_norm_method, parse_norm_type, Bitrate, NormalisationMethod,
    NormalisationType,
};
use tt_spotify_bot::services::Service;
use tt_spotify_bot::spotify::types::SpotifyTrack;
use tt_spotify_bot::spotify::uri::{parse_uri, startable, station, station_for, SpotifyUri};

const A: &str = "4GNcXTGWmnZ3ySrqvol3o4";
const B: &str = "5sWHDYs0csV6RS48xBl0tH";

fn track(id: &str) -> SpotifyTrack {
    track_to_spotify(
        Some(id.to_string()),
        "Name".to_string(),
        vec!["Artist".to_string()],
        "Album".to_string(),
        1000,
        Some(format!("spotify:track:{id}")),
    )
}

fn answer(text: &str) -> Result<Vec<String>, BotError> {
    radio_uris(&text.as_bytes().to_vec())
}

#[test]
fn a_station_is_read_down_to_its_uris() {
    let text = r#"{"tracks":[{"uri":"spotify:track:a"},{"name":"no uri"},{"uri":7},{"uri":"spotify:track:b"}]}"#;
    assert_eq!(answer(text).unwrap(), ["spotify:track:a", "spotify:track:b"]);
    let value: serde_json::Value = serde_json::from_str(text).unwrap();
    assert_eq!(station_uris(&value).len(), 2);
    assert_eq!(radio_uris_of(Ok(value)).unwrap()[1], "spotify:track:b");
}

#[test]
fn a_station_without_tracks_has_no_results() {
    for text in ["{}", "[]", "7", r#"{"tracks":{}}"#, r#"{"tracks":[]}"#, r#"{"tracks":["a"]}"#] {
        assert!(matches!(answer(text), Err(BotError::NoResults)), "{text}");
    }
}

#[test]
fn an_answer_that_is_no_json_is_an_error() {
    let e = answer("{\"tracks\":").unwrap_err();
    assert!(e.message().starts_with("Spotify playback: Radio parse failed: "), "{}", e.message());
    let e = radio_uris_of(Err("why".to_string())).unwrap_err();
    assert_eq!(e.message(), "Spotify playback: Radio parse failed: why");
}

#[test]
fn bytes_that_are_no_text_do_not_get_in_the_way() {
    let mut bytes = b"{\"tracks\":[{\"uri\":\"".to_vec();
    bytes.push(0xff);
    bytes.extend_from_slice(b"\"}]}");
    assert_eq!(radio_uris(&bytes).unwrap(), ["\u{fffd}"]);
    assert_eq!(answer(r#"{"tracks":[{"uri":"éé"}]}"#).unwrap(), ["\u{e9}\u{e9}"]);
}

fn uris(texts: &[&str]) -> Vec<Option<String>> {
    texts.iter().map(|t| Some(t.to_string())).collect()
}

#[test]
fn a_selection_keeps_to_its_limit() {
    let (a, b) = (format!("spotify:track:{A}"), format!("spotify:track:{B}"));
    let mut s = Selection::new(2, vec![], uris(&["nonsense", &a, "spotify:track:short", &b, &a]));
    assert!(!s.full());
    assert_eq!(s.next().as_deref(), Some(a.as_str()));
    s.add(track("a"));
    assert_eq!(s.next().as_deref(), Some(b.as_str()));
    s.add(track("b"));
    assert!(s.full());
    assert_eq!(s.next(), None);
    let ids: Vec<String> = s.finish().unwrap().into_iter().map(|t| t.id).collect();
    assert_eq!(ids, ["a", "b"]);
    assert!(Selection::new(0, vec![], vec![]).full());
}

#[test]
fn a_selection_leaves_out_what_is_known() {
    let (a, b) = (format!("spotify:track:{A}"), format!("spotify:track:{B}"));
    let mut list = uris(&[&a, &b]);
    list.insert(0, None);
    let mut s = Selection::new(5, vec![A.to_string()], list);
    assert_eq!(s.next().as_deref(), Some(b.as_str()));
    // Nothing came of fetching it, and the list is over.
    assert_eq!(s.next(), None);
    assert!(matches!(s.finish(), Err(BotError::NoResults)));
}

#[test]
fn uris_are_read_and_written() {
    let uri = parse_uri(&format!("spotify:user:me:playlist:{A}")).unwrap();
    assert_eq!(uri.id.as_deref(), Some(A));
    assert_eq!(uri.uri, Ok(format!("spotify:user:me:playlist:{A}")));
    let uri = parse_uri("spotify:whatever:x").unwrap();
    assert_eq!(uri.uri, Ok("spotify:unknown:x".to_string()));
    assert!(parse_uri("https://open.spotify.com/track/x").is_none());
    assert!(parse_uri("").is_none());
}

#[test]
fn only_spotify_needs_a_uri_it_can_read() {
    assert!(startable(Service::Spotify, &format!("spotify:track:{A}")));
    assert!(!startable(Service::Spotify, "spotify:track:abc"));
    assert!(startable(Service::YouTube, "anything"));
}

#[test]
fn the_radio_is_asked_with_a_uri() {
    let seed = format!("spotify:track:{B}");
    assert_eq!(station_for(&seed).unwrap().unwrap(), seed);
    assert!(station_for("spotify:track").is_none());
    let bad = SpotifyUri { id: None, uri: Err("why".to_string()) };
    assert_eq!(station(bad).unwrap_err().message(), "Spotify playback: Invalid seed URI: why");
}

#[test]
fn a_track_is_kept_as_spotify_describes_it() {
    let t = track_to_spotify(None, "N".to_string(), vec![], "A".to_string(), -1, None);
    assert_eq!((t.id.as_str(), t.uri.as_str(), t.duration_ms), ("", "", u32::MAX));
    let t = of_album(track("x"), "The Album");
    assert_eq!((t.album.as_str(), t.id.as_str(), t.duration_ms), ("The Album", "x", 1000));
}

#[test]
fn a_query_is_looked_up_or_searched_for() {
    assert_eq!(search_uri("a b  c"), "spotify:search:a+b++c");
    match resolve(&format!("spotify:album:{A}"), 5).unwrap() {
        Lookup::Album { uri, id } => {
            assert_eq!((uri, id.as_str()), (format!("spotify:album:{A}"), A))
        }
        other => panic!("{other:?}"),
    }
    match resolve(&format!("https://open.spotify.com/track/{B}?si=1"), 5).unwrap() {
        Lookup::Track { uri, id } => {
            assert_eq!((uri, id.as_str()), (format!("spotify:track:{B}"), B))
        }
        other => panic!("{other:?}"),
    }
    match resolve(" hello ", 5).unwrap() {
        Lookup::Search { query, limit } => assert_eq!((query.as_str(), limit), (" hello ", 5)),
        other => panic!("{other:?}"),
    }
}

#[test]
fn a_bad_id_is_searched_for_or_refused() {
    match resolve("spotify:track:not an id", 5).unwrap() {
        Lookup::Search { query, limit } => assert_eq!((query.as_str(), limit), ("not an id", 1)),
        other => panic!("{other:?}"),
    }
    let e = resolve("spotify:album:?", 5).unwrap_err();
    assert_eq!(e.message(), "Spotify playback: Invalid album ID: ?");
    let e = settle(lookup("spotify:playlist:p", 5), false).unwrap_err();
    assert_eq!(e.message(), "Spotify playback: Invalid playlist ID: p");
    assert!(matches!(settle(lookup("x", 3), false), Ok(Lookup::Search { limit: 3, .. })));
    assert!(matches!(settle(lookup("spotify:playlist:p", 5), true), Ok(Lookup::Playlist { .. })));
}

#[test]
fn what_could_not_be_fetched_is_named() {
    let text = |w| fetch_error(w, "boom").message();
    assert_eq!(text(Fetching::Track), "Spotify playback: Failed to fetch track metadata: boom");
    assert_eq!(text(Fetching::Album), "Spotify playback: Failed to fetch album metadata: boom");
    assert_eq!(text(Fetching::Playlist), "Spotify playback: Failed to fetch playlist metadata: boom");
    assert_eq!(text(Fetching::Artist), "Spotify playback: Failed to fetch artist metadata: boom");
    assert_eq!(text(Fetching::Radio), "Spotify playback: Radio fetch failed: boom");
    assert_eq!(text(Fetching::Seed), "Spotify playback: Invalid seed URI: boom");
    assert_eq!(text(Fetching::Search), "Spotify playback: Search failed: boom");
}

#[test]
fn playback_settings_are_read_in_any_case() {
    assert_eq!(parse_bitrate("very_high"), Bitrate::Bitrate320);
    assert_eq!(parse_norm_type("Album"), NormalisationType::Album);
    assert_eq!(parse_norm_type("?"), NormalisationType::Auto);
    assert_eq!(parse_norm_method("BASIC"), NormalisationMethod::Basic);
    assert_eq!(parse_norm_method("?"), NormalisationMethod::Dynamic);
}

#[test]
fn an_artist_keeps_the_top_tracks_of_every_country() {
    let s = |t: &str| t.to_string();
    let info = artist_info(
        s("A"),
        vec![(s("B"), s("uri:b")), (s("C"), s("uri:c"))],
        vec![vec![s("t1"), s("t2")], vec![], vec![s("t3")]],
    );
    assert_eq!(info.name, "A");
    assert_eq!(info.related_names, ["B", "C"]);
    assert_eq!(info.related_artists, ["uri:b", "uri:c"]);
    assert_eq!(info.top_track_uris, ["t1", "t2", "t3"]);
}
