use tt_spotify_bot::services::Service;

#[test]
fn marker_returns_two_letter_code() {
    assert_eq!(Service::Spotify.marker(), "SP");
    assert_eq!(Service::YouTube.marker(), "YT");
}

#[test]
fn name_is_human_readable() {
    assert_eq!(Service::Spotify.name(), "Spotify");
    assert_eq!(Service::YouTube.name(), "YouTube");
}

#[test]
fn default_is_spotify() {
    assert_eq!(Service::default(), Service::Spotify);
}

#[test]
fn services_are_parsed_in_any_case() {
    assert_eq!(Service::parse(" SPOTIFY "), Some(Service::Spotify));
    assert_eq!(Service::parse("YouTube"), Some(Service::YouTube));
    assert_eq!(Service::parse("tidal"), None);
    assert_eq!(Service::parse_or_default("tidal"), Service::Spotify);
    assert_eq!(Service::parse_or_default("yt"), Service::YouTube);
}
