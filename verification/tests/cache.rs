use tt_spotify_bot::bot::cache::SearchCache;
use tt_spotify_bot::services::Service;
use tt_spotify_bot::spotify::types::SpotifyTrack;
use tt_spotify_bot::track::Track;

fn track(id: &str) -> Track {
    Track::Spotify(SpotifyTrack {
        id: id.to_string(),
        name: format!("Track {id}"),
        artists: vec!["Artist".to_string()],
        album: "Album".to_string(),
        duration_ms: 180_000,
        uri: format!("spotify:track:{id}"),
    })
}

#[test]
fn a_repeated_search_is_answered_from_the_cache() {
    let mut cache = SearchCache::new();
    assert!(cache.get(Service::Spotify, "hello", 5).is_none());
    cache.insert(Service::Spotify, "hello", 5, vec![track("a")]);
    let hit = cache.get(Service::Spotify, "hello", 5).expect("should be cached");
    assert_eq!(hit[0].id(), "a");
}

#[test]
fn case_and_padding_do_not_split_the_cache_entry() {
    let mut cache = SearchCache::new();
    cache.insert(Service::Spotify, "Hello World", 5, vec![track("a")]);
    assert!(cache.get(Service::Spotify, "  hello world  ", 5).is_some());
}

#[test]
fn the_two_services_do_not_share_answers() {
    let mut cache = SearchCache::new();
    cache.insert(Service::Spotify, "hello", 5, vec![track("a")]);
    assert!(cache.get(Service::YouTube, "hello", 5).is_none());
}

#[test]
fn a_different_result_limit_is_a_different_search() {
    let mut cache = SearchCache::new();
    cache.insert(Service::Spotify, "hello", 5, vec![track("a")]);
    assert!(cache.get(Service::Spotify, "hello", 10).is_none());
}

#[test]
fn empty_results_are_not_cached() {
    let mut cache = SearchCache::new();
    cache.insert(Service::Spotify, "nothing", 5, vec![]);
    assert!(cache.get(Service::Spotify, "nothing", 5).is_none());
}

#[test]
fn entries_expire() {
    let mut cache = SearchCache::with_ttl(50);
    cache.insert(Service::Spotify, "hello", 5, vec![track("a")]);
    assert!(cache.get(Service::Spotify, "hello", 5).is_some());
    let stored = std::time::Instant::now();
    while stored.elapsed() < std::time::Duration::from_millis(120) {}
    assert!(cache.get(Service::Spotify, "hello", 5).is_none(), "entry should have expired");
}

#[test]
fn a_later_answer_replaces_an_earlier_one() {
    let mut cache = SearchCache::new();
    cache.insert(Service::Spotify, "hello", 5, vec![track("a")]);
    cache.insert(Service::Spotify, "HELLO", 5, vec![track("b"), track("c")]);
    let hit = cache.get(Service::Spotify, "hello", 5).expect("should be cached");
    assert_eq!(hit.len(), 2);
    assert_eq!(hit[0].id(), "b");
}
