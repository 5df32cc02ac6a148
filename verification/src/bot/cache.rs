//! Short-lived caches for lists of tracks.
//!
//! Searching the same thing twice is common (a user mistypes, retries, or two
//! people in the channel look for the same song), and every one of those would
//! be a fresh network round trip. Answers are cached briefly so a repeat search
//! is instant, while staying short enough that new uploads still show up.
use std::hash::RandomState;
use vstd::prelude::*;

use crate::services::Service;
use crate::text::{lowercase, to_lower, trim, trimmed};
use crate::track::{Track, TrackView};

verus! {

/// How long a search answer stays usable, in milliseconds. Long enough to
/// cover a retry or a second person asking, short enough that the catalogue is
/// never stale in a way anyone notices.
pub const SEARCH_CACHE_TTL_MS: u64 = 300_000;

/// Maximum distinct queries held. Bounded so a busy channel cannot grow it.
pub const SEARCH_CACHE_CAPACITY: u64 = 256;

/// The longest time that a list can be kept: a thousand years.
pub const LONGEST_TTL_MS: u64 = 31_536_000_000_000;

/// A number for the service or use, a text, and a number.
pub type StoreKey = (u8, String, i32);

#[verifier::external_type_specification]
#[verifier::external_body]
#[verifier::reject_recursive_types(K)]
#[verifier::reject_recursive_types(V)]
#[verifier::reject_recursive_types(S)]
pub struct ExMokaCache<K, V, S>(moka::sync::Cache<K, V, S>);

/// Lists of tracks by key.
pub type Lists = Map<(u8, Seq<char>, i32), Seq<TrackView>>;

/// A list of tracks as their texts.
pub open spec fn track_views(v: Seq<Track>) -> Seq<TrackView> {
    v.map_values(|t: Track| t@)
}

/// The lists that were put into a cache and neither replaced nor taken out
/// since. The cache may have dropped any of them: for its age, or for room.
pub uninterp spec fn held(
    cache: moka::sync::Cache<StoreKey, Vec<Track>, RandomState>,
) -> Lists;

/// How many lists a cache keeps, and for how many milliseconds.
pub uninterp spec fn limits(
    cache: moka::sync::Cache<StoreKey, Vec<Track>, RandomState>,
) -> (u64, u64);

/// `moka::sync::Cache::builder` with `max_capacity` and `time_to_live`, then
/// `build`: an empty cache. `build` panics on more than a thousand years.
#[verifier::external_body]
fn new_cache(capacity: u64, ttl_ms: u64) -> (r: moka::sync::Cache<
    StoreKey,
    Vec<Track>,
    RandomState,
>)
    requires
        ttl_ms <= LONGEST_TTL_MS,
    ensures
        held(r) == Lists::empty(),
        limits(r) == (capacity, ttl_ms),
{
    moka::sync::Cache::builder()
        .max_capacity(capacity)
        .time_to_live(std::time::Duration::from_millis(ttl_ms))
        .build()
}

/// `moka::sync::Cache::get`: a copy of what was last put in under the key, or
/// nothing. Whether it is still there depends on the clock and on how full the
/// cache is, so that is not stated.
#[verifier::external_body]
fn cache_get(
    cache: &moka::sync::Cache<StoreKey, Vec<Track>, RandomState>,
    key: &StoreKey,
) -> (r: Option<Vec<Track>>)
    ensures
        r matches Some(v) ==> held(*cache).contains_key((key.0, key.1@, key.2)) && track_views(v@)
            == held(*cache)[(key.0, key.1@, key.2)],
{
    cache.get(key)
}

/// `moka::sync::Cache::insert`: the list replaces what stood under the key.
#[verifier::external_body]
fn cache_insert(
    cache: &mut moka::sync::Cache<StoreKey, Vec<Track>, RandomState>,
    key: StoreKey,
    tracks: Vec<Track>,
)
    ensures
        held(*final(cache)) == held(*old(cache)).insert((key.0, key.1@, key.2), track_views(tracks@)),
        limits(*final(cache)) == limits(*old(cache)),
{
    cache.insert(key, tracks);
}

/// `moka::sync::Cache::invalidate`: what stood under the key is gone.
#[verifier::external_body]
fn cache_invalidate(
    cache: &mut moka::sync::Cache<StoreKey, Vec<Track>, RandomState>,
    key: &StoreKey,
)
    ensures
        held(*final(cache)) == held(*old(cache)).remove((key.0, key.1@, key.2)),
        limits(*final(cache)) == limits(*old(cache)),
{
    cache.invalidate(key);
}

/// One answer of a store: what it was asked for, and the list that it gave.
pub type Answer = ((u8, Seq<char>, i32), Option<Seq<TrackView>>);

/// A list of tracks, where there is one, as their texts.
pub open spec fn list_view(r: Option<Vec<Track>>) -> Option<Seq<TrackView>> {
    match r {
        Some(v) => Some(track_views(v@)),
        None => None,
    }
}

/// Lists of tracks that are forgotten after a while.
pub struct TrackStore {
    cache: moka::sync::Cache<StoreKey, Vec<Track>, RandomState>,
    /// What `ask` has answered so far.
    answered: Ghost<Seq<Answer>>,
}

impl View for TrackStore {
    type V = Lists;

    /// What was put in and neither replaced nor taken out.
    closed spec fn view(&self) -> Lists {
        held(self.cache)
    }
}

impl TrackStore {
    pub closed spec fn limits(self) -> (u64, u64) {
        limits(self.cache)
    }

    /// What `ask` has answered so far, the latest last. Whether a list was
    /// still there is up to the clock, so only the answer itself tells.
    pub closed spec fn answers(self) -> Seq<Answer> {
        self.answered@
    }

    /// A store of at most `capacity` lists, each kept for `ttl_ms`.
    pub fn new(capacity: u64, ttl_ms: u64) -> (r: Self)
        requires
            ttl_ms <= LONGEST_TTL_MS,
        ensures
            r@ == Lists::empty(),
            r.limits() == (capacity, ttl_ms),
            r.answers().len() == 0,
    {
        TrackStore { cache: new_cache(capacity, ttl_ms), answered: Ghost(Seq::empty()) }
    }

    /// What was last put in under the key, while it lasts; the answer is noted.
    pub fn ask(&mut self, key: &StoreKey) -> (r: Option<Vec<Track>>)
        ensures
            r matches Some(v) ==> old(self)@.contains_key((key.0, key.1@, key.2)) && track_views(v@)
                == old(self)@[(key.0, key.1@, key.2)],
            final(self).answers() == old(self).answers().push(
                ((key.0, key.1@, key.2), list_view(r)),
            ),
            final(self)@ == old(self)@,
            final(self).limits() == old(self).limits(),
    {
        let r = self.get(key);
        self.answered = Ghost(self.answered@.push(((key.0, key.1@, key.2), list_view(r))));
        r
    }

    /// What was last put in under the key, while it lasts.
    pub fn get(&self, key: &StoreKey) -> (r: Option<Vec<Track>>)
        ensures
            r matches Some(v) ==> self@.contains_key((key.0, key.1@, key.2)) && track_views(v@)
                == self@[(key.0, key.1@, key.2)],
    {
        cache_get(&self.cache, key)
    }

    pub fn insert(&mut self, key: StoreKey, tracks: Vec<Track>)
        ensures
            final(self)@ == old(self)@.insert((key.0, key.1@, key.2), track_views(tracks@)),
            final(self).limits() == old(self).limits(),
            final(self).answers() == old(self).answers(),
    {
        cache_insert(&mut self.cache, key, tracks);
    }

    pub fn remove(&mut self, key: &StoreKey)
        ensures
            final(self)@ == old(self)@.remove((key.0, key.1@, key.2)),
            final(self).limits() == old(self).limits(),
            final(self).answers() == old(self).answers(),
    {
        cache_invalidate(&mut self.cache, key);
    }
}

/// Cached search answers, kept by service, query and result limit.
pub struct SearchCache {
    store: TrackStore,
}

/// Where the answer to a search is kept. Queries differing only in case or
/// padding are the same search.
pub open spec fn search_key(service: Service, query: Seq<char>, limit: u8) -> (
    u8,
    Seq<char>,
    i32,
) {
    (
        match service {
            Service::Spotify => 0u8,
            Service::YouTube => 1u8,
        },
        lowercase(trimmed(query)),
        limit as i32,
    )
}

impl View for SearchCache {
    type V = Lists;

    closed spec fn view(&self) -> Lists {
        self.store@
    }
}

impl Default for SearchCache {
    fn default() -> (r: Self)
        ensures
            r@ == Lists::empty(),
            r.limits() == (SEARCH_CACHE_CAPACITY, SEARCH_CACHE_TTL_MS),
    {
        SearchCache::new()
    }
}

impl SearchCache {
    pub closed spec fn limits(self) -> (u64, u64) {
        self.store.limits()
    }

    pub fn new() -> (r: Self)
        ensures
            r@ == Lists::empty(),
            r.limits() == (SEARCH_CACHE_CAPACITY, SEARCH_CACHE_TTL_MS),
    {
        SearchCache::with_ttl(SEARCH_CACHE_TTL_MS)
    }

    /// A chosen time to live in milliseconds, so expiry can be seen without a
    /// five-minute wait.
    pub fn with_ttl(ttl_ms: u64) -> (r: Self)
        requires
            ttl_ms <= LONGEST_TTL_MS,
        ensures
            r@ == Lists::empty(),
            r.limits() == (SEARCH_CACHE_CAPACITY, ttl_ms),
    {
        SearchCache { store: TrackStore::new(SEARCH_CACHE_CAPACITY, ttl_ms) }
    }

    fn key(service: Service, query: &str, limit: u8) -> (r: StoreKey)
        ensures
            (r.0, r.1@, r.2) == search_key(service, query@, limit),
    {
        let tag: u8 = match service {
            Service::Spotify => 0,
            Service::YouTube => 1,
        };
        (tag, to_lower(trim(query)), limit as i32)
    }

    /// The answer to the same search, while it is fresh.
    pub fn get(&self, service: Service, query: &str, limit: u8) -> (r: Option<Vec<Track>>)
        ensures
            r matches Some(v) ==> self@.contains_key(search_key(service, query@, limit))
                && track_views(v@) == self@[search_key(service, query@, limit)],
    {
        self.store.get(&SearchCache::key(service, query, limit))
    }

    /// Keep the answer to a search.
    pub fn insert(&mut self, service: Service, query: &str, limit: u8, tracks: Vec<Track>)
        ensures
            final(self)@ == (if tracks@.len() == 0 {
                old(self)@
            } else {
                old(self)@.insert(search_key(service, query@, limit), track_views(tracks@))
            }),
            final(self).limits() == old(self).limits(),
    {
        // An empty result is not worth holding: the next search should ask
        // again rather than repeat "no results" for five minutes.
        if tracks.len() == 0 {
            return;
        }
        self.store.insert(SearchCache::key(service, query, limit), tracks);
    }
}

/// The two services never share an answer, and neither do two result limits.
pub proof fn different_searches_are_kept_apart(
    a: Service,
    b: Service,
    query: Seq<char>,
    m: u8,
    n: u8,
)
    requires
        a != b || m != n,
    ensures
        search_key(a, query, m) != search_key(b, query, n),
{
}

/// Searches that differ only in white space around them, or only in case, are
/// the same search.
pub proof fn the_same_search_is_kept_once(
    service: Service,
    before: Seq<char>,
    query: Seq<char>,
    after: Seq<char>,
    other: Seq<char>,
    limit: u8,
)
    requires
        query.len() > 0,
        !crate::text::is_white(query[0]),
        !crate::text::is_white(query.last()),
        forall|k: int| 0 <= k < before.len() ==> crate::text::is_white(#[trigger] before[k]),
        forall|k: int| 0 <= k < after.len() ==> crate::text::is_white(#[trigger] after[k]),
    ensures
        search_key(service, before + query + after, limit) == search_key(service, query, limit),
        lowercase(trimmed(other)) == lowercase(query) ==> search_key(service, other, limit)
            == search_key(service, query, limit),
        lowercase(trimmed(other)) != lowercase(query) ==> search_key(service, other, limit)
            != search_key(service, query, limit),
{
    crate::text::trimming_takes_white_space_off(before, query, after);
    crate::text::nothing_to_trim(query);
}

} // verus!
