//! Looking tracks up: what is asked of Spotify, and what is kept of the answer.
use vstd::prelude::*;
use vstd::string::*;

use crate::error::{BotError, ErrorView};
use crate::spotify::types::{
    alnum_run, kind_and_id, known_kind, link_parts, parse_spotify_ref, uri_parts, url_here,
    url_parts, with_id, SpotifyRef, SpotifyTrack, SpotifyTrackView,
};
use crate::spotify::uri::{id_text, parse_uri, uri_of_text, uri_view, SpotifyUri, UriView};
use crate::text::{
    at, first, first_from, is_ascii_alnum, is_one_of, is_white, lemma_views_push, replace, replaced,
    trimmed, views,
};

verus! {

// ---- JSON ----

#[verifier::external_type_specification]
#[verifier::external_body]
pub struct ExJsonValue(serde_json::Value);

/// A JSON value, as far as it is read here.
pub enum JsonView {
    Text(Seq<char>),
    List(Seq<JsonView>),
    Object(Map<Seq<char>, JsonView>),
    /// A number, a truth value or nothing.
    Other,
}

/// What a JSON value holds.
pub uninterp spec fn json(value: serde_json::Value) -> JsonView;

/// What a text is read as: a JSON value, or the complaint about it.
pub type Reading = Result<JsonView, Seq<char>>;

/// What `serde_json::from_str` makes of a text: the value, or the text of the
/// error.
pub uninterp spec fn json_of(text: Seq<char>) -> Reading;

/// A result of reading a text, as what it holds.
pub open spec fn reading_view(r: Result<serde_json::Value, String>) -> Reading {
    match r {
        Ok(value) => Ok(json(value)),
        Err(text) => Err(text@),
    }
}

/// `serde_json::from_str` to a `serde_json::Value`, with its error as text.
/// What a text is read as depends on the text alone; the grammar is not stated
/// here.
#[verifier::external_body]
fn parse_json(text: &str) -> (r: Result<serde_json::Value, String>)
    ensures
        reading_view(r) == json_of(text@),
{
    serde_json::from_str(text).map_err(|e| e.to_string())
}

/// What stands under a key of a JSON value.
pub open spec fn member(value: JsonView, key: Seq<char>) -> JsonView {
    match value {
        JsonView::Object(members) if members.contains_key(key) => members[key],
        _ => JsonView::Other,
    }
}

/// `serde_json::Value` indexed by a key: what stands under the key, or null
/// where there is no such key or the value is no object.
#[verifier::external_body]
fn json_member<'a>(value: &'a serde_json::Value, key: &str) -> (r: &'a serde_json::Value)
    ensures
        json(*r) == member(json(*value), key@),
{
    &value[key]
}

/// The values of a list of JSON values.
pub open spec fn json_list(v: Seq<serde_json::Value>) -> Seq<JsonView> {
    v.map_values(|value: serde_json::Value| json(value))
}

/// `serde_json::Value::as_array`: the items, where the value is a list.
pub assume_specification[ serde_json::Value::as_array ](value: &serde_json::Value) -> (r: Option<
    &Vec<serde_json::Value>,
>)
    ensures
        match r {
            Some(items) => json(*value) == JsonView::List(json_list(items@)),
            None => !(json(*value) is List),
        },
;

/// `serde_json::Value::as_str`: the characters, where the value is a string.
pub assume_specification[ serde_json::Value::as_str ](value: &serde_json::Value) -> (r: Option<
    &str,
>)
    ensures
        match r {
            Some(text) => json(*value) == JsonView::Text(text@),
            None => !(json(*value) is Text),
        },
;

/// What `String::from_utf8_lossy` makes of some bytes.
pub uninterp spec fn lossy(bytes: Seq<u8>) -> Seq<char>;

/// `String::from_utf8_lossy`: the text that the bytes encode. Where they are
/// no UTF-8, replacement characters stand for what is not; how many is not
/// stated here.
#[verifier::external_body]
fn lossy_text(bytes: &Vec<u8>) -> (r: String)
    ensures
        r@ == lossy(bytes@),
        vstd::utf8::valid_utf8(bytes@) ==> r@ == vstd::utf8::decode_utf8(bytes@),
{
    String::from_utf8_lossy(bytes).into_owned()
}

// ---- the radio ----

/// The uris of some tracks of a station, without those that have none.
pub open spec fn uris_among(tracks: Seq<JsonView>) -> Seq<Seq<char>>
    decreases tracks.len(),
{
    if tracks.len() == 0 {
        seq![]
    } else {
        match member(tracks.last(), "uri"@) {
            JsonView::Text(uri) => uris_among(tracks.drop_last()).push(uri),
            _ => uris_among(tracks.drop_last()),
        }
    }
}

/// The uris of the tracks of a station.
pub open spec fn uris_of_station(station: JsonView) -> Seq<Seq<char>> {
    match member(station, "tracks"@) {
        JsonView::List(tracks) => uris_among(tracks),
        _ => seq![],
    }
}

/// The uris of the tracks that a station holds, in their order.
pub fn station_uris(station: &serde_json::Value) -> (r: Vec<String>)
    ensures
        views(r@) == uris_of_station(json(*station)),
{
    let mut out: Vec<String> = Vec::new();
    match json_member(station, "tracks").as_array() {
        Some(tracks) => {
            let mut i: usize = 0;
            assert(views(out@) =~= uris_among(json_list(tracks@).take(0)));
            while i < tracks.len()
                invariant
                    i <= tracks.len(),
                    views(out@) == uris_among(json_list(tracks@).take(i as int)),
                decreases tracks.len() - i,
            {
                assert(json_list(tracks@).take(i + 1).drop_last() =~= json_list(tracks@).take(
                    i as int,
                ));
                assert(json_list(tracks@)[i as int] == json(tracks@[i as int]));
                if let Some(uri) = json_member(&tracks[i], "uri").as_str() {
                    let uri = uri.to_owned();
                    proof {
                        lemma_views_push(out@, uri);
                    }
                    out.push(uri);
                }
                i += 1;
            }
            assert(json_list(tracks@).take(i as int) =~= json_list(tracks@));
        },
        None => {
            assert(views(out@) =~= seq![]);
        },
    }
    out
}

/// What the answer of the radio comes to.
pub open spec fn radio_answer(reading: Reading) -> Result<Seq<Seq<char>>, ErrorView> {
    match reading {
        Ok(station) => if uris_of_station(station).len() == 0 {
            Err(ErrorView::NoResults)
        } else {
            Ok(uris_of_station(station))
        },
        Err(text) => Err(ErrorView::Playback("Radio parse failed: "@ + text)),
    }
}

/// A list of strings, or an error, as their texts.
pub open spec fn uris_view(r: Result<Vec<String>, BotError>) -> Result<Seq<Seq<char>>, ErrorView> {
    match r {
        Ok(uris) => Ok(views(uris@)),
        Err(e) => Err(e@),
    }
}

/// What the answer of the radio comes to, once it has been read as JSON.
pub fn radio_uris_of(reading: Result<serde_json::Value, String>) -> (r: Result<
    Vec<String>,
    BotError,
>)
    ensures
        uris_view(r) == radio_answer(reading_view(reading)),
{
    match reading {
        Ok(station) => {
            let uris = station_uris(&station);
            if uris.len() == 0 {
                Err(BotError::NoResults)
            } else {
                Ok(uris)
            }
        },
        Err(text) => {
            let mut message = String::from_str("Radio parse failed: ");
            message.append(text.as_str());
            Err(BotError::Playback(message))
        },
    }
}

/// The uris of the tracks that the radio recommends, from the bytes it
/// answered with.
pub fn radio_uris(response: &Vec<u8>) -> (r: Result<Vec<String>, BotError>)
    ensures
        uris_view(r) == radio_answer(json_of(lossy(response@))),
{
    radio_uris_of(parse_json(lossy_text(response).as_str()))
}

// ---- collecting ----

/// A text that may be missing.
pub open spec fn given(s: Option<String>) -> Option<Seq<char>> {
    match s {
        Some(text) => Some(text@),
        None => None,
    }
}

/// Whether a track is worth fetching once its uri was read: it could be, and
/// it is none of those that are left out.
pub open spec fn worth_it(reading: Option<UriView>, exclude: Seq<Seq<char>>) -> bool {
    reading matches Some(uri) && !exclude.contains(id_text(uri))
}

/// Whether what stands in a list of answers is worth fetching.
pub open spec fn wanted(uri: Option<Seq<char>>, exclude: Seq<Seq<char>>) -> bool {
    uri matches Some(text) && worth_it(uri_of_text(text), exclude)
}

/// Tracks being collected from a list of uris, up to a limit, without those
/// that are not wanted.
#[derive(Debug)]
pub struct Selection {
    pub limit: usize,
    /// The ids to leave out.
    pub exclude: Vec<String>,
    pub uris: Vec<Option<String>>,
    /// How much of the list has been gone through.
    pub at: usize,
    pub tracks: Vec<SpotifyTrack>,
}

impl Selection {
    /// Never more than asked for, and never past the list.
    pub open spec fn wf(self) -> bool {
        &&& self.tracks@.len() <= self.limit
        &&& self.at <= self.uris@.len()
    }

    /// Whether an answer is worth fetching.
    pub open spec fn wants(self, i: int) -> bool {
        wanted(given(self.uris@[i]), views(self.exclude@))
    }

    pub fn new(limit: usize, exclude: Vec<String>, uris: Vec<Option<String>>) -> (r: Self)
        ensures
            r.wf(),
            r.limit == limit,
            r.exclude@ == exclude@,
            r.uris@ == uris@,
            r.at == 0,
            r.tracks@.len() == 0,
    {
        Selection { limit, exclude, uris, at: 0, tracks: Vec::new() }
    }

    /// Whether there is no room for another track.
    pub fn full(&self) -> (r: bool)
        ensures
            r == (self.tracks@.len() >= self.limit),
    {
        self.tracks.len() >= self.limit
    }

    /// Whether a track is worth fetching, from what its uri was read as.
    pub fn worth_fetching(&self, reading: Option<SpotifyUri>) -> (r: bool)
        ensures
            r == worth_it(uri_view(reading), views(self.exclude@)),
    {
        match reading {
            Some(uri) => match uri.id {
                Some(id) => !is_one_of(&self.exclude, id.as_str()),
                None => !is_one_of(&self.exclude, ""),
            },
            None => false,
        }
    }

    /// The uri to fetch next: the first of the list that is worth it, while
    /// there is room.
    pub fn next(&mut self) -> (r: Option<String>)
        requires
            old(self).wf(),
        ensures
            final(self).wf(),
            *final(self) == (Selection { at: final(self).at, ..*old(self) }),
            match r {
                Some(uri) => {
                    &&& old(self).tracks@.len() < old(self).limit
                    &&& old(self).at < final(self).at
                    &&& given(old(self).uris@[final(self).at - 1]) == Some(uri@)
                    &&& old(self).wants(final(self).at - 1)
                    &&& forall|j: int|
                        old(self).at <= j < final(self).at - 1 ==> !#[trigger] old(self).wants(j)
                },
                None => if old(self).tracks@.len() >= old(self).limit {
                    final(self).at == old(self).at
                } else {
                    &&& final(self).at == old(self).uris@.len()
                    &&& forall|j: int|
                        old(self).at <= j < old(self).uris@.len() ==> !#[trigger] old(
                            self,
                        ).wants(j)
                },
            },
    {
        if self.full() {
            return None;
        }
        while self.at < self.uris.len()
            invariant
                old(self).wf(),
                self.wf(),
                old(self).tracks@.len() < old(self).limit,
                *self == (Selection { at: self.at, ..*old(self) }),
                old(self).at <= self.at,
                forall|j: int| old(self).at <= j < self.at ==> !#[trigger] old(self).wants(j),
            decreases self.uris.len() - self.at,
        {
            let i: usize = self.at;
            self.at += 1;
            if let Some(uri) = &self.uris[i] {
                if self.worth_fetching(parse_uri(uri.as_str())) {
                    return Some(uri.as_str().to_owned());
                }
            }
        }
        None
    }

    /// Keep a track that was fetched.
    pub fn add(&mut self, track: SpotifyTrack)
        requires
            old(self).wf(),
            old(self).tracks@.len() < old(self).limit,
        ensures
            final(self).wf(),
            *final(self) == (Selection { tracks: final(self).tracks, ..*old(self) }),
            final(self).tracks@ == old(self).tracks@.push(track),
    {
        self.tracks.push(track);
    }

    /// What was collected; nothing is an error.
    pub fn finish(self) -> (r: Result<Vec<SpotifyTrack>, BotError>)
        ensures
            match r {
                Ok(tracks) => tracks@ == self.tracks@ && tracks@.len() > 0,
                Err(e) => e@ == ErrorView::NoResults && self.tracks@.len() == 0,
            },
    {
        if self.tracks.len() == 0 {
            Err(BotError::NoResults)
        } else {
            Ok(self.tracks)
        }
    }
}

/// The number that a length of track is taken for.
pub open spec fn as_unsigned(n: int) -> int {
    if n >= 0 {
        n
    } else {
        n + 0x1_0000_0000
    }
}

/// A text, or nothing where it could not be made.
pub open spec fn or_empty(s: Option<String>) -> Seq<char> {
    match s {
        Some(text) => text@,
        None => ""@,
    }
}

fn text_or_empty(s: Option<String>) -> (r: String)
    ensures
        r@ == or_empty(s),
{
    match s {
        Some(text) => text,
        None => String::from_str(""),
    }
}

/// A track as we keep it, from what Spotify says of it.
pub fn track_to_spotify(
    id: Option<String>,
    name: String,
    artists: Vec<String>,
    album: String,
    duration: i32,
    uri: Option<String>,
) -> (r: SpotifyTrack)
    ensures
        r@.id == or_empty(id),
        r@.name == name@,
        r@.artists == views(artists@),
        r@.album == album@,
        r@.duration_ms == as_unsigned(duration as int),
        r@.uri == or_empty(uri),
{
    let duration_ms: u32 = if duration >= 0 {
        duration as u32
    } else {
        (duration as i64 + 0x1_0000_0000) as u32
    };
    SpotifyTrack {
        id: text_or_empty(id),
        name,
        artists,
        album,
        duration_ms,
        uri: text_or_empty(uri),
    }
}

/// A track of an album carries the album's own name.
pub fn of_album(track: SpotifyTrack, album: &str) -> (r: SpotifyTrack)
    ensures
        r@ == (SpotifyTrackView { album: album@, ..track@ }),
{
    SpotifyTrack { album: album.to_owned(), ..track }
}

// ---- artists ----

/// What is kept of an artist. Tracks and artists are known by their uris.
pub struct ArtistInfo {
    pub name: String,
    pub related_names: Vec<String>,
    pub top_track_uris: Vec<String>,
    pub related_artists: Vec<String>,
}

/// The top tracks of all countries, one country after the other.
pub open spec fn joined(lists: Seq<Vec<String>>) -> Seq<Seq<char>>
    decreases lists.len(),
{
    if lists.len() == 0 {
        seq![]
    } else {
        joined(lists.drop_last()) + views(lists.last()@)
    }
}

/// The names of artists that are given by name and uri.
pub open spec fn artist_names(artists: Seq<(String, String)>) -> Seq<Seq<char>> {
    Seq::new(artists.len(), |i: int| artists[i].0@)
}

/// The uris of artists that are given by name and uri.
pub open spec fn artist_uris(artists: Seq<(String, String)>) -> Seq<Seq<char>> {
    Seq::new(artists.len(), |i: int| artists[i].1@)
}

/// Put together what was fetched about an artist: the related artists by name
/// and uri, and the top tracks of each country.
pub fn artist_info(
    name: String,
    related: Vec<(String, String)>,
    top_tracks: Vec<Vec<String>>,
) -> (r: ArtistInfo)
    ensures
        r.name@ == name@,
        views(r.related_names@) == artist_names(related@),
        views(r.related_artists@) == artist_uris(related@),
        views(r.top_track_uris@) == joined(top_tracks@),
{
    let mut related_names: Vec<String> = Vec::new();
    let mut related_artists: Vec<String> = Vec::new();
    let mut i: usize = 0;
    while i < related.len()
        invariant
            i <= related@.len(),
            related_names@.len() == i,
            related_artists@.len() == i,
            forall|k: int| 0 <= k < i ==> (#[trigger] related_names@[k])@ == related@[k].0@,
            forall|k: int| 0 <= k < i ==> (#[trigger] related_artists@[k])@ == related@[k].1@,
        decreases related@.len() - i,
    {
        related_names.push(related[i].0.clone());
        related_artists.push(related[i].1.clone());
        i += 1;
    }
    assert(views(related_names@) =~= artist_names(related@));
    assert(views(related_artists@) =~= artist_uris(related@));
    let mut top_track_uris: Vec<String> = Vec::new();
    let mut c: usize = 0;
    while c < top_tracks.len()
        invariant
            c <= top_tracks@.len(),
            views(top_track_uris@) =~= joined(top_tracks@.take(c as int)),
        decreases top_tracks@.len() - c,
    {
        let ghost before = views(top_track_uris@);
        let mut t: usize = 0;
        while t < top_tracks[c].len()
            invariant
                c < top_tracks@.len(),
                t <= top_tracks@[c as int]@.len(),
                views(top_track_uris@) =~= before + views(top_tracks@[c as int]@).take(t as int),
            decreases top_tracks@[c as int]@.len() - t,
        {
            let uri = top_tracks[c][t].clone();
            proof {
                lemma_views_push(top_track_uris@, uri);
                let list = views(top_tracks@[c as int]@);
                assert(list.take(t + 1) =~= list.take(t as int).push(list[t as int]));
            }
            top_track_uris.push(uri);
            t += 1;
        }
        proof {
            let next = top_tracks@.take(c + 1);
            assert(next.drop_last() =~= top_tracks@.take(c as int));
            let list = views(top_tracks@[c as int]@);
            assert(list.take(list.len() as int) =~= list);
        }
        c += 1;
    }
    assert(top_tracks@.take(top_tracks@.len() as int) =~= top_tracks@);
    ArtistInfo { name, related_names, top_track_uris, related_artists }
}

// ---- what to ask ----

/// What Spotify is asked for a search.
pub open spec fn search_uri_of(query: Seq<char>) -> Seq<char> {
    "spotify:search:"@ + replaced(query, " "@, "+"@)
}

pub fn search_uri(query: &str) -> (r: String)
    ensures
        r@ == search_uri_of(query@),
{
    proof {
        reveal_strlit(" ");
    }
    let mut out = String::from_str("spotify:search:");
    out.append(replace(query, " ", "+").as_str());
    out
}

/// What to look up for a query.
#[derive(Debug)]
pub enum Lookup {
    Track { uri: String, id: String },
    Album { uri: String, id: String },
    Playlist { uri: String, id: String },
    Search { query: String, limit: u8 },
}

pub enum LookupView {
    Track { uri: Seq<char>, id: Seq<char> },
    Album { uri: Seq<char>, id: Seq<char> },
    Playlist { uri: Seq<char>, id: Seq<char> },
    Search { query: Seq<char>, limit: u8 },
}

impl View for Lookup {
    type V = LookupView;

    open spec fn view(&self) -> LookupView {
        match *self {
            Lookup::Track { uri, id } => LookupView::Track { uri: uri@, id: id@ },
            Lookup::Album { uri, id } => LookupView::Album { uri: uri@, id: id@ },
            Lookup::Playlist { uri, id } => LookupView::Playlist { uri: uri@, id: id@ },
            Lookup::Search { query, limit } => LookupView::Search { query: query@, limit },
        }
    }
}

/// The uri of something with an id.
pub open spec fn uri_of(kind: Seq<char>, id: Seq<char>) -> Seq<char> {
    "spotify:"@ + kind + ":"@ + id
}

fn make_uri(kind: &str, id: &str) -> (r: String)
    ensures
        r@ == uri_of(kind@, id@),
{
    let mut out = String::from_str("spotify:");
    out.append(kind);
    out.append(":");
    out.append(id);
    out
}

/// What a query asks for: what a link names, or a search for the text.
pub open spec fn lookup_of(query: Seq<char>, limit: u8) -> LookupView {
    match link_parts(trimmed(query)) {
        Some((kind, id)) => if kind == "track"@ {
            LookupView::Track { uri: uri_of(kind, id), id }
        } else if kind == "album"@ {
            LookupView::Album { uri: uri_of(kind, id), id }
        } else {
            LookupView::Playlist { uri: uri_of(kind, id), id }
        },
        None => LookupView::Search { query, limit },
    }
}

/// What a query (search text, URL, URI) asks for.
pub fn lookup(query: &str, search_limit: u8) -> (r: Lookup)
    ensures
        r@ == lookup_of(query@, search_limit),
{
    proof {
        reveal_strlit("track");
        reveal_strlit("album");
        reveal_strlit("playlist");
        assert("track"@.len() == 5);
        assert("track"@[0] != "album"@[0]);
    }
    match parse_spotify_ref(query) {
        Some(SpotifyRef::Track(id)) => Lookup::Track { uri: make_uri("track", id.as_str()), id },
        Some(SpotifyRef::Album(id)) => Lookup::Album { uri: make_uri("album", id.as_str()), id },
        Some(SpotifyRef::Playlist(id)) => Lookup::Playlist {
            uri: make_uri("playlist", id.as_str()),
            id,
        },
        None => Lookup::Search { query: query.to_owned(), limit: search_limit },
    }
}

/// What becomes of a lookup whose uri Spotify's rules do not allow: an unusable
/// track id is searched for, anything else is an error.
pub open spec fn after_bad_uri(lookup: LookupView) -> Result<LookupView, ErrorView> {
    match lookup {
        LookupView::Track { uri, id } => Ok(LookupView::Search { query: id, limit: 1 }),
        LookupView::Album { uri, id } => Err(ErrorView::Playback("Invalid album ID: "@ + id)),
        LookupView::Playlist { uri, id } => Err(ErrorView::Playback("Invalid playlist ID: "@ + id)),
        LookupView::Search { .. } => Ok(lookup),
    }
}

/// What becomes of a lookup, by whether its uri could be read.
pub open spec fn settled(lookup: LookupView, readable: bool) -> Result<LookupView, ErrorView> {
    if readable {
        Ok(lookup)
    } else {
        after_bad_uri(lookup)
    }
}

/// A lookup or an error, with their texts as sequences of characters.
pub open spec fn settled_view(r: Result<Lookup, BotError>) -> Result<LookupView, ErrorView> {
    match r {
        Ok(lookup) => Ok(lookup@),
        Err(e) => Err(e@),
    }
}

/// What to look up, once it is known whether the uri could be read.
pub fn settle(lookup: Lookup, readable: bool) -> (r: Result<Lookup, BotError>)
    ensures
        settled_view(r) == settled(lookup@, readable),
{
    if readable {
        return Ok(lookup);
    }
    match lookup {
        Lookup::Track { uri: _, id } => Ok(Lookup::Search { query: id, limit: 1 }),
        Lookup::Album { uri: _, id } => {
            let mut text = String::from_str("Invalid album ID: ");
            text.append(id.as_str());
            Err(BotError::Playback(text))
        },
        Lookup::Playlist { uri: _, id } => {
            let mut text = String::from_str("Invalid playlist ID: ");
            text.append(id.as_str());
            Err(BotError::Playback(text))
        },
        Lookup::Search { query, limit } => Ok(Lookup::Search { query, limit }),
    }
}

/// Whether the uri of a lookup can be read; a search has none.
pub open spec fn readable(lookup: LookupView) -> bool {
    match lookup {
        LookupView::Track { uri, id } => uri_of_text(uri) is Some,
        LookupView::Album { uri, id } => uri_of_text(uri) is Some,
        LookupView::Playlist { uri, id } => uri_of_text(uri) is Some,
        LookupView::Search { .. } => true,
    }
}

/// Resolve any query (search text, URL, URI) to what has to be looked up.
pub fn resolve(query: &str, search_limit: u8) -> (r: Result<Lookup, BotError>)
    ensures
        settled_view(r) == settled(
            lookup_of(query@, search_limit),
            readable(lookup_of(query@, search_limit)),
        ),
{
    let lookup = lookup(query, search_limit);
    let readable = match &lookup {
        Lookup::Track { uri, .. } => parse_uri(uri.as_str()).is_some(),
        Lookup::Album { uri, .. } => parse_uri(uri.as_str()).is_some(),
        Lookup::Playlist { uri, .. } => parse_uri(uri.as_str()).is_some(),
        Lookup::Search { .. } => true,
    };
    settle(lookup, readable)
}

/// What was being fetched when it failed.
#[derive(Debug, Clone, Copy, PartialEq, Eq, Structural)]
pub enum Fetching {
    Track,
    Album,
    Playlist,
    Artist,
    Radio,
    Seed,
    Search,
}

pub open spec fn fetch_failure(what: Fetching, text: Seq<char>) -> ErrorView {
    ErrorView::Playback(
        (match what {
            Fetching::Track => "Failed to fetch track metadata: "@,
            Fetching::Album => "Failed to fetch album metadata: "@,
            Fetching::Playlist => "Failed to fetch playlist metadata: "@,
            Fetching::Artist => "Failed to fetch artist metadata: "@,
            Fetching::Radio => "Radio fetch failed: "@,
            Fetching::Seed => "Invalid seed URI: "@,
            Fetching::Search => "Search failed: "@,
        }) + text,
    )
}

/// The error for something that could not be fetched.
pub fn fetch_error(what: Fetching, text: &str) -> (r: BotError)
    ensures
        r@ == fetch_failure(what, text@),
{
    let mut message = match what {
        Fetching::Track => String::from_str("Failed to fetch track metadata: "),
        Fetching::Album => String::from_str("Failed to fetch album metadata: "),
        Fetching::Playlist => String::from_str("Failed to fetch playlist metadata: "),
        Fetching::Artist => String::from_str("Failed to fetch artist metadata: "),
        Fetching::Radio => String::from_str("Radio fetch failed: "),
        Fetching::Seed => String::from_str("Invalid seed URI: "),
        Fetching::Search => String::from_str("Search failed: "),
    };
    message.append(text);
    BotError::Playback(message)
}

// ---- what holds of every lookup ----

/// The uri and the id that a lookup carries; a search has none.
pub open spec fn carried(lookup: LookupView) -> Option<(Seq<char>, Seq<char>)> {
    match lookup {
        LookupView::Track { uri, id } => Some((uri, id)),
        LookupView::Album { uri, id } => Some((uri, id)),
        LookupView::Playlist { uri, id } => Some((uri, id)),
        LookupView::Search { .. } => None,
    }
}

proof fn lemma_first_colon(s: Seq<char>, n: int, i: int)
    requires
        0 <= i <= n < s.len(),
        s[n] == ':',
        forall|k: int| i <= k < n ==> s[k] != ':',
    ensures
        first_from(s, ":"@, i) == Some(n),
    decreases n - i,
{
    reveal_strlit(":");
    assert(":"@ =~= seq![':']);
    if i < n {
        assert(s.subrange(i, i + 1)[0] == s[i]);
        lemma_first_colon(s, n, i + 1);
    } else {
        assert(s.subrange(n, n + 1) =~= ":"@);
    }
}

proof fn lemma_kinds_have_no_colon(kind: Seq<char>)
    requires
        known_kind(kind),
    ensures
        kind.len() > 0,
        forall|k: int| 0 <= k < kind.len() ==> kind[k] != ':',
{
    reveal_strlit("track");
    reveal_strlit("album");
    reveal_strlit("playlist");
}

/// A uri names the kind and the id that it is made of.
pub proof fn a_uri_names_what_it_is_made_of(kind: Seq<char>, id: Seq<char>)
    requires
        known_kind(kind),
    ensures
        uri_parts(uri_of(kind, id)) == Some((kind, id)),
        link_parts(uri_of(kind, id)) == Some((kind, id)),
{
    reveal_strlit("spotify:");
    reveal_strlit(":");
    let uri = uri_of(kind, id);
    let n = kind.len() as int;
    lemma_kinds_have_no_colon(kind);
    assert("spotify:"@ =~= uri.subrange(0, 8));
    let rest = uri.skip(8);
    assert(rest =~= kind + ":"@ + id);
    assert(rest[n] == ':');
    assert forall|k: int| 0 <= k < n implies rest[k] != ':' by {
        assert(rest[k] == kind[k]);
    }
    lemma_first_colon(rest, n, 0);
    assert(rest.take(n) =~= kind);
    assert(rest.skip(n + 1) =~= id);
}

proof fn lemma_uri_puts_together(s: Seq<char>, kind: Seq<char>, id: Seq<char>)
    requires
        uri_parts(s) == Some((kind, id)),
    ensures
        s == uri_of(kind, id),
{
    reveal_strlit("spotify:");
    reveal_strlit(":");
    let rest = s.skip(8);
    crate::text::lemma_first_from(rest, ":"@, 0);
    let i = first(rest, ":"@)->0;
    assert(at(rest, i, ":"@));
    assert(rest.subrange(i, i + 1)[0] == ":"@[0]);
    assert("spotify:"@ =~= s.subrange(0, 8));
    assert(s =~= s.subrange(0, 8) + rest);
    assert(rest =~= rest.take(i) + ":"@ + rest.skip(i + 1));
    assert(s =~= uri_of(kind, id));
}

proof fn lemma_alnum_run(s: Seq<char>, n: int)
    requires
        0 <= n <= s.len(),
        forall|k: int| 0 <= k < n ==> is_ascii_alnum(#[trigger] s[k]),
        n < s.len() ==> !is_ascii_alnum(s[n]),
    ensures
        alnum_run(s) == n,
    decreases n,
{
    if n > 0 {
        assert(is_ascii_alnum(s[0]));
        assert forall|k: int| 0 <= k < n - 1 implies is_ascii_alnum(#[trigger] s.skip(1)[k]) by {
            assert(s.skip(1)[k] == s[k + 1]);
        }
        lemma_alnum_run(s.skip(1), n - 1);
    }
}

proof fn lemma_alnum_run_is_alnum(s: Seq<char>)
    ensures
        alnum_run(s) <= s.len(),
        forall|k: int| 0 <= k < alnum_run(s) ==> is_ascii_alnum(#[trigger] s[k]),
    decreases s.len(),
{
    if s.len() > 0 && is_ascii_alnum(s[0]) {
        lemma_alnum_run_is_alnum(s.skip(1));
        assert forall|k: int| 0 <= k < alnum_run(s) implies is_ascii_alnum(#[trigger] s[k]) by {
            if k > 0 {
                assert(s.skip(1)[k - 1] == s[k]);
            }
        }
    }
}

proof fn lemma_url_id(s: Seq<char>)
    ensures
        url_parts(s) matches Some(parts) ==> known_kind(parts.0) && parts.1.len() > 0
            && is_ascii_alnum(parts.1.last()),
    decreases s.len(),
{
    if s.len() > 0 {
        if url_here(s) is None {
            lemma_url_id(s.skip(1));
        } else {
            reveal_strlit("https://open.spotify.com/");
            let t = if "https://open.spotify.com/"@.is_prefix_of(s) {
                s.skip(25)
            } else {
                s.skip(24)
            };
            let u = if "track/"@.is_prefix_of(t) || "album/"@.is_prefix_of(t) {
                t.skip(6)
            } else {
                t.skip(9)
            };
            lemma_alnum_run_is_alnum(u);
            let n = alnum_run(u) as int;
            assert(u.take(n).last() == u[n - 1]);
        }
    }
}

/// What is looked up for a link is what the link names: the uri carried has
/// its kind and its id, the lookup is of that kind, and looking that uri up
/// again comes to the same.
pub proof fn a_lookup_is_of_what_the_link_names(query: Seq<char>, limit: u8, other: u8)
    requires
        link_parts(trimmed(query)) is Some,
    ensures
        ({
            let (kind, id) = link_parts(trimmed(query))->0;
            let lookup = lookup_of(query, limit);
            &&& carried(lookup) matches Some((uri, of)) && of == id && uri_parts(uri) == Some(
                (kind, id),
            ) && lookup_of(uri, other) == lookup
            &&& (lookup is Track) == (kind == "track"@)
            &&& (lookup is Album) == (kind == "album"@)
            &&& (lookup is Playlist) == (kind == "playlist"@)
        }),
{
    let s = trimmed(query);
    let (kind, id) = link_parts(s)->0;
    let uri = uri_of(kind, id);
    lemma_url_id(s);
    a_uri_names_what_it_is_made_of(kind, id);
    reveal_strlit("spotify:");
    reveal_strlit(":");
    reveal_strlit("track");
    reveal_strlit("album");
    reveal_strlit("playlist");
    assert("track"@.len() == 5);
    assert("track"@[0] != "album"@[0]);
    if uri_parts(s) is Some {
        lemma_uri_puts_together(s, kind, id);
        lemma_trimmed_end(query);
        assert(uri.last() == s.last());
    } else {
        assert(uri.last() == id.last());
    }
    assert(uri[0] == 's');
    crate::text::nothing_to_trim(uri);
}

proof fn lemma_trimmed_end(s: Seq<char>)
    ensures
        trimmed(s).len() > 0 ==> !is_white(trimmed(s).last()),
{
    let t = crate::text::trimmed_start(s);
    lemma_no_white_at_the_end(t);
}

proof fn lemma_no_white_at_the_end(s: Seq<char>)
    ensures
        crate::text::trailing_white(s) <= s.len(),
        crate::text::trimmed_end(s).len() > 0 ==> !is_white(crate::text::trimmed_end(s).last()),
    decreases s.len(),
{
    if s.len() > 0 && is_white(s.last()) {
        lemma_no_white_at_the_end(s.drop_last());
        let d = s.drop_last();
        assert(crate::text::trimmed_end(s) =~= crate::text::trimmed_end(d));
    } else {
        assert(crate::text::trimmed_end(s) =~= s);
    }
}

/// Anything that names nothing is searched for, word for word.
pub proof fn other_text_is_searched_for(query: Seq<char>, limit: u8)
    requires
        carried(lookup_of(query, limit)) is None,
    ensures
        link_parts(trimmed(query)) is None,
        lookup_of(query, limit) == (LookupView::Search { query, limit }),
{
}

proof fn lemma_kind_and_id(kind: Seq<char>, id: Seq<char>, rest: Seq<char>)
    requires
        known_kind(kind),
        id.len() > 0,
        forall|k: int| 0 <= k < id.len() ==> is_ascii_alnum(#[trigger] id[k]),
        rest.len() > 0 ==> !is_ascii_alnum(rest[0]),
    ensures
        kind_and_id(kind + "/"@ + id + rest) == Some((kind, id)),
{
    reveal_strlit("/");
    reveal_strlit("track");
    reveal_strlit("track/");
    reveal_strlit("album");
    reveal_strlit("album/");
    reveal_strlit("playlist");
    reveal_strlit("playlist/");
    let t = kind + "/"@ + id + rest;
    let named = kind + "/"@;
    let n = named.len() as int;
    assert(t.subrange(0, n) =~= named);
    assert(t.skip(n) =~= id + rest);
    assert forall|k: int| 0 <= k < id.len() implies is_ascii_alnum(#[trigger] (id + rest)[k]) by {
        assert((id + rest)[k] == id[k]);
    }
    lemma_alnum_run(id + rest, id.len() as int);
    assert((id + rest).take(id.len() as int) =~= id);
    if kind == "track"@ {
        assert(named =~= "track/"@);
    } else {
        assert(t[0] == kind[0]);
        if "track/"@.is_prefix_of(t) {
            assert(t.subrange(0, 6)[0] == "track/"@[0]);
        }
        if kind == "album"@ {
            assert(named =~= "album/"@);
        } else {
            assert(named =~= "playlist/"@);
            if "album/"@.is_prefix_of(t) {
                assert(t.subrange(0, 6)[0] == "album/"@[0]);
            }
        }
    }
}

proof fn lemma_url_of(kind: Seq<char>, id: Seq<char>, rest: Seq<char>)
    requires
        known_kind(kind),
        id.len() > 0,
        forall|k: int| 0 <= k < id.len() ==> is_ascii_alnum(#[trigger] id[k]),
        rest.len() > 0 ==> !is_ascii_alnum(rest[0]),
    ensures
        link_parts("https://open.spotify.com/"@ + kind + "/"@ + id + rest) == Some((kind, id)),
{
    let host = "https://open.spotify.com/"@;
    let link = host + kind + "/"@ + id + rest;
    reveal_strlit("https://open.spotify.com/");
    assert(host.len() == 25);
    assert(host =~= link.subrange(0, 25));
    assert(link.skip(25) =~= kind + "/"@ + id + rest);
    lemma_kind_and_id(kind, id, rest);
    assert(url_here(link) == Some((kind, id)));
    assert(link[0] == 'h');
    if "spotify:"@.is_prefix_of(link) {
        reveal_strlit("spotify:");
        assert(link.subrange(0, 8)[0] == "spotify:"@[0]);
    }
}

/// A link to the web player is looked up like the uri of what it shows,
/// whatever follows the id.
pub proof fn a_web_link_is_looked_up_like_a_uri(
    kind: Seq<char>,
    id: Seq<char>,
    rest: Seq<char>,
    limit: u8,
)
    requires
        known_kind(kind),
        id.len() > 0,
        forall|k: int| 0 <= k < id.len() ==> is_ascii_alnum(#[trigger] id[k]),
        rest.len() > 0 ==> !is_ascii_alnum(rest[0]) && !is_white(rest.last()),
    ensures
        lookup_of("https://open.spotify.com/"@ + kind + "/"@ + id + rest, limit) == lookup_of(
            uri_of(kind, id),
            limit,
        ),
        carried(lookup_of(uri_of(kind, id), limit)) == Some((uri_of(kind, id), id)),
{
    let link = "https://open.spotify.com/"@ + kind + "/"@ + id + rest;
    let uri = uri_of(kind, id);
    reveal_strlit("https://open.spotify.com/");
    reveal_strlit("spotify:");
    assert(is_ascii_alnum(id[id.len() - 1]));
    assert(link.last() == (if rest.len() > 0 {
        rest.last()
    } else {
        id.last()
    }));
    assert(link[0] == 'h');
    crate::text::nothing_to_trim(link);
    assert(uri[0] == 's');
    assert(uri.last() == id.last());
    crate::text::nothing_to_trim(uri);
    a_uri_names_what_it_is_made_of(kind, id);
    lemma_url_of(kind, id, rest);
}

/// The link that is shown for a track leads back to that track.
pub proof fn the_link_of_a_track_leads_back_to_it(track: crate::track::TrackView, limit: u8)
    requires
        track.id().len() > 0,
        forall|k: int| 0 <= k < track.id().len() ==> is_ascii_alnum(#[trigger] track.id()[k]),
    ensures
        lookup_of(track.web_url(), limit) == (LookupView::Track {
            uri: uri_of("track"@, track.id()),
            id: track.id(),
        }),
{
    let none = Seq::<char>::empty();
    a_web_link_is_looked_up_like_a_uri("track"@, track.id(), none, limit);
    reveal_strlit("https://open.spotify.com/");
    reveal_strlit("https://open.spotify.com/track/");
    reveal_strlit("track");
    reveal_strlit("/");
    assert("https://open.spotify.com/"@ + "track"@ + "/"@ =~= "https://open.spotify.com/track/"@);
    assert(track.web_url() =~= "https://open.spotify.com/"@ + "track"@ + "/"@ + track.id() + none);
    a_uri_names_what_it_is_made_of("track"@, track.id());
    reveal_strlit("spotify:");
    let uri = uri_of("track"@, track.id());
    assert(uri[0] == 's');
    assert(is_ascii_alnum(track.id()[track.id().len() - 1]));
    assert(uri.last() == track.id().last());
    crate::text::nothing_to_trim(uri);
}

/// A uri that Spotify's rules do not allow is never fetched; one that they
/// allow is fetched unchanged.
pub proof fn only_readable_uris_are_fetched(query: Seq<char>, limit: u8)
    ensures
        settled(lookup_of(query, limit), readable(lookup_of(query, limit))) matches Ok(lookup)
            ==> readable(lookup) && (carried(lookup) is Some ==> lookup == lookup_of(query, limit)),
        readable(lookup_of(query, limit)) ==> settled(
            lookup_of(query, limit),
            readable(lookup_of(query, limit)),
        ) is Ok,
{
}

/// The radio plays every track of the station that has a uri, in the order of
/// the station, and nothing else.
pub proof fn the_radio_keeps_the_order_of_the_station(
    a: Seq<JsonView>,
    b: Seq<JsonView>,
    track: JsonView,
)
    ensures
        uris_among(a + b) == uris_among(a) + uris_among(b),
        member(track, "uri"@) matches JsonView::Text(uri) ==> uris_among(seq![track]) == seq![uri],
        !(member(track, "uri"@) is Text) ==> uris_among(seq![track]).len() == 0,
        uris_among(Seq::empty()).len() == 0,
    decreases b.len(),
{
    if b.len() == 0 {
        assert(a + b =~= a);
        assert(uris_among(a) + uris_among(b) =~= uris_among(a));
    } else {
        the_radio_keeps_the_order_of_the_station(a, b.drop_last(), track);
        assert((a + b).drop_last() =~= a + b.drop_last());
        assert(uris_among(a + b) =~= uris_among(a) + uris_among(b));
    }
    assert(seq![track].drop_last() =~= Seq::<JsonView>::empty());
    assert(uris_among(Seq::<JsonView>::empty()) =~= Seq::<Seq<char>>::empty());
    assert(Seq::<Seq<char>>::empty().push(member(track, "uri"@)->Text_0) =~= seq![
        member(track, "uri"@)->Text_0,
    ]);
}

/// A station without a playable track is no result, and what could not be read
/// is told; anything else is played whole.
pub proof fn a_station_is_played_whole(reading: Reading)
    ensures
        match radio_answer(reading) {
            Ok(uris) => reading matches Ok(station) && uris.len() > 0 && (member(
                station,
                "tracks"@,
            ) matches JsonView::List(tracks) && uris == uris_among(tracks)),
            Err(ErrorView::Playback(text)) => reading matches Err(why) && why.is_suffix_of(text),
            Err(e) => reading is Ok,
        },
{
    if let Err(why) = reading {
        let text = "Radio parse failed: "@ + why;
        assert(why =~= text.subrange(text.len() - why.len(), text.len() as int));
    }
}

/// The reason for a failure is told behind what failed.
pub proof fn a_failed_fetch_tells_the_reason(what: Fetching, text: Seq<char>)
    ensures
        fetch_failure(what, text) matches ErrorView::Playback(told) && text.is_suffix_of(told)
            && told.len() > text.len(),
{
    reveal_strlit("Failed to fetch track metadata: ");
    reveal_strlit("Failed to fetch album metadata: ");
    reveal_strlit("Failed to fetch playlist metadata: ");
    reveal_strlit("Failed to fetch artist metadata: ");
    reveal_strlit("Radio fetch failed: ");
    reveal_strlit("Invalid seed URI: ");
    reveal_strlit("Search failed: ");
    if let ErrorView::Playback(told) = fetch_failure(what, text) {
        assert(text =~= told.subrange(told.len() - text.len(), told.len() as int));
    }
}

} // verus!
