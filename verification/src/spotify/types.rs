//! Spotify tracks and the links that name them.
use vstd::prelude::*;
use vstd::string::*;

use crate::text::{
    chars_of, clone_strings, decimal, decimal2, digits, find_from, first, is_ascii_alnum, join, joined, same,
    slice_string, strip_prefix, trim, trimmed, two_digits, views,
};

verus! {

#[derive(Debug)]
pub struct SpotifyTrack {
    pub id: String,
    pub name: String,
    pub artists: Vec<String>,
    pub album: String,
    pub duration_ms: u32,
    pub uri: String,
}

/// A track as its text and its length.
pub struct SpotifyTrackView {
    pub id: Seq<char>,
    pub name: Seq<char>,
    pub artists: Seq<Seq<char>>,
    pub album: Seq<char>,
    pub duration_ms: u32,
    pub uri: Seq<char>,
}

impl View for SpotifyTrack {
    type V = SpotifyTrackView;

    open spec fn view(&self) -> SpotifyTrackView {
        SpotifyTrackView {
            id: self.id@,
            name: self.name@,
            artists: views(self.artists@),
            album: self.album@,
            duration_ms: self.duration_ms,
            uri: self.uri@,
        }
    }
}

impl Clone for SpotifyTrack {
    fn clone(&self) -> (r: Self)
        ensures
            r@ == self@,
    {
        SpotifyTrack {
            id: self.id.clone(),
            name: self.name.clone(),
            artists: clone_strings(&self.artists),
            album: self.album.clone(),
            duration_ms: self.duration_ms,
            uri: self.uri.clone(),
        }
    }
}

impl SpotifyTrackView {
    /// The artists, separated by commas, then the name of the track.
    pub open spec fn display_name(self) -> Seq<char> {
        joined(self.artists, ", "@) + " - "@ + self.name
    }

    /// Minutes and seconds.
    pub open spec fn duration_display(self) -> Seq<char> {
        let secs = self.duration_ms as nat / 1000;
        digits(secs / 60) + ":"@ + two_digits(secs % 60)
    }
}

impl SpotifyTrack {
    pub fn display_name(&self) -> (r: String)
        ensures
            r@ == self@.display_name(),
    {
        let mut out = join(&self.artists, ", ");
        out.append(" - ");
        out.append(self.name.as_str());
        out
    }

    pub fn duration_display(&self) -> (r: String)
        ensures
            r@ == self@.duration_display(),
    {
        let secs: u32 = self.duration_ms / 1000;
        let mut out = decimal((secs / 60) as u64);
        out.append(":");
        out.append(decimal2((secs % 60) as u64).as_str());
        out
    }
}

/// What a Spotify URL or URI names.
#[derive(Debug, Clone)]
pub enum SpotifyRef {
    Track(String),
    Album(String),
    Playlist(String),
}

impl SpotifyRef {
    /// The word that stands for this kind in a link.
    pub open spec fn kind(self) -> Seq<char> {
        match self {
            SpotifyRef::Track(_) => "track"@,
            SpotifyRef::Album(_) => "album"@,
            SpotifyRef::Playlist(_) => "playlist"@,
        }
    }

    pub open spec fn id(self) -> Seq<char> {
        match self {
            SpotifyRef::Track(id) => id@,
            SpotifyRef::Album(id) => id@,
            SpotifyRef::Playlist(id) => id@,
        }
    }
}

pub open spec fn known_kind(kind: Seq<char>) -> bool {
    kind == "track"@ || kind == "album"@ || kind == "playlist"@
}

/// A link as the kind of thing that it names and its id.
pub type LinkParts = (Seq<char>, Seq<char>);

/// `spotify:kind:id`, as its kind and its id. The id is whatever follows the
/// second colon.
pub open spec fn uri_parts(s: Seq<char>) -> Option<LinkParts> {
    if "spotify:"@.is_prefix_of(s) {
        let rest = s.skip(8);
        match first(rest, ":"@) {
            Some(i) => Some((rest.take(i), rest.skip(i + 1))),
            None => None,
        }
    } else {
        None
    }
}

/// How many ASCII letters and digits `s` begins with.
pub open spec fn alnum_run(s: Seq<char>) -> nat
    decreases s.len(),
{
    if s.len() > 0 && is_ascii_alnum(s[0]) {
        1 + alnum_run(s.skip(1))
    } else {
        0
    }
}

/// The id at the start of `s`: as many letters and digits as there are.
pub open spec fn with_id(kind: Seq<char>, s: Seq<char>) -> Option<LinkParts> {
    if alnum_run(s) > 0 {
        Some((kind, s.take(alnum_run(s) as int)))
    } else {
        None
    }
}

/// `kind/id` at the start of `s`.
pub open spec fn kind_and_id(s: Seq<char>) -> Option<LinkParts> {
    if "track/"@.is_prefix_of(s) {
        with_id("track"@, s.skip(6))
    } else if "album/"@.is_prefix_of(s) {
        with_id("album"@, s.skip(6))
    } else if "playlist/"@.is_prefix_of(s) {
        with_id("playlist"@, s.skip(9))
    } else {
        None
    }
}

/// A link to the web player at the start of `s`.
pub open spec fn url_here(s: Seq<char>) -> Option<LinkParts> {
    if "https://open.spotify.com/"@.is_prefix_of(s) {
        kind_and_id(s.skip(25))
    } else if "http://open.spotify.com/"@.is_prefix_of(s) {
        kind_and_id(s.skip(24))
    } else {
        None
    }
}

/// The first link to the web player in `s`.
pub open spec fn url_parts(s: Seq<char>) -> Option<LinkParts>
    decreases s.len(),
{
    if s.len() == 0 {
        None
    } else {
        match url_here(s) {
            Some(parts) => Some(parts),
            None => url_parts(s.skip(1)),
        }
    }
}

/// The pattern of a link to the web player.
pub open spec fn url_pattern() -> Seq<char> {
    "https?://open\\.spotify\\.com/(track|album|playlist)/([a-zA-Z0-9]+)"@
}

/// `regex::Regex::new` and `regex::Regex::captures`, for the pattern of a link
/// to the web player: the texts of the two groups of the leftmost match, or
/// `None` where it matches nowhere. Repetition takes as many characters as it
/// can, so the second group is all letters and digits that follow.
#[verifier::external_body]
fn captures(pattern: &str, input: &str) -> (r: Option<(String, String)>)
    requires
        pattern@ == url_pattern(),
    ensures
        (match r {
            Some(p) => Some((p.0@, p.1@)),
            None => None,
        }) == url_parts(input@),
{
    let re = regex::Regex::new(pattern).ok()?;
    let caps = re.captures(input)?;
    let one = caps.get(1)?.as_str().to_string();
    let two = caps.get(2)?.as_str().to_string();
    Some((one, two))
}

/// What a trimmed link names, as its kind and its id: a URI first, then a
/// web player link anywhere in the text.
pub open spec fn link_parts(s: Seq<char>) -> Option<LinkParts> {
    match uri_parts(s) {
        Some((kind, id)) => if known_kind(kind) {
            Some((kind, id))
        } else {
            None
        },
        None => url_parts(s),
    }
}

fn make_ref(kind: &str, id: String) -> (r: Option<SpotifyRef>)
    ensures
        match r {
            Some(x) => known_kind(kind@) && x.kind() == kind@ && x.id() == id@,
            None => !known_kind(kind@),
        },
{
    if same(kind, "track") {
        Some(SpotifyRef::Track(id))
    } else if same(kind, "album") {
        Some(SpotifyRef::Album(id))
    } else if same(kind, "playlist") {
        Some(SpotifyRef::Playlist(id))
    } else {
        None
    }
}

proof fn lemma_url_kind(s: Seq<char>)
    ensures
        url_parts(s) matches Some(parts) ==> known_kind(parts.0),
    decreases s.len(),
{
    if s.len() > 0 && url_here(s) is None {
        lemma_url_kind(s.skip(1));
    }
}

/// Parse a Spotify URL or URI.
/// Supports:
/// - spotify:track:ID
/// - spotify:album:ID
/// - spotify:playlist:ID
/// - https://open.spotify.com/track/ID?si=...
/// - https://open.spotify.com/album/ID
/// - https://open.spotify.com/playlist/ID
pub fn parse_spotify_ref(input: &str) -> (r: Option<SpotifyRef>)
    ensures
        match link_parts(trimmed(input@)) {
            Some((kind, id)) => r matches Some(x) && x.kind() == kind && x.id() == id,
            None => r is None,
        },
{
    let input = trim(input);
    proof {
        reveal_strlit("spotify:");
        reveal_strlit(":");
        lemma_url_kind(input@);
    }
    if let Some(rest) = strip_prefix(input, "spotify:") {
        let v = chars_of(rest);
        let colon = chars_of(":");
        if let Some(i) = find_from(&v, &colon, 0) {
            let kind = slice_string(&v, 0, i);
            let id = slice_string(&v, i + 1, v.len());
            assert(v@.subrange(0, i as int) =~= v@.take(i as int));
            assert(v@.subrange(i + 1, v.len() as int) =~= v@.skip(i + 1));
            return make_ref(kind.as_str(), id);
        }
    }
    match captures(
        "https?://open\\.spotify\\.com/(track|album|playlist)/([a-zA-Z0-9]+)",
        input,
    ) {
        Some((kind, id)) => make_ref(kind.as_str(), id),
        None => None,
    }
}

/// The length of a track is shown as minutes and seconds that make up all of
/// its whole seconds.
pub proof fn a_duration_shows_all_of_its_seconds(track: SpotifyTrackView)
    ensures
        exists|minutes: nat, seconds: nat|
            {
                &&& #[trigger] (minutes * 60 + seconds) == track.duration_ms as nat / 1000
                &&& seconds < 60
                &&& #[trigger] (digits(minutes) + ":"@ + two_digits(seconds))
                    == track.duration_display()
            },
{
    let secs = track.duration_ms as nat / 1000;
    let minutes = secs / 60;
    let seconds = secs % 60;
    assert(minutes * 60 + seconds == secs);
    assert(digits(minutes) + ":"@ + two_digits(seconds) == track.duration_display());
}

/// The artists come first in a name, then the title, and the title whole.
pub proof fn a_name_ends_with_the_title(track: SpotifyTrackView)
    ensures
        track.name.is_suffix_of(track.display_name()),
        joined(track.artists, ", "@).is_prefix_of(track.display_name()),
{
    let all = track.display_name();
    let front = joined(track.artists, ", "@);
    assert(all.subrange(all.len() - track.name.len(), all.len() as int) =~= track.name);
    assert(all.subrange(0, front.len() as int) =~= front);
}

} // verus!
