//! Service-agnostic track wrapper.
//!
//! Each queue entry carries a `Track` rather than a service-specific struct,
//! so the queue can mix Spotify and YouTube items freely. The wrapper
//! preserves the inner type so service-specific fields stay accessible
//! when needed (e.g. radio recommendations require a Spotify URI).
use vstd::prelude::*;
use vstd::string::*;

use crate::services::Service;
use crate::spotify::types::{SpotifyTrack, SpotifyTrackView};

verus! {

#[derive(Debug)]
pub enum Track {
    Spotify(SpotifyTrack),
}

/// A track as its text and its length.
pub enum TrackView {
    Spotify(SpotifyTrackView),
}

impl View for Track {
    type V = TrackView;

    open spec fn view(&self) -> TrackView {
        match self {
            Track::Spotify(t) => TrackView::Spotify(t@),
        }
    }
}

impl Clone for Track {
    fn clone(&self) -> (r: Self)
        ensures
            r@ == self@,
    {
        match self {
            Track::Spotify(t) => Track::Spotify(t.clone()),
        }
    }
}

impl TrackView {
    pub open spec fn service(self) -> Service {
        match self {
            TrackView::Spotify(_) => Service::Spotify,
        }
    }

    pub open spec fn id(self) -> Seq<char> {
        match self {
            TrackView::Spotify(t) => t.id,
        }
    }

    pub open spec fn uri(self) -> Seq<char> {
        match self {
            TrackView::Spotify(t) => t.uri,
        }
    }

    /// The link to the track in the web player.
    pub open spec fn web_url(self) -> Seq<char> {
        match self {
            TrackView::Spotify(t) => "https://open.spotify.com/track/"@ + t.id,
        }
    }

    pub open spec fn duration_ms(self) -> u32 {
        match self {
            TrackView::Spotify(t) => t.duration_ms,
        }
    }

    pub open spec fn display_name(self) -> Seq<char> {
        match self {
            TrackView::Spotify(t) => t.display_name(),
        }
    }

    pub open spec fn duration_display(self) -> Seq<char> {
        match self {
            TrackView::Spotify(t) => t.duration_display(),
        }
    }
}

impl Track {
    pub fn service(&self) -> (r: Service)
        ensures
            r == self@.service(),
    {
        match self {
            Track::Spotify(_) => Service::Spotify,
        }
    }

    pub fn id(&self) -> (r: &str)
        ensures
            r@ == self@.id(),
    {
        match self {
            Track::Spotify(t) => t.id.as_str(),
        }
    }

    pub fn uri(&self) -> (r: &str)
        ensures
            r@ == self@.uri(),
    {
        match self {
            Track::Spotify(t) => t.uri.as_str(),
        }
    }

    /// The link to the track in the web player.
    pub fn web_url(&self) -> (r: String)
        ensures
            r@ == self@.web_url(),
    {
        match self {
            Track::Spotify(t) => {
                let mut out = String::from_str("https://open.spotify.com/track/");
                out.append(t.id.as_str());
                out
            },
        }
    }

    pub fn duration_ms(&self) -> (r: u32)
        ensures
            r == self@.duration_ms(),
    {
        match self {
            Track::Spotify(t) => t.duration_ms,
        }
    }

    pub fn display_name(&self) -> (r: String)
        ensures
            r@ == self@.display_name(),
    {
        match self {
            Track::Spotify(t) => t.display_name(),
        }
    }

    pub fn duration_display(&self) -> (r: String)
        ensures
            r@ == self@.duration_display(),
    {
        match self {
            Track::Spotify(t) => t.duration_display(),
        }
    }
}

impl vstd::std_specs::convert::FromSpecImpl<SpotifyTrack> for Track {
    open spec fn obeys_from_spec() -> bool {
        true
    }

    open spec fn from_spec(t: SpotifyTrack) -> Track {
        Track::Spotify(t)
    }
}

impl From<SpotifyTrack> for Track {
    fn from(t: SpotifyTrack) -> Self {
        Track::Spotify(t)
    }
}

} // verus!
