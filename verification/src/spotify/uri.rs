//! Spotify uris, as librespot reads and writes them.
use vstd::prelude::*;

use crate::error::{BotError, ErrorView};
use crate::services::Service;
use crate::spotify::metadata::{fetch_error, fetch_failure, Fetching};

verus! {

/// A Spotify uri that was understood, in the texts that librespot gives for it.
#[derive(Debug)]
pub struct SpotifyUri {
    /// The part that names the item, where it can be written.
    pub id: Option<String>,
    /// The whole uri in its canonical form, or why it cannot be written.
    pub uri: Result<String, String>,
}

/// A uri with its texts as sequences of characters.
pub struct UriView {
    pub id: Option<Seq<char>>,
    pub uri: Result<Seq<char>, Seq<char>>,
}

impl View for SpotifyUri {
    type V = UriView;

    open spec fn view(&self) -> UriView {
        UriView {
            id: (match self.id {
                Some(id) => Some(id@),
                None => None,
            }),
            uri: (match self.uri {
                Ok(text) => Ok(text@),
                Err(text) => Err(text@),
            }),
        }
    }
}

/// A uri, where there is one, as its texts.
pub open spec fn uri_view(r: Option<SpotifyUri>) -> Option<UriView> {
    match r {
        Some(uri) => Some(uri@),
        None => None,
    }
}

/// What `librespot_core::SpotifyUri::from_uri` makes of a text.
pub uninterp spec fn uri_of_text(text: Seq<char>) -> Option<UriView>;

/// `librespot_core::SpotifyUri::from_uri`, with what `to_id` and `to_uri` say
/// of the uri that was read. All of it depends on the text alone. Which texts
/// are read, and how an id is written, is not stated here.
#[verifier::external_body]
fn read_uri(text: &str) -> (r: Option<SpotifyUri>)
    ensures
        uri_view(r) == uri_of_text(text@),
{
    let uri = librespot_core::SpotifyUri::from_uri(text).ok()?;
    Some(SpotifyUri { id: uri.to_id().ok(), uri: uri.to_uri().map_err(|e| e.to_string()) })
}

/// Read a uri. Nothing comes of one that Spotify's rules do not allow.
pub fn parse_uri(text: &str) -> (r: Option<SpotifyUri>)
    ensures
        uri_view(r) == uri_of_text(text@),
{
    read_uri(text)
}

/// The id of a uri, or nothing where it cannot be written.
pub open spec fn id_text(uri: UriView) -> Seq<char> {
    match uri.id {
        Some(id) => id,
        None => ""@,
    }
}

/// Whether a player takes a track at all: a Spotify track needs a uri that can
/// be read, a YouTube track is only tried.
pub fn startable(service: Service, uri: &str) -> (r: bool)
    ensures
        r == (service == Service::Spotify ==> uri_of_text(uri@) is Some),
{
    match service {
        Service::Spotify => read_uri(uri).is_some(),
        Service::YouTube => true,
    }
}

/// What the radio is asked with for a seed.
pub open spec fn station_of(seed: UriView) -> Result<Seq<char>, ErrorView> {
    match seed.uri {
        Ok(text) => Ok(text),
        Err(text) => Err(fetch_failure(Fetching::Seed, text)),
    }
}

/// A text or an error, as sequences of characters.
pub open spec fn station_view(r: Result<String, BotError>) -> Result<Seq<char>, ErrorView> {
    match r {
        Ok(text) => Ok(text@),
        Err(e) => Err(e@),
    }
}

/// The uri that the radio is asked with, from a seed that was read.
pub fn station(seed: SpotifyUri) -> (r: Result<String, BotError>)
    ensures
        station_view(r) == station_of(seed@),
{
    match seed.uri {
        Ok(text) => Ok(text),
        Err(text) => Err(fetch_error(Fetching::Seed, text.as_str())),
    }
}

/// The uri that the radio is asked with for a seed. Nothing is asked for a
/// seed that cannot be read.
pub fn station_for(seed_uri: &str) -> (r: Option<Result<String, BotError>>)
    ensures
        match uri_of_text(seed_uri@) {
            Some(seed) => r matches Some(asked) && station_view(asked) == station_of(seed),
            None => r is None,
        },
{
    match read_uri(seed_uri) {
        Some(seed) => Some(station(seed)),
        None => None,
    }
}

} // verus!
