//! Music service identity and per-service capabilities.
//!
//! `Service` tags every queue entry with the provider it came from, and is
//! also kept on `PlayerState` as the active service: the one that commands
//! like `p <query>` target.
use vstd::prelude::*;

use crate::text::{lowercase, same, to_lower, trim, trimmed};

verus! {

#[derive(Debug, Clone, Copy, PartialEq, Eq, Hash, Structural)]
pub enum Service {
    Spotify,
    YouTube,
}

impl Default for Service {
    fn default() -> (r: Self)
        ensures
            r == Service::Spotify,
    {
        Service::Spotify
    }
}

/// The service that a word names once it is trimmed and in lower case.
pub open spec fn named_service(word: Seq<char>) -> Option<Service> {
    if word == "spotify"@ || word == "sp"@ || word == "s"@ {
        Some(Service::Spotify)
    } else if word == "youtube"@ || word == "yt"@ || word == "y"@ {
        Some(Service::YouTube)
    } else {
        None
    }
}

/// Read a service from a trimmed word in lower case.
pub fn service_of_word(word: &str) -> (r: Option<Service>)
    ensures
        r == named_service(word@),
{
    if same(word, "spotify") || same(word, "sp") || same(word, "s") {
        Some(Service::Spotify)
    } else if same(word, "youtube") || same(word, "yt") || same(word, "y") {
        Some(Service::YouTube)
    } else {
        None
    }
}

impl Service {
    pub open spec fn marker_spec(self) -> Seq<char> {
        match self {
            Service::Spotify => "SP"@,
            Service::YouTube => "YT"@,
        }
    }

    /// Short tag rendered in `queue` listings, e.g. `[SP]` / `[YT]`.
    pub fn marker(self) -> (r: &'static str)
        ensures
            r@ == self.marker_spec(),
    {
        match self {
            Service::Spotify => "SP",
            Service::YouTube => "YT",
        }
    }

    pub open spec fn name_spec(self) -> Seq<char> {
        match self {
            Service::Spotify => "Spotify"@,
            Service::YouTube => "YouTube"@,
        }
    }

    pub fn name(self) -> (r: &'static str)
        ensures
            r@ == self.name_spec(),
    {
        match self {
            Service::Spotify => "Spotify",
            Service::YouTube => "YouTube",
        }
    }

    /// Parse common spellings ("spotify", "Spotify", "yt", "youtube", etc.),
    /// or `None` when it names no service.
    pub fn parse(s: &str) -> (r: Option<Self>)
        ensures
            r == named_service(lowercase(trimmed(s@))),
    {
        let word = to_lower(trim(s));
        service_of_word(word.as_str())
    }

    /// Parse common spellings. Unrecognized input falls through to `default()`.
    pub fn parse_or_default(s: &str) -> (r: Self)
        ensures
            r == (match named_service(lowercase(trimmed(s@))) {
                Some(service) => service,
                None => Service::Spotify,
            }),
    {
        match Service::parse(s) {
            Some(service) => service,
            None => Service::default(),
        }
    }
}

/// The services are told apart by their names and by their marks.
pub proof fn services_are_told_apart(a: Service, b: Service)
    requires
        a.name_spec() == b.name_spec() || a.marker_spec() == b.marker_spec(),
    ensures
        a == b,
{
    reveal_strlit("Spotify");
    reveal_strlit("YouTube");
    reveal_strlit("SP");
    reveal_strlit("YT");
    assert("Spotify"@[0] == 'S' && "YouTube"@[0] == 'Y');
    assert("SP"@[0] == 'S' && "YT"@[0] == 'Y');
}

/// A service is read from its own name, in lower case, and from its mark.
pub proof fn a_service_is_read_from_its_name(service: Service)
    ensures
        named_service(crate::text::folded(service.name_spec())) == Some(service),
        named_service(crate::text::folded(service.marker_spec())) == Some(service),
{
    reveal_strlit("Spotify");
    reveal_strlit("YouTube");
    reveal_strlit("SP");
    reveal_strlit("YT");
    reveal_strlit("spotify");
    reveal_strlit("youtube");
    reveal_strlit("sp");
    reveal_strlit("yt");
    reveal_strlit("s");
    reveal_strlit("y");
    assert(crate::text::folded("Spotify"@) =~= "spotify"@);
    assert(crate::text::folded("YouTube"@) =~= "youtube"@);
    assert(crate::text::folded("SP"@) =~= "sp"@);
    assert(crate::text::folded("YT"@) =~= "yt"@);
    assert("spotify"@[0] == 's' && "youtube"@[0] == 'y');
    assert("sp"@[0] == 's' && "yt"@[0] == 'y' && "s"@[0] == 's' && "y"@[0] == 'y');
    assert("sp"@.len() == 2 && "s"@.len() == 1 && "spotify"@.len() == 7);
}

} // verus!
