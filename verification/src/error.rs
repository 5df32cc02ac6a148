//! What can go wrong.
use vstd::prelude::*;
use vstd::string::*;

verus! {

#[derive(Debug)]
pub enum BotError {
    Config(String),
    SpotifyAuth(String),
    Playback(String),
    NoResults,
    TeamTalk(String),
    Audio(String),
    Io(String),
    Http(String),
    ChannelSend(String),
    Usage(String),
}

/// An error with its text as a sequence of characters.
pub enum ErrorView {
    Config(Seq<char>),
    SpotifyAuth(Seq<char>),
    Playback(Seq<char>),
    NoResults,
    TeamTalk(Seq<char>),
    Audio(Seq<char>),
    Io(Seq<char>),
    Http(Seq<char>),
    ChannelSend(Seq<char>),
    Usage(Seq<char>),
}

impl View for BotError {
    type V = ErrorView;

    open spec fn view(&self) -> ErrorView {
        match *self {
            BotError::Config(text) => ErrorView::Config(text@),
            BotError::SpotifyAuth(text) => ErrorView::SpotifyAuth(text@),
            BotError::Playback(text) => ErrorView::Playback(text@),
            BotError::NoResults => ErrorView::NoResults,
            BotError::TeamTalk(text) => ErrorView::TeamTalk(text@),
            BotError::Audio(text) => ErrorView::Audio(text@),
            BotError::Io(text) => ErrorView::Io(text@),
            BotError::Http(text) => ErrorView::Http(text@),
            BotError::ChannelSend(text) => ErrorView::ChannelSend(text@),
            BotError::Usage(text) => ErrorView::Usage(text@),
        }
    }
}

impl ErrorView {
    /// The error as it is shown.
    pub open spec fn message(self) -> Seq<char> {
        match self {
            ErrorView::Config(text) => "Config: "@ + text,
            ErrorView::SpotifyAuth(text) => "Spotify auth: "@ + text,
            ErrorView::Playback(text) => "Spotify playback: "@ + text,
            ErrorView::NoResults => "No results found"@,
            ErrorView::TeamTalk(text) => "TeamTalk: "@ + text,
            ErrorView::Audio(text) => "Audio pipeline: "@ + text,
            ErrorView::Io(text) => "IO: "@ + text,
            ErrorView::Http(text) => "HTTP: "@ + text,
            ErrorView::ChannelSend(text) => "Channel send error: "@ + text,
            ErrorView::Usage(text) => text,
        }
    }
}

fn labelled(label: &str, text: &str) -> (r: String)
    ensures
        r@ == label@ + text@,
{
    let mut out = label.to_owned();
    out.append(text);
    out
}

impl BotError {
    /// The error as it is shown.
    pub fn message(&self) -> (r: String)
        ensures
            r@ == self@.message(),
    {
        match self {
            BotError::Config(text) => labelled("Config: ", text.as_str()),
            BotError::SpotifyAuth(text) => labelled("Spotify auth: ", text.as_str()),
            BotError::Playback(text) => labelled("Spotify playback: ", text.as_str()),
            BotError::NoResults => String::from_str("No results found"),
            BotError::TeamTalk(text) => labelled("TeamTalk: ", text.as_str()),
            BotError::Audio(text) => labelled("Audio pipeline: ", text.as_str()),
            BotError::Io(text) => labelled("IO: ", text.as_str()),
            BotError::Http(text) => labelled("HTTP: ", text.as_str()),
            BotError::ChannelSend(text) => labelled("Channel send error: ", text.as_str()),
            BotError::Usage(text) => text.clone(),
        }
    }
}

/// What was said about a failure is always shown, whole and last.
pub proof fn the_text_of_an_error_is_shown(text: Seq<char>)
    ensures
        text.is_suffix_of(ErrorView::Config(text).message()),
        text.is_suffix_of(ErrorView::SpotifyAuth(text).message()),
        text.is_suffix_of(ErrorView::Playback(text).message()),
        text.is_suffix_of(ErrorView::TeamTalk(text).message()),
        text.is_suffix_of(ErrorView::Audio(text).message()),
        text.is_suffix_of(ErrorView::Io(text).message()),
        text.is_suffix_of(ErrorView::Http(text).message()),
        text.is_suffix_of(ErrorView::ChannelSend(text).message()),
        ErrorView::Usage(text).message() == text,
{
    lemma_ends_with("Config: "@, text);
    lemma_ends_with("Spotify auth: "@, text);
    lemma_ends_with("Spotify playback: "@, text);
    lemma_ends_with("TeamTalk: "@, text);
    lemma_ends_with("Audio pipeline: "@, text);
    lemma_ends_with("IO: "@, text);
    lemma_ends_with("HTTP: "@, text);
    lemma_ends_with("Channel send error: "@, text);
}

proof fn lemma_ends_with(label: Seq<char>, text: Seq<char>)
    ensures
        text.is_suffix_of(label + text),
{
    let all = label + text;
    assert(all.subrange(all.len() - text.len(), all.len() as int) =~= text);
}

} // verus!
