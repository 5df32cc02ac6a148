//! Lightweight i18n engine.
//!
//! English is built in and is both the fallback and the translator's template.
//! Other languages are plain `key = value` text files
//! (`<config_dir>/lang/<code>.lang`) loaded at startup. Any missing key or
//! unknown language falls back to English, so a partial translation never
//! breaks a reply.
//!
//! Templates use named `{slot}` placeholders. Translators may move a slot
//! anywhere in their sentence (substitution is by name, not position), but
//! must not rename slots or invent new ones; an unknown slot is left visible
//! rather than silently dropped.
use vstd::prelude::*;
use vstd::string::*;

use crate::text::{
    chars_of, find_from, first, first_from, in_order, is_one_of, lemma_first_from,
    lemma_views_push, lines, lowercase, replace, replaced, same, slice_string, sort_strings,
    split_lines, strip_suffix, to_lower, trim, trimmed, views,
};

verus! {

/// The language code of the built-in fallback catalog.
pub const ENGLISH: &'static str = "en";

/// Special `.lang` entry holding the language's own display name.
pub const LANGUAGE_NAME_KEY: &'static str = "language_name";

/// A translatable message. One variant per string the bot actually sends; the
/// id is the key used in `.lang` files.
#[derive(Clone, Copy, PartialEq, Eq, Debug, Structural)]
pub enum Key {
    SearchCancelled,
    VolumeRange,
    VolumeSet,
    VolumeShow,
    SeekForward,
    SeekBackward,
    SeekUsage,
    Searching,
    LoadingTrack,
    NothingToPlay,
    RestartingTrack,
    LoadingLiked,
    CurrentTrack,
    NothingPlaying,
    QueueCleared,
    IndexStartsAtOne,
    Removed,
    NoTrackAtPosition,
    QueueRmUsage,
    ModeRepeatTrack,
    ModeRepeatQueue,
    ModeOff,
    ModeUsage,
    ShuffleUsage,
    ShuffleOn,
    ShuffleOff,
    SearchResultsHeader,
    SearchResultsFooter,
    SearchUsage,
    PickUsage,
    PickTooLow,
    RadioAlreadyOn,
    RadioEnabled,
    RadioAlreadyOff,
    RadioDisabled,
    RadioStatusOn,
    RadioStatusOff,
    AlreadyOnService,
    SwitchedService,
    Nickname,
    GenderSet,
    GenderUsage,
    Info,
    LangSet,
    Stats,
    HelpUnknown,
    HelpPlay,
    HelpStop,
    HelpNext,
    HelpPrev,
    HelpReplay,
    HelpCurrent,
    HelpQueue,
    HelpMode,
    HelpShuffle,
    HelpVolume,
    HelpSeek,
    HelpSearch,
    HelpRadio,
    HelpLink,
    HelpStats,
    HelpJc,
    HelpLang,
    HelpGlang,
    HelpCn,
    HelpGender,
    HelpService,
    HelpRestart,
    HelpQuit,
    HelpOverviewPlayback,
    HelpOverviewSpotify,
    HelpOverviewRest,
    HelpOverviewAdmin,
    HelpOverviewFooter,
}

impl Key {
    pub open spec fn id_spec(self) -> Seq<char> {
        match self {
            Key::SearchCancelled => "search_cancelled"@,
            Key::VolumeRange => "volume_range"@,
            Key::VolumeSet => "volume_set"@,
            Key::VolumeShow => "volume_show"@,
            Key::SeekForward => "seek_forward"@,
            Key::SeekBackward => "seek_backward"@,
            Key::SeekUsage => "seek_usage"@,
            Key::Searching => "searching"@,
            Key::LoadingTrack => "loading_track"@,
            Key::NothingToPlay => "nothing_to_play"@,
            Key::RestartingTrack => "restarting_track"@,
            Key::LoadingLiked => "loading_liked"@,
            Key::CurrentTrack => "current_track"@,
            Key::NothingPlaying => "nothing_playing"@,
            Key::QueueCleared => "queue_cleared"@,
            Key::IndexStartsAtOne => "index_starts_at_one"@,
            Key::Removed => "removed"@,
            Key::NoTrackAtPosition => "no_track_at_position"@,
            Key::QueueRmUsage => "queue_rm_usage"@,
            Key::ModeRepeatTrack => "mode_repeat_track"@,
            Key::ModeRepeatQueue => "mode_repeat_queue"@,
            Key::ModeOff => "mode_off"@,
            Key::ModeUsage => "mode_usage"@,
            Key::ShuffleUsage => "shuffle_usage"@,
            Key::ShuffleOn => "shuffle_on"@,
            Key::ShuffleOff => "shuffle_off"@,
            Key::SearchResultsHeader => "search_results_header"@,
            Key::SearchResultsFooter => "search_results_footer"@,
            Key::SearchUsage => "search_usage"@,
            Key::PickUsage => "pick_usage"@,
            Key::PickTooLow => "pick_too_low"@,
            Key::RadioAlreadyOn => "radio_already_on"@,
            Key::RadioEnabled => "radio_enabled"@,
            Key::RadioAlreadyOff => "radio_already_off"@,
            Key::RadioDisabled => "radio_disabled"@,
            Key::RadioStatusOn => "radio_status_on"@,
            Key::RadioStatusOff => "radio_status_off"@,
            Key::AlreadyOnService => "already_on_service"@,
            Key::SwitchedService => "switched_service"@,
            Key::Nickname => "nickname"@,
            Key::GenderSet => "gender_set"@,
            Key::GenderUsage => "gender_usage"@,
            Key::Info => "info"@,
            Key::LangSet => "lang_set"@,
            Key::Stats => "stats"@,
            Key::HelpUnknown => "help_unknown"@,
            Key::HelpPlay => "help_play"@,
            Key::HelpStop => "help_stop"@,
            Key::HelpNext => "help_next"@,
            Key::HelpPrev => "help_prev"@,
            Key::HelpReplay => "help_replay"@,
            Key::HelpCurrent => "help_current"@,
            Key::HelpQueue => "help_queue"@,
            Key::HelpMode => "help_mode"@,
            Key::HelpShuffle => "help_shuffle"@,
            Key::HelpVolume => "help_volume"@,
            Key::HelpSeek => "help_seek"@,
            Key::HelpSearch => "help_search"@,
            Key::HelpRadio => "help_radio"@,
            Key::HelpLink => "help_link"@,
            Key::HelpStats => "help_stats"@,
            Key::HelpJc => "help_jc"@,
            Key::HelpLang => "help_lang"@,
            Key::HelpGlang => "help_glang"@,
            Key::HelpCn => "help_cn"@,
            Key::HelpGender => "help_gender"@,
            Key::HelpService => "help_service"@,
            Key::HelpRestart => "help_restart"@,
            Key::HelpQuit => "help_quit"@,
            Key::HelpOverviewPlayback => "help_overview_playback"@,
            Key::HelpOverviewSpotify => "help_overview_spotify"@,
            Key::HelpOverviewRest => "help_overview_rest"@,
            Key::HelpOverviewAdmin => "help_overview_admin"@,
            Key::HelpOverviewFooter => "help_overview_footer"@,
        }
    }

    /// The stable snake_case id used in `.lang` files.
    pub fn id(self) -> (r: &'static str)
        ensures
            r@ == self.id_spec(),
    {
        match self {
            Key::SearchCancelled => "search_cancelled",
            Key::VolumeRange => "volume_range",
            Key::VolumeSet => "volume_set",
            Key::VolumeShow => "volume_show",
            Key::SeekForward => "seek_forward",
            Key::SeekBackward => "seek_backward",
            Key::SeekUsage => "seek_usage",
            Key::Searching => "searching",
            Key::LoadingTrack => "loading_track",
            Key::NothingToPlay => "nothing_to_play",
            Key::RestartingTrack => "restarting_track",
            Key::LoadingLiked => "loading_liked",
            Key::CurrentTrack => "current_track",
            Key::NothingPlaying => "nothing_playing",
            Key::QueueCleared => "queue_cleared",
            Key::IndexStartsAtOne => "index_starts_at_one",
            Key::Removed => "removed",
            Key::NoTrackAtPosition => "no_track_at_position",
            Key::QueueRmUsage => "queue_rm_usage",
            Key::ModeRepeatTrack => "mode_repeat_track",
            Key::ModeRepeatQueue => "mode_repeat_queue",
            Key::ModeOff => "mode_off",
            Key::ModeUsage => "mode_usage",
            Key::ShuffleUsage => "shuffle_usage",
            Key::ShuffleOn => "shuffle_on",
            Key::ShuffleOff => "shuffle_off",
            Key::SearchResultsHeader => "search_results_header",
            Key::SearchResultsFooter => "search_results_footer",
            Key::SearchUsage => "search_usage",
            Key::PickUsage => "pick_usage",
            Key::PickTooLow => "pick_too_low",
            Key::RadioAlreadyOn => "radio_already_on",
            Key::RadioEnabled => "radio_enabled",
            Key::RadioAlreadyOff => "radio_already_off",
            Key::RadioDisabled => "radio_disabled",
            Key::RadioStatusOn => "radio_status_on",
            Key::RadioStatusOff => "radio_status_off",
            Key::AlreadyOnService => "already_on_service",
            Key::SwitchedService => "switched_service",
            Key::Nickname => "nickname",
            Key::GenderSet => "gender_set",
            Key::GenderUsage => "gender_usage",
            Key::Info => "info",
            Key::LangSet => "lang_set",
            Key::Stats => "stats",
            Key::HelpUnknown => "help_unknown",
            Key::HelpPlay => "help_play",
            Key::HelpStop => "help_stop",
            Key::HelpNext => "help_next",
            Key::HelpPrev => "help_prev",
            Key::HelpReplay => "help_replay",
            Key::HelpCurrent => "help_current",
            Key::HelpQueue => "help_queue",
            Key::HelpMode => "help_mode",
            Key::HelpShuffle => "help_shuffle",
            Key::HelpVolume => "help_volume",
            Key::HelpSeek => "help_seek",
            Key::HelpSearch => "help_search",
            Key::HelpRadio => "help_radio",
            Key::HelpLink => "help_link",
            Key::HelpStats => "help_stats",
            Key::HelpJc => "help_jc",
            Key::HelpLang => "help_lang",
            Key::HelpGlang => "help_glang",
            Key::HelpCn => "help_cn",
            Key::HelpGender => "help_gender",
            Key::HelpService => "help_service",
            Key::HelpRestart => "help_restart",
            Key::HelpQuit => "help_quit",
            Key::HelpOverviewPlayback => "help_overview_playback",
            Key::HelpOverviewSpotify => "help_overview_spotify",
            Key::HelpOverviewRest => "help_overview_rest",
            Key::HelpOverviewAdmin => "help_overview_admin",
            Key::HelpOverviewFooter => "help_overview_footer",
        }
    }

    pub open spec fn english_spec(self) -> Seq<char> {
        match self {
            Key::SearchCancelled => "Search cancelled"@,
            Key::VolumeRange => "Volume must be between 0 and {max}, got {got}"@,
            Key::VolumeSet => "Volume set to {percent}%"@,
            Key::VolumeShow => "Volume: {percent}% (max {max}%)"@,
            Key::SeekForward => "Seeking forward {seconds}s"@,
            Key::SeekBackward => "Seeking backward {seconds}s"@,
            Key::SeekUsage => "Usage: sf <seconds> or sb <seconds>"@,
            Key::Searching => "Searching..."@,
            Key::LoadingTrack => "A track is loading"@,
            Key::NothingToPlay => "Nothing to play. Use: p <query>"@,
            Key::RestartingTrack => "Restarting track"@,
            Key::LoadingLiked => "Loading Liked Songs..."@,
            Key::CurrentTrack => "{track} [{index}/{total}] {position}/{duration} ({modes})"@,
            Key::NothingPlaying => "Nothing playing"@,
            Key::QueueCleared => "Queue cleared"@,
            Key::IndexStartsAtOne => "Positions start at 1"@,
            Key::Removed => "Removed: {name}"@,
            Key::NoTrackAtPosition => "No track at position {position}"@,
            Key::QueueRmUsage => "Usage: queue rm <number>"@,
            Key::ModeRepeatTrack => "Mode: repeat track"@,
            Key::ModeRepeatQueue => "Mode: repeat queue"@,
            Key::ModeOff => "Repeat off"@,
            Key::ModeUsage => "Current: {modes}\nUsage: mode r, mode rq or mode off"@,
            Key::ShuffleUsage => "Usage: shuffle, shuffle on or shuffle off"@,
            Key::ShuffleOn => "Shuffle on"@,
            Key::ShuffleOff => "Shuffle off"@,
            Key::SearchResultsHeader => "Search results:"@,
            Key::SearchResultsFooter => "Type a number to pick, or a to cancel"@,
            Key::SearchUsage => "Usage: search <query>"@,
            Key::PickUsage => "Usage: pick <number>"@,
            Key::PickTooLow => "Picks start at 1"@,
            Key::RadioAlreadyOn => "Radio is already on"@,
            Key::RadioEnabled => "Radio enabled"@,
            Key::RadioAlreadyOff => "Radio is already off"@,
            Key::RadioDisabled => "Radio disabled"@,
            Key::RadioStatusOn => "Radio is on"@,
            Key::RadioStatusOff => "Radio is off"@,
            Key::AlreadyOnService => "Already on {service}"@,
            Key::SwitchedService => "Switched to {service}"@,
            Key::Nickname => "Nickname changed to {name}"@,
            Key::GenderSet => "Gender set to {gender}"@,
            Key::GenderUsage => "Usage: gender male, gender female or gender neutral"@,
            Key::Info => "TeamTalk Spotify Bot v{version}"@,
            Key::LangSet => "Language set to {language}"@,
            Key::Stats => "Uptime: {uptime}\nTracks played: {tracks}\nUpcoming: {queue}\nVolume: {volume}%"@,
            Key::HelpUnknown => "Unknown command"@,
            Key::HelpPlay => "p, play: pause or resume\np <query>: search and play"@,
            Key::HelpStop => "s, stop: stop and clear the queue"@,
            Key::HelpNext => "n, next: skip to the next track"@,
            Key::HelpPrev => "o, prev: step back\nLate in a track this plays it again"@,
            Key::HelpReplay => "rp, replay: play the track from the start"@,
            Key::HelpCurrent => "c, current: what is playing"@,
            Key::HelpQueue => "queue: list what is coming\nqueue rm <number>: remove a track\nqueue clear: drop what is coming"@,
            Key::HelpMode => "mode r: repeat the track\nmode rq: repeat the queue\nmode off: no repeat"@,
            Key::HelpShuffle => "shuffle: turn shuffle on or off\nshuffle on, shuffle off: choose"@,
            Key::HelpVolume => "v: show the volume\nv <percent>: set the volume"@,
            Key::HelpSeek => "sf <seconds>: seek forward\nsb <seconds>: seek backward"@,
            Key::HelpSearch => "search <query>: list results\nsearch: list them again"@,
            Key::HelpRadio => "radio on, radio off: keep playing similar tracks\nradio: show whether it is on"@,
            Key::HelpLink => "link, url: the link of the current track"@,
            Key::HelpStats => "stats: uptime, tracks, queue and volume"@,
            Key::HelpJc => "jc <path>: join a channel"@,
            Key::HelpLang => "lang: list languages\nlang <code>: choose yours\nlang clear: follow the server default"@,
            Key::HelpGlang => "glang <code>: set the server default language"@,
            Key::HelpCn => "cn <name>: change nickname"@,
            Key::HelpGender => "gender <male|female|neutral>: set the bot gender"@,
            Key::HelpService => "sp: use Spotify\nyt: use YouTube"@,
            Key::HelpRestart => "rs, restart: restart the bot"@,
            Key::HelpQuit => "q, quit: stop the bot"@,
            Key::HelpOverviewPlayback => "Playback:\n  p <query> - Search and play\n  p - Pause or resume\n  s - Stop\n  n - Next\n  o - Previous\n  rp - Replay\n  v <percent> - Volume\n  sf, sb <seconds> - Seek"@,
            Key::HelpOverviewSpotify => "Spotify:\n  radio on/off - Keep playing similar tracks\n  liked - Play Liked Songs"@,
            Key::HelpOverviewRest => "Queue:\n  c - Current track\n  queue - What is coming\n  queue rm <number> - Remove a track\n  queue clear - Drop what is coming\n  mode r/rq/off - Repeat\n  shuffle - Shuffle on or off\n  search <query> - Search only\n  link - Link of the current track\nBot:\n  sp, yt - Switch service\n  cn <name> - Change nickname\n  gender <gender> - Bot gender\n  lang <code> - Your language\n  stats - Statistics\n  info - Bot info"@,
            Key::HelpOverviewAdmin => "Admin:\n  jc <path> - Join channel\n  glang <code> - Default language\n  rs - Restart\n  q - Quit"@,
            Key::HelpOverviewFooter => "Active service: {service}. Type h <command> for details"@,
        }
    }

    /// The English text of the message.
    pub fn english(self) -> (r: &'static str)
        ensures
            r@ == self.english_spec(),
    {
        match self {
            Key::SearchCancelled => "Search cancelled",
            Key::VolumeRange => "Volume must be between 0 and {max}, got {got}",
            Key::VolumeSet => "Volume set to {percent}%",
            Key::VolumeShow => "Volume: {percent}% (max {max}%)",
            Key::SeekForward => "Seeking forward {seconds}s",
            Key::SeekBackward => "Seeking backward {seconds}s",
            Key::SeekUsage => "Usage: sf <seconds> or sb <seconds>",
            Key::Searching => "Searching...",
            Key::LoadingTrack => "A track is loading",
            Key::NothingToPlay => "Nothing to play. Use: p <query>",
            Key::RestartingTrack => "Restarting track",
            Key::LoadingLiked => "Loading Liked Songs...",
            Key::CurrentTrack => "{track} [{index}/{total}] {position}/{duration} ({modes})",
            Key::NothingPlaying => "Nothing playing",
            Key::QueueCleared => "Queue cleared",
            Key::IndexStartsAtOne => "Positions start at 1",
            Key::Removed => "Removed: {name}",
            Key::NoTrackAtPosition => "No track at position {position}",
            Key::QueueRmUsage => "Usage: queue rm <number>",
            Key::ModeRepeatTrack => "Mode: repeat track",
            Key::ModeRepeatQueue => "Mode: repeat queue",
            Key::ModeOff => "Repeat off",
            Key::ModeUsage => "Current: {modes}\nUsage: mode r, mode rq or mode off",
            Key::ShuffleUsage => "Usage: shuffle, shuffle on or shuffle off",
            Key::ShuffleOn => "Shuffle on",
            Key::ShuffleOff => "Shuffle off",
            Key::SearchResultsHeader => "Search results:",
            Key::SearchResultsFooter => "Type a number to pick, or a to cancel",
            Key::SearchUsage => "Usage: search <query>",
            Key::PickUsage => "Usage: pick <number>",
            Key::PickTooLow => "Picks start at 1",
            Key::RadioAlreadyOn => "Radio is already on",
            Key::RadioEnabled => "Radio enabled",
            Key::RadioAlreadyOff => "Radio is already off",
            Key::RadioDisabled => "Radio disabled",
            Key::RadioStatusOn => "Radio is on",
            Key::RadioStatusOff => "Radio is off",
            Key::AlreadyOnService => "Already on {service}",
            Key::SwitchedService => "Switched to {service}",
            Key::Nickname => "Nickname changed to {name}",
            Key::GenderSet => "Gender set to {gender}",
            Key::GenderUsage => "Usage: gender male, gender female or gender neutral",
            Key::Info => "TeamTalk Spotify Bot v{version}",
            Key::LangSet => "Language set to {language}",
            Key::Stats => "Uptime: {uptime}\nTracks played: {tracks}\nUpcoming: {queue}\nVolume: {volume}%",
            Key::HelpUnknown => "Unknown command",
            Key::HelpPlay => "p, play: pause or resume\np <query>: search and play",
            Key::HelpStop => "s, stop: stop and clear the queue",
            Key::HelpNext => "n, next: skip to the next track",
            Key::HelpPrev => "o, prev: step back\nLate in a track this plays it again",
            Key::HelpReplay => "rp, replay: play the track from the start",
            Key::HelpCurrent => "c, current: what is playing",
            Key::HelpQueue => "queue: list what is coming\nqueue rm <number>: remove a track\nqueue clear: drop what is coming",
            Key::HelpMode => "mode r: repeat the track\nmode rq: repeat the queue\nmode off: no repeat",
            Key::HelpShuffle => "shuffle: turn shuffle on or off\nshuffle on, shuffle off: choose",
            Key::HelpVolume => "v: show the volume\nv <percent>: set the volume",
            Key::HelpSeek => "sf <seconds>: seek forward\nsb <seconds>: seek backward",
            Key::HelpSearch => "search <query>: list results\nsearch: list them again",
            Key::HelpRadio => "radio on, radio off: keep playing similar tracks\nradio: show whether it is on",
            Key::HelpLink => "link, url: the link of the current track",
            Key::HelpStats => "stats: uptime, tracks, queue and volume",
            Key::HelpJc => "jc <path>: join a channel",
            Key::HelpLang => "lang: list languages\nlang <code>: choose yours\nlang clear: follow the server default",
            Key::HelpGlang => "glang <code>: set the server default language",
            Key::HelpCn => "cn <name>: change nickname",
            Key::HelpGender => "gender <male|female|neutral>: set the bot gender",
            Key::HelpService => "sp: use Spotify\nyt: use YouTube",
            Key::HelpRestart => "rs, restart: restart the bot",
            Key::HelpQuit => "q, quit: stop the bot",
            Key::HelpOverviewPlayback => "Playback:\n  p <query> - Search and play\n  p - Pause or resume\n  s - Stop\n  n - Next\n  o - Previous\n  rp - Replay\n  v <percent> - Volume\n  sf, sb <seconds> - Seek",
            Key::HelpOverviewSpotify => "Spotify:\n  radio on/off - Keep playing similar tracks\n  liked - Play Liked Songs",
            Key::HelpOverviewRest => "Queue:\n  c - Current track\n  queue - What is coming\n  queue rm <number> - Remove a track\n  queue clear - Drop what is coming\n  mode r/rq/off - Repeat\n  shuffle - Shuffle on or off\n  search <query> - Search only\n  link - Link of the current track\nBot:\n  sp, yt - Switch service\n  cn <name> - Change nickname\n  gender <gender> - Bot gender\n  lang <code> - Your language\n  stats - Statistics\n  info - Bot info",
            Key::HelpOverviewAdmin => "Admin:\n  jc <path> - Join channel\n  glang <code> - Default language\n  rs - Restart\n  q - Quit",
            Key::HelpOverviewFooter => "Active service: {service}. Type h <command> for details",
        }
    }

    /// The place of a key in the list of all keys.
    pub open spec fn place(self) -> int {
        match self {
            Key::SearchCancelled => 0,
            Key::VolumeRange => 1,
            Key::VolumeSet => 2,
            Key::VolumeShow => 3,
            Key::SeekForward => 4,
            Key::SeekBackward => 5,
            Key::SeekUsage => 6,
            Key::Searching => 7,
            Key::LoadingTrack => 8,
            Key::NothingToPlay => 9,
            Key::RestartingTrack => 10,
            Key::LoadingLiked => 11,
            Key::CurrentTrack => 12,
            Key::NothingPlaying => 13,
            Key::QueueCleared => 14,
            Key::IndexStartsAtOne => 15,
            Key::Removed => 16,
            Key::NoTrackAtPosition => 17,
            Key::QueueRmUsage => 18,
            Key::ModeRepeatTrack => 19,
            Key::ModeRepeatQueue => 20,
            Key::ModeOff => 21,
            Key::ModeUsage => 22,
            Key::ShuffleUsage => 23,
            Key::ShuffleOn => 24,
            Key::ShuffleOff => 25,
            Key::SearchResultsHeader => 26,
            Key::SearchResultsFooter => 27,
            Key::SearchUsage => 28,
            Key::PickUsage => 29,
            Key::PickTooLow => 30,
            Key::RadioAlreadyOn => 31,
            Key::RadioEnabled => 32,
            Key::RadioAlreadyOff => 33,
            Key::RadioDisabled => 34,
            Key::RadioStatusOn => 35,
            Key::RadioStatusOff => 36,
            Key::AlreadyOnService => 37,
            Key::SwitchedService => 38,
            Key::Nickname => 39,
            Key::GenderSet => 40,
            Key::GenderUsage => 41,
            Key::Info => 42,
            Key::LangSet => 43,
            Key::Stats => 44,
            Key::HelpUnknown => 45,
            Key::HelpPlay => 46,
            Key::HelpStop => 47,
            Key::HelpNext => 48,
            Key::HelpPrev => 49,
            Key::HelpReplay => 50,
            Key::HelpCurrent => 51,
            Key::HelpQueue => 52,
            Key::HelpMode => 53,
            Key::HelpShuffle => 54,
            Key::HelpVolume => 55,
            Key::HelpSeek => 56,
            Key::HelpSearch => 57,
            Key::HelpRadio => 58,
            Key::HelpLink => 59,
            Key::HelpStats => 60,
            Key::HelpJc => 61,
            Key::HelpLang => 62,
            Key::HelpGlang => 63,
            Key::HelpCn => 64,
            Key::HelpGender => 65,
            Key::HelpService => 66,
            Key::HelpRestart => 67,
            Key::HelpQuit => 68,
            Key::HelpOverviewPlayback => 69,
            Key::HelpOverviewSpotify => 70,
            Key::HelpOverviewRest => 71,
            Key::HelpOverviewAdmin => 72,
            Key::HelpOverviewFooter => 73,
        }
    }

    /// Every key, for completeness and validation checks.
    pub fn all() -> (r: Vec<Key>)
        ensures
            r@.len() == KEY_COUNT,
            forall|key: Key| 0 <= key.place() < KEY_COUNT && #[trigger] r@[key.place()] == key,
            forall|i: int| 0 <= i < r@.len() ==> (#[trigger] r@[i]).place() == i,
    {
        vec![
            Key::SearchCancelled,
            Key::VolumeRange,
            Key::VolumeSet,
            Key::VolumeShow,
            Key::SeekForward,
            Key::SeekBackward,
            Key::SeekUsage,
            Key::Searching,
            Key::LoadingTrack,
            Key::NothingToPlay,
            Key::RestartingTrack,
            Key::LoadingLiked,
            Key::CurrentTrack,
            Key::NothingPlaying,
            Key::QueueCleared,
            Key::IndexStartsAtOne,
            Key::Removed,
            Key::NoTrackAtPosition,
            Key::QueueRmUsage,
            Key::ModeRepeatTrack,
            Key::ModeRepeatQueue,
            Key::ModeOff,
            Key::ModeUsage,
            Key::ShuffleUsage,
            Key::ShuffleOn,
            Key::ShuffleOff,
            Key::SearchResultsHeader,
            Key::SearchResultsFooter,
            Key::SearchUsage,
            Key::PickUsage,
            Key::PickTooLow,
            Key::RadioAlreadyOn,
            Key::RadioEnabled,
            Key::RadioAlreadyOff,
            Key::RadioDisabled,
            Key::RadioStatusOn,
            Key::RadioStatusOff,
            Key::AlreadyOnService,
            Key::SwitchedService,
            Key::Nickname,
            Key::GenderSet,
            Key::GenderUsage,
            Key::Info,
            Key::LangSet,
            Key::Stats,
            Key::HelpUnknown,
            Key::HelpPlay,
            Key::HelpStop,
            Key::HelpNext,
            Key::HelpPrev,
            Key::HelpReplay,
            Key::HelpCurrent,
            Key::HelpQueue,
            Key::HelpMode,
            Key::HelpShuffle,
            Key::HelpVolume,
            Key::HelpSeek,
            Key::HelpSearch,
            Key::HelpRadio,
            Key::HelpLink,
            Key::HelpStats,
            Key::HelpJc,
            Key::HelpLang,
            Key::HelpGlang,
            Key::HelpCn,
            Key::HelpGender,
            Key::HelpService,
            Key::HelpRestart,
            Key::HelpQuit,
            Key::HelpOverviewPlayback,
            Key::HelpOverviewSpotify,
            Key::HelpOverviewRest,
            Key::HelpOverviewAdmin,
            Key::HelpOverviewFooter,
        ]
    }
}

pub const KEY_COUNT: usize = 74;
// ---- entries of one language ----

/// The entries of a list of pairs; a later pair replaces an earlier one.
pub open spec fn pairs_map(pairs: Seq<(String, String)>) -> Map<Seq<char>, Seq<char>>
    decreases pairs.len(),
{
    if pairs.len() == 0 {
        Map::empty()
    } else {
        pairs_map(pairs.drop_last()).insert(pairs.last().0@, pairs.last().1@)
    }
}

/// Templates by key.
pub struct Entries {
    pairs: Vec<(String, String)>,
}

impl View for Entries {
    type V = Map<Seq<char>, Seq<char>>;

    closed spec fn view(&self) -> Map<Seq<char>, Seq<char>> {
        pairs_map(self.pairs@)
    }
}

impl Entries {
    pub fn new() -> (r: Self)
        ensures
            r@ == Map::<Seq<char>, Seq<char>>::empty(),
    {
        Entries { pairs: Vec::new() }
    }

    /// The template of a key.
    pub fn get(&self, key: &str) -> (r: Option<&str>)
        ensures
            match r {
                Some(v) => self@.contains_key(key@) && self@[key@] == v@,
                None => !self@.contains_key(key@),
            },
    {
        let mut i: usize = self.pairs.len();
        assert(self.pairs@.take(i as int) =~= self.pairs@);
        while i > 0
            invariant
                i <= self.pairs.len(),
                pairs_map(self.pairs@.take(i as int)).contains_key(key@) == self@.contains_key(
                    key@,
                ),
                self@.contains_key(key@) ==> pairs_map(self.pairs@.take(i as int))[key@]
                    == self@[key@],
            decreases i,
        {
            i -= 1;
            assert(self.pairs@.take(i + 1).drop_last() =~= self.pairs@.take(i as int));
            if same(self.pairs[i].0.as_str(), key) {
                return Some(self.pairs[i].1.as_str());
            }
        }
        None
    }

    pub fn contains_key(&self, key: &str) -> (r: bool)
        ensures
            r == self@.contains_key(key@),
    {
        self.get(key).is_some()
    }

    /// Set the template of a key.
    pub fn insert(&mut self, key: String, value: String)
        ensures
            final(self)@ == old(self)@.insert(key@, value@),
    {
        let ghost before = self.pairs@;
        self.pairs.push((key, value));
        assert(self.pairs@.drop_last() =~= before);
    }

    /// The keys, each once.
    pub fn keys(&self) -> (r: Vec<String>)
        ensures
            views(r@).no_duplicates(),
            forall|k: Seq<char>| views(r@).contains(k) == self@.contains_key(k),
    {
        let mut out: Vec<String> = Vec::new();
        let mut i: usize = 0;
        while i < self.pairs.len()
            invariant
                i <= self.pairs.len(),
                views(out@).no_duplicates(),
                forall|k: Seq<char>|
                    views(out@).contains(k) == pairs_map(
                        self.pairs@.take(i as int),
                    ).contains_key(k),
            decreases self.pairs.len() - i,
        {
            assert(self.pairs@.take(i + 1).drop_last() =~= self.pairs@.take(i as int));
            let key = self.pairs[i].0.clone();
            if !is_one_of(&out, key.as_str()) {
                proof {
                    lemma_views_push(out@, key);
                    let v = views(out@);
                    let w = v.push(key@);
                    assert forall|k: Seq<char>| w.contains(k) == (v.contains(k) || k == key@) by {
                        if v.contains(k) {
                            let j = choose|j: int| 0 <= j < v.len() && v[j] == k;
                            assert(w[j] == k);
                        }
                        if k == key@ {
                            assert(w[v.len() as int] == k);
                        }
                    }
                }
                out.push(key);
            }
            i += 1;
        }
        assert(self.pairs@.take(i as int) =~= self.pairs@);
        out
    }

    /// How many keys there are.
    pub fn len(&self) -> (r: usize)
        ensures
            self@.dom().finite(),
            r == self@.dom().len(),
    {
        let keys = self.keys();
        proof {
            let v = views(keys@);
            assert(self@.dom() =~= v.to_set());
            v.unique_seq_to_set();
        }
        keys.len()
    }
}

// ---- reading a language file ----

/// One line of a language file as its key and template, or nothing for a
/// blank line, a comment, or a line without a key or without an equals sign.
pub open spec fn lang_line(raw: Seq<char>) -> Option<(Seq<char>, Seq<char>)> {
    let line = trimmed(raw);
    if line.len() == 0 || line[0] == '#' {
        None
    } else {
        match first(line, "="@) {
            Some(i) => {
                let key = trimmed(line.take(i));
                if key.len() == 0 {
                    None
                } else {
                    Some((key, replaced(trimmed(line.skip(i + 1)), "\\n"@, "\n"@)))
                }
            },
            None => None,
        }
    }
}

/// The entries of the lines of a language file; a later line replaces an
/// earlier one with the same key.
pub open spec fn lang_lines(lines: Seq<Seq<char>>) -> Map<Seq<char>, Seq<char>>
    decreases lines.len(),
{
    if lines.len() == 0 {
        Map::empty()
    } else {
        match lang_line(lines.last()) {
            Some((key, value)) => lang_lines(lines.drop_last()).insert(key, value),
            None => lang_lines(lines.drop_last()),
        }
    }
}

fn parse_line(raw: &str) -> (r: Option<(String, String)>)
    ensures
        match r {
            Some(p) => lang_line(raw@) == Some((p.0@, p.1@)),
            None => lang_line(raw@) is None,
        },
{
    proof {
        reveal_strlit("=");
        reveal_strlit("\\n");
    }
    let line = trim(raw);
    let v = chars_of(line);
    if v.len() == 0 || v[0] == '#' {
        return None;
    }
    let eq = chars_of("=");
    match find_from(&v, &eq, 0) {
        Some(i) => {
            let left = slice_string(&v, 0, i);
            assert(left@ =~= v@.take(i as int));
            let key = trim(left.as_str());
            if key.is_empty() {
                return None;
            }
            let right = slice_string(&v, i + 1, v.len());
            assert(right@ =~= v@.skip(i + 1));
            let value = replace(trim(right.as_str()), "\\n", "\n");
            Some((key.to_owned(), value))
        },
        None => None,
    }
}

/// Parse `.lang` file text into templates by key.
///
/// Format: `key = value` per line; `#` comments and blank lines ignored;
/// everything after the first `=` is the value (so values may contain `=`);
/// key and value are trimmed; `\n` in a value becomes a newline. A malformed
/// line is skipped: it never invalidates the rest of the file.
pub fn parse_lang(text: &str) -> (r: Entries)
    ensures
        r@ == lang_lines(lines(text@)),
{
    let all = split_lines(text);
    let mut map = Entries::new();
    let mut i: usize = 0;
    while i < all.len()
        invariant
            i <= all.len(),
            map@ == lang_lines(views(all@).take(i as int)),
        decreases all.len() - i,
    {
        assert(views(all@).take(i + 1).drop_last() =~= views(all@).take(i as int));
        assert(views(all@).take(i + 1).last() == all@[i as int]@);
        if let Some((key, value)) = parse_line(all[i].as_str()) {
            map.insert(key, value);
        }
        i += 1;
    }
    assert(views(all@).take(i as int) =~= views(all@));
    map
}

// ---- placeholders ----

/// Slot values as sequences of characters.
pub open spec fn arg_views(args: Seq<(&str, String)>) -> Seq<(Seq<char>, Seq<char>)> {
    args.map_values(|p: (&str, String)| (p.0@, p.1@))
}

/// The value given for a slot name, the first one where there are several.
pub open spec fn slot_value(args: Seq<(Seq<char>, Seq<char>)>, name: Seq<char>) -> Option<Seq<char>>
    decreases args.len(),
{
    if args.len() == 0 {
        None
    } else if args[0].0 == name {
        Some(args[0].1)
    } else {
        slot_value(args.skip(1), name)
    }
}

/// The first slot of a template, as where its brace opens and where the next
/// one closes.
pub open spec fn first_slot(t: Seq<char>) -> Option<(int, int)> {
    match first(t, "{"@) {
        Some(open) => match first_from(t, "}"@, open) {
            Some(close) => Some((open, close)),
            None => None,
        },
        None => None,
    }
}

/// A template with its slots filled. A value is never looked at again, so
/// braces in it stand.
pub open spec fn filled(t: Seq<char>, args: Seq<(Seq<char>, Seq<char>)>) -> Seq<char>
    decreases t.len(),
{
    match first_slot(t) {
        Some((open, close)) => if 0 <= open < close < t.len() {
            t.take(open) + (match slot_value(args, t.subrange(open + 1, close)) {
                Some(value) => value,
                None => t.subrange(open, close + 1),
            }) + filled(t.skip(close + 1), args)
        } else {
            t
        },
        None => t,
    }
}

/// The names of the slots of a template.
pub open spec fn slots(t: Seq<char>) -> Seq<Seq<char>>
    decreases t.len(),
{
    match first_slot(t) {
        Some((open, close)) => if 0 <= open < close < t.len() {
            seq![t.subrange(open + 1, close)] + slots(t.skip(close + 1))
        } else {
            seq![]
        },
        None => seq![],
    }
}

proof fn lemma_first_slot(t: Seq<char>)
    ensures
        match first_slot(t) {
            Some((open, close)) => 0 <= open < close < t.len(),
            None => true,
        },
{
    reveal_strlit("{");
    reveal_strlit("}");
    lemma_first_from(t, "{"@, 0);
    if let Some(open) = first(t, "{"@) {
        lemma_first_from(t, "}"@, open);
        if let Some(close) = first_from(t, "}"@, open) {
            assert(t.subrange(open, open + 1)[0] == '{');
            assert(t.subrange(close, close + 1)[0] == '}');
        }
    }
}

/// The first slot of `v` at or after `from`.
fn find_slot(v: &Vec<char>, from: usize) -> (r: Option<(usize, usize)>)
    requires
        from <= v.len(),
    ensures
        match first_slot(v@.skip(from as int)) {
            Some((open, close)) => r matches Some(p) && p.0 == from + open && p.1 == from + close
                && 0 <= open < close < v.len() - from,
            None => r is None,
        },
{
    proof {
        reveal_strlit("{");
        reveal_strlit("}");
        lemma_first_slot(v@.skip(from as int));
        crate::text::lemma_first_skip(v@, "{"@, from as int, 0);
    }
    let open_brace = chars_of("{");
    let close_brace = chars_of("}");
    match find_from(v, &open_brace, from) {
        Some(open) => {
            proof {
                crate::text::lemma_first_skip(v@, "}"@, from as int, open - from);
            }
            match find_from(v, &close_brace, open) {
                Some(close) => Some((open, close)),
                None => None,
            }
        },
        None => None,
    }
}

fn lookup<'a>(args: &'a [(&'a str, String)], name: &str) -> (r: Option<&'a str>)
    ensures
        match r {
            Some(v) => slot_value(arg_views(args@), name@) == Some(v@),
            None => slot_value(arg_views(args@), name@) is None,
        },
{
    let ghost given = arg_views(args@);
    let mut i: usize = 0;
    assert(given.skip(0) =~= given);
    while i < args.len()
        invariant
            i <= args.len(),
            given == arg_views(args@),
            slot_value(given, name@) == slot_value(given.skip(i as int), name@),
        decreases args.len() - i,
    {
        assert(given.skip(i as int)[0] == given[i as int]);
        assert(given.skip(i as int).skip(1) =~= given.skip(i + 1));
        if same(args[i].0, name) {
            return Some(args[i].1.as_str());
        }
        i += 1;
    }
    None
}

/// Fill named `{slot}` placeholders in a template.
///
/// Single-pass by name: slots may appear in any order, an unknown slot is left
/// visible as-is, and substituted values are never re-scanned (a value that
/// happens to contain braces cannot trigger a second substitution).
pub fn fill(template: &str, args: &[(&str, String)]) -> (r: String)
    ensures
        r@ == filled(template@, arg_views(args@)),
{
    let v = chars_of(template);
    let mut out = String::new();
    let mut from: usize = 0;
    assert(v@.skip(0) =~= v@);
    loop
        invariant
            from <= v.len(),
            v@ == template@,
            out@ + filled(v@.skip(from as int), arg_views(args@)) =~= filled(
                template@,
                arg_views(args@),
            ),
        decreases v.len() - from,
    {
        let ghost rest = v@.skip(from as int);
        match find_slot(&v, from) {
            Some((open, close)) => {
                let ghost before = out@;
                let head = slice_string(&v, from, open);
                out.append(head.as_str());
                let name = slice_string(&v, open + 1, close);
                proof {
                    assert(head@ =~= rest.take(open - from));
                    assert(name@ =~= rest.subrange(open - from + 1, close - from));
                    assert(v@.skip(close + 1) =~= rest.skip(close - from + 1));
                    assert(v@.subrange(open as int, close + 1) =~= rest.subrange(
                        open - from,
                        close - from + 1,
                    ));
                }
                match lookup(args, name.as_str()) {
                    Some(value) => out.append(value),
                    None => {
                        let whole = slice_string(&v, open, close + 1);
                        out.append(whole.as_str());
                    },
                }
                from = close + 1;
            },
            None => {
                let tail = slice_string(&v, from, v.len());
                assert(tail@ =~= rest);
                out.append(tail.as_str());
                return out;
            },
        }
    }
}

/// The `{slot}` names in a template, in order.
pub fn slots_of(template: &str) -> (r: Vec<String>)
    ensures
        views(r@) == slots(template@),
{
    let v = chars_of(template);
    let mut out: Vec<String> = Vec::new();
    let mut from: usize = 0;
    assert(v@.skip(0) =~= v@);
    loop
        invariant
            from <= v.len(),
            v@ == template@,
            views(out@) + slots(v@.skip(from as int)) =~= slots(template@),
        decreases v.len() - from,
    {
        let ghost rest = v@.skip(from as int);
        match find_slot(&v, from) {
            Some((open, close)) => {
                let name = slice_string(&v, open + 1, close);
                proof {
                    assert(name@ =~= rest.subrange(open - from + 1, close - from));
                    assert(v@.skip(close + 1) =~= rest.skip(close - from + 1));
                    lemma_views_push(out@, name);
                }
                out.push(name);
                from = close + 1;
            },
            None => {
                return out;
            },
        }
    }
}

/// Whether two templates have the same slots, in whatever order and number.
pub open spec fn same_slots(a: Seq<char>, b: Seq<char>) -> bool {
    forall|name: Seq<char>| slots(a).contains(name) == slots(b).contains(name)
}

fn all_among(a: &Vec<String>, b: &Vec<String>) -> (r: bool)
    ensures
        r == (forall|name: Seq<char>| views(a@).contains(name) ==> views(b@).contains(name)),
{
    let mut i: usize = 0;
    while i < a.len()
        invariant
            i <= a.len(),
            forall|k: int| 0 <= k < i ==> views(b@).contains(#[trigger] views(a@)[k]),
        decreases a.len() - i,
    {
        assert(views(a@)[i as int] == a@[i as int]@);
        if !is_one_of(b, a[i].as_str()) {
            assert(views(a@).contains(a@[i as int]@));
            return false;
        }
        i += 1;
    }
    true
}

fn slots_agree(a: &str, b: &str) -> (r: bool)
    ensures
        r == same_slots(a@, b@),
{
    let x = slots_of(a);
    let y = slots_of(b);
    all_among(&x, &y) && all_among(&y, &x)
}

// ---- all languages ----

/// The built-in English templates.
pub open spec fn english_entries() -> Map<Seq<char>, Seq<char>> {
    english_upto(KEY_COUNT as nat)
}

/// The built-in templates of the first `n` keys.
pub open spec fn english_upto(n: nat) -> Map<Seq<char>, Seq<char>>
    decreases n,
{
    if n == 0 {
        Map::empty()
    } else {
        english_upto((n - 1) as nat).insert(key_at(n - 1).id_spec(), key_at(n - 1).english_spec())
    }
}

/// The key at a place in the list of all keys.
pub open spec fn key_at(i: int) -> Key {
    choose|key: Key| #[trigger] key.place() == i
}

proof fn lemma_key_at(key: Key)
    ensures
        key_at(key.place()) == key,
{
}

/// All loaded languages by code; a later one replaces an earlier one.
pub open spec fn langs_map(langs: Seq<(String, Entries)>) -> Map<Seq<char>, Map<Seq<char>, Seq<char>>>
    decreases langs.len(),
{
    if langs.len() == 0 {
        Map::empty()
    } else {
        langs_map(langs.drop_last()).insert(langs.last().0@, langs.last().1@)
    }
}

/// The template of a message in a language.
pub open spec fn template_in(
    langs: Map<Seq<char>, Map<Seq<char>, Seq<char>>>,
    lang: Seq<char>,
    id: Seq<char>,
) -> Option<Seq<char>> {
    if langs.contains_key(lang) && langs[lang].contains_key(id) {
        Some(langs[lang][id])
    } else {
        None
    }
}

/// The template of a message in a language, else in English, else its id.
pub open spec fn best_template(
    langs: Map<Seq<char>, Map<Seq<char>, Seq<char>>>,
    lang: Seq<char>,
    id: Seq<char>,
) -> Seq<char> {
    match template_in(langs, lang, id) {
        Some(t) => t,
        None => match template_in(langs, ENGLISH@, id) {
            Some(t) => t,
            None => id,
        },
    }
}

/// A message in a language.
pub open spec fn message(
    langs: Map<Seq<char>, Map<Seq<char>, Seq<char>>>,
    lang: Seq<char>,
    key: Key,
    args: Seq<(Seq<char>, Seq<char>)>,
) -> Seq<char> {
    filled(best_template(langs, lang, key.id_spec()), args)
}

/// Whether an id belongs to a message of the bot.
pub open spec fn known_id(id: Seq<char>) -> bool {
    exists|key: Key| #[trigger] key.id_spec() == id
}

/// How many of the first `n` keys a language translates.
pub open spec fn translated(
    langs: Map<Seq<char>, Map<Seq<char>, Seq<char>>>,
    code: Seq<char>,
    n: nat,
) -> nat
    decreases n,
{
    if n == 0 {
        0
    } else {
        translated(langs, code, (n - 1) as nat) + (if template_in(
            langs,
            code,
            key_at(n - 1).id_spec(),
        ) is Some {
            1nat
        } else {
            0nat
        })
    }
}

/// Whether a message has other slots in a language than in English.
pub open spec fn mismatched(
    langs: Map<Seq<char>, Map<Seq<char>, Seq<char>>>,
    code: Seq<char>,
    id: Seq<char>,
) -> bool {
    match (template_in(langs, code, id), template_in(langs, ENGLISH@, id)) {
        (Some(a), Some(b)) => !same_slots(a, b),
        _ => false,
    }
}

/// The ids among the first `n` keys whose slots differ from the English ones.
pub open spec fn mismatches(
    langs: Map<Seq<char>, Map<Seq<char>, Seq<char>>>,
    code: Seq<char>,
    n: nat,
) -> Seq<Seq<char>>
    decreases n,
{
    if n == 0 {
        seq![]
    } else {
        let id = key_at(n - 1).id_spec();
        let before = mismatches(langs, code, (n - 1) as nat);
        if mismatched(langs, code, id) {
            before.push(id)
        } else {
            before
        }
    }
}

/// Whether an entry of a language file is one that the bot does not know.
pub open spec fn stray(entries: Map<Seq<char>, Seq<char>>, id: Seq<char>) -> bool {
    &&& entries.contains_key(id)
    &&& id != LANGUAGE_NAME_KEY@
    &&& !known_id(id)
}

/// All loaded languages: the built-in English plus any runtime `.lang` files.
pub struct Catalog {
    langs: Vec<(String, Entries)>,
}

impl View for Catalog {
    type V = Map<Seq<char>, Map<Seq<char>, Seq<char>>>;

    closed spec fn view(&self) -> Map<Seq<char>, Map<Seq<char>, Seq<char>>> {
        langs_map(self.langs@)
    }
}

/// The code of the language that a file holds. English is built in: its file is
/// only a template.
pub open spec fn language_of(file: Seq<char>) -> Option<Seq<char>> {
    let code = file.take(file.len() - 5);
    if ".lang"@.is_suffix_of(file) && code.len() > 0 && code != ENGLISH@ {
        Some(code)
    } else {
        None
    }
}

/// The code of the language that a file of this name holds.
pub fn language_of_file(file: &str) -> (r: Option<String>)
    ensures
        match r {
            Some(code) => language_of(file@) == Some(code@),
            None => language_of(file@) is None,
        },
{
    proof {
        reveal_strlit(".lang");
    }
    match strip_suffix(file, ".lang") {
        Some(code) => if code.is_empty() || same(code, ENGLISH) {
            None
        } else {
            Some(code.to_owned())
        },
        None => None,
    }
}

impl Catalog {
    /// A catalog holding only the built-in English.
    pub fn new_embedded() -> (r: Catalog)
        ensures
            r@ == Map::<Seq<char>, Map<Seq<char>, Seq<char>>>::empty().insert(
                ENGLISH@,
                english_entries(),
            ),
    {
        let keys = Key::all();
        let mut entries = Entries::new();
        let mut i: usize = 0;
        while i < keys.len()
            invariant
                i <= keys.len(),
                keys.len() == KEY_COUNT,
                forall|k: int| 0 <= k < keys@.len() ==> (#[trigger] keys@[k]).place() == k,
                entries@ == english_upto(i as nat),
            decreases keys.len() - i,
        {
            proof {
                lemma_key_at(keys@[i as int]);
            }
            entries.insert(keys[i].id().to_owned(), keys[i].english().to_owned());
            i += 1;
        }
        let mut langs: Vec<(String, Entries)> = Vec::new();
        let ghost none = langs@;
        langs.push((ENGLISH.to_owned(), entries));
        assert(langs@.drop_last() =~= none);
        assert(langs_map(none) =~= Map::<Seq<char>, Map<Seq<char>, Seq<char>>>::empty());
        Catalog { langs }
    }

    /// Register a runtime language (code is lowercased).
    pub fn add_language(&mut self, code: &str, entries: Entries)
        ensures
            final(self)@ == old(self)@.insert(lowercase(code@), entries@),
    {
        let ghost before = self.langs@;
        self.langs.push((to_lower(code), entries));
        assert(self.langs@.drop_last() =~= before);
    }

    fn entries(&self, lang: &str) -> (r: Option<&Entries>)
        ensures
            match r {
                Some(e) => self@.contains_key(lang@) && self@[lang@] == e@,
                None => !self@.contains_key(lang@),
            },
    {
        let mut i: usize = self.langs.len();
        assert(self.langs@.take(i as int) =~= self.langs@);
        while i > 0
            invariant
                i <= self.langs.len(),
                langs_map(self.langs@.take(i as int)).contains_key(lang@) == self@.contains_key(
                    lang@,
                ),
                self@.contains_key(lang@) ==> langs_map(self.langs@.take(i as int))[lang@]
                    == self@[lang@],
            decreases i,
        {
            i -= 1;
            assert(self.langs@.take(i + 1).drop_last() =~= self.langs@.take(i as int));
            if same(self.langs[i].0.as_str(), lang) {
                return Some(&self.langs[i].1);
            }
        }
        None
    }

    pub fn template(&self, lang: &str, id: &str) -> (r: Option<&str>)
        ensures
            match r {
                Some(t) => template_in(self@, lang@, id@) == Some(t@),
                None => template_in(self@, lang@, id@) is None,
            },
    {
        match self.entries(lang) {
            Some(entries) => entries.get(id),
            None => None,
        }
    }

    /// Translate `key` into `lang`, falling back to English on a missing key
    /// or unknown language, then fill the `{slot}` placeholders. As a last
    /// resort (a key absent even from English) the key id itself is returned
    /// so the gap is visible.
    pub fn t(&self, lang: &str, key: Key, args: &[(&str, String)]) -> (r: String)
        ensures
            r@ == message(self@, lang@, key, arg_views(args@)),
    {
        let id = key.id();
        let template = match self.template(lang, id) {
            Some(t) => t,
            None => match self.template(ENGLISH, id) {
                Some(t) => t,
                None => id,
            },
        };
        fill(template, args)
    }

    /// The language's self-declared display name, or its code if absent.
    pub fn language_name(&self, code: &str) -> (r: String)
        ensures
            r@ == (match template_in(self@, code@, LANGUAGE_NAME_KEY@) {
                Some(name) => name,
                None => code@,
            }),
    {
        match self.template(code, LANGUAGE_NAME_KEY) {
            Some(name) => name.to_owned(),
            None => code.to_owned(),
        }
    }

    /// All loaded language codes, sorted.
    pub fn codes(&self) -> (r: Vec<String>)
        ensures
            in_order(views(r@)),
            views(r@).no_duplicates(),
            forall|code: Seq<char>| views(r@).contains(code) == self@.contains_key(code),
    {
        let mut out: Vec<String> = Vec::new();
        let mut i: usize = 0;
        while i < self.langs.len()
            invariant
                i <= self.langs.len(),
                views(out@).no_duplicates(),
                forall|k: Seq<char>|
                    views(out@).contains(k) == langs_map(
                        self.langs@.take(i as int),
                    ).contains_key(k),
            decreases self.langs.len() - i,
        {
            assert(self.langs@.take(i + 1).drop_last() =~= self.langs@.take(i as int));
            let code = self.langs[i].0.clone();
            if !is_one_of(&out, code.as_str()) {
                proof {
                    lemma_views_push(out@, code);
                    lemma_push_contains(views(out@), code@);
                }
                out.push(code);
            }
            i += 1;
        }
        assert(self.langs@.take(i as int) =~= self.langs@);
        let ghost v = views(out@);
        let sorted = sort_strings(out);
        proof {
            lemma_same_members(v, views(sorted@));
        }
        sorted
    }

    pub fn has_language(&self, code: &str) -> (r: bool)
        ensures
            r == self@.contains_key(code@),
    {
        self.entries(code).is_some()
    }
}

proof fn lemma_push_contains(v: Seq<Seq<char>>, x: Seq<char>)
    ensures
        forall|k: Seq<char>| #[trigger] v.push(x).contains(k) == (v.contains(k) || k == x),
{
    let w = v.push(x);
    assert forall|k: Seq<char>| w.contains(k) == (v.contains(k) || k == x) by {
        if v.contains(k) {
            let j = choose|j: int| 0 <= j < v.len() && v[j] == k;
            assert(w[j] == k);
        }
        if k == x {
            assert(w[v.len() as int] == k);
        }
    }
}

/// A rearrangement holds the same members, and each as often.
proof fn lemma_same_members(v: Seq<Seq<char>>, w: Seq<Seq<char>>)
    requires
        v.to_multiset() == w.to_multiset(),
        v.no_duplicates(),
    ensures
        forall|k: Seq<char>| v.contains(k) == w.contains(k),
        w.no_duplicates(),
{
    v.to_multiset_ensures();
    w.to_multiset_ensures();
    assert forall|k: Seq<char>| v.contains(k) == w.contains(k) by {
        assert(v.contains(k) <==> v.to_multiset().count(k) > 0);
        assert(w.contains(k) <==> w.to_multiset().count(k) > 0);
    }
    v.lemma_multiset_has_no_duplicates();
    w.lemma_multiset_has_no_duplicates_conv();
}

/// Structured result of validating one loaded language against English.
pub struct LangValidation {
    pub code: String,
    /// How many of the bot's keys this language translates.
    pub present: usize,
    /// Total number of translatable keys.
    pub total: usize,
    /// Keys whose `{slot}` set differs from the English template (renamed,
    /// dropped, or invented placeholders).
    pub slot_mismatches: Vec<String>,
    /// Keys in the file that the bot does not know (typos or removed keys).
    pub unknown_keys: Vec<String>,
}

fn is_known_id(id: &str) -> (r: bool)
    ensures
        r == known_id(id@),
{
    let keys = Key::all();
    let mut i: usize = 0;
    while i < keys.len()
        invariant
            i <= keys.len(),
            keys.len() == KEY_COUNT,
            forall|key: Key| 0 <= key.place() < KEY_COUNT && #[trigger] keys@[key.place()] == key,
            forall|k: int| 0 <= k < i ==> (#[trigger] keys@[k]).id_spec() != id@,
        decreases keys.len() - i,
    {
        if same(keys[i].id(), id) {
            return true;
        }
        i += 1;
    }
    assert forall|key: Key| #[trigger] key.id_spec() != id@ by {
        assert(keys@[key.place()] == key);
    }
    false
}

/// Validate a loaded language: coverage count, placeholder-slot mismatches,
/// and unknown keys. Returns structured results so callers can log or test.
pub fn validate(catalog: &Catalog, code: &str) -> (r: LangValidation)
    ensures
        r.code@ == code@,
        r.total == KEY_COUNT,
        r.present == translated(catalog@, code@, KEY_COUNT as nat),
        views(r.slot_mismatches@) == mismatches(catalog@, code@, KEY_COUNT as nat),
        in_order(views(r.unknown_keys@)),
        views(r.unknown_keys@).no_duplicates(),
        forall|id: Seq<char>| #[trigger]
            views(r.unknown_keys@).contains(id) == (catalog@.contains_key(code@) && stray(
                catalog@[code@],
                id,
            )),
{
    let keys = Key::all();
    let mut present: usize = 0;
    let mut slot_mismatches: Vec<String> = Vec::new();
    let mut i: usize = 0;
    while i < keys.len()
        invariant
            i <= keys.len(),
            keys.len() == KEY_COUNT,
            present <= i,
            forall|k: int| 0 <= k < keys@.len() ==> (#[trigger] keys@[k]).place() == k,
            present == translated(catalog@, code@, i as nat),
            views(slot_mismatches@) == mismatches(catalog@, code@, i as nat),
        decreases keys.len() - i,
    {
        proof {
            lemma_key_at(keys@[i as int]);
        }
        let id = keys[i].id();
        if let Some(own) = catalog.template(code, id) {
            present += 1;
            if let Some(english) = catalog.template(ENGLISH, id) {
                if !slots_agree(own, english) {
                    let name = id.to_owned();
                    proof {
                        lemma_views_push(slot_mismatches@, name);
                    }
                    slot_mismatches.push(name);
                }
            }
        }
        i += 1;
    }
    let mut unknown: Vec<String> = Vec::new();
    if let Some(entries) = catalog.entries(code) {
        let ids = entries.keys();
        let mut j: usize = 0;
        while j < ids.len()
            invariant
                j <= ids.len(),
                views(ids@).no_duplicates(),
                forall|k: Seq<char>| views(ids@).contains(k) == entries@.contains_key(k),
                views(unknown@).no_duplicates(),
                forall|k: Seq<char>| #[trigger]
                    views(unknown@).contains(k) == (views(ids@).take(j as int).contains(k) && stray(
                        entries@,
                        k,
                    )),
            decreases ids.len() - j,
        {
            let ghost v = views(ids@);
            let ghost before = views(unknown@);
            let id = ids[j].clone();
            let ghost name = id@;
            proof {
                assert(v[j as int] == id@);
                assert(v.take(j + 1) =~= v.take(j as int).push(id@));
                lemma_push_contains(v.take(j as int), id@);
                assert(!v.take(j as int).contains(id@)) by {
                    if v.take(j as int).contains(id@) {
                        let a = choose|a: int| 0 <= a < j && v.take(j as int)[a] == id@;
                        assert(v[a] == v[j as int]);
                    }
                }
                assert(v.contains(id@));
                assert(entries@.contains_key(id@));
                assert(!before.contains(id@));
            }
            if !same(id.as_str(), LANGUAGE_NAME_KEY) && !is_known_id(id.as_str()) {
                proof {
                    lemma_views_push(unknown@, id);
                    lemma_push_contains(views(unknown@), id@);
                }
                unknown.push(id);
            }
            proof {
                assert forall|k: Seq<char>|
                    views(unknown@).contains(k) == (v.take(j + 1).contains(k) && stray(
                        entries@,
                        k,
                    )) by {
                    assert(v.take(j + 1).contains(k) == (v.take(j as int).contains(k) || k
                        == name));
                    assert(before.contains(k) == (v.take(j as int).contains(k) && stray(
                        entries@,
                        k,
                    )));
                    if stray(entries@, name) {
                        assert(views(unknown@) == before.push(name));
                    } else {
                        assert(views(unknown@) == before);
                    }
                }
            }
            j += 1;
        }
        assert(views(ids@).take(j as int) =~= views(ids@));
    }
    let ghost v = views(unknown@);
    let unknown_keys = sort_strings(unknown);
    proof {
        lemma_same_members(v, views(unknown_keys@));
    }
    LangValidation {
        code: code.to_owned(),
        present,
        total: keys.len(),
        slot_mismatches,
        unknown_keys,
    }
}

// ---- what holds of every catalog ----

/// Every message has an English template, so the id of a message is never
/// what a user reads.
pub proof fn every_key_has_an_english_entry(key: Key)
    ensures
        english_entries().contains_key(key.id_spec()),
{
    lemma_key_at(key);
    lemma_english_upto(key, KEY_COUNT as nat);
}

proof fn lemma_english_upto(key: Key, n: nat)
    requires
        key_at(key.place()) == key,
        0 <= key.place() < n,
    ensures
        english_upto(n).contains_key(key.id_spec()),
    decreases n,
{
    if key.place() < n - 1 {
        lemma_english_upto(key, (n - 1) as nat);
    }
}

/// A language that lacks a message, or is not loaded, answers in English.
pub proof fn missing_messages_fall_back_to_english(
    langs: Map<Seq<char>, Map<Seq<char>, Seq<char>>>,
    lang: Seq<char>,
    key: Key,
    args: Seq<(Seq<char>, Seq<char>)>,
)
    requires
        langs.contains_key(ENGLISH@),
        langs[ENGLISH@] == english_entries(),
        !langs.contains_key(lang) || !langs[lang].contains_key(key.id_spec()),
    ensures
        message(langs, lang, key, args) == message(langs, ENGLISH@, key, args),
        message(langs, lang, key, args) == filled(english_entries()[key.id_spec()], args),
{
    every_key_has_an_english_entry(key);
}

/// A template without braces is sent as it stands, whatever the arguments.
pub proof fn a_template_without_slots_is_sent_as_it_is(t: Seq<char>, args: Seq<(Seq<char>, Seq<char>)>)
    requires
        !t.contains('{'),
    ensures
        filled(t, args) == t,
        slots(t).len() == 0,
{
    reveal_strlit("{");
    lemma_first_from(t, "{"@, 0);
    if let Some(open) = first(t, "{"@) {
        assert(t.subrange(open, open + 1)[0] == '{');
        assert(t[open] == '{');
    }
}

/// Moving the slots of a template about is no mismatch.
pub proof fn moved_slots_agree(a: Seq<char>, b: Seq<char>)
    requires
        slots(a).to_multiset() == slots(b).to_multiset(),
    ensures
        same_slots(a, b),
{
    slots(a).to_multiset_ensures();
    slots(b).to_multiset_ensures();
    assert forall|name: Seq<char>| slots(a).contains(name) == slots(b).contains(name) by {
        assert(slots(a).contains(name) <==> slots(a).to_multiset().count(name) > 0);
        assert(slots(b).contains(name) <==> slots(b).to_multiset().count(name) > 0);
    }
}

/// A slot gives way to the value that was given for its name, and what stands
/// before and after it stays. A slot without a value is left as it is.
pub proof fn a_slot_gives_way_to_its_value(
    before: Seq<char>,
    name: Seq<char>,
    after: Seq<char>,
    args: Seq<(Seq<char>, Seq<char>)>,
    i: int,
)
    requires
        !before.contains('{'),
        !name.contains('}'),
    ensures
        0 <= i < args.len() && args[i].0 == name && (forall|k: int|
            0 <= k < i ==> (#[trigger] args[k]).0 != name) ==> filled(
            before.push('{') + name.push('}') + after,
            args,
        ) == before + args[i].1 + filled(after, args),
        (forall|k: int| 0 <= k < args.len() ==> (#[trigger] args[k]).0 != name) ==> filled(
            before.push('{') + name.push('}') + after,
            args,
        ) == before.push('{') + name.push('}') + filled(after, args),
        slots(before.push('{') + name.push('}') + after) == seq![name] + slots(after),
{
    let t = before.push('{') + name.push('}') + after;
    let open = before.len() as int;
    let close = open + 1 + name.len();
    lemma_slot_found(before, name, after);
    assert(t.take(open) =~= before);
    assert(t.subrange(open + 1, close) =~= name);
    assert(t.skip(close + 1) =~= after);
    assert(t.subrange(open, close + 1) =~= seq!['{'] + name.push('}'));
    if 0 <= i < args.len() && args[i].0 == name && (forall|k: int|
        0 <= k < i ==> (#[trigger] args[k]).0 != name) {
        lemma_slot_value_at(args, name, i);
    }
    if forall|k: int| 0 <= k < args.len() ==> (#[trigger] args[k]).0 != name {
        lemma_no_slot_value(args, name);
        assert(before + (seq!['{'] + name.push('}')) + filled(after, args) =~= before.push('{')
            + name.push('}') + filled(after, args));
    }
}

proof fn lemma_slot_found(before: Seq<char>, name: Seq<char>, after: Seq<char>)
    requires
        !before.contains('{'),
        !name.contains('}'),
    ensures
        first_slot(before.push('{') + name.push('}') + after) == Some(
            (before.len() as int, before.len() + 1 + name.len() as int),
        ),
{
    reveal_strlit("{");
    reveal_strlit("}");
    let t = before.push('{') + name.push('}') + after;
    let open = before.len() as int;
    let close = open + 1 + name.len();
    assert("{"@ =~= seq!['{']);
    assert("}"@ =~= seq!['}']);
    assert(t[open] == '{');
    assert(t[close] == '}');
    assert(crate::text::at(t, open, "{"@)) by {
        assert(t.subrange(open, open + 1) =~= "{"@);
    }
    assert(crate::text::at(t, close, "}"@)) by {
        assert(t.subrange(close, close + 1) =~= "}"@);
    }
    lemma_first_from(t, "{"@, 0);
    if let Some(k) = first(t, "{"@) {
        assert(t.subrange(k, k + 1)[0] == '{');
        if k < open {
            assert(t[k] == before[k]);
            assert(before.contains(before[k]));
        }
    }
    lemma_first_from(t, "}"@, open);
    if let Some(k) = first_from(t, "}"@, open) {
        assert(t.subrange(k, k + 1)[0] == '}');
        if open < k < close {
            assert(t[k] == name[k - open - 1]);
            assert(name.contains(name[k - open - 1]));
        }
    }
}

proof fn lemma_slot_value_at(args: Seq<(Seq<char>, Seq<char>)>, name: Seq<char>, i: int)
    requires
        0 <= i < args.len(),
        args[i].0 == name,
        forall|k: int| 0 <= k < i ==> (#[trigger] args[k]).0 != name,
    ensures
        slot_value(args, name) == Some(args[i].1),
    decreases args.len(),
{
    if i > 0 {
        let rest = args.skip(1);
        assert(args[0].0 != name);
        assert forall|k: int| 0 <= k < i - 1 implies (#[trigger] rest[k]).0 != name by {
            assert(rest[k] == args[k + 1]);
        }
        lemma_slot_value_at(rest, name, i - 1);
    }
}

proof fn lemma_no_slot_value(args: Seq<(Seq<char>, Seq<char>)>, name: Seq<char>)
    requires
        forall|k: int| 0 <= k < args.len() ==> (#[trigger] args[k]).0 != name,
    ensures
        slot_value(args, name) is None,
    decreases args.len(),
{
    if args.len() > 0 {
        let rest = args.skip(1);
        assert(args[0].0 != name);
        assert forall|k: int| 0 <= k < rest.len() implies (#[trigger] rest[k]).0 != name by {
            assert(rest[k] == args[k + 1]);
        }
        lemma_no_slot_value(rest, name);
    }
}

/// A language that has a message is asked for it, whatever the others say.
pub proof fn a_language_speaks_for_itself(
    langs: Map<Seq<char>, Map<Seq<char>, Seq<char>>>,
    others: Map<Seq<char>, Map<Seq<char>, Seq<char>>>,
    lang: Seq<char>,
    key: Key,
    args: Seq<(Seq<char>, Seq<char>)>,
)
    requires
        langs.contains_key(lang),
        others.contains_key(lang),
        langs[lang] == others[lang],
        langs[lang].contains_key(key.id_spec()),
    ensures
        message(langs, lang, key, args) == message(others, lang, key, args),
        !langs[lang][key.id_spec()].contains('{') ==> message(langs, lang, key, args)
            == langs[lang][key.id_spec()],
{
    if !langs[lang][key.id_spec()].contains('{') {
        a_template_without_slots_is_sent_as_it_is(langs[lang][key.id_spec()], args);
    }
}

/// The file of a language is named after its code.
pub proof fn a_language_is_named_by_its_file(code: Seq<char>)
    requires
        code.len() > 0,
    ensures
        language_of(code + ".lang"@) is Some <==> code != ENGLISH@,
        code != ENGLISH@ ==> language_of(code + ".lang"@) == Some(code),
{
    reveal_strlit(".lang");
    let file = code + ".lang"@;
    assert(file.take(file.len() - 5) =~= code);
    assert(".lang"@ =~= file.subrange(file.len() - 5, file.len() as int));
}

/// An entry is read as it was written: the key in front of the first equals
/// sign, the template behind it, and white space around either does not count.
pub proof fn an_entry_is_read_as_written(
    key: Seq<char>,
    left: Seq<char>,
    right: Seq<char>,
    value: Seq<char>,
)
    requires
        key.len() > 0,
        value.len() > 0,
        key[0] != '#',
        !key.contains('='),
        !value.contains('\\'),
        !crate::text::is_white(key[0]),
        !crate::text::is_white(key.last()),
        !crate::text::is_white(value[0]),
        !crate::text::is_white(value.last()),
        forall|k: int| 0 <= k < left.len() ==> crate::text::is_white(#[trigger] left[k]),
        forall|k: int| 0 <= k < right.len() ==> crate::text::is_white(#[trigger] right[k]),
    ensures
        lang_line(key + left.push('=') + right + value) == Some((key, value)),
{
    reveal_strlit("=");
    let line = key + left.push('=') + right + value;
    let at = key.len() + left.len() as int;
    assert(line[0] == key[0]);
    assert(line.last() == value.last());
    crate::text::nothing_to_trim(line);
    assert("="@ =~= seq!['=']);
    assert(line[at] == '=');
    assert(crate::text::at(line, at, "="@)) by {
        assert(line.subrange(at, at + 1) =~= "="@);
    }
    lemma_first_from(line, "="@, 0);
    if let Some(k) = first(line, "="@) {
        assert(line.subrange(k, k + 1)[0] == '=');
        if k < at {
            if k < key.len() {
                assert(line[k] == key[k]);
                assert(key.contains(key[k]));
            } else {
                assert(line[k] == left[k - key.len()]);
                assert(crate::text::is_white(left[k - key.len()]));
            }
        }
    }
    assert(line.take(at) =~= Seq::<char>::empty() + key + left);
    crate::text::trimming_takes_white_space_off(Seq::empty(), key, left);
    assert(line.skip(at + 1) =~= right + value + Seq::<char>::empty());
    crate::text::trimming_takes_white_space_off(right, value, Seq::empty());
    lemma_nothing_replaced(value);
}

proof fn lemma_nothing_replaced(value: Seq<char>)
    requires
        !value.contains('\\'),
    ensures
        replaced(value, "\\n"@, "\n"@) == value,
{
    reveal_strlit("\\n");
    lemma_first_from(value, "\\n"@, 0);
    if let Some(k) = first(value, "\\n"@) {
        assert(value.subrange(k, k + 2)[0] == '\\');
        assert(value.contains(value[k]));
    }
    reveal_with_fuel(crate::text::joined, 2);
    assert(crate::text::split(value, "\\n"@) =~= seq![value]);
}

/// Blank lines and comments are no entries, and neither is a line without an
/// equals sign.
pub proof fn other_lines_are_no_entries(text: Seq<char>)
    ensures
        lang_line(seq!['#'] + text) is None,
        !text.contains('=') ==> lang_line(text) is None,
        lang_line(Seq::empty()) is None,
{
    reveal_strlit("=");
    let comment = seq!['#'] + text;
    assert(comment[0] == '#');
    assert(!crate::text::is_white('#'));
    crate::text::lemma_trimmed_front(comment);
    crate::text::lemma_trimmed_part(text);
    let line = trimmed(text);
    lemma_first_from(line, "="@, 0);
    if let Some(k) = first(line, "="@) {
        assert(line.subrange(k, k + 1)[0] == '=');
        assert(line.contains(line[k]));
        if !text.contains('=') {
            let j = crate::text::leading_white(text) as int;
            assert(line[k] == text[j + k]);
            assert(text.contains(text[j + k]));
        }
    }
}

/// A language is complete if and only if it has every message.
pub proof fn every_missing_message_is_counted(
    langs: Map<Seq<char>, Map<Seq<char>, Seq<char>>>,
    code: Seq<char>,
)
    ensures
        translated(langs, code, KEY_COUNT as nat) <= KEY_COUNT,
        translated(langs, code, KEY_COUNT as nat) == KEY_COUNT <==> forall|key: Key|
            langs.contains_key(code) && langs[code].contains_key(#[trigger] key.id_spec()),
{
    lemma_translated(langs, code, KEY_COUNT as nat);
    if translated(langs, code, KEY_COUNT as nat) == KEY_COUNT {
        assert forall|key: Key|
            langs.contains_key(code) && langs[code].contains_key(#[trigger] key.id_spec()) by {
            lemma_key_at(key);
            assert(template_in(langs, code, key_at(key.place()).id_spec()) is Some);
        }
    }
    if forall|key: Key|
        langs.contains_key(code) && langs[code].contains_key(#[trigger] key.id_spec()) {
        assert forall|i: int| 0 <= i < KEY_COUNT implies template_in(
            langs,
            code,
            (#[trigger] key_at(i)).id_spec(),
        ) is Some by {
            assert(langs[code].contains_key(key_at(i).id_spec()));
        }
    }
}

proof fn lemma_translated(
    langs: Map<Seq<char>, Map<Seq<char>, Seq<char>>>,
    code: Seq<char>,
    n: nat,
)
    ensures
        translated(langs, code, n) <= n,
        translated(langs, code, n) == n <==> forall|i: int|
            0 <= i < n ==> template_in(langs, code, (#[trigger] key_at(i)).id_spec()) is Some,
    decreases n,
{
    if n > 0 {
        lemma_translated(langs, code, (n - 1) as nat);
        let key = key_at(n - 1);
    }
}

/// A message is reported if and only if it is there in the language and in
/// English, and one of the two has a slot that the other lacks.
pub proof fn every_wrong_slot_is_reported(
    langs: Map<Seq<char>, Map<Seq<char>, Seq<char>>>,
    code: Seq<char>,
    key: Key,
    name: Seq<char>,
)
    requires
        langs.contains_key(code),
        langs.contains_key(ENGLISH@),
        langs[code].contains_key(key.id_spec()),
        langs[ENGLISH@].contains_key(key.id_spec()),
        slots(langs[code][key.id_spec()]).contains(name) != slots(
            langs[ENGLISH@][key.id_spec()],
        ).contains(name),
    ensures
        mismatches(langs, code, KEY_COUNT as nat).contains(key.id_spec()),
{
    lemma_key_at(key);
    lemma_mismatches(langs, code, KEY_COUNT as nat, key.place());
}

proof fn lemma_mismatches(
    langs: Map<Seq<char>, Map<Seq<char>, Seq<char>>>,
    code: Seq<char>,
    n: nat,
    i: int,
)
    requires
        0 <= i < n,
        mismatched(langs, code, key_at(i).id_spec()),
    ensures
        mismatches(langs, code, n).contains(key_at(i).id_spec()),
    decreases n,
{
    let before = mismatches(langs, code, (n - 1) as nat);
    let id = key_at(n - 1).id_spec();
    if i < n - 1 {
        lemma_mismatches(langs, code, (n - 1) as nat, i);
        let k = choose|k: int| 0 <= k < before.len() && before[k] == key_at(i).id_spec();
        assert(before.push(id)[k] == key_at(i).id_spec());
    } else {
        assert(before.push(id)[before.len() as int] == id);
    }
}

/// English is complete and agrees with itself.
pub proof fn english_is_complete(langs: Map<Seq<char>, Map<Seq<char>, Seq<char>>>)
    requires
        langs.contains_key(ENGLISH@),
        langs[ENGLISH@] == english_entries(),
    ensures
        translated(langs, ENGLISH@, KEY_COUNT as nat) == KEY_COUNT,
        mismatches(langs, ENGLISH@, KEY_COUNT as nat).len() == 0,
{
    every_missing_message_is_counted(langs, ENGLISH@);
    assert forall|key: Key|
        langs.contains_key(ENGLISH@) && langs[ENGLISH@].contains_key(#[trigger] key.id_spec()) by {
        every_key_has_an_english_entry(key);
    }
    lemma_no_mismatches(langs, KEY_COUNT as nat);
}

proof fn lemma_no_mismatches(langs: Map<Seq<char>, Map<Seq<char>, Seq<char>>>, n: nat)
    ensures
        mismatches(langs, ENGLISH@, n).len() == 0,
    decreases n,
{
    if n > 0 {
        lemma_no_mismatches(langs, (n - 1) as nat);
    }
}

/// Whether a line has an entry for a key.
pub open spec fn gives(line: Seq<char>, key: Seq<char>) -> bool {
    lang_line(line) matches Some(entry) && entry.0 == key
}

/// Of several lines with the same key the last one counts.
pub proof fn the_last_line_of_a_key_counts(
    ls: Seq<Seq<char>>,
    i: int,
    key: Seq<char>,
    value: Seq<char>,
)
    requires
        0 <= i < ls.len(),
        lang_line(ls[i]) == Some((key, value)),
        forall|k: int| i < k < ls.len() ==> !gives(#[trigger] ls[k], key),
    ensures
        lang_lines(ls).contains_key(key),
        lang_lines(ls)[key] == value,
    decreases ls.len(),
{
    let rest = ls.drop_last();
    let n = ls.len() - 1;
    assert(ls[n] == ls.last());
    if i < n {
        assert(!gives(ls[n], key));
        assert forall|k: int| i < k < rest.len() implies !gives(#[trigger] rest[k], key) by {
            assert(rest[k] == ls[k]);
        }
        the_last_line_of_a_key_counts(rest, i, key, value);
    }
}

/// A key that no line gives has no entry.
pub proof fn a_key_without_a_line_has_no_entry(ls: Seq<Seq<char>>, key: Seq<char>)
    requires
        forall|k: int| 0 <= k < ls.len() ==> !gives(#[trigger] ls[k], key),
    ensures
        !lang_lines(ls).contains_key(key),
    decreases ls.len(),
{
    if ls.len() > 0 {
        let rest = ls.drop_last();
        assert(!gives(ls[ls.len() - 1], key));
        assert forall|k: int| 0 <= k < rest.len() implies !gives(#[trigger] rest[k], key) by {
            assert(rest[k] == ls[k]);
        }
        a_key_without_a_line_has_no_entry(rest, key);
    }
}

} // verus!
