//! One bot's configuration: its fields, their defaults and their limits.
use vstd::prelude::*;
use vstd::string::*;

use crate::services::Service;
use crate::text::{
    alphanumeric, chars_of, decimal, digits, in_order, lemma_views_push, lowercase, replace,
    replaced, same, signed_decimal, signed_digits, sort_strings, strip_suffix, to_lower, trim,
    trimmed, views,
};

verus! {

#[derive(Debug, Clone, Copy, PartialEq, Eq, Structural)]
pub enum Gender {
    Male,
    Female,
    Neutral,
}

/// The gender that a word in lower case names.
pub open spec fn named_gender(word: Seq<char>) -> Option<Gender> {
    if word == "male"@ || word == "m"@ || word == "man"@ {
        Some(Gender::Male)
    } else if word == "female"@ || word == "f"@ || word == "woman"@ {
        Some(Gender::Female)
    } else if word == "neutral"@ || word == "n"@ || word == "nb"@ {
        Some(Gender::Neutral)
    } else {
        None
    }
}

/// Read a gender from a word in lower case.
pub fn gender_of_word(word: &str) -> (r: Option<Gender>)
    ensures
        r == named_gender(word@),
{
    if same(word, "male") || same(word, "m") || same(word, "man") {
        Some(Gender::Male)
    } else if same(word, "female") || same(word, "f") || same(word, "woman") {
        Some(Gender::Female)
    } else if same(word, "neutral") || same(word, "n") || same(word, "nb") {
        Some(Gender::Neutral)
    } else {
        None
    }
}

pub open spec fn valid_gender(s: Seq<char>) -> bool {
    named_gender(lowercase(s)) is Some
}

/// Check whether a string is a recognised gender alias.
pub fn is_valid_gender(s: &str) -> (r: bool)
    ensures
        r == valid_gender(s@),
{
    gender_of_word(to_lower(s).as_str()).is_some()
}

/// The gender that a text stands for; anything unknown is neutral.
pub open spec fn gender_for(s: Seq<char>) -> Gender {
    match named_gender(lowercase(s)) {
        Some(gender) => gender,
        None => Gender::Neutral,
    }
}

/// Parse a gender string.
/// Accepts: male/m/man, female/f/woman, neutral/n/nb (and anything else
/// defaults to Neutral).
pub fn parse_gender(s: &str) -> (r: Gender)
    ensures
        r == gender_for(s@),
{
    match gender_of_word(to_lower(s).as_str()) {
        Some(gender) => gender,
        None => Gender::Neutral,
    }
}

/// The exit status for a missing or broken config: starting again cannot help.
pub const EXIT_CONFIG_ERROR: i32 = 78;

// ---- where configs live ----

/// The directory for configs on Linux and macOS: `ttspotify` below the user's
/// configuration directory, or below the current one where there is none.
pub fn unix_config_dir(base: Option<&str>) -> (r: String)
    ensures
        r@ == crate::paths::joined_path(
            crate::paths::PathStyle::Unix,
            match base {
                Some(b) => b@,
                None => "."@,
            },
            "ttspotify"@,
        ),
{
    match base {
        Some(b) => crate::paths::join_path(crate::paths::PathStyle::Unix, b, "ttspotify"),
        None => crate::paths::join_path(crate::paths::PathStyle::Unix, ".", "ttspotify"),
    }
}

/// The directory for configs on Windows: `data` next to the executable, unless
/// only the current directory holds one. `exe_data` is where the former would
/// be, where the executable is known.
pub fn windows_config_dir(
    exe_data: Option<&str>,
    exe_data_exists: bool,
    cwd_data_exists: bool,
) -> (r: String)
    ensures
        r@ == (match exe_data {
            Some(dir) => if !exe_data_exists && cwd_data_exists {
                "data"@
            } else {
                dir@
            },
            None => "data"@,
        }),
{
    match exe_data {
        Some(dir) => if !exe_data_exists && cwd_data_exists {
            String::from_str("data")
        } else {
            dir.to_owned()
        },
        None => String::from_str("data"),
    }
}

/// Whether a file stem belongs to a file that shares the config directory and
/// is no server config: the app-global settings, and auth or session files.
pub open spec fn reserved_name(stem: Seq<char>) -> bool {
    stem == "credentials"@ || stem == "cookies"@ || stem == "sessions"@ || stem == "settings"@
}

/// The name of the bot that a file in the config directory configures.
pub open spec fn config_name_of(file: Seq<char>) -> Option<Seq<char>> {
    if ".json"@.is_suffix_of(file) && file.len() > 5 && !reserved_name(file.take(file.len() - 5)) {
        Some(file.take(file.len() - 5))
    } else {
        None
    }
}

pub fn config_name(file: &str) -> (r: Option<String>)
    ensures
        match r {
            Some(name) => config_name_of(file@) == Some(name@),
            None => config_name_of(file@) is None,
        },
{
    proof {
        reveal_strlit(".json");
    }
    match strip_suffix(file, ".json") {
        Some(stem) => if stem.is_empty() || same(stem, "credentials") || same(stem, "cookies")
            || same(stem, "sessions") || same(stem, "settings") {
            None
        } else {
            Some(stem.to_owned())
        },
        None => None,
    }
}

/// Whether `name` is the name of a bot that some file configures.
pub open spec fn names_config(files: Seq<Seq<char>>, name: Seq<char>) -> bool {
    exists|i: int| 0 <= i < files.len() && config_name_of(#[trigger] files[i]) == Some(name)
}

/// Whether a text holds a letter or a number.
pub open spec fn has_letter(s: Seq<char>) -> bool {
    exists|i: int| 0 <= i < s.len() && alphanumeric(#[trigger] s[i])
}

/// The bot name in what was entered for one: it becomes a file name, so
/// separators are dropped, and so is the extension. What has neither letter nor
/// number is no name, and "all" stands for every bot.
pub open spec fn bot_name_in(entered: Seq<char>) -> Option<Seq<char>> {
    let plain = trimmed(replaced(replaced(entered, "/"@, ""@), "\\"@, ""@));
    let name = if ".json"@.is_suffix_of(plain) {
        plain.take(plain.len() - ".json"@.len())
    } else {
        plain
    };
    if !has_letter(name) || name == "all"@ {
        None
    } else {
        Some(name)
    }
}

fn holds_letter(s: &str) -> (r: bool)
    ensures
        r == has_letter(s@),
{
    let v = chars_of(s);
    let mut i: usize = 0;
    while i < v.len()
        invariant
            i <= v.len(),
            v@ == s@,
            forall|k: int| 0 <= k < i ==> !alphanumeric(#[trigger] v@[k]),
        decreases v.len() - i,
    {
        if v[i].is_alphanumeric() {
            return true;
        }
        i += 1;
    }
    false
}

/// The bot name in what was entered for one, where there is one.
pub fn sanitise_config_name(entered: &str) -> (r: Option<String>)
    ensures
        match r {
            Some(name) => bot_name_in(entered@) == Some(name@),
            None => bot_name_in(entered@) is None,
        },
{
    proof {
        reveal_strlit("/");
        reveal_strlit("\\");
    }
    let kept = replace(replace(entered, "/", "").as_str(), "\\", "");
    let plain = trim(kept.as_str());
    let name = match strip_suffix(plain, ".json") {
        Some(name) => name,
        None => plain,
    };
    if !holds_letter(name) || same(name, "all") {
        None
    } else {
        Some(name.to_owned())
    }
}

/// The names of the configured bots, given the files of the config directory:
/// sorted, skipping non-bot files.
pub fn list_configs(files: &Vec<String>) -> (r: Vec<String>)
    ensures
        in_order(views(r@)),
        forall|name: Seq<char>| #[trigger]
            views(r@).contains(name) == names_config(views(files@), name),
        views(r@).to_multiset() == config_names_upto(views(files@), files@.len()).to_multiset(),
{
    let ghost fs = views(files@);
    let mut out: Vec<String> = Vec::new();
    let mut i: usize = 0;
    while i < files.len()
        invariant
            i <= files.len(),
            fs == views(files@),
            views(out@) == config_names_upto(fs, i as nat),
        decreases files.len() - i,
    {
        assert(fs[i as int] == files@[i as int]@);
        if let Some(name) = config_name(files[i].as_str()) {
            proof {
                lemma_views_push(out@, name);
            }
            out.push(name);
        }
        i += 1;
    }
    let ghost names = views(out@);
    let sorted = sort_strings(out);
    proof {
        let w = views(sorted@);
        names.to_multiset_ensures();
        w.to_multiset_ensures();
        assert forall|name: Seq<char>| #[trigger] w.contains(name) == names_config(fs, name) by {
            lemma_config_names(fs, fs.len(), name);
            assert(names.contains(name) <==> names.to_multiset().count(name) > 0);
            assert(w.contains(name) <==> w.to_multiset().count(name) > 0);
            if names_config(fs, name) {
                let k = choose|k: int|
                    0 <= k < fs.len() && config_name_of(#[trigger] fs[k]) == Some(name);
                assert(0 <= k < fs.len());
            }
        }
    }
    sorted
}

/// The names that the first `n` files configure, in the order of the files.
pub open spec fn config_names_upto(files: Seq<Seq<char>>, n: nat) -> Seq<Seq<char>>
    decreases n,
{
    if n == 0 {
        seq![]
    } else {
        match config_name_of(files[n - 1]) {
            Some(name) => config_names_upto(files, (n - 1) as nat).push(name),
            None => config_names_upto(files, (n - 1) as nat),
        }
    }
}

proof fn lemma_config_names(files: Seq<Seq<char>>, n: nat, name: Seq<char>)
    requires
        n <= files.len(),
    ensures
        config_names_upto(files, n).contains(name) == exists|k: int|
            0 <= k < n && config_name_of(#[trigger] files[k]) == Some(name),
    decreases n,
{
    if n > 0 {
        let before = config_names_upto(files, (n - 1) as nat);
        let after = config_names_upto(files, n);
        lemma_config_names(files, (n - 1) as nat, name);
        if before.contains(name) {
            let k = choose|k: int| 0 <= k < before.len() && before[k] == name;
            assert(after[k] == name);
        }
        if config_name_of(files[n - 1]) == Some(name) {
            assert(after[before.len() as int] == name);
        }
        if after.contains(name) {
            let k = choose|k: int| 0 <= k < after.len() && after[k] == name;
            if k < before.len() {
                assert(before[k] == name);
                assert(before.contains(name));
            } else {
                assert(config_name_of(files[n - 1]) == Some(name));
            }
        }
    }
}

/// Whether the answer to a yes-or-no question is yes. Anything else is no.
pub fn is_yes(answer: &str) -> (r: bool)
    ensures
        r == yes(answer@),
{
    let word = to_lower(trim(answer));
    same(word.as_str(), "y") || same(word.as_str(), "yes")
}

pub open spec fn yes(answer: Seq<char>) -> bool {
    lowercase(trimmed(answer)) == "y"@ || lowercase(trimmed(answer)) == "yes"@
}

// ---- the configuration ----

pub fn default_norm_type() -> (r: String)
    ensures
        r@ == "auto"@,
{
    String::from_str("auto")
}

pub fn default_norm_method() -> (r: String)
    ensures
        r@ == "dynamic"@,
{
    String::from_str("dynamic")
}

/// A bot's configuration, without the fractional audio settings, which are
/// only handed through.
#[derive(Debug, Clone, PartialEq)]
pub struct BotConfig {
    // TeamTalk connection
    pub host: String,
    pub tcp_port: i32,
    pub udp_port: i32,
    pub encrypted: bool,
    pub bot_name: String,
    pub username: String,
    pub password: String,
    pub channel_name: String,
    pub channel_password: String,
    pub bot_gender: String,
    // TeamTalk license (optional)
    pub license_name: Option<String>,
    pub license_key: Option<String>,
    // Spotify
    pub spotify_quality: String,
    pub spotify_enable_normalization: bool,
    pub normalisation_type: String,
    pub normalisation_method: String,
    // Audio
    pub volume: u8,
    pub max_volume: u8,
    pub jitter_buffer_ms: u32,
    // Radio/recommendations
    pub radio_enabled: bool,
    pub radio_batch_size: u8,
    // Search
    pub search_limit: u8,
    // Playback modes (persisted across restarts)
    pub repeat_track: bool,
    pub repeat_queue: bool,
    pub shuffle: bool,
    /// Service that the bot starts on and that bare commands (p, search)
    /// target.
    pub default_service: Service,
    /// Path to a Netscape-format cookies file (optional).
    pub youtube_cookies_file: String,
}

impl Default for BotConfig {
    fn default() -> (r: Self)
        ensures
            r.is_default(),
    {
        BotConfig {
            host: String::from_str("localhost"),
            tcp_port: 10333,
            udp_port: 10333,
            encrypted: false,
            bot_name: String::from_str("Spotify"),
            username: String::new(),
            password: String::new(),
            channel_name: String::from_str("/"),
            channel_password: String::new(),
            bot_gender: String::from_str("neutral"),
            license_name: None,
            license_key: None,
            spotify_quality: String::from_str("VERY_HIGH"),
            spotify_enable_normalization: true,
            normalisation_type: default_norm_type(),
            normalisation_method: default_norm_method(),
            volume: 50,
            max_volume: 70,
            jitter_buffer_ms: 400,
            radio_enabled: false,
            radio_batch_size: 3,
            search_limit: 5,
            repeat_track: false,
            repeat_queue: false,
            shuffle: false,
            default_service: Service::default(),
            youtube_cookies_file: String::new(),
        }
    }
}

/// A value within limits.
pub open spec fn clamped(n: u8, low: u8, high: u8) -> u8 {
    if n < low {
        low
    } else if n > high {
        high
    } else {
        n
    }
}

pub open spec fn smaller(a: u8, b: u8) -> u8 {
    if a <= b {
        a
    } else {
        b
    }
}

pub open spec fn valid_port(port: i32) -> bool {
    1 <= port <= 65535
}

/// A list of corrections, with one more where it applies.
pub open spec fn noted(list: Seq<Seq<char>>, applies: bool, text: Seq<char>) -> Seq<Seq<char>> {
    if applies {
        list.push(text)
    } else {
        list
    }
}

/// What is wrong with the volumes, the radio and the search.
pub open spec fn playback_corrections(c: BotConfig) -> Seq<Seq<char>> {
    let cap = smaller(c.max_volume, 100);
    let a = noted(
        seq![],
        c.max_volume > 100,
        "max_volume "@ + digits(c.max_volume as nat) + " > 100, clamped to 100"@,
    );
    let b = noted(
        a,
        c.volume > cap,
        "volume "@ + digits(c.volume as nat) + " > max_volume "@ + digits(cap as nat)
            + ", clamped"@,
    );
    let d = noted(b, c.radio_batch_size < 1, "radio_batch_size < 1, set to 1"@);
    noted(
        d,
        c.search_limit < 1 || c.search_limit > 20,
        "search_limit "@ + digits(c.search_limit as nat) + " out of 1..=20, set to "@ + digits(
            clamped(c.search_limit, 1, 20) as nat,
        ),
    )
}

/// What is wrong with a configuration, in the order in which it is reported.
pub open spec fn corrections(
    c: BotConfig,
    ramp_usable: bool,
    ramp_shown: Seq<char>,
) -> Seq<Seq<char>> {
    let a = noted(
        playback_corrections(c),
        !ramp_usable,
        "volume_ramp_step "@ + ramp_shown + " invalid, reset to 0.03"@,
    );
    let b = noted(
        a,
        !valid_port(c.tcp_port),
        "tcp_port "@ + signed_digits(c.tcp_port as int) + " out of range, reset to 10333"@,
    );
    let d = noted(
        b,
        !valid_port(c.udp_port),
        "udp_port "@ + signed_digits(c.udp_port as int) + " out of range, reset to 10333"@,
    );
    let e = noted(d, trimmed(c.host@).len() == 0, "host is empty, reset to localhost"@);
    noted(e, trimmed(c.bot_name@).len() == 0, "bot_name is empty, reset to Spotify"@)
}

/// What a correction makes of a configuration: only what is beyond its limits
/// changes.
pub open spec fn corrected(old: BotConfig, new: BotConfig) -> bool {
    &&& new.sane()
    &&& new.max_volume == smaller(old.max_volume, 100)
    &&& new.volume == smaller(old.volume, smaller(old.max_volume, 100))
    &&& new.radio_batch_size == (if old.radio_batch_size < 1 {
        1u8
    } else {
        old.radio_batch_size
    })
    &&& new.search_limit == clamped(old.search_limit, 1, 20)
    &&& new.tcp_port == (if valid_port(old.tcp_port) {
        old.tcp_port
    } else {
        10333i32
    })
    &&& new.udp_port == (if valid_port(old.udp_port) {
        old.udp_port
    } else {
        10333i32
    })
    &&& new.host@ == (if trimmed(old.host@).len() > 0 {
        old.host@
    } else {
        "localhost"@
    })
    &&& new.bot_name@ == (if trimmed(old.bot_name@).len() > 0 {
        old.bot_name@
    } else {
        "Spotify"@
    })
    &&& new == (BotConfig {
        max_volume: new.max_volume,
        volume: new.volume,
        radio_batch_size: new.radio_batch_size,
        search_limit: new.search_limit,
        tcp_port: new.tcp_port,
        udp_port: new.udp_port,
        host: new.host,
        bot_name: new.bot_name,
        ..old
    })
}

fn note(list: &mut Vec<String>, text: String)
    ensures
        views(final(list)@) == views(old(list)@).push(text@),
{
    proof {
        lemma_views_push(list@, text);
    }
    list.push(text);
}

/// A correction of the stored configuration, made while the bot runs.
#[derive(Debug)]
pub enum ConfigChange {
    Volume(u8),
    Radio(bool),
    Gender(String),
    /// Everything that is kept across a restart.
    AtExit { radio: bool, volume: u8, repeat_track: bool, repeat_queue: bool, shuffle: bool },
}

impl BotConfig {
    pub open spec fn is_default(&self) -> bool {
        &&& self.host@ == "localhost"@
        &&& self.tcp_port == 10333
        &&& self.udp_port == 10333
        &&& !self.encrypted
        &&& self.bot_name@ == "Spotify"@
        &&& self.username@.len() == 0
        &&& self.password@.len() == 0
        &&& self.channel_name@ == "/"@
        &&& self.channel_password@.len() == 0
        &&& self.bot_gender@ == "neutral"@
        &&& self.license_name is None
        &&& self.license_key is None
        &&& self.spotify_quality@ == "VERY_HIGH"@
        &&& self.spotify_enable_normalization
        &&& self.normalisation_type@ == "auto"@
        &&& self.normalisation_method@ == "dynamic"@
        &&& self.volume == 50
        &&& self.max_volume == 70
        &&& self.jitter_buffer_ms == 400
        &&& !self.radio_enabled
        &&& self.radio_batch_size == 3
        &&& self.search_limit == 5
        &&& !self.repeat_track
        &&& !self.repeat_queue
        &&& !self.shuffle
        &&& self.default_service == Service::Spotify
        &&& self.youtube_cookies_file@.len() == 0
    }

    /// Whether every field is within its limits.
    pub open spec fn sane(&self) -> bool {
        &&& self.volume <= self.max_volume <= 100
        &&& self.radio_batch_size >= 1
        &&& 1 <= self.search_limit <= 20
        &&& valid_port(self.tcp_port)
        &&& valid_port(self.udp_port)
        &&& trimmed(self.host@).len() > 0
        &&& trimmed(self.bot_name@).len() > 0
    }

    /// Clamp out-of-range fields to sane values, returning a list of the
    /// corrections made (for logging). Keeps a hand-edited config from putting
    /// the bot into an unusable state (e.g. volume above the cap, port 0).
    ///
    /// The volume ramp step is a fraction and is not held here: `ramp_usable`
    /// says whether it is a positive number, `ramp_shown` is how it is written.
    pub fn validate(&mut self, ramp_usable: bool, ramp_shown: &str) -> (r: Vec<String>)
        ensures
            views(r@) == corrections(*old(self), ramp_usable, ramp_shown@),
            corrected(*old(self), *final(self)),
    {
        let mut warnings = self.validate_playback();
        if !ramp_usable {
            let mut w = String::from_str("volume_ramp_step ");
            w.append(ramp_shown);
            w.append(" invalid, reset to 0.03");
            note(&mut warnings, w);
        }
        if self.tcp_port < 1 || self.tcp_port > 65535 {
            let mut w = String::from_str("tcp_port ");
            w.append(signed_decimal(self.tcp_port as i64).as_str());
            w.append(" out of range, reset to 10333");
            note(&mut warnings, w);
            self.tcp_port = 10333;
        }
        if self.udp_port < 1 || self.udp_port > 65535 {
            let mut w = String::from_str("udp_port ");
            w.append(signed_decimal(self.udp_port as i64).as_str());
            w.append(" out of range, reset to 10333");
            note(&mut warnings, w);
            self.udp_port = 10333;
        }
        proof {
            lemma_names_not_blank();
        }
        if trim(self.host.as_str()).is_empty() {
            note(&mut warnings, String::from_str("host is empty, reset to localhost"));
            self.host = String::from_str("localhost");
        }
        if trim(self.bot_name.as_str()).is_empty() {
            note(&mut warnings, String::from_str("bot_name is empty, reset to Spotify"));
            self.bot_name = String::from_str("Spotify");
        }
        warnings
    }

    fn validate_playback(&mut self) -> (r: Vec<String>)
        ensures
            views(r@) == playback_corrections(*old(self)),
            *final(self) == (BotConfig {
                max_volume: smaller(old(self).max_volume, 100),
                volume: smaller(old(self).volume, smaller(old(self).max_volume, 100)),
                radio_batch_size: if old(self).radio_batch_size < 1 {
                    1u8
                } else {
                    old(self).radio_batch_size
                },
                search_limit: clamped(old(self).search_limit, 1, 20),
                ..*old(self)
            }),
    {
        let mut warnings: Vec<String> = Vec::new();
        assert(views(warnings@) =~= seq![]);
        if self.max_volume > 100 {
            let mut w = String::from_str("max_volume ");
            w.append(decimal(self.max_volume as u64).as_str());
            w.append(" > 100, clamped to 100");
            note(&mut warnings, w);
            self.max_volume = 100;
        }
        if self.volume > self.max_volume {
            let mut w = String::from_str("volume ");
            w.append(decimal(self.volume as u64).as_str());
            w.append(" > max_volume ");
            w.append(decimal(self.max_volume as u64).as_str());
            w.append(", clamped");
            note(&mut warnings, w);
            self.volume = self.max_volume;
        }
        if self.radio_batch_size < 1 {
            note(&mut warnings, String::from_str("radio_batch_size < 1, set to 1"));
            self.radio_batch_size = 1;
        }
        if self.search_limit < 1 || self.search_limit > 20 {
            let within: u8 = if self.search_limit < 1 {
                1
            } else {
                20
            };
            let mut w = String::from_str("search_limit ");
            w.append(decimal(self.search_limit as u64).as_str());
            w.append(" out of 1..=20, set to ");
            w.append(decimal(within as u64).as_str());
            note(&mut warnings, w);
            self.search_limit = within;
        }
        warnings
    }

    /// Apply one runtime change.
    pub fn apply(&mut self, change: &ConfigChange)
        ensures
            applied(*old(self), *final(self), *change),
    {
        match change {
            ConfigChange::Volume(volume) => {
                self.volume = *volume;
            },
            ConfigChange::Radio(on) => {
                self.radio_enabled = *on;
            },
            ConfigChange::Gender(gender) => {
                self.bot_gender = gender.clone();
            },
            ConfigChange::AtExit { radio, volume, repeat_track, repeat_queue, shuffle } => {
                self.radio_enabled = *radio;
                self.volume = *volume;
                self.repeat_track = *repeat_track;
                self.repeat_queue = *repeat_queue;
                self.shuffle = *shuffle;
            },
        }
    }
}

/// What one runtime change leads to: its own fields are set, and no others.
pub open spec fn applied(old: BotConfig, new: BotConfig, change: ConfigChange) -> bool {
    match change {
        ConfigChange::Volume(volume) => new == (BotConfig { volume, ..old }),
        ConfigChange::Radio(on) => new == (BotConfig { radio_enabled: on, ..old }),
        ConfigChange::Gender(gender) => new.bot_gender@ == gender@ && new == (BotConfig {
            bot_gender: new.bot_gender,
            ..old
        }),
        ConfigChange::AtExit { radio, volume, repeat_track, repeat_queue, shuffle } => new == (
        BotConfig { radio_enabled: radio, volume, repeat_track, repeat_queue, shuffle, ..old }),
    }
}

/// What a change at run time starts from.
pub open spec fn starting_point(cached: BotConfig, on_disk: Option<BotConfig>) -> BotConfig {
    match on_disk {
        Some(c) => c,
        None => cached,
    }
}

/// The configuration that a runtime change starts from: what is on disk, so
/// that edits made elsewhere are kept, or the copy in memory where the file
/// cannot be read just now.
pub fn before_update(cached: BotConfig, on_disk: Option<BotConfig>) -> (r: BotConfig)
    ensures
        r == starting_point(cached, on_disk),
{
    match on_disk {
        Some(c) => c,
        None => cached,
    }
}

proof fn lemma_names_not_blank()
    ensures
        trimmed("localhost"@).len() > 0,
        trimmed("Spotify"@).len() > 0,
{
    reveal_strlit("localhost");
    reveal_strlit("Spotify");
}

/// A configuration that is within its limits needs no correction.
pub proof fn a_sane_config_is_left_alone(c: BotConfig, ramp_shown: Seq<char>)
    requires
        c.sane(),
    ensures
        corrections(c, true, ramp_shown).len() == 0,
{
}

/// Whatever is beyond its limits is reported: a configuration without
/// corrections is within them.
pub proof fn whatever_is_wrong_is_reported(c: BotConfig, ramp_usable: bool, ramp_shown: Seq<char>)
    requires
        corrections(c, ramp_usable, ramp_shown).len() == 0,
    ensures
        c.sane(),
        ramp_usable,
{
}

/// A value beyond its limits becomes the nearest one within them, and any
/// other stays.
pub proof fn clamping_moves_as_little_as_it_can(n: u8, low: u8, high: u8, other: u8)
    requires
        low <= other <= high,
    ensures
        low <= clamped(n, low, high) <= high,
        low <= n <= high ==> clamped(n, low, high) == n,
        n <= other ==> clamped(n, low, high) <= other,
        n >= other ==> clamped(n, low, high) >= other,
        smaller(n, other) <= n,
        smaller(n, other) <= other,
        smaller(n, other) == n || smaller(n, other) == other,
{
}

/// The file that is written for a bot is found again under its name.
pub proof fn a_bot_is_found_by_its_file(name: Seq<char>)
    requires
        name.len() > 0,
        !reserved_name(name),
    ensures
        config_name_of(name + ".json"@) == Some(name),
{
    reveal_strlit(".json");
    let file = name + ".json"@;
    assert(file.take(file.len() - 5) =~= name);
    assert(file.subrange(file.len() - 5, file.len() as int) =~= ".json"@);
}

/// A name that was entered never holds a path separator, and it is neither
/// empty nor the word that stands for every bot.
pub proof fn an_entered_name_is_a_plain_file_name(entered: Seq<char>)
    requires
        bot_name_in(entered) is Some,
    ensures
        ({
            let name = bot_name_in(entered)->0;
            &&& name.len() > 0
            &&& !name.contains('/')
            &&& !name.contains('\\')
            &&& name != "all"@
            &&& has_letter(name)
        }),
{
    reveal_strlit("/");
    reveal_strlit("\\");
    reveal_strlit("");
    reveal_strlit(".json");
    let name = bot_name_in(entered)->0;
    let one = replaced(entered, "/"@, ""@);
    let two = replaced(one, "\\"@, ""@);
    assert("/"@ =~= seq!['/']);
    assert("\\"@ =~= seq!['\\']);
    assert(""@ =~= Seq::<char>::empty());
    lemma_dropped(entered, '/', '/');
    lemma_dropped(one, '\\', '\\');
    lemma_dropped(one, '\\', '/');
    crate::text::lemma_trimmed_part(two);
    let plain = trimmed(two);
    assert forall|i: int| 0 <= i < name.len() implies name[i] != '/' && name[i] != '\\' by {
        assert(name[i] == plain[i]);
        assert(two.contains(two[crate::text::leading_white(two) + i]));
    }
}

/// A character that every occurrence of is dropped does not occur any more,
/// and no other comes in.
proof fn lemma_dropped(s: Seq<char>, c: char, other: char)
    ensures
        replaced(s, seq![c], Seq::empty()).contains(other) ==> s.contains(other) && other != c,
{
    let parts = crate::text::split(s, seq![c]);
    lemma_pieces(s, c);
    lemma_joined_holds(parts, other);
    if replaced(s, seq![c], Seq::empty()).contains(other) {
        let i = choose|i: int| 0 <= i < parts.len() && #[trigger] parts[i].contains(other);
        let k = choose|k: int| 0 <= k < parts[i].len() && parts[i][k] == other;
        assert(parts[i][k] != c && s.contains(parts[i][k]));
    }
}

proof fn lemma_pieces(s: Seq<char>, c: char)
    ensures
        forall|i: int, k: int|
            0 <= i < crate::text::split(s, seq![c]).len() && 0 <= k < crate::text::split(
                s,
                seq![c],
            )[i].len() ==> {
                &&& #[trigger] crate::text::split(s, seq![c])[i][k] != c
                &&& s.contains(crate::text::split(s, seq![c])[i][k])
            },
    decreases s.len(),
{
    let parts = crate::text::split(s, seq![c]);
    crate::text::lemma_first_from(s, seq![c], 0);
    match crate::text::first(s, seq![c]) {
        Some(at) => {
            let rest = s.skip(at + 1);
            lemma_pieces(rest, c);
            let tail = crate::text::split(rest, seq![c]);
            assert(parts =~= seq![s.take(at)] + tail);
            assert forall|i: int, k: int|
                0 <= i < parts.len() && 0 <= k < parts[i].len() implies {
                &&& #[trigger] parts[i][k] != c
                &&& s.contains(parts[i][k])
            } by {
                if i == 0 {
                    assert(parts[0][k] == s[k]);
                    if s[k] == c {
                        assert(s.subrange(k, k + 1) =~= seq![c]);
                        assert(crate::text::at(s, k, seq![c]));
                    }
                } else {
                    assert(parts[i] == tail[i - 1]);
                    let x = tail[i - 1][k];
                    assert(rest.contains(x));
                    let j = choose|j: int| 0 <= j < rest.len() && rest[j] == x;
                    assert(s[at + 1 + j] == x);
                }
            }
        },
        None => {
            assert forall|i: int, k: int|
                0 <= i < parts.len() && 0 <= k < parts[i].len() implies {
                &&& #[trigger] parts[i][k] != c
                &&& s.contains(parts[i][k])
            } by {
                assert(parts[i][k] == s[k]);
                if s[k] == c {
                    assert(s.subrange(k, k + 1) =~= seq![c]);
                    assert(crate::text::at(s, k, seq![c]));
                }
            }
        },
    }
}

proof fn lemma_joined_holds(parts: Seq<Seq<char>>, x: char)
    ensures
        crate::text::joined(parts, Seq::empty()).contains(x) ==> exists|i: int|
            0 <= i < parts.len() && #[trigger] parts[i].contains(x),
    decreases parts.len(),
{
    let all = crate::text::joined(parts, Seq::empty());
    if all.contains(x) {
        if parts.len() == 1 {
            assert(parts[0].contains(x));
        } else if parts.len() > 1 {
            let p = parts.drop_last();
            lemma_joined_holds(p, x);
            let front = crate::text::joined(p, Seq::empty());
            let k = choose|k: int| 0 <= k < all.len() && all[k] == x;
            if k < front.len() {
                assert(front[k] == x);
                let i = choose|i: int| 0 <= i < p.len() && #[trigger] p[i].contains(x);
                assert(parts[i].contains(x));
            } else {
                assert(parts.last()[k - front.len()] == x);
                assert(parts[parts.len() - 1].contains(x));
            }
        }
    }
}

/// Every gender that can be written is read back, in one word or in short.
pub proof fn genders_are_read_by_their_names(word: Seq<char>)
    requires
        lowercase(word) == word,
    ensures
        word == "male"@ || word == "m"@ ==> gender_for(word) == Gender::Male,
        word == "female"@ || word == "f"@ ==> gender_for(word) == Gender::Female,
        word == "neutral"@ || word == "n"@ ==> gender_for(word) == Gender::Neutral,
        !valid_gender(word) ==> gender_for(word) == Gender::Neutral,
{
    reveal_strlit("male");
    reveal_strlit("m");
    reveal_strlit("man");
    reveal_strlit("female");
    reveal_strlit("f");
    reveal_strlit("woman");
    reveal_strlit("neutral");
    reveal_strlit("n");
    reveal_strlit("nb");
    assert("male"@.len() == 4 && "man"@.len() == 3 && "m"@.len() == 1);
    assert("female"@.len() == 6 && "woman"@.len() == 5 && "f"@.len() == 1);
    assert("neutral"@.len() == 7 && "nb"@.len() == 2 && "n"@.len() == 1);
    assert("m"@[0] == 'm');
    assert("f"@[0] == 'f');
    assert("n"@[0] == 'n');
}

/// The defaults are within their limits.
pub proof fn the_default_config_is_clean(c: BotConfig)
    requires
        c.is_default(),
    ensures
        c.sane(),
        corrections(c, true, "0.03"@).len() == 0,
{
    lemma_names_not_blank();
}

/// A correction leaves whatever is within its limits and moves whatever is not
/// to the limit; nothing else changes.
pub proof fn a_correction_changes_only_what_is_wrong(old: BotConfig, new: BotConfig)
    requires
        corrected(old, new),
    ensures
        new.sane(),
        old.max_volume <= 100 ==> new.max_volume == old.max_volume,
        old.max_volume > 100 ==> new.max_volume == 100,
        old.volume <= new.max_volume ==> new.volume == old.volume,
        old.volume > new.max_volume ==> new.volume == new.max_volume,
        old.radio_batch_size > 0 ==> new.radio_batch_size == old.radio_batch_size,
        1 <= old.search_limit <= 20 ==> new.search_limit == old.search_limit,
        old.search_limit > 20 ==> new.search_limit == 20,
        1 <= old.tcp_port <= 65535 ==> new.tcp_port == old.tcp_port,
        1 <= old.udp_port <= 65535 ==> new.udp_port == old.udp_port,
        trimmed(old.host@).len() > 0 ==> new.host@ == old.host@,
        trimmed(old.bot_name@).len() > 0 ==> new.bot_name@ == old.bot_name@,
        new.username == old.username,
        new.password == old.password,
        new.channel_name == old.channel_name,
        new.bot_gender == old.bot_gender,
        new.radio_enabled == old.radio_enabled,
        new.repeat_track == old.repeat_track,
        new.repeat_queue == old.repeat_queue,
        new.shuffle == old.shuffle,
        new.default_service == old.default_service,
{
}

/// Nothing is corrected in silence, and a second correction finds nothing.
pub proof fn nothing_is_corrected_in_silence(
    old: BotConfig,
    new: BotConfig,
    shown: Seq<char>,
)
    requires
        corrected(old, new),
    ensures
        corrections(new, true, shown).len() == 0,
        corrections(old, true, shown).len() == 0 <==> {
            &&& new.max_volume == old.max_volume
            &&& new.volume == old.volume
            &&& new.radio_batch_size == old.radio_batch_size
            &&& new.search_limit == old.search_limit
            &&& new.tcp_port == old.tcp_port
            &&& new.udp_port == old.udp_port
            &&& new.host@ == old.host@
            &&& new.bot_name@ == old.bot_name@
        },
{
    a_sane_config_is_left_alone(new, shown);
    if corrections(old, true, shown).len() == 0 {
        whatever_is_wrong_is_reported(old, true, shown);
    } else if new.max_volume == old.max_volume && new.volume == old.volume && new.radio_batch_size
        == old.radio_batch_size && new.search_limit == old.search_limit && new.tcp_port
        == old.tcp_port && new.udp_port == old.udp_port && new.host@ == old.host@ && new.bot_name@
        == old.bot_name@ {
        assert(old.sane());
        a_sane_config_is_left_alone(old, shown);
    }
}

/// A change at run time keeps what was edited elsewhere: only what is changed
/// differs from what is on disk, whatever is in memory.
pub proof fn edits_made_elsewhere_are_kept(
    cached: BotConfig,
    on_disk: BotConfig,
    new: BotConfig,
    on: bool,
)
    requires
        applied(starting_point(cached, Some(on_disk)), new, ConfigChange::Radio(on)),
    ensures
        new == (BotConfig { radio_enabled: on, ..on_disk }),
        starting_point(cached, None) == cached,
{
}

} // verus!
