//! What the config editor makes of its fields.
use vstd::prelude::*;
use vstd::string::*;

use crate::config::{noted, BotConfig};
use crate::paths::{config_file, joined_path, PathStyle};
use crate::text::{lemma_views_push, replace, replaced, views};

verus! {

/// The title of the window.
pub fn title(editing: bool) -> (r: &'static str)
    ensures
        r@ == (if editing {
            "TT Spotify - Edit Configuration"@
        } else {
            "TT Spotify - New Configuration"@
        }),
{
    if editing {
        "TT Spotify - Edit Configuration"
    } else {
        "TT Spotify - New Configuration"
    }
}

/// What was entered, as far as it is not taken over from the config. The
/// numbers are those that the controls allow.
#[derive(Debug)]
pub struct Form {
    pub host: String,
    pub tcp_port: i32,
    pub udp_port: i32,
    pub encrypted: bool,
    pub username: String,
    pub password: String,
    pub bot_name: String,
    pub channel_name: String,
    pub channel_password: String,
    pub bot_gender: String,
    pub spotify_quality: String,
    pub spotify_enable_normalization: bool,
    pub volume: u8,
    pub max_volume: u8,
    pub jitter_buffer_ms: u32,
    pub radio_enabled: bool,
    pub radio_batch_size: u8,
    pub search_limit: u8,
}

/// The channel that was meant: none is the root.
pub open spec fn channel_entered(name: Seq<char>) -> Seq<char> {
    if name.len() == 0 {
        "/"@
    } else {
        name
    }
}

/// Whether `cfg` is what was entered into `form`.
pub open spec fn entered(form: Form, cfg: BotConfig) -> bool {
    &&& cfg.host == form.host
    &&& cfg.tcp_port == form.tcp_port
    &&& cfg.udp_port == form.udp_port
    &&& cfg.encrypted == form.encrypted
    &&& cfg.username == form.username
    &&& cfg.password == form.password
    &&& cfg.bot_name == form.bot_name
    &&& cfg.channel_name@ == channel_entered(form.channel_name@)
    &&& cfg.channel_password == form.channel_password
    &&& cfg.bot_gender == form.bot_gender
    &&& cfg.spotify_quality == form.spotify_quality
    &&& cfg.spotify_enable_normalization == form.spotify_enable_normalization
    &&& cfg.volume == form.volume
    &&& cfg.max_volume == form.max_volume
    &&& cfg.jitter_buffer_ms == form.jitter_buffer_ms
    &&& cfg.radio_enabled == form.radio_enabled
    &&& cfg.radio_batch_size == form.radio_batch_size
    &&& cfg.search_limit == form.search_limit
}

/// Whether what the window does not show is the same in two configs.
pub open spec fn hidden_fields_kept(was: BotConfig, now: BotConfig) -> bool {
    &&& now.license_name == was.license_name
    &&& now.license_key == was.license_key
    &&& now.normalisation_type == was.normalisation_type
    &&& now.normalisation_method == was.normalisation_method
    &&& now.repeat_track == was.repeat_track
    &&& now.repeat_queue == was.repeat_queue
    &&& now.shuffle == was.shuffle
    &&& now.default_service == was.default_service
    &&& now.youtube_cookies_file == was.youtube_cookies_file
}

/// The config with what was entered. Fields that the window does not show are
/// preserved from the loaded config.
pub fn fill_in(config: BotConfig, form: Form) -> (r: BotConfig)
    ensures
        entered(form, r),
        hidden_fields_kept(config, r),
{
    let channel_name = if form.channel_name.as_str().is_empty() {
        String::from_str("/")
    } else {
        form.channel_name
    };
    BotConfig {
        host: form.host,
        tcp_port: form.tcp_port,
        udp_port: form.udp_port,
        encrypted: form.encrypted,
        username: form.username,
        password: form.password,
        bot_name: form.bot_name,
        channel_name,
        channel_password: form.channel_password,
        bot_gender: form.bot_gender,
        spotify_quality: form.spotify_quality,
        spotify_enable_normalization: form.spotify_enable_normalization,
        volume: form.volume,
        max_volume: form.max_volume,
        jitter_buffer_ms: form.jitter_buffer_ms,
        radio_enabled: form.radio_enabled,
        radio_batch_size: form.radio_batch_size,
        search_limit: form.search_limit,
        ..config
    }
}

/// What keeps a config from being saved.
pub open spec fn form_errors(c: BotConfig) -> Seq<Seq<char>> {
    noted(
        noted(
            noted(seq![], c.host@.len() == 0, "Host is required."@),
            c.username@.len() == 0,
            "Username is required."@,
        ),
        c.volume > c.max_volume,
        "Default volume cannot exceed max volume."@,
    )
}

fn note(list: &mut Vec<String>, applies: bool, text: &str)
    ensures
        views(final(list)@) == noted(views(old(list)@), applies, text@),
{
    if applies {
        let text = text.to_owned();
        proof {
            lemma_views_push(list@, text);
        }
        list.push(text);
    }
}

/// What keeps a config from being saved, one line each.
pub fn errors(config: &BotConfig) -> (r: Vec<String>)
    ensures
        views(r@) == form_errors(*config),
{
    let mut out: Vec<String> = Vec::new();
    assert(views(out@) =~= seq![]);
    note(&mut out, config.host.as_str().is_empty(), "Host is required.");
    note(&mut out, config.username.as_str().is_empty(), "Username is required.");
    note(
        &mut out,
        config.volume > config.max_volume,
        "Default volume cannot exceed max volume.",
    );
    out
}

/// Where a new config goes, given the name that was entered: with or without
/// the extension, but not nameless.
pub open spec fn new_config_path(
    style: PathStyle,
    root: Seq<char>,
    entered: Seq<char>,
) -> Option<Seq<char>> {
    let name = replaced(entered, ".json"@, ""@);
    if name.len() == 0 {
        None
    } else {
        Some(joined_path(style, joined_path(style, root, "config"@), name + ".json"@))
    }
}

pub fn new_config_file(style: PathStyle, root: &str, entered: &str) -> (r: Option<String>)
    ensures
        match r {
            Some(path) => new_config_path(style, root@, entered@) == Some(path@),
            None => new_config_path(style, root@, entered@) is None,
        },
{
    proof {
        reveal_strlit(".json");
    }
    let name = replace(entered, ".json", "");
    if name.as_str().is_empty() {
        None
    } else {
        Some(config_file(style, root, name.as_str()))
    }
}

/// What to ask before a new config is saved where there is one already.
pub fn overwrite_question(path: &str, there: bool) -> (r: Option<String>)
    ensures
        match r {
            Some(question) => there && question@ == path@ + " already exists. Overwrite?"@,
            None => !there,
        },
{
    if !there {
        return None;
    }
    let mut out = path.to_owned();
    out.append(" already exists. Overwrite?");
    Some(out)
}

/// Whether a config is saved: one that is edited, one that is new, or one that
/// the user agreed to replace.
pub fn saves(editing: bool, there: bool, agreed: bool) -> (r: bool)
    ensures
        r == (editing || !there || agreed),
{
    editing || !there || agreed
}

/// What to say of a config that could not be saved.
pub fn save_failed(error: &str) -> (r: String)
    ensures
        r@ == "Failed to save: "@ + error@,
{
    let mut out = String::from_str("Failed to save: ");
    out.append(error);
    out
}

/// Nothing keeps a config from being saved exactly where it names a server and
/// a user and its volume is within the maximum.
pub proof fn a_complete_config_can_be_saved(c: BotConfig)
    ensures
        form_errors(c).len() == 0 <==> c.host@.len() > 0 && c.username@.len() > 0 && c.volume
            <= c.max_volume,
        form_errors(c).len() <= 3,
{
}

/// What was entered and what the window does not show are, together, the whole
/// config: nothing is left open.
pub proof fn the_fields_make_the_config(form: Form, was: BotConfig, one: BotConfig, other: BotConfig)
    requires
        entered(form, one),
        hidden_fields_kept(was, one),
        entered(form, other),
        hidden_fields_kept(was, other),
    ensures
        one == (BotConfig { channel_name: one.channel_name, ..other }),
        one.channel_name@ == other.channel_name@,
        one.channel_name@.len() > 0,
{
    reveal_strlit("/");
}

/// What was typed into a field is what the config has under its name, and what
/// the window does not show stays as it was.
pub proof fn every_field_goes_where_it_belongs(form: Form, was: BotConfig, now: BotConfig)
    requires
        entered(form, now),
        hidden_fields_kept(was, now),
    ensures
        (now.host, now.username, now.password, now.channel_password) == (
            form.host,
            form.username,
            form.password,
            form.channel_password,
        ),
        (now.tcp_port, now.udp_port) == (form.tcp_port, form.udp_port),
        (now.volume, now.max_volume) == (form.volume, form.max_volume),
        (now.radio_batch_size, now.search_limit) == (form.radio_batch_size, form.search_limit),
        form.channel_name@.len() > 0 ==> now.channel_name@ == form.channel_name@,
        form.channel_name@.len() == 0 ==> now.channel_name@ == "/"@,
        (now.repeat_track, now.repeat_queue, now.shuffle) == (
            was.repeat_track,
            was.repeat_queue,
            was.shuffle,
        ),
        now.default_service == was.default_service,
        (now.license_name, now.license_key) == (was.license_name, was.license_key),
{
}

/// A new config is called what was entered, with or without the extension.
pub proof fn a_new_config_is_called_what_was_entered(
    style: PathStyle,
    root: Seq<char>,
    name: Seq<char>,
)
    requires
        name.len() > 0,
        !name.contains('.'),
    ensures
        new_config_path(style, root, name) == Some(
            joined_path(style, joined_path(style, root, "config"@), name + ".json"@),
        ),
        new_config_path(style, root, name + ".json"@) == new_config_path(style, root, name),
{
    reveal_strlit(".json");
    reveal_strlit("");
    let sep = ".json"@;
    assert(sep.len() == 5 && sep[0] == '.');
    crate::text::lemma_first_from(name, sep, 0);
    if let Some(k) = crate::text::first(name, sep) {
        assert(name.subrange(k, k + 5)[0] == '.');
        assert(name.contains(name[k]));
    }
    assert(crate::text::split(name, sep) =~= seq![name]);
    let full = name + sep;
    let n = name.len() as int;
    crate::text::lemma_first_from(full, sep, 0);
    assert(crate::text::at(full, n, sep)) by {
        assert(full.subrange(n, n + 5) =~= sep);
    }
    if let Some(k) = crate::text::first(full, sep) {
        assert(full.subrange(k, k + 5)[0] == '.');
        if k < n {
            assert(full[k] == name[k]);
            assert(name.contains(name[k]));
        }
        assert(k == n);
    }
    assert(full.take(n) =~= name);
    let rest = full.skip(n + 5);
    assert(rest =~= Seq::<char>::empty());
    crate::text::lemma_first_from(rest, sep, 0);
    assert(crate::text::first(rest, sep) is None);
    assert(crate::text::split(rest, sep) =~= seq![rest]);
    assert(crate::text::split(full, sep) =~= seq![name, rest]);
    reveal_with_fuel(crate::text::joined, 3);
    assert(seq![name, rest].drop_last() =~= seq![name]);
    assert(replaced(full, sep, ""@) =~= name);
    assert(replaced(name, sep, ""@) =~= name);
}

} // verus!
