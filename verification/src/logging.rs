//! Where logs go and what goes into them.
use vstd::prelude::*;
use vstd::string::*;

use crate::paths::{file_stem, join_path, joined_path, stem_of_path, PathStyle};
use crate::spotify::audio_key::is_audio_key_failure;
use crate::text::{ordered, views};

verus! {

/// Where one instance's logs live: `logs/<name>/`.
pub fn instance_log_dir(style: PathStyle, logs_dir: &str, name: &str) -> (r: String)
    ensures
        r@ == joined_path(style, logs_dir@, name@),
{
    join_path(style, logs_dir, name)
}

/// The folder and the suffix of the log files for a bot, given the path of its
/// config.
///
/// Each instance gets its own folder: the rotating appender prunes by counting
/// the files beside it, so sharing one directory would make every instance's
/// retention depend on how noisy its neighbours are.
pub fn log_path_from_config(
    style: PathStyle,
    logs_dir: &str,
    config_path: &str,
) -> (r: (String, String))
    ensures
        r.0@ == joined_path(
            style,
            logs_dir@,
            match stem_of_path(style, config_path@) {
                Some(stem) => stem,
                None => "bot"@,
            },
        ),
        r.1@ == "log"@,
{
    let stem = match file_stem(style, config_path) {
        Some(stem) => stem,
        None => String::from_str("bot"),
    };
    (instance_log_dir(style, logs_dir, stem.as_str()), String::from_str("log"))
}

/// The most recent log file of a folder, given the names of its files, or
/// nothing where there is no such folder. Files are named `<date>.log`, so the
/// newest sorts last.
pub fn newest_log_file(folder: Option<&Vec<String>>) -> (r: Option<usize>)
    ensures
        match (folder, r) {
            (Some(files), Some(i)) => i < files@.len() && forall|k: int|
                0 <= k < files@.len() ==> ordered(#[trigger] views(files@)[k], files@[i as int]@),
            (Some(files), None) => files@.len() == 0,
            (None, found) => found is None,
        },
{
    let files = match folder {
        Some(files) => files,
        None => return None,
    };
    if files.len() == 0 {
        return None;
    }
    let mut best: usize = 0;
    let mut i: usize = 1;
    proof {
        crate::text::ordered_total(files@[0]@, files@[0]@);
    }
    while i < files.len()
        invariant
            best < i <= files.len(),
            forall|k: int| 0 <= k < i ==> ordered(#[trigger] views(files@)[k], files@[best as int]@),
        decreases files.len() - i,
    {
        let later = crate::text::comes_first(files[best].as_str(), files[i].as_str());
        proof {
            let a = files@[best as int]@;
            let b = files@[i as int]@;
            crate::text::ordered_total(a, b);
            crate::text::ordered_total(b, b);
            assert forall|k: int| 0 <= k < i + 1 implies ordered(
                #[trigger] views(files@)[k],
                if later {
                    b
                } else {
                    a
                },
            ) by {
                if k < i && later {
                    crate::text::ordered_transitive(views(files@)[k], a, b);
                }
            }
        }
        if later {
            best = i;
        }
        i += 1;
    }
    Some(best)
}

/// Default log filter.
///
/// symphonia is held at `error` because a track that fails to decrypt reaches
/// it as noise, and it reports every byte of that. The failure itself is still
/// reported by librespot at error level, which is the line worth keeping.
pub const DEFAULT_FILTER: &'static str =
    "info,symphonia_core=error,symphonia_bundle_mp3=error,symphonia_format_isomp4=error,symphonia_metadata=error";

/// The level of a log record.
#[derive(Debug, Clone, Copy, PartialEq, Eq, Structural)]
pub enum Level {
    Error,
    Warn,
    Info,
    Debug,
    Trace,
}

/// Whether a log record is the report of a refused audio key. Such failures
/// are logged at warn or error.
pub fn reports_audio_key_failure(level: Level, message: &str) -> (r: bool)
    ensures
        r == ((level is Warn || level is Error) && crate::spotify::audio_key::key_failure_line(
            message@,
        )),
{
    match level {
        Level::Warn | Level::Error => is_audio_key_failure(message),
        _ => false,
    }
}

} // verus!
