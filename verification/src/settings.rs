//! App-global preferences shared across all bot instances (they run one shared
//! binary, so these are not per-bot config fields). "Launch on startup" is not
//! here: on Windows that lives in the registry.
use vstd::prelude::*;

verus! {

pub fn default_true() -> (r: bool)
    ensures
        r,
{
    true
}

/// Default cache ceiling, in MB.
pub const DEFAULT_CACHE_LIMIT_MB: u64 = 1024;

pub fn default_cache_limit_mb() -> (r: u64)
    ensures
        r == DEFAULT_CACHE_LIMIT_MB,
{
    DEFAULT_CACHE_LIMIT_MB
}

/// Default age at which an unplayed track is dropped, in days.
pub const DEFAULT_CACHE_KEEP_DAYS: u32 = 7;

pub fn default_cache_keep_days() -> (r: u32)
    ensures
        r == DEFAULT_CACHE_KEEP_DAYS,
{
    DEFAULT_CACHE_KEEP_DAYS
}

#[derive(Debug, Clone, Copy, PartialEq, Eq, Structural)]
pub struct AppSettings {
    pub check_updates_on_startup: bool,
    /// How much disk the downloaded-audio caches may occupy, in MB, across
    /// every bot on this install. 0 keeps nothing.
    pub cache_limit_mb: u64,
    /// Drop a cached track nothing has played for this many days, whatever the
    /// size limit says. 0 turns the age rule off.
    pub cache_keep_days: u32,
}

impl Default for AppSettings {
    fn default() -> (r: Self)
        ensures
            r.check_updates_on_startup,
            r.cache_limit_mb == DEFAULT_CACHE_LIMIT_MB,
            r.cache_keep_days == DEFAULT_CACHE_KEEP_DAYS,
    {
        AppSettings {
            check_updates_on_startup: default_true(),
            cache_limit_mb: default_cache_limit_mb(),
            cache_keep_days: default_cache_keep_days(),
        }
    }
}

/// The settings file, in the state directory of a data root.
pub fn settings_path(style: crate::paths::PathStyle, root: &str) -> (r: String)
    ensures
        r@ == crate::paths::joined_path(
            style,
            crate::paths::joined_path(style, root@, "state"@),
            "settings.json"@,
        ),
{
    crate::paths::join_path(style, crate::paths::state_dir(style, root).as_str(), "settings.json")
}

/// Settings as they were read, or the defaults where the file is missing or
/// cannot be read.
pub fn loaded(read: Option<AppSettings>) -> (r: AppSettings)
    ensures
        match read {
            Some(s) => r == s,
            None => r.check_updates_on_startup && r.cache_limit_mb == DEFAULT_CACHE_LIMIT_MB
                && r.cache_keep_days == DEFAULT_CACHE_KEEP_DAYS,
        },
{
    match read {
        Some(s) => s,
        None => AppSettings::default(),
    }
}

/// Seconds in a day.
pub const DAY_SECS: u64 = 86_400;

impl AppSettings {
    /// The ceiling in bytes, as large as a number can be.
    pub open spec fn limit_bytes(self) -> u64 {
        if self.cache_limit_mb * 1_048_576 <= u64::MAX {
            (self.cache_limit_mb * 1_048_576) as u64
        } else {
            u64::MAX
        }
    }

    /// The ceiling in bytes. Zero is a real ceiling (keep nothing), not the
    /// absence of one, so it is always a number and never an "unset" that the
    /// sweep would read as "no limit at all".
    pub fn cache_limit_bytes(&self) -> (r: u64)
        ensures
            r == self.limit_bytes(),
    {
        match self.cache_limit_mb.checked_mul(1_048_576) {
            Some(bytes) => bytes,
            None => u64::MAX,
        }
    }

    /// True when the user asked for no saved music at all.
    pub fn caching_off(&self) -> (r: bool)
        ensures
            r == (self.cache_limit_mb == 0),
    {
        self.cache_limit_mb == 0
    }

    /// How long an unplayed track is kept, in seconds.
    pub open spec fn keep_secs(self) -> int {
        if self.cache_keep_days == 0 {
            u32::MAX * DAY_SECS
        } else {
            self.cache_keep_days * DAY_SECS
        }
    }

    /// How long an unplayed track is kept, in seconds. A very large span when
    /// the age rule is off, so callers need no special case.
    pub fn cache_keep_duration(&self) -> (r: u64)
        ensures
            r == self.keep_secs(),
    {
        if self.cache_keep_days == 0 {
            u32::MAX as u64 * DAY_SECS
        } else {
            self.cache_keep_days as u64 * DAY_SECS
        }
    }
}

/// A ceiling of zero stays one, and no other setting turns into it.
pub proof fn zero_means_keep_nothing(s: AppSettings)
    ensures
        s.limit_bytes() == 0 <==> s.cache_limit_mb == 0,
{
}

/// Turning the age rule off keeps tracks longer than any number of days would.
pub proof fn no_age_rule_keeps_longest(off: AppSettings, on: AppSettings)
    requires
        off.cache_keep_days == 0,
    ensures
        on.keep_secs() <= off.keep_secs(),
{
}

/// A ceiling counts so many megabytes of a million and a bit each, as far as a
/// number can, and a larger setting never means a smaller ceiling.
pub proof fn a_ceiling_grows_with_the_setting(one: AppSettings, other: AppSettings)
    ensures
        one.cache_limit_mb <= other.cache_limit_mb ==> one.limit_bytes() <= other.limit_bytes(),
        one.limit_bytes() < u64::MAX ==> one.limit_bytes() == one.cache_limit_mb * 1024 * 1024,
{
}

/// With the age rule on, a track is kept for exactly so many days.
pub proof fn a_track_is_kept_for_so_many_days(s: AppSettings)
    requires
        s.cache_keep_days > 0,
    ensures
        s.keep_secs() == s.cache_keep_days * (24 * 60 * 60),
{
}

} // verus!
