//! What the settings dialog makes of its fields.
use vstd::prelude::*;
use vstd::string::*;

use crate::settings::AppSettings;
use crate::text::{parse_unsigned, trim, trimmed, unsigned};

verus! {

/// The largest limit that is taken for one, in MB.
pub const LARGEST_LIMIT_MB: u64 = 1_048_576;

/// The largest number of days that is taken for one.
pub const LARGEST_DAYS: u32 = 3650;

/// A number that fits.
pub open spec fn number(text: Seq<char>, max: nat) -> Option<nat> {
    match unsigned(trimmed(text)) {
        Some(n) => if n <= max {
            Some(n)
        } else {
            None
        },
        None => None,
    }
}

/// What is wrong with the two numbers.
pub open spec fn field_complaint(limit: Seq<char>, days: Seq<char>) -> Option<Seq<char>> {
    match number(limit, u64::MAX as nat) {
        None => Some("Saved music limit must be a whole number of MB (0 for none)."@),
        Some(mb) => match number(days, u32::MAX as nat) {
            None => Some(
                "Days must be a whole number (0 to keep tracks until the space runs out)."@,
            ),
            Some(n) => if mb > LARGEST_LIMIT_MB {
                Some("Saved music limit is too large; use a value in MB."@)
            } else if n > LARGEST_DAYS {
                Some("Days is too large; use 3650 or fewer, or 0 to keep tracks."@)
            } else {
                None
            },
        },
    }
}

/// Read the two cache numbers from the dialog, or say what is wrong with them.
/// An empty box is refused rather than read as zero.
pub fn parse_cache_fields(limit: &str, days: &str) -> (r: Result<(u64, u32), String>)
    ensures
        match r {
            Ok((mb, n)) => field_complaint(limit@, days@) is None && number(
                limit@,
                u64::MAX as nat,
            ) == Some(mb as nat) && number(days@, u32::MAX as nat) == Some(n as nat),
            Err(text) => field_complaint(limit@, days@) == Some(text@),
        },
{
    let limit_mb: u64 = match parse_unsigned(trim(limit), u64::MAX) {
        Some(n) => n,
        None => {
            return Err(
                String::from_str("Saved music limit must be a whole number of MB (0 for none)."),
            );
        },
    };
    let keep_days: u32 = match parse_unsigned(trim(days), u32::MAX as u64) {
        Some(n) => n as u32,
        None => {
            return Err(
                String::from_str(
                    "Days must be a whole number (0 to keep tracks until the space runs out).",
                ),
            );
        },
    };
    if limit_mb > LARGEST_LIMIT_MB {
        return Err(String::from_str("Saved music limit is too large; use a value in MB."));
    }
    if keep_days > LARGEST_DAYS {
        return Err(
            String::from_str("Days is too large; use 3650 or fewer, or 0 to keep tracks."),
        );
    }
    Ok((limit_mb, keep_days))
}

/// The settings that were entered, or what is wrong with them.
pub fn entered_settings(check_updates: bool, limit: &str, days: &str) -> (r: Result<
    AppSettings,
    String,
>)
    ensures
        match r {
            Ok(s) => field_complaint(limit@, days@) is None && s.check_updates_on_startup
                == check_updates && number(limit@, u64::MAX as nat) == Some(
                s.cache_limit_mb as nat,
            ) && number(days@, u32::MAX as nat) == Some(s.cache_keep_days as nat),
            Err(text) => field_complaint(limit@, days@) == Some(text@),
        },
{
    match parse_cache_fields(limit, days) {
        Ok((cache_limit_mb, cache_keep_days)) => Ok(
            AppSettings { check_updates_on_startup: check_updates, cache_limit_mb, cache_keep_days },
        ),
        Err(text) => Err(text),
    }
}

/// Numbers within the limits are taken as they are written, and any others are
/// refused.
pub proof fn numbers_are_taken_as_written(mb: nat, days: nat)
    ensures
        number(crate::text::digits(mb), u64::MAX as nat) == (if mb <= u64::MAX {
            Some(mb)
        } else {
            None
        }),
        field_complaint(crate::text::digits(mb), crate::text::digits(days)) is None <==> mb
            <= LARGEST_LIMIT_MB && days <= LARGEST_DAYS,
        field_complaint(""@, crate::text::digits(days)) is Some,
        field_complaint(crate::text::digits(mb), ""@) is Some,
{
    lemma_written(mb);
    lemma_written(days);
    reveal_strlit("");
    assert(trimmed(""@) =~= ""@);
}

proof fn lemma_written(n: nat)
    ensures
        trimmed(crate::text::digits(n)) == crate::text::digits(n),
        unsigned(crate::text::digits(n)) == Some(n),
{
    crate::text::decimal_round_trip(n);
    crate::text::lemma_digits(n);
    let d = crate::text::digits(n);
    assert(crate::text::is_digit(d[0]));
    assert(crate::text::is_digit(d[d.len() - 1]));
    crate::text::nothing_to_trim(d);
}

} // verus!
