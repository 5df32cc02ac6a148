//! Installing and updating the YouTube tools: what is said and what is done
//! next. Running and downloading them is left to the caller.
use vstd::prelude::*;
use vstd::string::*;

use crate::text::same;

verus! {

/// What there is to say where the tools need not be installed.
pub fn youtube_install(installed: bool) -> (r: Option<&'static str>)
    ensures
        match r {
            Some(text) => installed && text@ == "YouTube tools already installed."@,
            None => !installed,
        },
{
    if installed {
        Some("YouTube tools already installed.")
    } else {
        None
    }
}

/// Whether the tools can be updated.
pub fn youtube_update(installed: bool) -> (r: Result<(), &'static str>)
    ensures
        match r {
            Ok(_) => installed,
            Err(text) => !installed && text@
                == "YouTube tools aren't installed yet. Install them first."@,
        },
{
    if installed {
        Ok(())
    } else {
        Err("YouTube tools aren't installed yet. Install them first.")
    }
}

/// A version, where it could be read.
pub open spec fn version(v: Option<String>) -> Option<Seq<char>> {
    match v {
        Some(text) => Some(text@),
        None => None,
    }
}

/// What an update of yt-dlp came to.
pub open spec fn update_summary(before: Option<Seq<char>>, after: Option<Seq<char>>) -> Seq<char> {
    match (before, after) {
        (Some(b), Some(a)) => if b != a {
            "yt-dlp updated: "@ + b + " -> "@ + a
        } else {
            "yt-dlp already up to date ("@ + a + ")"@
        },
        (None, Some(a)) => "yt-dlp is now at version "@ + a,
        (_, None) => "yt-dlp update check complete."@,
    }
}

/// Build the user-facing line describing a yt-dlp `--update` outcome from the
/// versions probed before and after. `None` means the version couldn't be read.
pub fn ytdlp_update_summary(before: Option<String>, after: Option<String>) -> (r: String)
    ensures
        r@ == update_summary(version(before), version(after)),
{
    match after {
        Some(a) => match before {
            Some(b) => if !same(b.as_str(), a.as_str()) {
                let mut out = String::from_str("yt-dlp updated: ");
                out.append(b.as_str());
                out.append(" -> ");
                out.append(a.as_str());
                out
            } else {
                let mut out = String::from_str("yt-dlp already up to date (");
                out.append(a.as_str());
                out.append(")");
                out
            },
            None => {
                let mut out = String::from_str("yt-dlp is now at version ");
                out.append(a.as_str());
                out
            },
        },
        None => String::from_str("yt-dlp update check complete."),
    }
}

/// What to do about bgutil-pot, given the installed and the latest version:
/// what to say, and whether to install the latest.
pub fn bgutil_step(installed: &str, latest: &str) -> (r: (String, bool))
    ensures
        r.1 == (installed@ != latest@),
        r.0@ == (if installed@ == latest@ {
            "bgutil-pot is up to date ("@ + installed@ + ")."@
        } else {
            "Updating bgutil-pot "@ + installed@ + " -> "@ + latest@ + "..."@
        }),
{
    if same(installed, latest) {
        let mut out = String::from_str("bgutil-pot is up to date (");
        out.append(installed);
        out.append(").");
        (out, false)
    } else {
        let mut out = String::from_str("Updating bgutil-pot ");
        out.append(installed);
        out.append(" -> ");
        out.append(latest);
        out.append("...");
        (out, true)
    }
}

/// An update names the version that is there afterwards, and the one before
/// where it was another.
pub proof fn an_update_names_the_versions(before: Seq<char>, after: Seq<char>)
    ensures
        before != after ==> after.is_suffix_of(update_summary(Some(before), Some(after)))
            && exists|i: int|
            0 <= i && i + before.len() <= update_summary(Some(before), Some(after)).len()
                && #[trigger] update_summary(Some(before), Some(after)).subrange(
                i,
                i + before.len(),
            ) == before,
        after.is_suffix_of(update_summary(None, Some(after))),
        (after + ")"@).is_suffix_of(update_summary(Some(after), Some(after))),
        update_summary(None, None) == update_summary(Some(before), None),
{
    let a = update_summary(Some(before), Some(after));
    let b = update_summary(None, Some(after));
    let c = update_summary(Some(after), Some(after));
    if before != after {
        assert(after =~= a.subrange(a.len() - after.len(), a.len() as int));
        let i = "yt-dlp updated: "@.len() as int;
        assert(a.subrange(i, i + before.len()) =~= before);
    }
    assert(after =~= b.subrange(b.len() - after.len(), b.len() as int));
    let back = after + ")"@;
    assert(back =~= c.subrange(c.len() - back.len(), c.len() as int));
}

} // verus!
