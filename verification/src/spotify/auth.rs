//! Signing in to Spotify: who is asked, when, and what a failure means.
use vstd::prelude::*;
use vstd::string::*;

use crate::error::{BotError, ErrorView};
use crate::hints::{sign_in_hint, sign_in_spotify, Platform};
use crate::paths::text_of;
use crate::spotify::account::AccountType;
use crate::text::{eq_ignore_ascii_case, folded, same, trim, trimmed};

verus! {

/// Spotify client ID (same one librespot uses internally)
pub const SPOTIFY_CLIENT_ID: &'static str = "65b708073fc0480ea92a077233ca87bd";

/// Where the browser comes back to.
pub const OAUTH_REDIRECT: &'static str = "http://127.0.0.1:5588/login";

/// Where the browser comes back to when nobody listens: without a port, so the
/// address is pasted from the browser instead.
pub const PASTED_REDIRECT: &'static str = "http://127.0.0.1/login";

/// What we ask to be allowed.
pub fn oauth_scopes() -> (r: Vec<&'static str>)
    ensures
        r@.map_values(|s: &str| s@) == seq![
            "streaming"@,
            "user-read-playback-state"@,
            "user-modify-playback-state"@,
            "user-read-currently-playing"@,
        ],
{
    let r = vec![
        "streaming",
        "user-read-playback-state",
        "user-modify-playback-state",
        "user-read-currently-playing",
    ];
    assert(r@.map_values(|s: &str| s@) =~= seq![
        "streaming"@,
        "user-read-playback-state"@,
        "user-modify-playback-state"@,
        "user-read-currently-playing"@,
    ]);
    r
}

/// The kinds of error that a Spotify session reports.
#[derive(Debug, Clone, Copy, PartialEq, Eq, Structural)]
pub enum SessionErrorKind {
    Cancelled,
    Unknown,
    InvalidArgument,
    DeadlineExceeded,
    NotFound,
    AlreadyExists,
    PermissionDenied,
    Unauthenticated,
    ResourceExhausted,
    FailedPrecondition,
    Aborted,
    OutOfRange,
    Unimplemented,
    Internal,
    Unavailable,
    DataLoss,
    DoNotUse,
}

/// Whether a failure to connect means the stored login was refused, as opposed
/// to Spotify being unreachable.
///
/// A session reports both as errors, and treating every failure as a refusal
/// would send the user to a browser whenever the network is briefly down. A
/// rejected login is a permission denied and everything else is another kind.
pub fn credentials_were_rejected(kind: SessionErrorKind) -> (r: bool)
    ensures
        r == (kind == SessionErrorKind::PermissionDenied),
{
    match kind {
        SessionErrorKind::PermissionDenied => true,
        _ => false,
    }
}

/// A username worth showing.
pub open spec fn shown_username(raw: Option<Seq<char>>) -> Option<Seq<char>> {
    match raw {
        Some(name) => if trimmed(name).len() == 0 {
            None
        } else {
            Some(trimmed(name))
        },
        None => None,
    }
}

/// A username worth showing, or `None`.
///
/// Spotify does not always return one with the stored credentials, and has been
/// seen to return an empty or padded string. Showing "signed in as " with
/// nothing after it reads as a bug, so an unusable name is treated as absent.
pub fn usable_username(raw: Option<&str>) -> (r: Option<String>)
    ensures
        match r {
            Some(name) => shown_username(text_of(raw)) == Some(name@),
            None => shown_username(text_of(raw)) is None,
        },
{
    match raw {
        Some(name) => {
            let tidy = trim(name);
            if tidy.is_empty() {
                None
            } else {
                Some(tidy.to_owned())
            }
        },
        None => None,
    }
}

/// Whether an interactive sign-in can possibly succeed: either a browser can
/// be opened (non-headless), or stdin is a terminal so the headless
/// paste-the-URL flow has someone to answer it. Under systemd both are false.
pub fn oauth_is_feasible(headless: bool, stdin_is_terminal: bool) -> (r: bool)
    ensures
        r == (!headless || stdin_is_terminal),
{
    !headless || stdin_is_terminal
}

/// A value that is there and not empty.
pub open spec fn given(value: Option<Seq<char>>) -> bool {
    match value {
        Some(text) => text.len() > 0,
        None => false,
    }
}

/// Whether the DISPLAY/WAYLAND_DISPLAY values indicate a usable display
/// server. Empty strings count as absent: some service environments set
/// `DISPLAY=""`, which is not a display.
pub fn has_display(display: Option<&str>, wayland_display: Option<&str>) -> (r: bool)
    ensures
        r == (given(text_of(display)) || given(text_of(wayland_display))),
{
    let x = match display {
        Some(text) => !text.is_empty(),
        None => false,
    };
    let w = match wayland_display {
        Some(text) => !text.is_empty(),
        None => false,
    };
    x || w
}

/// Whether we run without a display, from the explicit override and from what
/// is known of the display. Windows and macOS always have one.
pub open spec fn headless(setting: Option<Seq<char>>, linux: bool, display: bool) -> bool {
    match setting {
        Some(text) => text == "1"@ || folded(text) == folded("true"@),
        None => linux && !display,
    }
}

/// Detect if we're running in a headless environment (no display server).
pub fn detect_headless(
    setting: Option<&str>,
    linux: bool,
    display: Option<&str>,
    wayland_display: Option<&str>,
) -> (r: bool)
    ensures
        r == headless(
            text_of(setting),
            linux,
            given(text_of(display)) || given(text_of(wayland_display)),
        ),
{
    match setting {
        Some(text) => same(text, "1") || eq_ignore_ascii_case(text, "true"),
        None => linux && !has_display(display, wayland_display),
    }
}

/// How to sign in: the address the browser comes back to, whether to open the
/// browser, and what to say first.
#[derive(Debug)]
pub struct SignIn {
    pub redirect: &'static str,
    pub open_browser: bool,
    pub instructions: Vec<&'static str>,
}

/// What is said before a sign-in.
pub open spec fn sign_in_lines(headless: bool) -> Seq<Seq<char>> {
    if headless {
        seq![
            "Spotify Authentication"@,
            "Open the URL below in a browser and authorize the app."@,
            "The page will then show an error like 'This site can't be reached'"@,
            "or 'site not found' -- THIS IS NORMAL. Do not close it."@,
            "Copy the full URL from the browser's address bar and paste it below."@,
        ]
    } else {
        seq![
            "Spotify Authentication"@,
            "A browser window will open. Log in to Spotify and authorize the app."@,
            "If no browser opens, visit the URL printed below."@,
        ]
    }
}

/// The characters of some literals.
pub open spec fn literals(v: Seq<&str>) -> Seq<Seq<char>> {
    v.map_values(|s: &str| s@)
}

/// What is said where nobody can sign in.
pub open spec fn sign_in_refusal(platform: Platform) -> Seq<char> {
    "no cached Spotify credentials and no way to log in interactively here; on this machine, "@
        + sign_in_hint(platform) + ", then restart the bot"@
}

/// How to sign in here, or a refusal where neither a browser nor a terminal is
/// available, instead of blocking on an input that nobody types.
pub fn plan_sign_in(headless: bool, feasible: bool, platform: Platform) -> (r: Result<
    SignIn,
    BotError,
>)
    ensures
        match r {
            Ok(plan) => {
                &&& feasible
                &&& plan.redirect@ == if headless {
                    PASTED_REDIRECT@
                } else {
                    OAUTH_REDIRECT@
                }
                &&& plan.open_browser == !headless
                &&& literals(plan.instructions@) == sign_in_lines(headless)
            },
            Err(e) => !feasible && e@ == ErrorView::SpotifyAuth(sign_in_refusal(platform)),
        },
{
    if !feasible {
        let mut text = String::from_str(
            "no cached Spotify credentials and no way to log in interactively here; on this machine, ",
        );
        text.append(sign_in_spotify(platform).as_str());
        text.append(", then restart the bot");
        return Err(BotError::SpotifyAuth(text));
    }
    if headless {
        let instructions = vec![
            "Spotify Authentication",
            "Open the URL below in a browser and authorize the app.",
            "The page will then show an error like 'This site can't be reached'",
            "or 'site not found' -- THIS IS NORMAL. Do not close it.",
            "Copy the full URL from the browser's address bar and paste it below.",
        ];
        assert(literals(instructions@) =~= sign_in_lines(true));
        Ok(SignIn { redirect: PASTED_REDIRECT, open_browser: false, instructions })
    } else {
        let instructions = vec![
            "Spotify Authentication",
            "A browser window will open. Log in to Spotify and authorize the app.",
            "If no browser opens, visit the URL printed below.",
        ];
        assert(literals(instructions@) =~= sign_in_lines(false));
        Ok(SignIn { redirect: OAUTH_REDIRECT, open_browser: true, instructions })
    }
}

/// How far a sign-in has come.
#[derive(Debug, Clone, Copy, PartialEq, Eq, Structural)]
pub enum Stage {
    /// With the stored login, or the first one where none was stored.
    First,
    /// With a new login, after the stored one was refused.
    Again,
    /// With the stored login only: nobody is at the keyboard.
    CachedOnly,
    /// With a new login that was asked for.
    Forced,
}

/// What to do after an attempt to connect.
#[derive(Debug)]
pub enum NextStep {
    Connected,
    /// Ask the user to sign in, and connect again.
    SignInAgain,
    Fail(BotError),
}

/// What an attempt to connect ended in.
#[derive(Debug)]
pub struct ConnectError {
    pub kind: SessionErrorKind,
    pub text: String,
}

/// What an attempt to connect failed with, as it is shown.
pub open spec fn connect_failure(stage: Stage, text: Seq<char>) -> ErrorView {
    ErrorView::SpotifyAuth(
        match stage {
            Stage::First => "could not reach Spotify: "@ + text
                + ". The stored login was not rejected, so this is a connection problem rather than a sign-in one"@,
            Stage::Again => "OAuth login also failed: "@ + text,
            Stage::CachedOnly => "could not reconnect to Spotify: "@ + text,
            Stage::Forced => "OAuth login failed: "@ + text,
        },
    )
}

/// What to do after an attempt to connect. Only a refused login is a reason to
/// sign in again, and only at the first attempt of somebody who can: where the
/// stored login was not refused, signing in again cannot help, and in the
/// background a browser would open out of nowhere.
pub fn after_connect(stage: Stage, result: Result<(), ConnectError>) -> (r: NextStep)
    ensures
        match result {
            Ok(_) => r is Connected,
            Err(e) => if stage == Stage::First && e.kind == SessionErrorKind::PermissionDenied {
                r is SignInAgain
            } else {
                r matches NextStep::Fail(error) && error@ == connect_failure(stage, e.text@)
            },
        },
{
    let e = match result {
        Ok(_) => {
            return NextStep::Connected;
        },
        Err(e) => e,
    };
    let text = match stage {
        Stage::First => {
            if credentials_were_rejected(e.kind) {
                return NextStep::SignInAgain;
            }
            let mut text = String::from_str("could not reach Spotify: ");
            text.append(e.text.as_str());
            text.append(
                ". The stored login was not rejected, so this is a connection problem rather than a sign-in one",
            );
            text
        },
        Stage::Again => {
            let mut text = String::from_str("OAuth login also failed: ");
            text.append(e.text.as_str());
            text
        },
        Stage::CachedOnly => {
            let mut text = String::from_str("could not reconnect to Spotify: ");
            text.append(e.text.as_str());
            text
        },
        Stage::Forced => {
            let mut text = String::from_str("OAuth login failed: ");
            text.append(e.text.as_str());
            text
        },
    };
    NextStep::Fail(BotError::SpotifyAuth(text))
}

/// Whether the line about the account that signed in is worth a warning: the
/// account is of a kind that we do not know.
pub fn account_line_warns(account: &AccountType) -> (r: bool)
    ensures
        r == (account is Other),
{
    match account {
        AccountType::Other(_) => true,
        _ => false,
    }
}

// ---- what holds of every sign-in ----

/// An explicit setting decides, whatever the display; without one only Linux
/// can be without a display.
pub proof fn a_setting_decides_about_the_display(
    setting: Option<Seq<char>>,
    linux: bool,
    display: bool,
    linux2: bool,
    display2: bool,
)
    ensures
        setting is Some ==> headless(setting, linux, display) == headless(
            setting,
            linux2,
            display2,
        ),
        setting is None && headless(setting, linux, display) ==> linux && !display,
        setting is None && linux && !display ==> headless(setting, linux, display),
        headless(Some("1"@), linux, display),
        !headless(Some("0"@), linux, display),
{
    reveal_strlit("0");
    reveal_strlit("1");
    reveal_strlit("true");
    assert("0"@[0] != "1"@[0]);
    assert(folded("0"@).len() == 1);
    assert(folded("true"@).len() == 4);
}

/// A username that is shown is neither empty nor padded, and a name that is
/// neither is shown as it is.
pub proof fn a_shown_username_is_tidy(name: Seq<char>)
    ensures
        shown_username(None) is None,
        shown_username(Some(name)) matches Some(shown) ==> shown.len() > 0 && shown
            == trimmed(name),
        name.len() > 0 && trimmed(name) == name ==> shown_username(Some(name)) == Some(name),
{
}

/// The reason that Spotify gave is always told.
pub proof fn the_reason_is_told(stage: Stage, text: Seq<char>)
    ensures
        connect_failure(stage, text) matches ErrorView::SpotifyAuth(told) && crate::text::occurs(
            told,
            text,
        ),
{
    let told = connect_failure(stage, text)->SpotifyAuth_0;
    reveal_strlit("could not reach Spotify: ");
    reveal_strlit("OAuth login also failed: ");
    reveal_strlit("could not reconnect to Spotify: ");
    reveal_strlit("OAuth login failed: ");
    let n = match stage {
        Stage::First => "could not reach Spotify: "@.len() as int,
        Stage::Again => "OAuth login also failed: "@.len() as int,
        Stage::CachedOnly => "could not reconnect to Spotify: "@.len() as int,
        Stage::Forced => "OAuth login failed: "@.len() as int,
    };
    assert(told.subrange(n, n + text.len()) =~= text);
    assert(crate::text::at(told, n, text));
}

} // verus!
