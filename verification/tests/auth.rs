use librespot_core::error::ErrorKind;
use librespot_core::Error;
use tt_spotify_bot::error::BotError;
use tt_spotify_bot::hints::Platform;
use tt_spotify_bot::spotify::account::{classify, AccountType};
use tt_spotify_bot::spotify::auth::{
    account_line_warns, after_connect, credentials_were_rejected, detect_headless, has_display,
    oauth_is_feasible, oauth_scopes, plan_sign_in, usable_username, ConnectError, NextStep,
    SessionErrorKind, Stage,
};

/// The kind of an error, as the program tells it to the library.
fn kind(error: &librespot_core::Error) -> SessionErrorKind {
    match error.kind {
        ErrorKind::Cancelled => SessionErrorKind::Cancelled,
        ErrorKind::Unknown => SessionErrorKind::Unknown,
        ErrorKind::InvalidArgument => SessionErrorKind::InvalidArgument,
        ErrorKind::DeadlineExceeded => SessionErrorKind::DeadlineExceeded,
        ErrorKind::NotFound => SessionErrorKind::NotFound,
        ErrorKind::AlreadyExists => SessionErrorKind::AlreadyExists,
        ErrorKind::PermissionDenied => SessionErrorKind::PermissionDenied,
        ErrorKind::Unauthenticated => SessionErrorKind::Unauthenticated,
        ErrorKind::ResourceExhausted => SessionErrorKind::ResourceExhausted,
        ErrorKind::FailedPrecondition => SessionErrorKind::FailedPrecondition,
        ErrorKind::Aborted => SessionErrorKind::Aborted,
        ErrorKind::OutOfRange => SessionErrorKind::OutOfRange,
        ErrorKind::Unimplemented => SessionErrorKind::Unimplemented,
        ErrorKind::Internal => SessionErrorKind::Internal,
        ErrorKind::Unavailable => SessionErrorKind::Unavailable,
        ErrorKind::DataLoss => SessionErrorKind::DataLoss,
        ErrorKind::DoNotUse => SessionErrorKind::DoNotUse,
    }
}

#[test]
fn a_blank_username_is_treated_as_no_username() {
    // Spotify has been seen to return empty or padded names. "signed in as"
    // followed by nothing reads as a bug rather than as a missing name.
    assert_eq!(usable_username(None), None);
    assert_eq!(usable_username(Some("")), None);
    assert_eq!(usable_username(Some("   ")), None);
    assert_eq!(
        usable_username(Some("  aloys  ")),
        Some("aloys".to_string()),
        "a real name should be kept, and tidied"
    );
}

#[test]
fn a_refused_login_asks_the_user_to_sign_in_again() {
    // What librespot returns for AuthenticationError::LoginFailed, and
    // for an HTTP 401/403 - the only two things it calls
    // permission_denied.
    assert!(credentials_were_rejected(kind(&Error::permission_denied("boom"))));
}

#[test]
fn an_unreachable_spotify_does_not_open_a_browser() {
    // The bug this exists for: a bot starting before the network is up
    // used to be sent to a browser, once per retry.
    assert!(!credentials_were_rejected(kind(&Error::unavailable("boom"))));
}

#[test]
fn a_timeout_does_not_open_a_browser() {
    assert!(!credentials_were_rejected(kind(&Error::deadline_exceeded("boom"))));
}

#[test]
fn oauth_feasible_with_browser_regardless_of_stdin() {
    // Non-headless (Windows tray, desktop Linux): browser flow works.
    assert!(oauth_is_feasible(false, false));
    assert!(oauth_is_feasible(false, true));
}

#[test]
fn oauth_feasible_headless_with_terminal_paste_flow() {
    // SSH session on a headless box: paste-the-URL flow reads stdin.
    assert!(oauth_is_feasible(true, true));
}

#[test]
fn oauth_infeasible_headless_without_terminal() {
    // systemd service: no display, stdin is /dev/null. OAuth can only fail.
    assert!(!oauth_is_feasible(true, false));
}

#[test]
fn display_env_present_and_nonempty_counts_as_display() {
    assert!(has_display(Some(":0"), None));
    assert!(has_display(None, Some("wayland-0")));
    assert!(has_display(Some(":0"), Some("wayland-0")));
}

#[test]
fn empty_or_missing_display_env_is_headless() {
    // Some service environments set DISPLAY="" — that is not a display.
    assert!(!has_display(None, None));
    assert!(!has_display(Some(""), None));
    assert!(!has_display(None, Some("")));
    assert!(!has_display(Some(""), Some("")));
}

#[test]
fn no_other_failure_is_mistaken_for_a_refusal() {
    for e in [
        Error::unavailable("boom"),
        Error::deadline_exceeded("boom"),
        Error::internal("boom"),
        Error::unknown("boom"),
        Error::invalid_argument("boom"),
        Error::not_found("boom"),
        Error::aborted("boom"),
        Error::cancelled("boom"),
        Error::failed_precondition("boom"),
        Error::resource_exhausted("boom"),
        Error::unauthenticated("boom"),
        Error::unimplemented("boom"),
    ] {
        assert!(
            !credentials_were_rejected(kind(&e)),
            "{:?} should not be treated as a refused login",
            e.kind
        );
    }
}

#[test]
fn refusing_an_impossible_sign_in_survives_the_blocking_hop() {
    let err = plan_sign_in(true, false, Platform::Shell("ttspotify"))
        .expect_err("an infeasible sign-in must refuse, not proceed");
    assert!(
        err.message().contains(" auth"),
        "the refusal should say what to do instead: {}",
        err.message()
    );
}

#[test]
fn a_sign_in_without_a_display_is_pasted() {
    let plan = plan_sign_in(true, true, Platform::Tray).unwrap();
    assert_eq!(plan.redirect, "http://127.0.0.1/login");
    assert!(!plan.open_browser);
    assert_eq!(plan.instructions.len(), 5);
    let plan = plan_sign_in(false, true, Platform::Tray).unwrap();
    assert_eq!(plan.redirect, "http://127.0.0.1:5588/login");
    assert!(plan.open_browser);
    assert_eq!(plan.instructions[0], "Spotify Authentication");
    assert_eq!(oauth_scopes().len(), 4);
}

fn connect_error(kind: SessionErrorKind) -> Result<(), ConnectError> {
    Err(ConnectError { kind, text: "boom".to_string() })
}

#[test]
fn only_a_first_refusal_asks_for_another_sign_in() {
    assert!(matches!(after_connect(Stage::First, Ok(())), NextStep::Connected));
    assert!(matches!(
        after_connect(Stage::First, connect_error(SessionErrorKind::PermissionDenied)),
        NextStep::SignInAgain
    ));
    let text = |stage, kind| match after_connect(stage, connect_error(kind)) {
        NextStep::Fail(e) => e.message(),
        other => panic!("{other:?}"),
    };
    assert!(text(Stage::First, SessionErrorKind::Unavailable)
        .starts_with("Spotify auth: could not reach Spotify: boom. The stored login was not"));
    assert_eq!(
        text(Stage::Again, SessionErrorKind::PermissionDenied),
        "Spotify auth: OAuth login also failed: boom"
    );
    assert_eq!(
        text(Stage::CachedOnly, SessionErrorKind::PermissionDenied),
        "Spotify auth: could not reconnect to Spotify: boom"
    );
    assert_eq!(
        text(Stage::Forced, SessionErrorKind::Internal),
        "Spotify auth: OAuth login failed: boom"
    );
}

#[test]
fn the_override_decides_before_the_display_does() {
    assert!(detect_headless(Some("1"), true, Some(":0"), None));
    assert!(detect_headless(Some("TRUE"), false, Some(":0"), None));
    assert!(!detect_headless(Some("0"), true, None, None));
    assert!(detect_headless(None, true, None, None));
    assert!(!detect_headless(None, true, Some(":0"), None));
    assert!(!detect_headless(None, false, None, None));
}

#[test]
fn only_an_unknown_kind_of_account_is_worth_a_warning() {
    assert!(account_line_warns(&classify(Some("free"))));
    assert!(!account_line_warns(&AccountType::Premium));
    assert!(!account_line_warns(&AccountType::Unknown));
}

#[test]
fn every_error_is_shown_with_its_label() {
    let shown = |e: BotError| e.message();
    assert_eq!(shown(BotError::Config("x".into())), "Config: x");
    assert_eq!(shown(BotError::SpotifyAuth("x".into())), "Spotify auth: x");
    assert_eq!(shown(BotError::Playback("x".into())), "Spotify playback: x");
    assert_eq!(shown(BotError::NoResults), "No results found");
    assert_eq!(shown(BotError::TeamTalk("x".into())), "TeamTalk: x");
    assert_eq!(shown(BotError::Audio("x".into())), "Audio pipeline: x");
    assert_eq!(shown(BotError::Io("x".into())), "IO: x");
    assert_eq!(shown(BotError::Http("x".into())), "HTTP: x");
    assert_eq!(shown(BotError::ChannelSend("x".into())), "Channel send error: x");
    assert_eq!(shown(BotError::Usage("x".into())), "x");
}
