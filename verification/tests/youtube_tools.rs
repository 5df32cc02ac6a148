use tt_spotify_bot::gui_native::youtube_tools::{
    bgutil_step, youtube_install, youtube_update, ytdlp_update_summary,
};

#[test]
fn reports_from_to_when_version_changes() {
    let s = ytdlp_update_summary(Some("2025.11.01".into()), Some("2025.12.08".into()));
    assert_eq!(s, "yt-dlp updated: 2025.11.01 -> 2025.12.08");
}

#[test]
fn reports_up_to_date_when_unchanged() {
    let s = ytdlp_update_summary(Some("2025.12.08".into()), Some("2025.12.08".into()));
    assert_eq!(s, "yt-dlp already up to date (2025.12.08)");
}

#[test]
fn reports_current_version_when_before_unknown() {
    let s = ytdlp_update_summary(None, Some("2025.12.08".into()));
    assert_eq!(s, "yt-dlp is now at version 2025.12.08");
}

#[test]
fn falls_back_when_after_unknown() {
    assert_eq!(
        ytdlp_update_summary(Some("2025.11.01".into()), None),
        "yt-dlp update check complete."
    );
    assert_eq!(ytdlp_update_summary(None, None), "yt-dlp update check complete.");
}

#[test]
fn tools_that_are_there_are_updated_and_not_installed_again() {
    assert_eq!(youtube_install(true), Some("YouTube tools already installed."));
    assert_eq!(youtube_install(false), None);
    assert_eq!(youtube_update(true), Ok(()));
    assert_eq!(youtube_update(false), Err("YouTube tools aren't installed yet. Install them first."));
}

#[test]
fn bgutil_is_updated_only_to_another_version() {
    assert_eq!(bgutil_step("1.0", "1.0"), ("bgutil-pot is up to date (1.0).".to_string(), false));
    assert_eq!(bgutil_step("1.0", "1.1"), ("Updating bgutil-pot 1.0 -> 1.1...".to_string(), true));
}
