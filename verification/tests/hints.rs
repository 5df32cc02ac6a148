use tt_spotify_bot::hints::{
    create_bot, edit_bot, install_binary, install_service, install_youtube_tools, restart_bot,
    run_bot, sign_in_spotify, update_youtube_tools, Platform,
};

/// Every suggestion for a platform, so the checks below cannot miss one that
/// was added later.
fn all_for(p: Platform) -> Vec<(&'static str, String)> {
    vec![
        ("create_bot", create_bot(p)),
        ("sign_in_spotify", sign_in_spotify(p)),
        ("install_youtube_tools", install_youtube_tools(p)),
        ("update_youtube_tools", update_youtube_tools(p)),
        ("install_service", install_service(p)),
        ("install_binary", install_binary(p)),
        ("restart_bot", restart_bot(p, "home")),
        ("edit_bot", edit_bot(p, "home")),
        ("run_bot", run_bot(p, "home")),
    ]
}

fn all() -> Vec<(&'static str, String)> {
    all_for(Platform::Shell("ttspotify"))
}

#[test]
fn no_suggestion_names_a_command_line_flag() {
    // The bug this file exists to prevent: the CLI moved from flags to
    // subcommands and every "fix it with --this" string kept naming a flag
    // that now fails to parse. Nothing here may mention one.
    for (name, hint) in all() {
        assert!(
            !hint.contains("--"),
            "{name} suggests a flag, which this build does not accept: {hint}"
        );
    }
}

#[test]
fn every_suggestion_says_something() {
    for (name, hint) in all() {
        assert!(!hint.trim().is_empty(), "{name} is empty");
        // A hint that names no command and no menu item tells nobody
        // anything.
        assert!(
            hint.contains("run:") || hint.contains("tray") || hint.contains("folder"),
            "{name} gives no way to act on it: {hint}"
        );
    }
}

#[test]
fn commands_name_real_subcommands() {
    // Each of these is a subcommand the CLI actually defines; a typo here
    // would send someone to a command that does not exist.
    let expected = [
        ("create_bot", " add "),
        ("sign_in_spotify", " auth"),
        ("install_youtube_tools", " youtube install"),
        ("update_youtube_tools", " youtube update"),
        ("install_service", " service install"),
        ("install_binary", " install"),
        ("restart_bot", " restart home"),
        ("edit_bot", " edit home"),
        ("run_bot", " run home"),
    ];
    for (name, needle) in expected {
        let hint = all().into_iter().find(|(n, _)| *n == name).unwrap().1;
        assert!(hint.contains(needle), "{name} should mention `{needle}`: {hint}");
    }
}

#[test]
fn the_tray_is_pointed_at_its_own_menu() {
    for (name, hint) in all_for(Platform::Tray) {
        assert!(!hint.contains("run:"), "{name} names a command: {hint}");
        assert!(!hint.contains("--"), "{name} names a flag: {hint}");
        assert!(hint.contains("tray") || hint.contains("folder"), "{name}: {hint}");
    }
    assert_eq!(sign_in_spotify(Platform::Shell("bot")), "run: bot auth");
}
