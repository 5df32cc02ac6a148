use tt_spotify_bot::bot::runner::BotExit;
use tt_spotify_bot::cli::{
    after_run, answered_config, auth_status, choosing, command, config_choice, download_line,
    on_signal, tray_start, AfterRun, Args, Choosing, Command, ConfigChoice, OnSignal, TrayStart,
};
use tt_spotify_bot::tt::connection::{
    join_channel, setup_error, Lookup, SetupStage, CHANNEL_WAIT_MS, ROOT_CHANNEL,
};

fn args() -> Args {
    Args {
        config: None,
        setup: None,
        list: false,
        status: false,
        start: None,
        stop: None,
        restart: None,
        logs: None,
        follow: false,
        doctor: false,
        install: false,
        uninstall: false,
        purge: false,
        install_service: false,
        uninstall_service: false,
        auth: false,
        auth_status: false,
        setup_yt: false,
        update_tools: false,
        update: false,
    }
}

fn text(s: &str) -> Option<String> {
    Some(s.to_string())
}

fn strings(list: &[&str]) -> Vec<String> {
    list.iter().map(|s| s.to_string()).collect()
}

#[test]
fn the_command_line_names_one_command() {
    assert!(matches!(command(Args { setup: text(""), ..args() }), Command::Setup(None)));
    assert!(matches!(command(Args { setup: text("x"), doctor: true, ..args() }), Command::Setup(Some(n)) if n == "x"));
    assert!(matches!(command(Args { doctor: true, list: true, ..args() }), Command::Doctor));
    assert!(matches!(command(Args { list: true, ..args() }), Command::List));
    assert!(matches!(command(Args { status: true, ..args() }), Command::Status));
    assert!(matches!(command(Args { start: text("a"), stop: text("b"), ..args() }), Command::Control("start", t) if t == "a"));
    assert!(matches!(command(Args { stop: text("b"), ..args() }), Command::Control("stop", t) if t == "b"));
    assert!(matches!(command(Args { restart: text("b"), ..args() }), Command::Control("restart", t) if t == "b"));
    assert!(matches!(command(Args { logs: text("b"), follow: true, ..args() }), Command::Logs { follow: true, .. }));
    assert!(matches!(command(Args { install: true, ..args() }), Command::Install));
    assert!(matches!(command(Args { uninstall: true, purge: true, ..args() }), Command::Uninstall { purge: true }));
    assert!(matches!(command(Args { install_service: true, ..args() }), Command::InstallService));
    assert!(matches!(command(Args { uninstall_service: true, ..args() }), Command::UninstallService));
    assert!(matches!(command(Args { auth_status: true, auth: true, ..args() }), Command::AuthStatus));
    assert!(matches!(command(Args { setup_yt: true, ..args() }), Command::SetupYoutube));
    assert!(matches!(command(Args { update_tools: true, ..args() }), Command::UpdateTools));
    assert!(matches!(command(Args { update: true, ..args() }), Command::Update));
    assert!(matches!(command(Args { auth: true, ..args() }), Command::Auth));
    assert!(matches!(command(Args { config: text("c"), ..args() }), Command::Run(Some(c)) if c == "c"));
}

#[test]
fn the_tray_can_be_called_for_its_editor() {
    let start = |list: &[&str]| tray_start(&strings(list));
    assert!(matches!(start(&["tray"]), TrayStart::Tray));
    assert!(matches!(start(&["tray", "--setup"]), TrayStart::Setup(None)));
    assert!(matches!(start(&["tray", "--setup", "--x"]), TrayStart::Setup(None)));
    assert!(matches!(start(&["tray", "--setup", "a"]), TrayStart::Setup(Some(n)) if n == "a"));
}

#[test]
fn a_config_is_named_or_chosen() {
    assert!(matches!(config_choice(text("a"), 0, text("b")), ConfigChoice::Path(p) if p == "a"));
    assert!(matches!(config_choice(None, 2, text("b")), ConfigChoice::Path(p) if p == "b"));
    assert!(matches!(config_choice(None, 0, None), ConfigChoice::First));
    assert!(matches!(config_choice(None, 2, None), ConfigChoice::Leave));
}

#[test]
fn being_told_to_stop_is_no_failure() {
    assert!(matches!(after_run(Ok(BotExit::Restart), true), AfterRun::Again));
    assert!(matches!(after_run(Ok(BotExit::Quit), false), AfterRun::Exit(0)));
    assert!(matches!(after_run(Err("e".to_string()), true), AfterRun::Exit(0)));
    assert!(matches!(after_run(Err("e".to_string()), false), AfterRun::Fail(t) if t == "e"));
    assert_eq!(on_signal(false), OnSignal::Stop);
    assert_eq!(on_signal(true), OnSignal::ExitNow(130));
}

#[test]
fn the_stored_login_decides_the_status() {
    assert_eq!(auth_status(true).1, 0);
    assert_eq!(auth_status(false).1, 1);
    assert_eq!(auth_status(false).0 .0, "Spotify: No cached credentials.");
}

#[test]
fn a_download_is_one_line() {
    assert_eq!(download_line(1, Some(8)), "\rDownloading... 12%   ");
    assert_eq!(download_line(8, Some(0)), "\rDownloading... 8 bytes   ");
    assert_eq!(download_line(8, None), "\rDownloading... 8 bytes   ");
}

#[test]
fn a_channel_that_does_not_come_is_replaced_by_the_root() {
    assert_eq!(join_channel(5, 0), Lookup::Join(5));
    assert_eq!(join_channel(0, 0), Lookup::Again);
    assert_eq!(join_channel(0, CHANNEL_WAIT_MS), Lookup::Join(ROOT_CHANNEL));
}

#[test]
fn each_stage_of_the_setup_has_its_error() {
    let message = |stage| setup_error(stage, "x").message();
    assert_eq!(message(SetupStage::Create), "TeamTalk: Failed to create client: x");
    assert_eq!(message(SetupStage::Connect), "TeamTalk: Connection failed: x");
    assert_eq!(message(SetupStage::Wait), "TeamTalk: Connection timeout");
    assert_eq!(message(SetupStage::Login), "TeamTalk: Login failed: x");
    assert_eq!(message(SetupStage::InputDevice), "TeamTalk: Failed to init virtual input device");
    assert_eq!(message(SetupStage::OutputDevice), "TeamTalk: Failed to init virtual output device");
}

#[test]
fn a_config_is_only_asked_for_where_there_is_a_choice() {
    assert_eq!(choosing(0, true), Choosing::Nothing);
    assert_eq!(choosing(1, false), Choosing::Only);
    assert_eq!(choosing(3, false), Choosing::Nothing);
    assert_eq!(choosing(3, true), Choosing::Ask);
    assert_eq!(answered_config(" 2\n", 3), Some(1));
    assert_eq!(answered_config("0", 3), None);
    assert_eq!(answered_config("4", 3), None);
    assert_eq!(answered_config("two", 3), None);
}
