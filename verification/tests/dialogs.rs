use tt_spotify_bot::config::BotConfig;
use tt_spotify_bot::gui::config_dialog::{
    errors, fill_in, new_config_file, overwrite_question, save_failed, saves, title, Form,
};
use tt_spotify_bot::gui::progress::{Msg, Progress};
use tt_spotify_bot::gui::tray::{base_id, handle_menu_action, newest_dated_log, Command};
use tt_spotify_bot::gui_native::menu::BotAction;
use tt_spotify_bot::gui_native::remove_dialog::{choice, logs_label, question, RemoveChoice};
use tt_spotify_bot::gui_native::tray::{
    announcement, checks_for_update, definition, icon_message, log_target, opens_menu,
    resource_ids, starts_at_once, startup, LogTarget, Startup, NIN_KEYSELECT, NIN_SELECT,
    SHOWN_NOTES, WM_CONTEXTMENU,
};
use tt_spotify_bot::gui_native::update_dialog::{
    after_download, heading, notes, percent, progress_label, up_to_date, AfterDownload, Download,
    DownloadMsg, DownloadStep,
};
use tt_spotify_bot::paths::PathStyle;

const UNIX: PathStyle = PathStyle::Unix;

fn form() -> Form {
    let c = BotConfig::default();
    Form {
        host: "h".to_string(),
        tcp_port: 1,
        udp_port: 2,
        encrypted: true,
        username: "u".to_string(),
        password: "p".to_string(),
        bot_name: "b".to_string(),
        channel_name: String::new(),
        channel_password: "cp".to_string(),
        bot_gender: "female".to_string(),
        spotify_quality: c.spotify_quality,
        spotify_enable_normalization: false,
        volume: 50,
        max_volume: 40,
        jitter_buffer_ms: 100,
        radio_enabled: false,
        radio_batch_size: 3,
        search_limit: 4,
    }
}

fn files(list: &[&str]) -> Vec<String> {
    list.iter().map(|s| s.to_string()).collect()
}

#[test]
fn the_config_editor_keeps_what_it_does_not_show() {
    let before = BotConfig {
        shuffle: true,
        license_name: Some("me".to_string()),
        youtube_cookies_file: "c.txt".to_string(),
        ..BotConfig::default()
    };
    let config = fill_in(before, form());
    assert_eq!(config.channel_name, "/");
    assert_eq!((config.tcp_port, config.udp_port), (1, 2));
    assert!(config.encrypted && config.shuffle);
    assert_eq!(config.license_name.as_deref(), Some("me"));
    assert_eq!(config.youtube_cookies_file, "c.txt");
    assert_eq!(errors(&config), ["Default volume cannot exceed max volume."]);
    let empty = BotConfig { host: String::new(), username: String::new(), ..config };
    assert_eq!(errors(&empty)[..2], ["Host is required.", "Username is required."]);
    assert_eq!(title(true), "TT Spotify - Edit Configuration");
    assert_eq!(title(false), "TT Spotify - New Configuration");
}

#[test]
fn a_new_config_needs_a_name() {
    assert_eq!(new_config_file(UNIX, "/d", "home").as_deref(), Some("/d/config/home.json"));
    assert_eq!(new_config_file(UNIX, "/d", "home.json").as_deref(), Some("/d/config/home.json"));
    assert_eq!(new_config_file(UNIX, "/d", ".json"), None);
    assert_eq!(new_config_file(UNIX, "/d", ""), None);
}

#[test]
fn a_running_task_cannot_be_closed() {
    let mut p = Progress::new();
    assert_eq!(p.report(Msg::Line("a".to_string()), "\r\n"), "a\r\n");
    assert!(!p.may_close());
    assert_eq!(p.report(Msg::Done(Ok(())), "\r\n"), "\r\nDone.\r\n");
    assert!(p.may_close() && p.succeeded);
    assert_eq!(p.log, "a\r\n\r\nDone.\r\n");
    let mut p = Progress::default();
    assert_eq!(p.report(Msg::Done(Err("e".to_string())), "\n"), "\nFailed: e\n");
    assert!(p.may_close() && !p.succeeded);
}

#[test]
fn menu_ids_lead_back_to_their_bots() {
    assert_eq!(handle_menu_action(1, 5), Command::Exit);
    assert_eq!(handle_menu_action(2, 5), Command::AddServer);
    for place in 0..5 {
        let base = base_id(place);
        assert_eq!(handle_menu_action(base, 5), Command::Bot(place, BotAction::Start));
        assert_eq!(handle_menu_action(base + 3, 5), Command::Bot(place, BotAction::Logs));
        assert_eq!(handle_menu_action(base + 9, 5), Command::Nothing);
    }
    assert_eq!(handle_menu_action(base_id(5), 5), Command::Nothing);
    assert_eq!(handle_menu_action(-1, 5), Command::Nothing);
}

#[test]
fn the_newest_dated_log_is_the_last_by_name() {
    let list = files(&["a.log", "2026-01-02.a.log", "2026-01-03.a.log", "2026-09-09.b.log"]);
    assert_eq!(newest_dated_log(&list, "a.log"), Some(2));
    assert_eq!(newest_dated_log(&list, "c.log"), None);
}

#[test]
fn removing_a_bot_is_one_decision() {
    assert_eq!(choice(false, true, true), None);
    assert_eq!(choice(true, true, true), Some(RemoveChoice { delete_logs: true }));
    assert_eq!(choice(true, false, true), Some(RemoveChoice { delete_logs: false }));
    assert!(question("x", "/x.json").starts_with("Remove the bot \"x\"?\r\n\r\n"));
    assert!(question("x", "/x.json").contains("\r\n/x.json\r\n\r\nThis cannot be undone."));
    assert_eq!(logs_label(true), None);
    assert!(logs_label(false).unwrap().ends_with("(none saved)"));
}

#[test]
fn a_download_shows_how_far_it_is() {
    assert_eq!(percent(50, Some(200)), 25);
    assert_eq!(percent(u64::MAX, Some(u64::MAX)), 100);
    assert_eq!(percent(9, Some(3)), 100);
    assert_eq!(percent(9, Some(0)), 0);
    assert_eq!(percent(9, None), 0);
    assert_eq!(progress_label(7), "Downloading... 7%");
    let mut d = Download::new();
    match d.report(DownloadMsg::Progress(1, Some(4))) {
        DownloadStep::Show { percent, label } => {
            assert_eq!((percent, label.as_str()), (25, "Downloading... 25%"))
        }
        other => panic!("{other:?}"),
    }
    assert_eq!(d.cancel(), "Cancelling...");
    assert!(d.cancelled && d.carry_on && !d.finished);
}

#[test]
fn only_a_replaced_program_is_relaunched() {
    let mut d = Download::default();
    assert!(matches!(
        d.report(DownloadMsg::Done(Ok(()))),
        DownloadStep::Close(AfterDownload::Relaunch)
    ));
    assert!(!d.carry_on && d.finished);
    assert!(matches!(
        after_download(Err("Update cancelled".to_string())),
        AfterDownload::CarryOn { report: None }
    ));
    match after_download(Err("disk full".to_string())) {
        AfterDownload::CarryOn { report } => assert_eq!(report.as_deref(), Some("disk full")),
        other => panic!("{other:?}"),
    }
}

#[test]
fn updates_are_announced() {
    assert_eq!(heading("v2", "1"), "A new version (v2) is available. You have v1.");
    assert_eq!(notes("a\nb"), "a\r\nb");
    assert_eq!(up_to_date("1"), "You're up to date (v1).");
    let text = announcement("v2", "1", &"n".repeat(SHOWN_NOTES + 1));
    assert!(text.ends_with(&format!(".\n\n{}", "n".repeat(SHOWN_NOTES))));
    assert_eq!(announcement("v2", "1", "x"), "A new version (v2) is available. You have v1.\n\nx");
}

#[test]
fn the_shell_says_where_the_menu_goes() {
    let m = icon_message(0x0005_0400, 0xfff0_0010);
    assert_eq!((m.notification, m.x, m.y), (NIN_SELECT, 16, -16));
    assert!(opens_menu(WM_CONTEXTMENU) && opens_menu(NIN_SELECT) && opens_menu(NIN_KEYSELECT));
    assert!(!opens_menu(0x0200));
}

#[test]
fn bots_wait_for_an_update_check() {
    assert!(checks_for_update(true, true));
    assert!(!checks_for_update(false, true) && !checks_for_update(true, false));
    assert!(starts_at_once(true, false) && starts_at_once(false, true));
    assert!(!starts_at_once(true, true));
    assert_eq!(startup(true, 3), Startup::Nothing);
    assert_eq!(startup(false, 0), Startup::Offer);
    assert_eq!(startup(false, 3), Startup::Start);
}

#[test]
fn logs_open_where_they_are() {
    let list = files(&["2026-01-02.log", "2026-01-03.log"]);
    assert!(matches!(log_target("x", Some(&list)), LogTarget::File(1)));
    assert!(matches!(log_target("x", Some(&files(&[]))), LogTarget::Folder));
    match log_target("x", None) {
        LogTarget::Nothing(text) => assert_eq!(text, "x has not written any logs yet."),
        other => panic!("{other:?}"),
    }
}

#[test]
fn resource_ids_come_from_the_script() {
    let rc = "#define IDD_ONE 101\r\n#define NAME \"x\"\n // #define NO 1\n#define IDC_TWO 7 // two\n";
    let text = resource_ids(rc);
    let lines: Vec<&str> = text.lines().skip(1).collect();
    assert_eq!(lines, ["pub const IDD_ONE: u16 = 101;", "pub const IDC_TWO: u16 = 7;"]);
    assert_eq!(definition("#define A"), None);
    assert_eq!(definition("#define A 1"), Some(("A".to_string(), "1".to_string())));
}

#[test]
fn a_config_is_not_replaced_without_asking() {
    assert_eq!(overwrite_question("/d/config/home.json", false), None);
    assert_eq!(
        overwrite_question("/d/config/home.json", true).as_deref(),
        Some("/d/config/home.json already exists. Overwrite?")
    );
    assert!(saves(true, true, false));
    assert!(saves(false, false, false));
    assert!(saves(false, true, true));
    assert!(!saves(false, true, false));
    assert_eq!(save_failed("disk full"), "Failed to save: disk full");
}
