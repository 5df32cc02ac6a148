use tt_spotify_bot::hints::Platform;
use tt_spotify_bot::services::Service;
use tt_spotify_bot::wizard::{
    bgutil_update, cookies_warning, given_name, heading, menu_choice, no_tools, parse_admin_list, run_hint,
    service_step, sign_in_report, signs_in, youtube_question, AdminMode, EnabledServices, Known,
    Question, ServiceStep, SignInResult, Step, Wizard,
};

#[test]
fn a_number_in_range_is_taken_as_given() {
    assert_eq!(menu_choice("1", 4, "4"), Some(1));
    assert_eq!(menu_choice(" 3 \n", 4, "4"), Some(3));
}

#[test]
fn empty_means_the_default() {
    assert_eq!(menu_choice("", 4, "4"), Some(4));
    assert_eq!(menu_choice("  ", 3, "1"), Some(1));
}

#[test]
fn out_of_range_and_junk_are_refused_rather_than_silently_defaulted() {
    // The bug this replaced: typing 9 at a 1-4 menu saved choice 4 with no
    // message, while the port prompt beside it validated properly.
    assert_eq!(menu_choice("9", 4, "4"), None);
    assert_eq!(menu_choice("0", 4, "4"), None);
    assert_eq!(menu_choice("-1", 4, "4"), None);
    assert_eq!(menu_choice("two", 4, "4"), None);
    assert_eq!(menu_choice("2x", 4, "4"), None);
}

fn wizard(there: bool) -> Wizard {
    Wizard::new(
        Known {
            config_path: "/c/home.json".to_string(),
            languages: vec!["en".to_string(), "ES".to_string()],
            cookies_path: "/c/cookies.txt".to_string(),
        },
        there,
    )
}

fn give(w: &mut Wizard, line: &str) {
    match w.answer(Some(line)) {
        Step::Next => {}
        other => panic!("{line:?} at {:?}: {other:?}", w.question),
    }
}

fn refused(w: &mut Wizard, line: &str) -> String {
    let before = w.question;
    match w.answer(Some(line)) {
        Step::Again(text) => {
            assert_eq!(w.question, before, "the same question is asked again");
            text
        }
        other => panic!("{line:?} at {before:?}: {other:?}"),
    }
}

#[test]
fn the_whole_wizard_with_one_service() {
    let mut w = wizard(false);
    assert_eq!(w.prompt().text, "Server address");
    assert_eq!(refused(&mut w, "  "), "    This field is required.");
    give(&mut w, " tt.example.com ");
    assert_eq!(w.prompt().default, "10333");
    assert_eq!(refused(&mut w, "ten"), "    Invalid input. Expected a number.");
    give(&mut w, "10555");
    assert_eq!(w.prompt().default, "10555", "the second port follows the first");
    give(&mut w, "");
    give(&mut w, "bot");
    give(&mut w, "");
    give(&mut w, "");
    give(&mut w, "");
    give(&mut w, "");
    assert_eq!(w.question, Question::AdminMode);
    assert_eq!(refused(&mut w, "9"), "    Please answer with a number from 1 to 4.");
    give(&mut w, "3");
    assert_eq!(w.question, Question::Admins);
    give(&mut w, "ann, , bob ");
    assert_eq!(w.prompt().text, "Default language [en/ES]");
    assert_eq!(
        refused(&mut w, "DE"),
        "    No translation installed for \"de\". Choose one of: en, ES"
    );
    give(&mut w, "Es");
    give(&mut w, "");
    give(&mut w, "key");
    assert_eq!(w.question, Question::Services);
    assert_eq!(refused(&mut w, "0"), "    Please answer with a number from 1 to 3.");
    give(&mut w, "2");
    assert_eq!(w.question, Question::Finished, "no cookies for a bot without YouTube");
    let setup = w.finish().expect("everything was answered");
    assert_eq!(setup.config.host, "tt.example.com");
    assert_eq!((setup.config.tcp_port, setup.config.udp_port), (10555, 10555));
    assert_eq!(setup.config.bot_name, "Spotify");
    assert_eq!(setup.config.channel_name, "/");
    assert_eq!(setup.config.license_name, None);
    assert_eq!(setup.config.license_key.as_deref(), Some("key"));
    assert_eq!(setup.config.default_service, Service::Spotify);
    assert_eq!(setup.config.volume, 50);
    assert_eq!(setup.admin_mode, AdminMode::List);
    assert_eq!(setup.admins, ["ann", "bob"]);
    assert_eq!(setup.default_language, "es");
    assert_eq!(setup.enabled_services, EnabledServices { spotify: true, youtube: false });
}

#[test]
fn the_cookies_are_asked_for_where_youtube_is_offered() {
    let mut w = wizard(true);
    assert_eq!(w.prompt().text, "/c/home.json already exists. Overwrite? (y/N)");
    give(&mut w, "Y");
    for line in ["h", "", "", "u", "", "", "", "", "1", "", "", "", "1", "youtube"] {
        give(&mut w, line);
    }
    assert_eq!(w.question, Question::WantCookies);
    give(&mut w, "yes");
    assert_eq!(w.prompt().default, "/c/cookies.txt");
    give(&mut w, "");
    let setup = w.finish().unwrap();
    assert_eq!(setup.config.youtube_cookies_file, "/c/cookies.txt");
    assert_eq!(setup.config.default_service, Service::YouTube);
    assert_eq!(setup.admin_mode, AdminMode::Everyone);
    assert!(setup.admins.is_empty());
    assert_eq!(setup.default_language, "en");
}

#[test]
fn going_away_cancels_except_over_cookies() {
    let mut w = wizard(true);
    assert!(matches!(w.answer(Some("n")), Step::Cancelled));
    assert!(matches!(w.answer(None), Step::Cancelled));
    let mut w = wizard(false);
    assert!(matches!(w.answer(None), Step::Cancelled));
    w.question = Question::WantCookies;
    assert!(matches!(w.answer(None), Step::Next));
    assert_eq!(w.question, Question::Finished);
    assert!(wizard(false).finish().is_none());
}

#[test]
fn a_name_that_cannot_be_used_is_an_error() {
    assert_eq!(given_name("home", Some("home".to_string())).unwrap(), "home");
    assert!(given_name("all", None)
        .unwrap_err()
        .message()
        .starts_with("\"all\" cannot be used as a bot name."));
}

#[test]
fn headings_stand_above_the_first_question_of_a_part() {
    assert_eq!(heading(Question::Host), ["TeamTalk Server Settings"]);
    assert_eq!(heading(Question::AdminMode).len(), 6);
    assert!(heading(Question::TcpPort).is_empty());
    assert_eq!(parse_admin_list(" a ,b,"), ["a", "b"]);
}

#[test]
fn signing_in_is_offered_and_reported() {
    let both = EnabledServices::default();
    let youtube = EnabledServices { spotify: false, youtube: true };
    assert!(signs_in(both, Some("")) && signs_in(both, None));
    assert!(!signs_in(both, Some("NO")));
    assert!(!signs_in(youtube, Some("y")));
    let p = Platform::Shell("bot");
    assert_eq!(
        sign_in_report(SignInResult::Failed("x".to_string()), p),
        ["  Spotify authentication failed: x", "  To try again, run: bot auth"]
    );
    assert_eq!(sign_in_report(SignInResult::Done, p).len(), 1);
    assert_eq!(sign_in_report(SignInResult::NotTried, p)[1], "  To sign in later, run: bot auth");
    assert_eq!(sign_in_report(SignInResult::Declined, p)[0], "  Skipping Spotify authentication.");
}

#[test]
fn the_youtube_tools_are_offered_where_they_are_wanted_and_missing() {
    let both = EnabledServices::default();
    assert_eq!(youtube_question(both, Service::YouTube, false).unwrap().1, "y");
    assert_eq!(youtube_question(both, Service::Spotify, false).unwrap().1, "n");
    assert!(youtube_question(both, Service::YouTube, true).is_none());
    let spotify = EnabledServices { spotify: true, youtube: false };
    assert!(youtube_question(spotify, Service::Spotify, false).is_none());
    assert_eq!(bgutil_update("1", "1"), ("  bgutil-pot already on 1 (latest).".to_string(), false));
    assert_eq!(
        bgutil_update("1", "2"),
        ("  Installed: 1, latest: 2. Updating...".to_string(), true)
    );
    assert!(no_tools(Platform::Shell("b")).ends_with("run: b youtube install"));
}

#[test]
fn the_service_is_offered_only_in_a_setup_of_its_own() {
    assert_eq!(service_step(false, true, true), ServiceStep::Skip);
    assert_eq!(service_step(true, false, true), ServiceStep::Skip);
    assert_eq!(service_step(true, true, true), ServiceStep::OfferInstance);
    assert_eq!(service_step(true, true, false), ServiceStep::AskInstall);
    assert_eq!(run_hint("bot", "/c/a.json"), "  Run the bot with: bot --config /c/a.json");
}

#[test]
fn each_admin_mode_lets_its_own_people_in() {
    let admins = vec!["ana".to_string()];
    assert!(AdminMode::Everyone.allows(&admins, "eve", false));
    assert!(AdminMode::TtRights.allows(&admins, "eve", true));
    assert!(!AdminMode::TtRights.allows(&admins, "ana", false));
    assert!(AdminMode::List.allows(&admins, "ana", false));
    assert!(!AdminMode::List.allows(&admins, "eve", true));
    assert!(AdminMode::Both.allows(&admins, "ana", false));
    assert!(AdminMode::Both.allows(&admins, "eve", true));
    assert!(!AdminMode::Both.allows(&admins, "eve", false));
}

#[test]
fn only_a_missing_cookies_file_is_warned_about() {
    assert_eq!(cookies_warning("", false), None);
    assert_eq!(cookies_warning("/c.txt", true), None);
    let text = cookies_warning("/c.txt", false).unwrap();
    assert!(text.starts_with("  Warning: /c.txt doesn't exist yet."), "got: {text}");
}
