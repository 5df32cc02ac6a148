use tt_spotify_bot::bot::runner::{BotExit, RunnerEvent};
use tt_spotify_bot::control::Configured;
use tt_spotify_bot::gui::manager::{
    after_run, config_status, runtime_status, status_of_event, AfterRun, BotManager, BotStatus,
    Restart,
};

fn configured(list: &[(&str, &str)]) -> Vec<Configured> {
    list.iter()
        .map(|(name, path)| Configured { name: name.to_string(), path: path.to_string() })
        .collect()
}

fn names(m: &BotManager) -> Vec<String> {
    m.statuses().into_iter().map(|(n, _)| n).collect()
}

#[test]
fn bots_are_kept_once_and_in_order() {
    let mut m = BotManager::new();
    let added = m.load_configs(&configured(&[("b", "/b"), ("a", "/a"), ("b", "/other")]));
    assert_eq!(added, ["b", "a"]);
    assert_eq!(names(&m), ["a", "b"]);
    assert_eq!(m.config_path("b").as_deref(), Some("/b"));
    assert_eq!(m.config_path("c"), None);
    m.set_status("b", BotStatus::Connected);
    assert_eq!(m.load_configs(&configured(&[("b", "/b"), ("c", "/c")])), ["c"]);
    let texts: Vec<String> = m.statuses().iter().map(|(_, s)| s.text()).collect();
    assert_eq!(texts, ["Stopped", "Connected, Idle", "Stopped"]);
}

#[test]
fn only_a_bot_that_is_there_is_started_or_stopped() {
    let mut m = BotManager::default();
    m.load_configs(&configured(&[("a", "/a")]));
    assert!(!m.start("a", true));
    assert!(!m.start("x", false));
    assert!(m.start("a", false));
    assert_eq!(m.statuses()[0].1.text(), "Starting...");
    assert!(m.stop("a", true) && !m.stop("a", false) && !m.stop("x", true));
    assert_eq!(m.restart("x", true), Restart::Unknown);
    assert_eq!(m.restart("a", true), Restart::StopFirst);
    assert_eq!(m.restart("a", false), Restart::Start);
    assert!(!m.set_status("x", BotStatus::Stopped));
}

#[test]
fn events_are_shown_as_statuses() {
    let text = |e| status_of_event(e).text();
    assert_eq!(text(RunnerEvent::Connecting), "Connecting...");
    assert_eq!(text(RunnerEvent::Authenticating), "Authenticating...");
    assert_eq!(text(RunnerEvent::Connected), "Connected, Idle");
    assert_eq!(text(RunnerEvent::Idle), "Connected, Idle");
    assert_eq!(text(RunnerEvent::Playing("x".to_string())), "Connected, Playing: x");
    assert_eq!(text(RunnerEvent::Disconnected), "Disconnected");
    assert_eq!(text(RunnerEvent::Error("e".to_string())), "Error: e");
    assert_eq!(config_status("bad").text(), "Error: Config: bad");
    assert_eq!(runtime_status("bad").text(), "Error: Runtime: bad");
}

#[test]
fn a_run_ends_or_starts_over() {
    assert!(matches!(after_run(Ok(BotExit::Restart)), AfterRun::Again));
    assert!(matches!(after_run(Ok(BotExit::Quit)), AfterRun::End(BotStatus::Stopped)));
    assert!(matches!(after_run(Ok(BotExit::Shutdown)), AfterRun::End(BotStatus::Stopped)));
    match after_run(Err("e".to_string())) {
        AfterRun::End(status) => assert_eq!(status.text(), "Error: e"),
        AfterRun::Again => panic!("it should not run again"),
    }
}
