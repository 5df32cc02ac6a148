use tt_spotify_bot::control::{
    active_since, control, journal_args, last_lines, list, log_source, no_logs_yet, past_tense,
    require_service, resolve_targets, status, status_without_service, unit_for, Configured,
    LogSource,
};

fn names(list: &[&str]) -> Vec<String> {
    list.iter().map(|s| s.to_string()).collect()
}

#[test]
fn a_known_name_resolves_to_itself() {
    assert_eq!(
        resolve_targets("home", &names(&["home", "work"])).unwrap(),
        vec!["home".to_string()]
    );
}

#[test]
fn all_means_every_config() {
    assert_eq!(
        resolve_targets("all", &names(&["home", "work"])).unwrap(),
        names(&["home", "work"])
    );
}

#[test]
fn an_unknown_name_lists_the_ones_that_exist() {
    // Typing the wrong name is the common case; the error is the only
    // place the right names are going to come from.
    let err = resolve_targets("hom", &names(&["home", "work"])).unwrap_err();
    assert!(err.contains("home, work"), "{err}");
    assert!(err.contains("all"), "{err}");
}

#[test]
fn with_no_configs_the_answer_is_to_make_one() {
    let err = resolve_targets("all", &vec![]).unwrap_err();
    assert!(err.contains("--setup"), "{err}");
}

#[test]
fn every_verb_reports_in_words() {
    assert_eq!(past_tense("start"), "started");
    // "stoped" is what bolting "ed" onto the verb produced.
    assert_eq!(past_tense("stop"), "stopped");
    assert_eq!(past_tense("restart"), "restarted");
}

#[test]
fn unit_names_escape_the_config_name() {
    // systemd cannot address an instance with a raw space in it.
    assert_eq!(unit_for("my server"), r"ttspotify@my\x20server.service");
    assert_eq!(unit_for("home"), "ttspotify@home.service");
}

#[test]
fn the_service_is_required_in_two_steps() {
    assert!(require_service(true, true, "bot").is_ok());
    let e = require_service(false, true, "bot").unwrap_err();
    assert_eq!(
        e.message(),
        "This needs systemd. Without it, run a bot in the foreground:\n  bot --config <path>"
    );
    let e = require_service(true, false, "bot").unwrap_err();
    assert_eq!(
        e.message(),
        "The systemd service is not installed yet. Install it with:\n  bot --install-service"
    );
}

#[test]
fn bots_are_listed_with_their_configs() {
    let none: Vec<Configured> = vec![];
    assert_eq!(
        list(&none, "bot"),
        ["No bots configured yet.", "Create one with: bot --setup myserver"]
    );
    let home = Configured { name: "home".to_string(), path: "/c/home.json".to_string() };
    assert_eq!(list(&vec![home], "bot"), ["home", "  config: /c/home.json"]);
}

#[test]
fn the_status_names_what_runs_and_what_starts_at_login() {
    let running = names(&["ttspotify@home.service"]);
    let enabled = names(&["ttspotify@home.service", "ttspotify@work.service"]);
    assert_eq!(
        status("home", &running, &enabled, Some("Mon")),
        ["home: running, starts at login", "  since Mon"]
    );
    assert_eq!(status("work", &running, &enabled, Some("Mon")), ["work: stopped, starts at login"]);
    assert_eq!(status("new", &running, &enabled, None), ["new: stopped"]);
    assert!(status_without_service(&names(&["home"]), true, "bot").is_none());
    assert_eq!(
        status_without_service(&names(&["home", "work"]), false, "bot").unwrap()[1],
        "Configured bots: home, work"
    );
    assert_eq!(status_without_service(&vec![], true, "bot").unwrap().len(), 2);
}

#[test]
fn a_timestamp_is_shown_only_where_there_is_one() {
    assert_eq!(active_since(Some(" Mon 10:00\n")).as_deref(), Some("Mon 10:00"));
    assert_eq!(active_since(Some("n/a\n")), None);
    assert_eq!(active_since(Some("\n")), None);
    assert_eq!(active_since(None), None);
}

#[test]
fn every_bot_is_reported_and_failures_are_counted() {
    let (lines, result) = control("stop", &names(&["home", "work"]), &vec![true, false]);
    assert_eq!(
        lines,
        [
            "home: stopped.",
            "work: stop failed. See: systemctl --user status ttspotify@work.service"
        ]
    );
    assert_eq!(result.unwrap_err().message(), "1 of 2 bot(s) did not stop");
    assert!(control("start", &names(&["home"]), &vec![true]).1.is_ok());
}

#[test]
fn logs_are_read_from_the_journal_where_there_is_one() {
    let configs = names(&["home"]);
    assert_eq!(log_source("home", &configs, true, true).unwrap(), LogSource::Journal);
    assert_eq!(log_source("home", &configs, true, false).unwrap(), LogSource::Files);
    assert_eq!(
        log_source("all", &configs, true, true).unwrap_err().message(),
        "No config named \"all\". Available: home."
    );
    assert_eq!(
        log_source("x", &vec![], true, true).unwrap_err().message(),
        "No config named \"x\". Available: none."
    );
    assert_eq!(journal_args("a b", false), ["--user", "-u", r"ttspotify@a\x20b.service", "-n", "200"]);
    assert_eq!(journal_args("home", true)[5], "-f");
    assert_eq!(
        no_logs_yet("home", "/logs/home").message(),
        "No logs for \"home\" yet (looked in /logs/home)"
    );
}

#[test]
fn only_the_end_of_a_log_is_shown() {
    let long: String = (0..250).map(|i| format!("{i}\n")).collect();
    let shown = last_lines(&long);
    assert_eq!(shown.len(), 200);
    assert_eq!(shown[0], "50");
    assert_eq!(shown[199], "249");
    assert_eq!(last_lines("a\nb"), ["a", "b"]);
}
