use tt_spotify_bot::config::EXIT_CONFIG_ERROR;
use tt_spotify_bot::service::{
    asks_about_linger, enabled_instance_units, exec_start, exec_start_binary, install_report, installed_unit_version,
    known_instances, linger_report, linger_state, linger_user, parse_running_units, removal_report,
    restart_offer, restart_report, symlink_cleaned, systemd_dir, systemd_escape_instance,
    uninstall_report, unit_file_contents, unit_path, unit_version_from_contents, wants_refresh,
    wants_symlink, RestartOffer, UNIT_FILE_VERSION,
};

#[test]
fn unit_file_does_not_restart_on_config_error() {
    let unit = unit_file_contents(
        "\"/opt/bot\" --config \"/home/u/.config/ttspotify/%i.json\"",
        "/home/u/.config/ttspotify",
        Some("/home/u/.local/share/ttspotify/lib"),
    );
    // Exit code 78 (EX_CONFIG) means "config missing/broken": restarting
    // can't help and would hammer the TeamTalk server with logins.
    assert!(unit.contains(&format!(
        "RestartPreventExitStatus={}",
        EXIT_CONFIG_ERROR
    )));
    // The old directive referenced an exit code nothing ever emits.
    assert!(!unit.contains("RestartForceExitStatus"));
    assert!(unit.contains("Restart=on-failure"));
    // SIGTERM starts a clean logout; systemd must wait for it rather than
    // SIGKILL the bot mid-disconnect and leave a ghost user behind.
    assert!(unit.contains("TimeoutStopSec="));
    assert!(unit.contains("ExecStart=\"/opt/bot\""));
}

#[test]
fn unit_file_sandboxes_with_writable_bot_dirs() {
    let unit = unit_file_contents(
        "\"/opt/bot\" --config \"/home/u/.config/ttspotify/%i.json\"",
        "/home/u/.config/ttspotify",
        Some("/home/u/.local/share/ttspotify/lib"),
    );
    assert!(unit.contains("ProtectSystem=strict"));
    assert!(unit.contains("PrivateTmp=true"));
    assert!(unit.contains("NoNewPrivileges=true"));
    // `-` prefix: a listed path that doesn't exist yet must not fail the unit.
    assert!(unit.contains("ReadWritePaths=-/home/u/.config/ttspotify"));
    assert!(unit.contains("ReadWritePaths=-/home/u/.local/share/ttspotify/lib"));
    assert!(unit.contains("ReadWritePaths=-%h/.cache"));
    // SDK downloads land relative to the CWD; pin it to the config dir so
    // they fall inside the writable set.
    assert!(unit.contains("WorkingDirectory=/home/u/.config/ttspotify"));
}

#[test]
fn unit_file_carries_current_version_stamp() {
    let unit = unit_file_contents(
        "\"/opt/bot\" --config \"/x/%i.json\"",
        "/x",
        None,
    );
    assert_eq!(unit_version_from_contents(&unit), UNIT_FILE_VERSION);
}

#[test]
fn unit_version_parses_stamp_and_defaults_to_zero() {
    assert_eq!(
        unit_version_from_contents("[Unit]\n# ttspotify-unit-version: 7\n[Service]\n"),
        7
    );
    // Pre-stamp installs and hand-mangled stamps read as version 0
    // (always older than any current version, so a refresh is offered).
    assert_eq!(unit_version_from_contents("[Unit]\nExecStart=x\n"), 0);
    assert_eq!(unit_version_from_contents("# ttspotify-unit-version: banana\n"), 0);
}

#[test]
fn unit_file_without_tools_dir_omits_its_rw_line() {
    let unit = unit_file_contents(
        "\"/opt/bot\" --config \"/x/%i.json\"",
        "/x",
        None,
    );
    assert!(unit.contains("ReadWritePaths=-/x"));
    // The XDG tools home stays whitelisted even when no tools dir was
    // detected at install time — the startup migration may create it later.
    assert!(unit.contains("ReadWritePaths=-%h/.local/share/ttspotify"));
    assert!(!unit.contains("ReadWritePaths=-/home"));
}

#[test]
fn escape_instance_passes_plain_names_through() {
    assert_eq!(systemd_escape_instance("myserver"), "myserver");
    assert_eq!(systemd_escape_instance("srv_2.home:x"), "srv_2.home:x");
}

#[test]
fn escape_instance_encodes_specials_like_systemd_escape() {
    // Same output `systemd-escape` produces for these inputs.
    assert_eq!(systemd_escape_instance("my server"), r"my\x20server");
    assert_eq!(systemd_escape_instance("a/b"), "a-b");
    assert_eq!(systemd_escape_instance(".hidden"), r"\x2ehidden");
}

#[test]
fn parses_unit_names_from_first_column() {
    let out = "ttspotify@home.service loaded active running TTSpotify bot (home)\n\
               ttspotify@work.service loaded active running TTSpotify bot (work)\n";
    assert_eq!(
        parse_running_units(out),
        vec!["ttspotify@home.service", "ttspotify@work.service"]
    );
}

#[test]
fn ignores_foreign_units_and_blank_lines() {
    let out = "\nother@x.service loaded active running Something else\n\
               ttspotify@home.service loaded active running TTSpotify bot\n\n";
    assert_eq!(parse_running_units(out), vec!["ttspotify@home.service"]);
}

#[test]
fn empty_output_is_empty() {
    assert!(parse_running_units("").is_empty());
}

#[test]
fn known_instances_takes_enabled_units_and_drops_the_template() {
    // `list-unit-files 'ttspotify@*'` lists the template itself alongside
    // any enabled instance. The template is not something to disable.
    let unit_files = "ttspotify@.service     enabled enabled\n\
                      ttspotify@home.service enabled enabled\n";
    assert_eq!(
        known_instances(unit_files, &vec![], &vec![]),
        vec!["ttspotify@home.service"]
    );
}

#[test]
fn known_instances_merges_sources_without_duplicates() {
    // The same bot can show up as an enabled unit file, as a running unit,
    // and as a config on disk; it must be disabled once.
    let unit_files = "ttspotify@home.service enabled enabled\n";
    let running = vec!["ttspotify@home.service".to_string(), "ttspotify@work.service".to_string()];
    let configs = vec!["home".to_string(), "spare".to_string()];
    assert_eq!(
        known_instances(unit_files, &running, &configs),
        vec![
            "ttspotify@home.service",
            "ttspotify@work.service",
            "ttspotify@spare.service",
        ]
    );
}

#[test]
fn known_instances_escapes_config_names() {
    // A config named "my server" is addressed as the escaped instance, the
    // same string `--install-service` enabled it under.
    assert_eq!(
        known_instances("", &vec![], &vec!["my server".to_string()]),
        vec![r"ttspotify@my\x20server.service"]
    );
}

#[test]
fn exec_start_binary_reads_the_quoted_path_we_write() {
    let unit = unit_file_contents(
        "\"/usr/local/bin/tt spotify\" --config \"/x/%i.json\"",
        "/x",
        None,
    );
    // Quoting is what lets a path with a space survive, so the quotes are
    // the boundary rather than the first blank.
    assert_eq!(
        exec_start_binary(&unit).as_deref(),
        Some("/usr/local/bin/tt spotify")
    );
}

#[test]
fn exec_start_binary_reads_a_hand_edited_unquoted_path() {
    assert_eq!(
        exec_start_binary("[Service]\nExecStart=/usr/bin/ttspotify --config /x.json\n")
            .as_deref(),
        Some("/usr/bin/ttspotify")
    );
    assert_eq!(exec_start_binary("[Service]\nType=simple\n"), None);
    assert_eq!(exec_start_binary("ExecStart=\n"), None);
}

#[test]
fn known_instances_ignores_foreign_units_and_empty_input() {
    assert!(known_instances("", &vec![], &vec![]).is_empty());
    assert!(known_instances("other@x.service enabled enabled\n", &vec![], &vec![]).is_empty());
}

#[test]
fn what_we_write_is_read_back() {
    let unit = unit_file_contents(&exec_start("/opt/my bot", "/c/config"), "/c", Some("/c/lib"));
    assert_eq!(exec_start_binary(&unit).as_deref(), Some("/opt/my bot"));
    assert!(unit.contains("ExecStart=\"/opt/my bot\" --config \"/c/config/%I.json\"\n"));
    assert_eq!(installed_unit_version(Some(&unit)), Some((UNIT_FILE_VERSION, UNIT_FILE_VERSION)));
    assert!(!wants_refresh(Some(&unit)));
    assert!(wants_refresh(Some("[Unit]\n")));
    assert!(!wants_refresh(None));
    assert_eq!(installed_unit_version(None), None);
}

#[test]
fn escaping_goes_by_bytes_and_keeps_names_apart() {
    assert_eq!(systemd_escape_instance("a-b"), r"a\x2db");
    assert_eq!(systemd_escape_instance("\u{e9}"), r"\xc3\xa9");
    assert_ne!(systemd_escape_instance("a-b"), systemd_escape_instance("a/b"));
}

#[test]
fn units_live_below_the_user_configuration() {
    let dir = systemd_dir(Some("/home/u/.config"));
    assert_eq!(dir, "/home/u/.config/systemd/user");
    assert_eq!(unit_path(&dir), "/home/u/.config/systemd/user/ttspotify@.service");
    assert_eq!(
        wants_symlink(&dir, "ttspotify@home.service"),
        "/home/u/.config/systemd/user/default.target.wants/ttspotify@home.service"
    );
    assert_eq!(systemd_dir(None), ".config/systemd/user");
}

#[test]
fn lingering_is_asked_of_a_known_user_only() {
    assert_eq!(linger_user(Some("ann"), Some("bob\n")), "ann");
    assert_eq!(linger_user(Some(""), Some("bob\n")), "bob");
    assert_eq!(linger_user(None, None), "");
    assert_eq!(linger_state("", Some("Linger=yes\n")), None);
    assert_eq!(linger_state("ann", Some("Linger=yes\n")), Some(true));
    assert_eq!(linger_state("ann", Some("Linger=no\n")), Some(false));
    assert_eq!(linger_state("ann", None), None);
    assert_eq!(linger_report("ann", "y", true), "Linger enabled.");
    assert_eq!(
        linger_report("ann", "y", false),
        "Could not enable linger. Run manually: loginctl enable-linger ann"
    );
    assert_eq!(
        linger_report("ann", "", true),
        "Skipped. Enable later with: loginctl enable-linger ann"
    );
}

#[test]
fn the_reports_follow_what_was_seen_beforehand() {
    let say = |d, e, r, c| removal_report("u", d, e, r, c);
    assert_eq!(say(true, true, true, false).as_deref(), Some("  u stopped and disabled."));
    assert_eq!(say(true, true, false, false).as_deref(), Some("  u disabled."));
    assert_eq!(say(true, false, true, false).as_deref(), Some("  u stopped."));
    assert_eq!(
        say(false, true, true, true).as_deref(),
        Some("  u disabled (left enabled by an earlier uninstall).")
    );
    assert_eq!(say(true, false, false, false), None);
    assert_eq!(say(false, true, true, false), None);
    assert!(symlink_cleaned(true, false, false));
    assert!(symlink_cleaned(false, true, true));
    assert!(!symlink_cleaned(false, false, true));
    assert!(!symlink_cleaned(true, true, false));
}

#[test]
fn restarts_are_offered_and_reported() {
    match restart_offer(&vec![]) {
        RestartOffer::Say(text) => assert!(text.starts_with("If running as a service")),
        RestartOffer::Ask(q) => panic!("{q}"),
    }
    match restart_offer(&vec!["a".to_string(), "b".to_string()]) {
        RestartOffer::Ask(q) => assert_eq!(q, "Restart 2 running bot(s) now?"),
        RestartOffer::Say(t) => panic!("{t}"),
    }
    assert_eq!(restart_report("u", true), "  u restarted.");
    assert_eq!(
        restart_report("u", false),
        "  u failed to restart - check: systemctl --user status u"
    );
}

#[test]
fn installing_and_uninstalling_are_reported() {
    let lines = install_report("/c/config", "ttspotify");
    assert_eq!(lines.len(), 9);
    assert_eq!(lines[2], "Config files go in: /c/config");
    assert_eq!(lines[5], "  ttspotify add myserver        create a bot");
    assert_eq!(
        uninstall_report("/u", true, true),
        ["TTSpotify service removed.", "Configs, logs and the binary itself are untouched."]
    );
    assert_eq!(uninstall_report("/u", false, false), ["No service file found at /u"]);
}

#[test]
fn enabled_units_are_listed_once() {
    let listed = "ttspotify@a.service enabled\nttspotify@a.service enabled\nttspotify@.service x\n";
    assert_eq!(enabled_instance_units(listed), ["ttspotify@a.service"]);
}

#[test]
fn lingering_is_only_asked_about_where_it_can_be_turned_on() {
    assert!(asks_about_linger("ana", false));
    assert!(!asks_about_linger("ana", true));
    assert!(!asks_about_linger("", false));
}
