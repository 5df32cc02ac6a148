use tt_spotify_bot::config::{
    before_update, is_valid_gender, is_yes, list_configs, parse_gender, sanitise_config_name,
    unix_config_dir, windows_config_dir, BotConfig, ConfigChange, Gender,
};

#[test]
fn botconfig_eq_clone_equal_and_field_change_detected() {
    let a = BotConfig::default();
    let mut b = a.clone();
    assert_eq!(a, b);
    b.volume = a.volume + 1;
    assert_ne!(a, b);
}

#[test]
fn is_valid_gender_male_aliases() {
    for s in ["male", "m", "man", "MALE", "Man"] {
        assert!(is_valid_gender(s), "{s} should be valid");
    }
}

#[test]
fn is_valid_gender_female_aliases() {
    for s in ["female", "f", "woman", "FEMALE", "Woman"] {
        assert!(is_valid_gender(s), "{s} should be valid");
    }
}

#[test]
fn is_valid_gender_neutral_aliases() {
    for s in ["neutral", "n", "nb", "NEUTRAL", "NB"] {
        assert!(is_valid_gender(s), "{s} should be valid");
    }
}

#[test]
fn is_valid_gender_rejects_unknown() {
    for s in ["", "other", "xyz", "ma", "fem", "neutral!"] {
        assert!(!is_valid_gender(s), "{s} should be invalid");
    }
}

#[test]
fn parse_gender_male_aliases() {
    for s in ["male", "m", "man", "MALE", "Man"] {
        assert_eq!(parse_gender(s), Gender::Male, "{s}");
    }
}

#[test]
fn parse_gender_female_aliases() {
    for s in ["female", "f", "woman", "FEMALE", "Woman"] {
        assert_eq!(parse_gender(s), Gender::Female, "{s}");
    }
}

#[test]
fn parse_gender_neutral_aliases() {
    for s in ["neutral", "n", "nb", "NEUTRAL"] {
        assert_eq!(parse_gender(s), Gender::Neutral, "{s}");
    }
}

#[test]
fn parse_gender_unknown_defaults_to_neutral() {
    // parse_gender is "anything else defaults to Neutral" by design.
    for s in ["", "xyz", "other"] {
        assert_eq!(parse_gender(s), Gender::Neutral, "{s}");
    }
}

#[test]
fn validate_default_config_is_clean() {
    let mut cfg = BotConfig::default();
    assert!(cfg.validate(true, "0.03").is_empty(), "default config should need no corrections");
}

#[test]
fn validate_clamps_volume_to_max() {
    let mut cfg = BotConfig::default();
    cfg.max_volume = 60;
    cfg.volume = 90;
    let warnings = cfg.validate(true, "0.03");
    assert_eq!(cfg.volume, 60);
    assert!(!warnings.is_empty());
}

#[test]
fn validate_clamps_max_volume_over_100() {
    let mut cfg = BotConfig::default();
    cfg.max_volume = 200;
    cfg.volume = 150;
    cfg.validate(true, "0.03");
    assert_eq!(cfg.max_volume, 100);
    assert_eq!(cfg.volume, 100);
}

#[test]
fn validate_fixes_zero_ports() {
    let mut cfg = BotConfig::default();
    cfg.tcp_port = 0;
    cfg.udp_port = 99999;
    cfg.validate(true, "0.03");
    assert_eq!(cfg.tcp_port, 10333);
    assert_eq!(cfg.udp_port, 10333);
}

#[test]
fn validate_fixes_empty_host_and_name() {
    let mut cfg = BotConfig::default();
    cfg.host = "  ".to_string();
    cfg.bot_name = String::new();
    cfg.validate(true, "0.03");
    assert_eq!(cfg.host, "localhost");
    assert_eq!(cfg.bot_name, "Spotify");
}

#[test]
fn validate_fixes_bad_ramp_and_batch() {
    let mut cfg = BotConfig::default();
    cfg.radio_batch_size = 0;
    cfg.search_limit = 50;
    // A ramp step of zero would never reach its target.
    let warnings = cfg.validate(false, "0");
    assert_eq!(cfg.radio_batch_size, 1);
    assert_eq!(cfg.search_limit, 20);
    assert_eq!(warnings.len(), 3);
}

#[test]
fn a_change_keeps_what_was_edited_elsewhere() {
    let cached = BotConfig::default();
    let mut on_disk = BotConfig::default();
    on_disk.host = "edited.example.com".to_string();
    let mut now = before_update(cached, Some(on_disk));
    now.apply(&ConfigChange::Volume(42));
    assert_eq!(now.host, "edited.example.com");
    assert_eq!(now.volume, 42);
    now.apply(&ConfigChange::Radio(true));
    now.apply(&ConfigChange::Gender("female".to_string()));
    assert!(now.radio_enabled);
    assert_eq!(now.bot_gender, "female");
    let kept = before_update(now.clone(), None);
    assert_eq!(kept, now);
}

#[test]
fn what_is_kept_across_a_restart_is_written_at_exit() {
    let mut cfg = BotConfig::default();
    cfg.apply(&ConfigChange::AtExit {
        radio: true,
        volume: 33,
        repeat_track: true,
        repeat_queue: false,
        shuffle: true,
    });
    assert!(cfg.radio_enabled && cfg.repeat_track && !cfg.repeat_queue && cfg.shuffle);
    assert_eq!(cfg.volume, 33);
}

#[test]
fn only_json_files_that_are_not_reserved_are_configs() {
    let files: Vec<String> = ["b.json", "settings.json", "a.json", "notes.txt", ".json", "cookies.json"]
        .iter()
        .map(|s| s.to_string())
        .collect();
    assert_eq!(list_configs(&files), ["a", "b"]);
}

#[test]
fn configs_live_where_the_platform_keeps_them() {
    assert_eq!(unix_config_dir(Some("/home/u/.config")), "/home/u/.config/ttspotify");
    assert_eq!(unix_config_dir(None), "./ttspotify");
    assert_eq!(windows_config_dir(Some("C:/bot/data"), false, true), "data");
    assert_eq!(windows_config_dir(Some("C:/bot/data"), true, true), "C:/bot/data");
    assert_eq!(windows_config_dir(None, false, false), "data");
}

#[test]
fn yes_is_said_in_any_case() {
    assert!(is_yes(" Y\n") && is_yes("YES"));
    assert!(!is_yes("") && !is_yes("yep") && !is_yes("n"));
}

#[test]
fn a_config_name_loses_what_a_file_name_cannot_have() {
    assert_eq!(sanitise_config_name(" music.json "), Some("music".to_string()));
    assert_eq!(sanitise_config_name("../up\\down"), Some("..updown".to_string()));
    assert_eq!(sanitise_config_name("...."), None);
    assert_eq!(sanitise_config_name("all"), None);
}
