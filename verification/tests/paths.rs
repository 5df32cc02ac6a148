use std::collections::BTreeMap;
use tt_spotify_bot::config::config_name;
use tt_spotify_bot::paths::{
    config_file, file_name, file_stem, folder, join_path, known_files, log_migration, logs_dir,
    loose_config, loose_log, path_comes_first, read_layout_version, sorting, split_dated_log_name,
    split_extension, standard_dirs, temp_name, Attempt, LogLine, Migration, Moved, Relocation,
    Sorting, Step, FOLDER_README, LAYOUT_VERSION, VERSION_MARKER,
};
use tt_spotify_bot::paths::PathStyle;

const UNIX: PathStyle = PathStyle::Unix;

const WINDOWS: PathStyle = PathStyle::Windows;

const ROOT: &str = "/data";

/// A folder in memory: the files by their paths.
struct Folder {
    files: BTreeMap<String, String>,
    there: bool,
}

impl Folder {
    fn new() -> Folder {
        Folder { files: BTreeMap::new(), there: true }
    }

    fn write(&mut self, path: &str, contents: &str) {
        self.files.insert(format!("{ROOT}/{path}"), contents.to_string());
    }

    fn read(&self, path: &str) -> Option<&str> {
        self.files.get(&format!("{ROOT}/{path}")).map(|s| s.as_str())
    }

    fn holds(&self, path: &str) -> bool {
        let below = format!("{path}/");
        self.files.keys().any(|f| f == path || f.starts_with(&below))
    }

    fn has(&self, path: &str) -> bool {
        self.holds(&format!("{ROOT}/{path}"))
    }

    /// The files directly in a directory.
    fn listing(&self, dir: &str) -> Vec<String> {
        let below = format!("{dir}/");
        self.files
            .keys()
            .filter_map(|f| f.strip_prefix(&below))
            .filter(|f| !f.contains('/'))
            .map(|f| f.to_string())
            .collect()
    }

    fn attempt(&mut self, m: &Relocation) -> Attempt {
        if m.step(self.holds(&m.from), self.holds(&m.to)) == Step::Leave {
            return Attempt::Left;
        }
        let below = format!("{}/", m.from);
        let moved: Vec<String> = self
            .files
            .keys()
            .filter(|f| **f == m.from || f.starts_with(&below))
            .cloned()
            .collect();
        for f in moved {
            let contents = self.files.remove(&f).unwrap();
            self.files.insert(format!("{}{}", m.to, &f[m.from.len()..]), contents);
        }
        Attempt::Renamed
    }

    fn move_it(&mut self, m: Relocation, migration: &mut Migration) {
        let attempt = self.attempt(&m);
        migration.note(m, attempt);
    }
}

/// Sort a folder the way the program does.
fn migrate_layout(root: &mut Folder, is_config: bool) -> Migration {
    let marker = root.read(VERSION_MARKER).map(|s| s.to_string());
    let (mut migration, needed) = Migration::begin(root.there, marker.as_deref());
    if !needed {
        return migration;
    }
    for m in known_files(UNIX, ROOT) {
        root.move_it(m, &mut migration);
    }
    for name in root.listing(ROOT) {
        if let Some(m) = loose_config(UNIX, ROOT, &name, is_config) {
            root.move_it(m, &mut migration);
        }
    }
    let logs = logs_dir(UNIX, ROOT);
    for name in root.listing(&logs) {
        if let Some(m) = loose_log(UNIX, &logs, &name) {
            root.move_it(m, &mut migration);
        }
    }
    if let Some(text) = migration.marker() {
        root.write(VERSION_MARKER, &text);
    }
    migration
}

#[test]
fn a_flat_root_is_sorted_into_the_new_layout() {
    let mut root = Folder::new();
    root.write("myserver.json", "{}");
    root.write("cookies.txt", "cookie");
    root.write("lang_prefs.json", "{}");
    root.write("settings.json", "{}");
    root.write("credentials.json", "{}");
    root.write("rustypipe_cache.json", "{}");
    root.write("spotify_cache/audio/x", "blob");
    root.write("TEAMTALK_DLL/TEAMTALK_SDK_VERSION.txt", "v5.19a");

    let report = migrate_layout(&mut root, true);

    assert!(report.failures().is_empty(), "{report:?}");
    assert!(root.has("config/myserver.json"));
    assert!(root.has("config/cookies.txt"));
    assert!(root.has("state/lang_prefs.json"));
    assert!(root.has("state/settings.json"));
    assert!(root.has("auth/credentials.json"));
    assert!(root.has("cache/rustypipe_cache.json"));
    assert!(root.has("cache/spotify_cache/audio/x"));
    assert!(root.has("cache/TEAMTALK_DLL/TEAMTALK_SDK_VERSION.txt"));
    // Nothing left loose.
    assert!(!root.has("myserver.json"));
    assert!(!root.has("credentials.json"));
}

#[test]
fn old_log_files_are_sorted_into_per_instance_folders() {
    let mut root = Folder::new();
    root.write("logs/2026-08-08.myserver.log", "a");
    root.write("logs/2026-08-09.myserver.log", "b");
    root.write("logs/2026-08-08.tray.log", "c");

    migrate_layout(&mut root, true);

    assert!(root.has("logs/myserver/2026-08-08.log"));
    assert!(root.has("logs/myserver/2026-08-09.log"));
    assert!(root.has("logs/tray/2026-08-08.log"));
    assert!(!root.has("logs/2026-08-08.myserver.log"));
}

#[test]
fn a_log_file_that_is_not_ours_is_left_alone() {
    let mut root = Folder::new();
    root.write("logs/notes.txt", "x");
    root.write("logs/weird.log", "y");

    migrate_layout(&mut root, true);

    assert!(root.has("logs/notes.txt"));
    assert!(root.has("logs/weird.log"), "no date prefix: not ours to rename");
}

#[test]
fn a_second_run_does_nothing() {
    let mut root = Folder::new();
    root.write("myserver.json", "{}");
    migrate_layout(&mut root, true);

    let again = migrate_layout(&mut root, true);
    assert!(again.skipped, "an already-migrated root must be left alone");
    assert_eq!(again.succeeded(), 0);
}

#[test]
fn a_file_that_is_not_a_config_is_left_where_it_is() {
    // A stray JSON the bot does not recognise must not be swept into config/,
    // where it would then be read as a bot.
    let mut root = Folder::new();
    root.write("notes.json", "{}");
    migrate_layout(&mut root, false);
    assert!(root.has("notes.json"), "stray file should stay put");
    assert!(!root.has("config/notes.json"));
}

#[test]
fn an_existing_destination_is_never_overwritten() {
    let mut root = Folder::new();
    root.write("myserver.json", "old");
    root.write("config/myserver.json", "new");

    migrate_layout(&mut root, true);

    assert_eq!(root.read("config/myserver.json"), Some("new"));
    assert!(root.has("myserver.json"), "the loose copy is kept, not destroyed");
}

#[test]
fn an_existing_log_is_never_overwritten_either() {
    let mut root = Folder::new();
    root.write("logs/2026-08-01.myserver.log", "loose");
    root.write("logs/myserver/2026-08-01.log", "already sorted");

    migrate_layout(&mut root, true);

    assert_eq!(
        root.read("logs/myserver/2026-08-01.log"),
        Some("already sorted"),
        "the sorted log was overwritten"
    );
    assert!(
        root.has("logs/2026-08-01.myserver.log"),
        "the loose copy is kept, not destroyed"
    );
}

#[test]
fn an_already_new_layout_is_left_alone() {
    let mut root = Folder::new();
    root.write("config/myserver.json", "{}");
    let report = migrate_layout(&mut root, true);
    assert_eq!(report.succeeded(), 0);
    assert!(root.has("config/myserver.json"));
}

#[test]
fn a_missing_root_is_not_an_error() {
    let mut root = Folder::new();
    root.there = false;
    let report = migrate_layout(&mut root, true);
    assert_eq!(report.succeeded(), 0);
    assert!(report.failures().is_empty());
}

#[test]
fn the_layout_version_is_only_claimed_once_everything_moved() {
    let mut root = Folder::new();
    root.write("myserver.json", "{}");
    migrate_layout(&mut root, true);
    assert_eq!(read_layout_version(root.read(VERSION_MARKER)), LAYOUT_VERSION);

    let mut migration = Migration::default();
    let m = loose_config(UNIX, ROOT, "a.json", true).unwrap();
    migration.note(m, Attempt::Refused("denied".to_string()));
    assert_eq!(migration.marker(), None);
    assert_eq!(migration.failures().len(), 1);
    assert_eq!(migration.succeeded(), 0);
    assert!(matches!(&migration.moves[0], Moved::Failed { from, reason }
        if from == "/data/a.json" && reason == "denied"));
}

#[test]
fn the_report_says_what_moved_where() {
    let mut migration = Migration::default();
    migration.note(loose_config(UNIX, ROOT, "a.json", true).unwrap(), Attempt::Renamed);
    migration.note(loose_config(UNIX, ROOT, "b.json", true).unwrap(), Attempt::Refused("no".to_string()));
    migration.note(loose_config(UNIX, ROOT, "c.json", true).unwrap(), Attempt::Left);
    let lines: Vec<String> = log_migration(UNIX, &migration)
        .into_iter()
        .map(|l| match l {
            LogLine::Info(t) => format!("i {t}"),
            LogLine::Warning(t) => format!("w {t}"),
        })
        .collect();
    assert_eq!(
        lines,
        [
            "i Moved a.json into /data/config",
            "w Could not move /data/b.json into the new layout: no",
            "i Data folder reorganised: 1 item(s) moved into config/, state/, auth/ and cache/",
        ]
    );
    assert!(log_migration(UNIX, &Migration::default()).is_empty());
}

#[test]
fn names_that_are_never_configs_stay() {
    for name in ["credentials", "cookies", "sessions", "settings", "lang_prefs"] {
        assert!(loose_config(UNIX, ROOT, &format!("{name}.json"), true).is_none());
    }
    assert!(loose_config(UNIX, ROOT, "home.txt", true).is_none());
    assert!(loose_config(UNIX, ROOT, ".json", true).is_none());
}

#[test]
fn dated_logs_are_told_from_others() {
    assert_eq!(
        split_dated_log_name("2026-08-08.my.server.log"),
        Some(("2026-08-08".to_string(), "my.server".to_string()))
    );
    for name in ["2026-08-08.log", "2026-08-08..log", "2026-8-08.a.log", "2026-08-08.a.txt", "x.log"] {
        assert_eq!(split_dated_log_name(name), None, "{name}");
    }
}

#[test]
fn a_temporary_file_is_named_after_its_writer() {
    assert_eq!(temp_name("cfg.json", 7, 0), "cfg.json.7.0.tmp");
    assert_ne!(temp_name("cfg.json", 1, 23), temp_name("cfg.json", 12, 3));
    assert_eq!(config_name(&temp_name("cfg.json", 7, 0)), None);
}

#[test]
fn the_marker_is_read_with_care() {
    assert_eq!(read_layout_version(Some(" 2\n")), 2);
    assert_eq!(read_layout_version(Some("two")), 0);
    assert_eq!(read_layout_version(Some("99999999999")), 0);
    assert_eq!(read_layout_version(None), 0);
}

#[test]
fn paths_are_taken_apart_like_paths() {
    assert_eq!(join_path(UNIX, "/a", "b"), "/a/b");
    assert_eq!(join_path(UNIX, "/a/", "b"), "/a/b");
    assert_eq!(join_path(UNIX, "", "b"), "b");
    assert_eq!(join_path(UNIX, "/a", "/b"), "/b");
    assert_eq!(file_name(UNIX, "/a/b/./").as_deref(), Some("b"));
    assert_eq!(file_name(UNIX, "/a/.."), None);
    assert_eq!(file_name(UNIX, "/"), None);
    assert_eq!(file_stem(UNIX, "/a/b.c.json").as_deref(), Some("b.c"));
    assert_eq!(file_stem(UNIX, "/a/.hidden").as_deref(), Some(".hidden"));
    assert_eq!(split_extension("a."), ("a".to_string(), Some(String::new())));
    assert_eq!(split_extension("a"), ("a".to_string(), None));
    assert_eq!(folder(UNIX, "/a/b"), "/a");
    assert_eq!(folder(UNIX, "/a"), "/");
    assert_eq!(folder(UNIX, "a"), "");
    assert!(path_comes_first(UNIX, "a/b", "a.b") && !path_comes_first(UNIX, "a.b", "a/b"));
    assert!(path_comes_first(UNIX, "a", "a/b"));
}

#[test]
fn the_standard_folders_lie_below_the_root() {
    let dirs = standard_dirs(UNIX, "/d");
    assert_eq!(dirs, ["/d/config", "/d/lang", "/d/state", "/d/auth", "/d/cache", "/d/logs"]);
    assert_eq!(config_file(UNIX, "/d", "home"), "/d/config/home.json");
    assert!(FOLDER_README.contains("auth/     Saved service logins. Secret"));
}

#[test]
fn windows_paths_are_split_at_both_separators() {
    assert_eq!(file_stem(WINDOWS, r"C:\cfg\apple.json").as_deref(), Some("apple"));
    assert_eq!(file_stem(WINDOWS, r"C:\cfg/pear.json").as_deref(), Some("pear"));
    assert_eq!(file_name(WINDOWS, "C:fig.json").as_deref(), Some("fig.json"));
    assert_eq!(file_name(WINDOWS, r"C:\"), None);
    assert_eq!(file_name(WINDOWS, r"C:\cfg\.."), None);
    // Elsewhere these are ordinary characters of a name.
    assert_eq!(file_name(UNIX, r"C:\cfg\apple.json").as_deref(), Some(r"C:\cfg\apple.json"));
}

#[test]
fn windows_paths_are_joined_with_a_backslash() {
    assert_eq!(join_path(WINDOWS, r"C:\data", "config"), r"C:\data\config");
    assert_eq!(join_path(WINDOWS, "C:/data/", "config"), "C:/data/config");
    assert_eq!(join_path(WINDOWS, "C:", "config"), "C:config");
    assert_eq!(join_path(WINDOWS, r"C:\data", r"\logs"), r"C:\logs");
    assert_eq!(join_path(WINDOWS, r"C:\data", "D:x"), "D:x");
    assert_eq!(join_path(WINDOWS, "", "x"), "x");
    assert_eq!(config_file(WINDOWS, r"C:\d", "home"), r"C:\d\config\home.json");
}

#[test]
fn the_folder_of_a_path_ignores_what_names_nothing() {
    assert_eq!(folder(UNIX, "/a/./b//"), "/a");
    assert_eq!(folder(UNIX, "./b"), ".");
    assert_eq!(folder(UNIX, "/"), "/");
    assert_eq!(folder(UNIX, "/./b"), "/");
    assert_eq!(folder(WINDOWS, r"C:\data\config\x.json"), r"C:\data\config");
    assert_eq!(folder(WINDOWS, r"C:\x"), r"C:\");
    assert_eq!(folder(WINDOWS, r"C:\"), r"C:\");
}

#[test]
fn pieces_that_name_nothing_do_not_count_in_the_order() {
    // Both orders as `std::path::Path` has them.
    for (first, second) in
        [("a/a", "a//b"), ("a/./a", "a/b"), ("..", "!a"), ("./z", "a"), ("/z", "a"), ("a/", "a/b")]
    {
        assert!(path_comes_first(UNIX, first, second), "{first} {second}");
        assert!(!path_comes_first(UNIX, second, first), "{first} {second}");
        assert!(std::path::Path::new(first) < std::path::Path::new(second));
    }
    assert!(path_comes_first(UNIX, "a//b/", "a/./b") && path_comes_first(UNIX, "a/./b", "a//b/"));
    assert!(path_comes_first(WINDOWS, r"C:\a\a", "c:/a/b"));
    assert!(!path_comes_first(WINDOWS, "c:/a/b", r"C:\a\a"));
}

#[test]
fn only_what_is_there_is_moved_and_only_to_a_free_place() {
    let m = loose_config(UNIX, ROOT, "a.json", true).unwrap();
    assert_eq!(m.step(true, false), Step::Move);
    assert_eq!(m.step(true, true), Step::Leave);
    assert_eq!(m.step(false, false), Step::Leave);
    assert_eq!(m.step(false, true), Step::Leave);
}

#[test]
fn sorting_keeps_what_every_file_holds() {
    let mut root = Folder::new();
    root.write("a.json", "new");
    root.write("config/a.json", "old");
    root.write("b.json", "b");
    root.write("spotify_cache/audio/x", "blob");
    root.write("logs/2026-08-08.home.log", "log");
    let report = migrate_layout(&mut root, true);
    assert_eq!(root.read("a.json"), Some("new"));
    assert_eq!(root.read("config/a.json"), Some("old"));
    assert_eq!(root.read("config/b.json"), Some("b"));
    assert_eq!(root.read("cache/spotify_cache/audio/x"), Some("blob"));
    assert_eq!(root.read("logs/home/2026-08-08.log"), Some("log"));
    assert_eq!(report.succeeded(), 3);
    let again = migrate_layout(&mut root, true);
    assert!(again.skipped && again.moves.is_empty());
}

#[test]
fn a_migration_begins_by_the_marker() {
    assert_eq!(sorting(true, Some("2")), Sorting::Current);
    assert_eq!(sorting(true, None), Sorting::Needed);
    assert_eq!(sorting(false, Some("2")), Sorting::Missing);
    let (m, needed) = Migration::begin(true, Some("2"));
    assert!(m.skipped && !needed);
    let (m, needed) = Migration::begin(true, Some("1"));
    assert!(!m.skipped && needed);
    let (m, needed) = Migration::begin(false, None);
    assert!(!m.skipped && !needed && m.moves.is_empty());
}
