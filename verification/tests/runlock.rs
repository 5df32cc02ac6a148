use tt_spotify_bot::runlock::{lock_path, lock_result, path_digest, LockAttempt, LockError};
use tt_spotify_bot::paths::PathStyle;

const UNIX: PathStyle = PathStyle::Unix;

#[test]
fn the_digest_is_fixed_so_two_builds_agree() {
    // Pinned values: if this ever changes, a bot started by an older build
    // and one started by a newer build would take different locks and both
    // log in on the same account.
    // Cross-checked against an independent FNV-1a implementation, not
    // copied from this code's own output.
    assert_eq!(
        path_digest("/home/u/.config/ttspotify/config/apple.json"),
        0x625b_fed0_ab62_3d77
    );
    assert_eq!(path_digest(""), 0xcbf2_9ce4_8422_2325);
}

#[test]
fn the_same_name_in_two_folders_is_two_different_bots() {
    // A `home.json` in the data root and one someone keeps elsewhere and
    // runs with --config are different bots, possibly on different
    // accounts, so one must not lock the other out.
    assert_ne!(
        lock_path(UNIX, "/data/state", "/a/home.json", None),
        lock_path(UNIX, "/data/state", "/b/home.json", None)
    );
}

#[test]
fn each_config_gets_its_own_lock_file() {
    let apple = lock_path(UNIX, "/data/state", "/x/config/apple.json", None);
    let pear = lock_path(UNIX, "/data/state", "/x/config/pear.json", None);
    assert_ne!(apple, pear);
    // Readable at a glance in the state directory.
    assert!(apple.strip_prefix("/data/state/").unwrap().starts_with("apple-"));
    assert!(apple.ends_with(".lock"));
}

#[test]
fn two_ways_to_name_a_file_share_its_lock() {
    let full = "/home/u/.config/ttspotify/config/apple.json";
    let given = lock_path(UNIX, "/s", "./apple.json", Some(full));
    assert_eq!(given, lock_path(UNIX, "/s", full, None));
    assert_eq!(given, "/s/apple-625bfed0ab623d77.lock");
    assert_eq!(lock_path(UNIX, "/s", "/", None).len(), "/s/config-0123456789abcdef.lock".len());
}

#[test]
fn only_a_held_lock_stops_the_bot() {
    assert!(lock_result(LockAttempt::Taken).is_ok());
    match lock_result(LockAttempt::WouldBlock) {
        Err(e) => assert!(matches!(e, LockError::AlreadyRunning) && e.stops_the_bot()),
        Ok(()) => panic!("a held lock was taken"),
    }
    match lock_result(LockAttempt::Failed("read-only".to_string())) {
        Err(LockError::Unavailable(why)) => assert_eq!(why, "read-only"),
        other => panic!("{other:?}"),
    }
    assert!(!LockError::Unavailable(String::new()).stops_the_bot());
}
