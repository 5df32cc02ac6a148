use tt_spotify_bot::spotify::audio_key::{
    is_audio_key_failure, is_recent, skip_reason, KeyFailures, BLAME_WINDOW_MS,
};

#[test]
fn a_failure_inside_the_window_explains_a_skip() {
    let now: u64 = 1_000_000_000;
    let failed = now - 2 * 1000;
    assert!(is_recent(Some(failed), now, BLAME_WINDOW_MS));
}

#[test]
fn an_old_failure_does_not_explain_a_later_skip() {
    // A key failure ten minutes ago must not relabel an unrelated skip.
    let now: u64 = 1_000_000_000;
    let failed = now - 600 * 1000;
    assert!(!is_recent(Some(failed), now, BLAME_WINDOW_MS));
}

#[test]
fn no_failure_at_all_explains_nothing() {
    assert!(!is_recent(None, 1_000_000_000, BLAME_WINDOW_MS));
}

#[test]
fn a_timestamp_from_the_future_does_not_panic() {
    // Two threads reading the clock can order stamps unexpectedly; plain
    // subtraction would panic here.
    let now: u64 = 1_000_000_000;
    let future = now + 1 * 1000;
    assert!(!is_recent(Some(future), now, BLAME_WINDOW_MS));
}

#[test]
fn librespot_key_failures_are_recognised() {
    // Both shapes seen in a real log.
    assert!(is_audio_key_failure("error audio key 0 1"));
    assert!(is_audio_key_failure(
        "Unable to load key, continuing without decryption: Service unavailable { audio key error }"
    ));
}

#[test]
fn unrelated_log_lines_are_not_mistaken_for_key_failures() {
    assert!(!is_audio_key_failure("Loading <Molinos De Viento>"));
    assert!(!is_audio_key_failure("invalid mpeg audio header"));
    assert!(!is_audio_key_failure("skipping junk at 4096 bytes"));
    // "audio" and "key" both present, but not a key failure.
    assert!(!is_audio_key_failure("audio pipeline keyed to stream 3"));
}

#[test]
fn one_bots_key_failure_does_not_explain_another_bots_skip() {
    // The tray runs every bot in one process. Before this, bot A hitting a
    // key failure made bot B's unrelated skip report the same cause - the
    // exact misleading diagnostic this module exists to remove.
    let mut record = KeyFailures::new();
    let now = 1_000_000;

    record.set_current_bot(1);
    record.note_failure(now);
    assert!(record.failed_recently(now), "the bot that failed should see it");

    record.set_current_bot(2);
    assert!(
        !record.failed_recently(now),
        "a sibling bot was blamed for a failure that was not its own"
    );

    record.set_current_bot(1);
    assert!(record.failed_recently(now), "the failure still belongs to bot 1");
    record.reset_for_test();
    assert_eq!(record.len(), 0);
}

#[test]
fn an_untagged_process_still_works() {
    // The CLI runs one bot and never tags anything; it must behave as it
    // always did rather than silently never blaming the key.
    let mut record = KeyFailures::new();
    let now = 1_000_000;
    assert_eq!(record.current_bot(), 0);
    assert!(!record.failed_recently(now));
    record.note_failure(now);
    assert!(record.failed_recently(now));
    record.reset_for_test();
    assert_eq!(record.len(), 0);
}

#[test]
fn repeated_failures_from_one_bot_do_not_grow_the_record() {
    // The record is keyed by bot, not by occurrence. A bot that fails
    // every track for an hour must leave one entry, not thousands. The
    // matching half of this - that a restart reuses its bot's id rather
    // than claiming a new one - is why the id lives on BotInstance.
    let mut record = KeyFailures::new();
    let now = 1_000_000;

    record.set_current_bot(42);
    for _ in 0..500 {
        record.note_failure(now);
    }
    assert_eq!(record.len(), 1);

    record.set_current_bot(43);
    record.note_failure(now);
    assert_eq!(record.len(), 2, "a second bot adds one entry");
    record.reset_for_test();
    assert_eq!(record.len(), 0);
}

#[test]
fn every_bot_gets_a_distinct_id_and_never_the_untagged_one() {
    let mut record = KeyFailures::new();
    let a = record.next_bot_id();
    let b = record.next_bot_id();
    assert_ne!(a, b);
    assert!(a > 0 && b > 0, "0 means untagged and must not be handed out");
}

#[test]
fn the_skip_message_names_the_real_cause_only_after_a_key_failure() {
    let blamed = skip_reason(true);
    assert!(blamed.contains("audio key"));
    assert!(blamed.contains("premium"), "must name the likeliest cause");
    assert!(blamed.contains("another device"), "must name the other cause");

    let plain = skip_reason(false);
    assert!(!plain.contains("audio key"), "do not blame keys without evidence");
}
