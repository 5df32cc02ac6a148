use tt_spotify_bot::i18n::{
    fill, language_of_file, parse_lang, validate, Catalog, Key, ENGLISH,
};

fn catalog_with_de() -> Catalog {
    let mut c = Catalog::new_embedded();
    c.add_language(
        "de",
        parse_lang("language_name = Deutsch\nlang_set = Sprache auf {language} gesetzt"),
    );
    c
}

#[test]
fn parse_lang_basic_trim_and_comments() {
    let map = parse_lang(
        "# a comment\n\n  paused =  Pausiert  \nlang_set = Sprache: {language}\n",
    );
    assert_eq!(map.get("paused").unwrap(), "Pausiert");
    assert_eq!(map.get("lang_set").unwrap(), "Sprache: {language}");
    assert_eq!(map.len(), 2);
}

#[test]
fn parse_lang_keeps_equals_in_value() {
    let map = parse_lang("formula = a = b + c");
    assert_eq!(map.get("formula").unwrap(), "a = b + c");
}

#[test]
fn parse_lang_skips_malformed_line_not_whole_file() {
    let map = parse_lang("good = ok\nthis line has no equals sign\nalso = fine");
    assert_eq!(map.len(), 2);
    assert_eq!(map.get("good").unwrap(), "ok");
    assert_eq!(map.get("also").unwrap(), "fine");
}

#[test]
fn parse_lang_skips_empty_key() {
    let map = parse_lang("= orphan value\nok = yes");
    assert_eq!(map.len(), 1);
    assert!(map.contains_key("ok"));
}

#[test]
fn parse_lang_unescapes_newline() {
    let map = parse_lang(r"two_lines = first\nsecond");
    assert_eq!(map.get("two_lines").unwrap(), "first\nsecond");
}

#[test]
fn parse_lang_reads_language_name() {
    let map = parse_lang("language_name = Deutsch");
    assert_eq!(map.get("language_name").unwrap(), "Deutsch");
}

#[test]
fn fill_substitutes_named_slots() {
    assert_eq!(
        fill("Volume: {percent}%", &[("percent", "40".to_string())]),
        "Volume: 40%"
    );
}

#[test]
fn fill_allows_reordered_slots() {
    // Translator moved the slots around; substitution is by name.
    assert_eq!(
        fill(
            "Max {max}%, now {percent}%",
            &[("percent", "30".to_string()), ("max", "90".to_string())]
        ),
        "Max 90%, now 30%"
    );
}

#[test]
fn fill_leaves_unknown_slot_visible() {
    assert_eq!(fill("Hello {nobody}", &[]), "Hello {nobody}");
}

#[test]
fn fill_handles_no_slots_and_unmatched_brace() {
    assert_eq!(fill("Paused", &[]), "Paused");
    assert_eq!(fill("odd { brace", &[]), "odd { brace");
}

#[test]
fn fill_does_not_rescan_substituted_values() {
    // A value containing a slot-shaped string must not be substituted again.
    assert_eq!(
        fill(
            "{a} {b}",
            &[("a", "{b}".to_string()), ("b", "two".to_string())]
        ),
        "{b} two"
    );
}

#[test]
fn t_uses_language_when_present() {
    let c = catalog_with_de();
    assert_eq!(
        c.t("de", Key::LangSet, &[("language", "Deutsch".to_string())]),
        "Sprache auf Deutsch gesetzt"
    );
}

#[test]
fn t_falls_back_to_english_for_unknown_language() {
    let c = Catalog::new_embedded();
    assert_eq!(
        c.t("xx", Key::LangSet, &[("language", "English".to_string())]),
        "Language set to English"
    );
}

#[test]
fn t_falls_back_to_english_for_missing_key() {
    let mut c = Catalog::new_embedded();
    // A language file with no lang_set entry at all.
    c.add_language("pt", parse_lang("language_name = Portugues"));
    assert_eq!(
        c.t("pt", Key::LangSet, &[("language", "Portugues".to_string())]),
        "Language set to Portugues"
    );
}

#[test]
fn language_name_falls_back_to_code() {
    let c = catalog_with_de();
    assert_eq!(c.language_name("de"), "Deutsch");
    assert_eq!(c.language_name("zz"), "zz");
}

#[test]
fn every_key_has_an_english_entry() {
    let c = Catalog::new_embedded();
    for key in Key::all() {
        assert!(
            c.template(ENGLISH, key.id()).is_some(),
            "en.lang is missing an entry for key `{}`",
            key.id()
        );
    }
}

#[test]
fn validate_reports_coverage_and_mismatches() {
    let mut c = Catalog::new_embedded();
    // lang_set drops {language} and adds a typo'd key.
    c.add_language("de", parse_lang("lang_set = Sprache gesetzt\npausd = Pausiert"));
    let v = validate(&c, "de");
    assert_eq!(v.present, 1);
    assert_eq!(v.total, Key::all().len());
    assert_eq!(v.slot_mismatches, vec!["lang_set".to_string()]);
    assert_eq!(v.unknown_keys, vec!["pausd".to_string()]);
}

#[test]
fn validate_accepts_moved_slots() {
    let mut c = Catalog::new_embedded();
    // Same slot, different position: valid, no mismatch.
    c.add_language("de", parse_lang("lang_set = {language} ist jetzt aktiv"));
    let v = validate(&c, "de");
    assert!(v.slot_mismatches.is_empty());
}

#[test]
fn a_language_file_names_its_language() {
    assert_eq!(language_of_file("de.lang").as_deref(), Some("de"));
    assert_eq!(language_of_file("en.lang"), None);
    assert_eq!(language_of_file("de.txt"), None);
    assert_eq!(language_of_file(".lang"), None);
}
