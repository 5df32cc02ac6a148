use tt_spotify_bot::spotify::account::{classify, describe, AccountType};

#[test]
fn premium_is_recognised() {
    assert_eq!(classify(Some("premium")), AccountType::Premium);
    assert!(classify(Some("premium")).can_play());
}

#[test]
fn case_does_not_matter() {
    // Observed as both "premium" and "Premium" across Spotify changes.
    assert_eq!(classify(Some("Premium")), AccountType::Premium);
}

#[test]
fn a_free_account_is_named_and_cannot_play() {
    let acct = classify(Some("free"));
    assert_eq!(acct, AccountType::Other("free".to_string()));
    assert!(!acct.can_play());
    assert!(describe(&acct, "EC").contains("needs premium"));
}

#[test]
fn a_missing_attribute_is_unknown_not_free() {
    // Product info can arrive after the first track. Reporting "not
    // premium" here would blame the account for a timing quirk.
    assert_eq!(classify(None), AccountType::Unknown);
    assert_eq!(classify(Some("")), AccountType::Unknown);
    assert!(classify(None).can_play(), "unknown must not be treated as broken");
}

#[test]
fn whitespace_around_the_value_is_ignored() {
    assert_eq!(classify(Some("  premium ")), AccountType::Premium);
}

#[test]
fn the_description_names_the_country() {
    assert!(describe(&AccountType::Premium, "EC").contains("EC"));
    assert!(describe(&AccountType::Premium, "").contains("unknown"));
}
