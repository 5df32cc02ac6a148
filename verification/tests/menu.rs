use tt_spotify_bot::gui_native::menu::{
    spotify_label, BotAction, MenuAction, MenuBuilder, MenuEntry, MenuFacts, MAX_BOTS,
};

fn facts() -> MenuFacts {
    MenuFacts {
        spotify_signed_in: false,
        youtube_installed: false,
        spotify_user: None,
    }
}

fn bot(name: &str, status: &str, running: bool) -> (String, String, bool) {
    (name.to_string(), status.to_string(), running)
}

/// Every command id appearing anywhere in the entry tree.
fn ids(entries: &[MenuEntry]) -> Vec<u16> {
    let mut out = Vec::new();
    for e in entries {
        match e {
            MenuEntry::Item { id, .. } => out.push(*id),
            MenuEntry::Submenu { items, .. } => out.extend(ids(items)),
            MenuEntry::Separator => {}
        }
    }
    out
}

fn find(entries: &[MenuEntry], id: u16) -> Option<&MenuEntry> {
    for e in entries {
        match e {
            MenuEntry::Item { id: i, .. } if *i == id => return Some(e),
            MenuEntry::Submenu { items, .. } => {
                if let Some(f) = find(items, id) {
                    return Some(f);
                }
            }
            _ => {}
        }
    }
    None
}

#[test]
fn the_spotify_line_names_the_account_when_it_is_known() {
    // With several bots on one machine, "signed in" alone does not say
    // whose account is playing.
    assert_eq!(
        spotify_label(true, Some("aloys")),
        "Spotify: signed in as aloys"
    );
}

#[test]
fn a_sign_in_without_a_name_still_reads_as_signed_in() {
    // Spotify does not always return a username with the stored
    // credentials, and that is normal - it must not read as an error or
    // as being signed out.
    assert_eq!(spotify_label(true, None), "Spotify: signed in");
}

#[test]
fn being_signed_out_never_shows_a_name() {
    // A stale name beside "not signed in" would be worse than no name.
    assert_eq!(spotify_label(false, None), "Spotify: not signed in");
    assert_eq!(spotify_label(false, Some("aloys")), "Spotify: not signed in");
}

#[test]
fn the_menu_shows_the_account_name() {
    let menu = MenuBuilder::new().build(
        &[],
        MenuFacts {
            spotify_signed_in: true,
            youtube_installed: false,
            spotify_user: Some("aloys".to_string()),
        },
    );
    let labels: Vec<&str> = menu
        .entries
        .iter()
        .filter_map(|e| match e {
            MenuEntry::Submenu { label, .. } => Some(label.as_str()),
            _ => None,
        })
        .collect();
    assert!(
        labels.iter().any(|l| l.contains("aloys")),
        "got: {labels:?}"
    );
}

#[test]
fn every_command_id_resolves_to_an_action() {
    let bots = [bot("alpha", "Connected, Idle", true)];
    let menu = MenuBuilder::new().build(&bots, facts());
    let all = ids(&menu.entries);
    assert!(!all.is_empty(), "menu produced no commands");
    for id in all {
        assert!(menu.action(id).is_some(), "id {id} maps to nothing");
    }
}

#[test]
fn command_ids_are_unique() {
    // A duplicate ID means one menu item silently triggers another's action.
    let bots = [
        bot("alpha", "Connected, Idle", true),
        bot("beta", "Stopped", false),
    ];
    let menu = MenuBuilder::new().build(&bots, facts());
    let all = ids(&menu.entries);
    let mut sorted = all.clone();
    sorted.sort_unstable();
    sorted.dedup();
    assert_eq!(sorted.len(), all.len(), "duplicate command ids: {all:?}");
}

#[test]
fn each_bot_gets_its_own_five_commands() {
    let bots = [
        bot("alpha", "Connected, Idle", true),
        bot("beta", "Stopped", false),
    ];
    let menu = MenuBuilder::new().build(&bots, facts());
    for name in ["alpha", "beta"] {
        let mut actions: Vec<BotAction> = ids(&menu.entries)
            .iter()
            .filter_map(|id| match menu.action(*id) {
                Some(MenuAction::Bot { name: n, action }) if n == name => Some(*action),
                _ => None,
            })
            .collect();
        actions.sort_by_key(|a| format!("{a:?}"));
        assert_eq!(
            actions,
            vec![
                BotAction::Config,
                BotAction::Logs,
                BotAction::Restart,
                BotAction::Start,
                BotAction::Stop
            ],
            "wrong commands for {name}"
        );
    }
}

#[test]
fn an_id_from_a_stale_menu_does_not_resolve_to_the_wrong_bot() {
    // The bug this module exists to prevent. Build a menu with two bots,
    // note the ID that means "stop beta", then rebuild after alpha is
    // removed. Position-based lookup would now read that ID as bot 0.
    let two = [
        bot("alpha", "Connected, Idle", true),
        bot("beta", "Connected, Idle", true),
    ];
    let mut builder = MenuBuilder::new();
    let menu = builder.build(&two, facts());
    let stop_beta = ids(&menu.entries)
        .into_iter()
        .find(|id| {
            matches!(menu.action(*id), Some(MenuAction::Bot { name, action })
                if name == "beta" && *action == BotAction::Stop)
        })
        .expect("no stop command for beta");

    let one = [bot("beta", "Connected, Idle", true)];
    let rebuilt = builder.build(&one, facts());
    // A name keeps its ID block for the life of the process, so the click
    // still reaches beta. Merely resolving to nothing would be safe but is
    // not what we promise: it would silently drop the user's click.
    assert_eq!(
        rebuilt.action(stop_beta),
        Some(&MenuAction::Bot {
            name: "beta".to_string(),
            action: BotAction::Stop
        }),
        "an id must keep meaning the same bot across rebuilds"
    );
}

#[test]
fn start_is_disabled_while_running_and_stop_while_stopped() {
    let bots = [
        bot("running", "Connected, Idle", true),
        bot("idle", "Stopped", false),
    ];
    let menu = MenuBuilder::new().build(&bots, facts());
    for (bot_name, action, expect_enabled) in [
        ("running", BotAction::Start, false),
        ("running", BotAction::Stop, true),
        ("idle", BotAction::Start, true),
        ("idle", BotAction::Stop, false),
    ] {
        let id = ids(&menu.entries)
            .into_iter()
            .find(|id| {
                matches!(menu.action(*id), Some(MenuAction::Bot { name, action: a })
                    if name == bot_name && *a == action)
            })
            .unwrap_or_else(|| panic!("no {action:?} for {bot_name}"));
        match find(&menu.entries, id) {
            Some(MenuEntry::Item { enabled, .. }) => assert_eq!(
                *enabled, expect_enabled,
                "{bot_name} {action:?} enabled should be {expect_enabled}"
            ),
            other => panic!("expected an item, got {other:?}"),
        }
    }
}

#[test]
fn the_global_commands_are_always_present() {
    let menu = MenuBuilder::new().build(&[], facts());
    let present: Vec<&MenuAction> = ids(&menu.entries)
        .iter()
        .filter_map(|id| menu.action(*id))
        .collect();
    for wanted in [
        MenuAction::AddServer,
        MenuAction::SpotifyAuth,
        MenuAction::CheckUpdates,
        MenuAction::Settings,
        MenuAction::Exit,
    ] {
        assert!(present.contains(&&wanted), "{wanted:?} missing from the menu");
    }
}

#[test]
fn install_and_update_are_offered_according_to_what_is_installed() {
    for installed in [false, true] {
        let facts = MenuFacts {
            spotify_signed_in: false,
            youtube_installed: installed,
            spotify_user: None,
        };
        let menu = MenuBuilder::new().build(&[], facts);
        for (action, expect_enabled) in [
            (MenuAction::YoutubeInstall, !installed),
            (MenuAction::YoutubeUpdate, installed),
        ] {
            let id = ids(&menu.entries)
                .into_iter()
                .find(|id| menu.action(*id) == Some(&action))
                .unwrap_or_else(|| panic!("{action:?} missing"));
            match find(&menu.entries, id) {
                Some(MenuEntry::Item { enabled, .. }) => assert_eq!(
                    *enabled, expect_enabled,
                    "{action:?} with installed={installed}"
                ),
                other => panic!("expected an item, got {other:?}"),
            }
        }
    }
}

#[test]
fn a_bot_submenu_is_labelled_with_its_name_and_status() {
    let bots = [bot("alpha", "Connected, Playing: Song", true)];
    let menu = MenuBuilder::new().build(&bots, facts());
    let labels: Vec<&str> = menu
        .entries
        .iter()
        .filter_map(|e| match e {
            MenuEntry::Submenu { label, .. } => Some(label.as_str()),
            _ => None,
        })
        .collect();
    assert!(
        labels.contains(&"alpha - Connected, Playing: Song"),
        "got: {labels:?}"
    );
}

#[test]
fn an_unknown_id_resolves_to_nothing() {
    let menu = MenuBuilder::new().build(&[bot("alpha", "Stopped", false)], facts());
    assert_eq!(menu.action(u16::MAX), None);
}

#[test]
fn known_bots_can_be_shown_again_however_many_they_are() {
    let bots: Vec<(String, String, bool)> =
        (0..MAX_BOTS / 2 + 1).map(|i| bot(&format!("bot{i}"), "Stopped", false)).collect();
    let mut builder = MenuBuilder::new();
    let all = builder.build(&bots, facts());
    let again = builder.build(&bots, facts());
    assert_eq!(all.actions.len(), 7 + 5 * bots.len());
    assert_eq!(all.actions, again.actions);
    let shown = ids(&again.entries);
    assert!(!shown.contains(&0));
    assert!(shown.iter().all(|id| again.action(*id).is_some()));
    assert_eq!(shown.len(), again.actions.len());
}
