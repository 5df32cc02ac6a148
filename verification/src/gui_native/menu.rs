//! The tray popup menu, as data.
//!
//! What a click means is decided once, when the menu is built, and looked up by
//! command id afterwards. Deriving the bot from the clicked item's position
//! instead would misfire whenever the bot list changed while the menu was open:
//! "Stop" would reach whichever bot had slid into that slot.
use std::collections::HashMap;
use vstd::prelude::*;
use vstd::string::*;

use crate::text::{lemma_views_push, same, views};

verus! {

broadcast use vstd::std_specs::hash::group_hash_axioms;

/// A per-bot menu command.
#[derive(Debug, Clone, Copy, PartialEq, Eq, Structural)]
pub enum BotAction {
    Start,
    Stop,
    Restart,
    Logs,
    Config,
}

/// What activating a menu item does.
#[derive(Debug, Clone, PartialEq, Eq)]
pub enum MenuAction {
    Bot { name: String, action: BotAction },
    AddServer,
    SpotifyAuth,
    YoutubeInstall,
    YoutubeUpdate,
    CheckUpdates,
    Settings,
    Exit,
}

pub enum ActionView {
    Bot { name: Seq<char>, action: BotAction },
    AddServer,
    SpotifyAuth,
    YoutubeInstall,
    YoutubeUpdate,
    CheckUpdates,
    Settings,
    Exit,
}

impl View for MenuAction {
    type V = ActionView;

    open spec fn view(&self) -> ActionView {
        match *self {
            MenuAction::Bot { name, action } => ActionView::Bot { name: name@, action },
            MenuAction::AddServer => ActionView::AddServer,
            MenuAction::SpotifyAuth => ActionView::SpotifyAuth,
            MenuAction::YoutubeInstall => ActionView::YoutubeInstall,
            MenuAction::YoutubeUpdate => ActionView::YoutubeUpdate,
            MenuAction::CheckUpdates => ActionView::CheckUpdates,
            MenuAction::Settings => ActionView::Settings,
            MenuAction::Exit => ActionView::Exit,
        }
    }
}

/// One rendered entry.
#[derive(Debug, PartialEq, Eq)]
pub enum MenuEntry {
    Item { id: u16, label: String, enabled: bool },
    Separator,
    Submenu { label: String, items: Vec<MenuEntry> },
}

/// Whether an entry is an item with this id and label.
pub open spec fn is_item(e: MenuEntry, id: int, label: Seq<char>, enabled: bool) -> bool {
    e matches MenuEntry::Item { id: i, label: l, enabled: on } && i == id && l@ == label && on
        == enabled
}

fn item(id: u16, label: &str, enabled: bool) -> (r: MenuEntry)
    ensures
        is_item(r, id as int, label@, enabled),
{
    MenuEntry::Item { id, label: label.to_owned(), enabled }
}

/// What the Spotify line says.
pub open spec fn spotify_line(signed_in: bool, user: Option<Seq<char>>) -> Seq<char> {
    if !signed_in {
        "Spotify: not signed in"@
    } else {
        match user {
            Some(name) => "Spotify: signed in as "@ + name,
            None => "Spotify: signed in"@,
        }
    }
}

/// The Spotify line in the menu. Naming the account matters when several bots
/// share a machine: "signed in" alone does not say whose account is playing.
/// Spotify does not always return a username with the stored credentials, so a
/// sign-in without a name is normal, not an error.
pub fn spotify_label(signed_in: bool, user: Option<&str>) -> (r: String)
    ensures
        r@ == spotify_line(signed_in, crate::paths::text_of(user)),
{
    if !signed_in {
        return String::from_str("Spotify: not signed in");
    }
    match user {
        Some(name) => {
            let mut out = String::from_str("Spotify: signed in as ");
            out.append(name);
            out
        },
        None => String::from_str("Spotify: signed in"),
    }
}

/// Facts the menu needs that don't come from the bot list.
#[derive(Debug)]
pub struct MenuFacts {
    pub spotify_signed_in: bool,
    pub youtube_installed: bool,
    /// The signed-in Spotify account, when it is known.
    pub spotify_user: Option<String>,
}

pub struct FactsView {
    pub spotify_signed_in: bool,
    pub youtube_installed: bool,
    pub spotify_user: Option<Seq<char>>,
}

impl View for MenuFacts {
    type V = FactsView;

    open spec fn view(&self) -> FactsView {
        FactsView {
            spotify_signed_in: self.spotify_signed_in,
            youtube_installed: self.youtube_installed,
            spotify_user: match self.spotify_user {
                Some(name) => Some(name@),
                None => None,
            },
        }
    }
}

impl Clone for MenuFacts {
    fn clone(&self) -> (r: Self)
        ensures
            r@ == self@,
    {
        MenuFacts {
            spotify_signed_in: self.spotify_signed_in,
            youtube_installed: self.youtube_installed,
            spotify_user: match &self.spotify_user {
                Some(name) => Some(name.clone()),
                None => None,
            },
        }
    }
}

/// A bot as the menu shows it: its name, its status, and whether it runs.
pub type ShownBot = (String, String, bool);

/// The names of some bots.
pub open spec fn bot_names(bots: Seq<ShownBot>) -> Seq<Seq<char>> {
    bots.map_values(|b: ShownBot| b.0@)
}

// Fixed ids for the commands that are always the same. Zero is avoided: it
// means "dismissed without choosing".
pub const ID_ADD_SERVER: u16 = 1;

pub const ID_SPOTIFY_AUTH: u16 = 2;

pub const ID_YT_INSTALL: u16 = 3;

pub const ID_YT_UPDATE: u16 = 4;

pub const ID_CHECK_UPDATES: u16 = 5;

pub const ID_SETTINGS: u16 = 6;

pub const ID_EXIT: u16 = 7;

/// First id handed out to a bot. Above the fixed commands, with room to add
/// more of them without disturbing bots.
pub const BOT_ID_BASE: u16 = 100;

/// Ids reserved per bot: one per action, rounded up for future ones.
pub const IDS_PER_BOT: u16 = 8;

/// How many bots there are ids for.
pub const MAX_BOTS: usize = 8179;

/// The action of a bot's command, by its place in the bot's ids.
pub open spec fn action_at(offset: int) -> BotAction {
    if offset == 0 {
        BotAction::Start
    } else if offset == 1 {
        BotAction::Stop
    } else if offset == 2 {
        BotAction::Restart
    } else if offset == 3 {
        BotAction::Logs
    } else {
        BotAction::Config
    }
}

/// What the commands that are always there mean.
pub open spec fn fixed_meaning(id: int) -> Option<ActionView> {
    if id == ID_ADD_SERVER {
        Some(ActionView::AddServer)
    } else if id == ID_SPOTIFY_AUTH {
        Some(ActionView::SpotifyAuth)
    } else if id == ID_YT_INSTALL {
        Some(ActionView::YoutubeInstall)
    } else if id == ID_YT_UPDATE {
        Some(ActionView::YoutubeUpdate)
    } else if id == ID_CHECK_UPDATES {
        Some(ActionView::CheckUpdates)
    } else if id == ID_SETTINGS {
        Some(ActionView::Settings)
    } else if id == ID_EXIT {
        Some(ActionView::Exit)
    } else {
        None
    }
}

/// The ids of a bot begin here, given the names in the order in which they
/// were first seen.
pub open spec fn base_of(slots: Seq<Seq<char>>, name: Seq<char>) -> int {
    BOT_ID_BASE + slots.index_of(name) * IDS_PER_BOT
}

/// What an id means for some bots.
pub open spec fn bot_meaning(slots: Seq<Seq<char>>, names: Seq<Seq<char>>, id: int) -> Option<
    ActionView,
>
    decreases names.len(),
{
    if names.len() == 0 {
        None
    } else {
        let base = base_of(slots, names.last());
        if base <= id < base + 5 {
            Some(ActionView::Bot { name: names.last(), action: action_at(id - base) })
        } else {
            bot_meaning(slots, names.drop_last(), id)
        }
    }
}

/// What an id of the menu means.
pub open spec fn meaning(slots: Seq<Seq<char>>, names: Seq<Seq<char>>, id: int) -> Option<
    ActionView,
> {
    match fixed_meaning(id) {
        Some(action) => Some(action),
        None => bot_meaning(slots, names, id),
    }
}

/// The submenu of one bot: only what can be done is enabled.
pub open spec fn is_bot_menu(e: MenuEntry, bot: ShownBot, base: int) -> bool {
    &&& e matches MenuEntry::Submenu { label, items } && label@ == bot.0@ + " - "@ + bot.1@
        && items@.len() == 6 && is_item(items@[0], base, "Start"@, !bot.2) && is_item(
        items@[1],
        base + 1,
        "Stop"@,
        bot.2,
    ) && is_item(items@[2], base + 2, "Restart"@, true) && items@[3] == MenuEntry::Separator
        && is_item(items@[4], base + 3, "View Logs"@, true) && is_item(
        items@[5],
        base + 4,
        "Edit Config"@,
        true,
    )
}

/// The Spotify submenu.
pub open spec fn is_spotify_menu(e: MenuEntry, facts: FactsView) -> bool {
    e matches MenuEntry::Submenu { label, items } && label@ == spotify_line(
        facts.spotify_signed_in,
        facts.spotify_user,
    ) && items@.len() == 1 && is_item(
        items@[0],
        ID_SPOTIFY_AUTH as int,
        "Sign in / re-authenticate"@,
        true,
    )
}

/// The YouTube submenu: what is not there can be installed, what is there
/// updated.
pub open spec fn is_youtube_menu(e: MenuEntry, facts: FactsView) -> bool {
    e matches MenuEntry::Submenu { label, items } && label@ == (if facts.youtube_installed {
        "YouTube tools: installed"@
    } else {
        "YouTube tools: not installed"@
    }) && items@.len() == 2 && is_item(
        items@[0],
        ID_YT_INSTALL as int,
        "Install tools"@,
        !facts.youtube_installed,
    ) && is_item(items@[1], ID_YT_UPDATE as int, "Update tools"@, facts.youtube_installed)
}

/// The entries that follow those of the bots.
pub open spec fn is_common_part(entries: Seq<MenuEntry>, at: int, facts: FactsView) -> bool {
    &&& entries.len() == at + 8
    &&& is_spotify_menu(entries[at], facts)
    &&& is_youtube_menu(entries[at + 1], facts)
    &&& entries[at + 2] == MenuEntry::Separator
    &&& is_item(entries[at + 3], ID_ADD_SERVER as int, "Add Server"@, true)
    &&& is_item(entries[at + 4], ID_CHECK_UPDATES as int, "Check for updates"@, true)
    &&& is_item(entries[at + 5], ID_SETTINGS as int, "Settings"@, true)
    &&& entries[at + 6] == MenuEntry::Separator
    &&& is_item(entries[at + 7], ID_EXIT as int, "Exit"@, true)
}

/// The whole menu: a submenu for each bot, a separator where there is one, and
/// what is always there.
pub open spec fn is_menu(
    entries: Seq<MenuEntry>,
    slots: Seq<Seq<char>>,
    bots: Seq<ShownBot>,
    facts: FactsView,
) -> bool {
    let n = bots.len() as int;
    &&& forall|i: int|
        0 <= i < n ==> is_bot_menu(#[trigger] entries[i], bots[i], base_of(slots, bots[i].0@))
    &&& if n == 0 {
        is_common_part(entries, 0, facts)
    } else {
        entries[n] == MenuEntry::Separator && is_common_part(entries, n + 1, facts)
    }
}

/// A built menu: what to draw, and what each command id means.
#[derive(Debug)]
pub struct MenuModel {
    pub entries: Vec<MenuEntry>,
    pub actions: HashMap<u16, MenuAction>,
}

/// What an id means in a table.
pub open spec fn entry_in(actions: Map<u16, MenuAction>, id: u16) -> Option<ActionView> {
    if actions.contains_key(id) {
        Some(actions[id]@)
    } else {
        None
    }
}

impl MenuModel {
    /// What an id means.
    pub open spec fn means(self, id: u16) -> Option<ActionView> {
        entry_in(self.actions@, id)
    }

    /// The action for a command id, or `None` if the id isn't ours.
    pub fn action(&self, id: u16) -> (r: Option<&MenuAction>)
        ensures
            match r {
                Some(action) => self.means(id) == Some(action@),
                None => self.means(id) is None,
            },
    {
        self.actions.get(&id)
    }
}

/// The names of a builder with one more, unless it is there.
pub open spec fn with_slot(slots: Seq<Seq<char>>, name: Seq<char>) -> Seq<Seq<char>> {
    if slots.contains(name) {
        slots
    } else {
        slots.push(name)
    }
}

/// The names of a builder after it has seen some more.
pub open spec fn with_slots(slots: Seq<Seq<char>>, names: Seq<Seq<char>>) -> Seq<Seq<char>>
    decreases names.len(),
{
    if names.len() == 0 {
        slots
    } else {
        with_slot(with_slots(slots, names.drop_last()), names.last())
    }
}

/// Builds tray menus, remembering which id belongs to which bot.
///
/// Handing out ids in list order would let a removed bot's ids be reused by
/// whichever bot took its place, so a click on an already-open menu could reach
/// the wrong bot. A name keeps its slot for the lifetime of the process
/// instead.
#[derive(Debug)]
pub struct MenuBuilder {
    names: Vec<String>,
}

impl View for MenuBuilder {
    type V = Seq<Seq<char>>;

    /// The names in the order in which they were first seen.
    closed spec fn view(&self) -> Seq<Seq<char>> {
        views(self.names@)
    }
}

proof fn lemma_index_of(s: Seq<Seq<char>>, i: int)
    requires
        s.no_duplicates(),
        0 <= i < s.len(),
    ensures
        s.index_of(s[i]) == i,
{
}

proof fn lemma_with_slot(slots: Seq<Seq<char>>, name: Seq<char>)
    requires
        slots.no_duplicates(),
    ensures
        with_slot(slots, name).no_duplicates(),
        with_slot(slots, name).contains(name),
        slots.is_prefix_of(with_slot(slots, name)),
        with_slot(slots, name).len() <= slots.len() + 1,
{
    let t = with_slot(slots, name);
    if !slots.contains(name) {
        assert(t[slots.len() as int] == name);
    }
    assert(t.subrange(0, slots.len() as int) =~= slots);
}

proof fn lemma_with_slots(slots: Seq<Seq<char>>, names: Seq<Seq<char>>)
    requires
        slots.no_duplicates(),
    ensures
        with_slots(slots, names).no_duplicates(),
        slots.is_prefix_of(with_slots(slots, names)),
        with_slots(slots, names).len() <= slots.len() + names.len(),
        forall|i: int| 0 <= i < names.len() ==> with_slots(slots, names).contains(#[trigger] names[i]),
    decreases names.len(),
{
    if names.len() > 0 {
        let before = with_slots(slots, names.drop_last());
        lemma_with_slots(slots, names.drop_last());
        lemma_with_slot(before, names.last());
        let t = with_slots(slots, names);
        lemma_prefix(slots, before, t);
        assert forall|i: int| 0 <= i < names.len() implies t.contains(#[trigger] names[i]) by {
            if i < names.len() - 1 {
                assert(names.drop_last()[i] == names[i]);
                lemma_prefix_contains(before, t, names[i]);
            }
        }
    } else {
        assert(slots.subrange(0, slots.len() as int) =~= slots);
    }
}

proof fn lemma_prefix(a: Seq<Seq<char>>, b: Seq<Seq<char>>, c: Seq<Seq<char>>)
    requires
        a.is_prefix_of(b),
        b.is_prefix_of(c),
    ensures
        a.is_prefix_of(c),
{
    assert forall|i: int| 0 <= i < a.len() implies a[i] == c[i] by {
        assert(b.subrange(0, a.len() as int)[i] == b[i]);
        assert(c.subrange(0, b.len() as int)[i] == c[i]);
    }
    assert(c.subrange(0, a.len() as int) =~= a);
}

proof fn lemma_prefix_contains(a: Seq<Seq<char>>, b: Seq<Seq<char>>, name: Seq<char>)
    requires
        a.is_prefix_of(b),
        a.contains(name),
    ensures
        b.contains(name),
{
    let k = choose|k: int| 0 <= k < a.len() && a[k] == name;
    assert(b.subrange(0, a.len() as int)[k] == b[k]);
}

/// A name keeps its slot when more names are added.
proof fn lemma_base_stays(slots: Seq<Seq<char>>, more: Seq<Seq<char>>, name: Seq<char>)
    requires
        slots.is_prefix_of(more),
        more.no_duplicates(),
        slots.contains(name),
    ensures
        base_of(more, name) == base_of(slots, name),
        slots.no_duplicates(),
        0 <= slots.index_of(name) < slots.len(),
{
    assert forall|i: int, j: int| 0 <= i < slots.len() && 0 <= j < slots.len() && i != j implies slots[i]
        != slots[j] by {
        assert(more.subrange(0, slots.len() as int)[i] == more[i]);
        assert(more.subrange(0, slots.len() as int)[j] == more[j]);
    }
    let k = choose|k: int| 0 <= k < slots.len() && slots[k] == name;
    assert(more.subrange(0, slots.len() as int)[k] == more[k]);
    lemma_index_of(slots, k);
    lemma_index_of(more, k);
}

fn bot_menu(bot: &ShownBot, base: u16) -> (r: MenuEntry)
    requires
        base + 4 <= u16::MAX,
    ensures
        is_bot_menu(r, *bot, base as int),
{
    let mut label = bot.0.clone();
    label.append(" - ");
    label.append(bot.1.as_str());
    let items = vec![
        item(base, "Start", !bot.2),
        item(base + 1, "Stop", bot.2),
        item(base + 2, "Restart", true),
        MenuEntry::Separator,
        item(base + 3, "View Logs", true),
        item(base + 4, "Edit Config", true),
    ];
    MenuEntry::Submenu { label, items }
}

fn bot_command(name: &String, action: BotAction) -> (r: MenuAction)
    ensures
        r@ == (ActionView::Bot { name: name@, action }),
{
    MenuAction::Bot { name: name.clone(), action }
}

fn add_bot_actions(actions: &mut HashMap<u16, MenuAction>, name: &String, base: u16)
    requires
        base + 4 <= u16::MAX,
    ensures
        forall|id: u16| #[trigger]
            entry_in(final(actions)@, id) == if base <= id < base + 5 {
                Some(ActionView::Bot { name: name@, action: action_at(id - base) })
            } else {
                entry_in(old(actions)@, id)
            },
{
    actions.insert(base, bot_command(name, BotAction::Start));
    actions.insert(base + 1, bot_command(name, BotAction::Stop));
    actions.insert(base + 2, bot_command(name, BotAction::Restart));
    actions.insert(base + 3, bot_command(name, BotAction::Logs));
    actions.insert(base + 4, bot_command(name, BotAction::Config));
}

fn fixed_actions() -> (r: HashMap<u16, MenuAction>)
    ensures
        forall|id: u16| #[trigger] entry_in(r@, id) == fixed_meaning(id as int),
{
    let mut actions: HashMap<u16, MenuAction> = HashMap::new();
    actions.insert(ID_SPOTIFY_AUTH, MenuAction::SpotifyAuth);
    actions.insert(ID_YT_INSTALL, MenuAction::YoutubeInstall);
    actions.insert(ID_YT_UPDATE, MenuAction::YoutubeUpdate);
    actions.insert(ID_ADD_SERVER, MenuAction::AddServer);
    actions.insert(ID_CHECK_UPDATES, MenuAction::CheckUpdates);
    actions.insert(ID_SETTINGS, MenuAction::Settings);
    actions.insert(ID_EXIT, MenuAction::Exit);
    actions
}

fn add_common_part(entries: &mut Vec<MenuEntry>, facts: &MenuFacts)
    ensures
        is_common_part(final(entries)@, old(entries)@.len() as int, facts@),
        forall|i: int|
            0 <= i < old(entries)@.len() ==> #[trigger] final(entries)@[i] == old(entries)@[i],
{
    let user = match &facts.spotify_user {
        Some(name) => Some(name.as_str()),
        None => None,
    };
    entries.push(
        MenuEntry::Submenu {
            label: spotify_label(facts.spotify_signed_in, user),
            items: vec![item(ID_SPOTIFY_AUTH, "Sign in / re-authenticate", true)],
        },
    );
    let label = if facts.youtube_installed {
        String::from_str("YouTube tools: installed")
    } else {
        String::from_str("YouTube tools: not installed")
    };
    entries.push(
        MenuEntry::Submenu {
            label,
            items: vec![
                item(ID_YT_INSTALL, "Install tools", !facts.youtube_installed),
                item(ID_YT_UPDATE, "Update tools", facts.youtube_installed),
            ],
        },
    );
    entries.push(MenuEntry::Separator);
    entries.push(item(ID_ADD_SERVER, "Add Server", true));
    entries.push(item(ID_CHECK_UPDATES, "Check for updates", true));
    entries.push(item(ID_SETTINGS, "Settings", true));
    entries.push(MenuEntry::Separator);
    entries.push(item(ID_EXIT, "Exit", true));
}

impl MenuBuilder {
    /// Each name has one slot, and there are ids for all of them.
    pub open spec fn wf(self) -> bool {
        self@.no_duplicates() && self@.len() <= MAX_BOTS
    }

    pub fn new() -> (r: Self)
        ensures
            r.wf(),
            r@ == Seq::<Seq<char>>::empty(),
    {
        let r = MenuBuilder { names: Vec::new() };
        assert(r@ =~= Seq::<Seq<char>>::empty());
        r
    }

    /// This bot's reserved id block, assigning one if it is new.
    fn slot_for(&mut self, name: &str) -> (r: u16)
        requires
            old(self).wf(),
            old(self)@.len() < MAX_BOTS || old(self)@.contains(name@),
        ensures
            final(self).wf(),
            final(self)@ == with_slot(old(self)@, name@),
            r == base_of(final(self)@, name@),
            r + 7 <= u16::MAX,
    {
        let mut i: usize = 0;
        while i < self.names.len()
            invariant
                i <= self.names.len(),
                self.wf(),
                self@ == old(self)@,
                forall|k: int| 0 <= k < i ==> #[trigger] self@[k] != name@,
            decreases self.names.len() - i,
        {
            assert(self@[i as int] == self.names@[i as int]@);
            if same(self.names[i].as_str(), name) {
                proof {
                    lemma_index_of(self@, i as int);
                    assert(self@.contains(name@));
                }
                return BOT_ID_BASE + i as u16 * IDS_PER_BOT;
            }
            i += 1;
        }
        proof {
            assert(!self@.contains(name@));
            lemma_with_slot(self@, name@);
        }
        let base: u16 = BOT_ID_BASE + self.names.len() as u16 * IDS_PER_BOT;
        let ghost before = self@;
        let name = name.to_owned();
        proof {
            lemma_views_push(self.names@, name);
        }
        self.names.push(name);
        proof {
            assert(self@ =~= before.push(name@));
            lemma_index_of(self@, before.len() as int);
        }
        base
    }

    /// Build the menu for the given bots (name, status text, running).
    pub fn build(&mut self, bots: &[ShownBot], facts: MenuFacts) -> (r: MenuModel)
        requires
            old(self).wf(),
            with_slots(old(self)@, bot_names(bots@)).len() <= MAX_BOTS,
        ensures
            final(self).wf(),
            final(self)@ == with_slots(old(self)@, bot_names(bots@)),
            is_menu(r.entries@, final(self)@, bots@, facts@),
            forall|id: u16| #[trigger]
                r.means(id) == meaning(final(self)@, bot_names(bots@), id as int),
    {
        let ghost start = self@;
        let ghost names = bot_names(bots@);
        let ghost all = with_slots(start, names);
        let mut entries: Vec<MenuEntry> = Vec::new();
        let mut actions = fixed_actions();
        let mut i: usize = 0;
        proof {
            lemma_with_slots(start, names);
            assert(names.take(0) =~= seq![]);
        }
        while i < bots.len()
            invariant
                i <= bots@.len(),
                bots.len() == bots@.len(),
                names == bot_names(bots@),
                all == with_slots(start, names),
                all.no_duplicates(),
                start.no_duplicates(),
                all.len() <= MAX_BOTS,
                self.wf(),
                self@ == with_slots(start, names.take(i as int)),
                entries@.len() == i,
                forall|k: int|
                    0 <= k < i ==> is_bot_menu(
                        #[trigger] entries@[k],
                        bots@[k],
                        base_of(all, bots@[k].0@),
                    ),
                forall|id: u16| #[trigger]
                    entry_in(actions@, id) == meaning(all, names.take(i as int), id as int),
            decreases bots@.len() - i,
        {
            let ghost seen = names.take(i as int);
            let ghost now = names.take(i + 1);
            let ghost name = bots@[i as int].0@;
            proof {
                assert(now.drop_last() =~= seen);
                assert(now.last() == name);
                lemma_with_slots(start, seen);
                lemma_with_slots(start, now);
                lemma_seen_is_prefix(start, names, i + 1);
                assert(with_slots(start, now).len() <= all.len());
            }
            let base = self.slot_for(bots[i].0.as_str());
            proof {
                assert(self@ == with_slots(start, now));
                assert(self@.contains(name)) by {
                    assert(now[i as int] == name);
                }
                lemma_base_stays(self@, all, name);
            }
            entries.push(bot_menu(&bots[i], base));
            let ghost before = actions@;
            add_bot_actions(&mut actions, &bots[i].0, base);
            proof {
                assert forall|id: u16| #[trigger] entry_in(actions@, id) == meaning(
                    all,
                    now,
                    id as int,
                ) by {
                    assert(entry_in(before, id) == meaning(all, seen, id as int));
                }
            }
            i += 1;
        }
        assert(names.take(i as int) =~= names);
        if bots.len() > 0 {
            entries.push(MenuEntry::Separator);
        }
        add_common_part(&mut entries, &facts);
        MenuModel { entries, actions }
    }
}

impl Default for MenuBuilder {
    fn default() -> (r: Self)
        ensures
            r.wf(),
            r@ == Seq::<Seq<char>>::empty(),
    {
        MenuBuilder::new()
    }
}

proof fn lemma_seen_is_prefix(start: Seq<Seq<char>>, names: Seq<Seq<char>>, i: int)
    requires
        start.no_duplicates(),
        0 <= i <= names.len(),
    ensures
        with_slots(start, names.take(i)).is_prefix_of(with_slots(start, names)),
    decreases names.len() - i,
{
    if i < names.len() {
        let a = with_slots(start, names.take(i));
        let b = with_slots(start, names.take(i + 1));
        assert(names.take(i + 1).drop_last() =~= names.take(i));
        lemma_with_slots(start, names.take(i));
        lemma_with_slot(a, names[i]);
        lemma_seen_is_prefix(start, names, i + 1);
        lemma_prefix(a, b, with_slots(start, names));
    } else {
        assert(names.take(i) =~= names);
        let t = with_slots(start, names);
        assert(t.subrange(0, t.len() as int) =~= t);
    }
}

// ---- what the ids keep to ----

/// Two bots never share an id.
pub proof fn the_ids_of_two_bots_are_apart(
    slots: Seq<Seq<char>>,
    one: Seq<char>,
    other: Seq<char>,
)
    requires
        slots.contains(one),
        slots.contains(other),
        one != other,
    ensures
        base_of(slots, one) + IDS_PER_BOT <= base_of(slots, other) || base_of(slots, other)
            + IDS_PER_BOT <= base_of(slots, one),
        base_of(slots, one) >= BOT_ID_BASE,
{
    let i = slots.index_of(one);
    let j = slots.index_of(other);
    lemma_index_is_there(slots, one);
    lemma_index_is_there(slots, other);
    assert(i != j);
}

proof fn lemma_index_is_there(slots: Seq<Seq<char>>, name: Seq<char>)
    requires
        slots.contains(name),
    ensures
        0 <= slots.index_of(name) < slots.len(),
        slots[slots.index_of(name)] == name,
{
}

proof fn lemma_bot_meaning(slots: Seq<Seq<char>>, names: Seq<Seq<char>>, name: Seq<char>, id: int)
    requires
        slots.contains(name),
        forall|i: int| 0 <= i < names.len() ==> slots.contains(#[trigger] names[i]),
        base_of(slots, name) <= id < base_of(slots, name) + 5,
    ensures
        bot_meaning(slots, names, id) == if names.contains(name) {
            Some(ActionView::Bot { name, action: action_at(id - base_of(slots, name)) })
        } else {
            None
        },
    decreases names.len(),
{
    if names.len() > 0 {
        let last = names.last();
        assert(slots.contains(names[names.len() - 1]));
        if last != name {
            the_ids_of_two_bots_are_apart(slots, name, last);
            assert forall|i: int| 0 <= i < names.drop_last().len() implies slots.contains(
                #[trigger] names.drop_last()[i],
            ) by {
                assert(slots.contains(names[i]));
            }
            lemma_bot_meaning(slots, names.drop_last(), name, id);
            if names.contains(name) {
                let k = choose|k: int| 0 <= k < names.len() && names[k] == name;
                assert(names.drop_last()[k] == name);
            }
            if names.drop_last().contains(name) {
                let k = choose|k: int| 0 <= k < names.drop_last().len() && names.drop_last()[k] == name;
                assert(names[k] == name);
            }
        } else {
            assert(names.contains(name)) by {
                assert(names[names.len() - 1] == name);
            }
        }
    }
}

/// Every command in a bot's submenu does what it says, to that bot.
pub proof fn every_command_reaches_its_bot(
    slots: Seq<Seq<char>>,
    names: Seq<Seq<char>>,
    i: int,
    offset: int,
)
    requires
        0 <= i < names.len(),
        0 <= offset < 5,
        forall|k: int| 0 <= k < names.len() ==> slots.contains(#[trigger] names[k]),
    ensures
        meaning(slots, names, base_of(slots, names[i]) + offset) == Some(
            ActionView::Bot { name: names[i], action: action_at(offset) },
        ),
{
    lemma_index_is_there(slots, names[i]);
    lemma_bot_meaning(slots, names, names[i], base_of(slots, names[i]) + offset);
    assert(names.contains(names[i]));
}

/// An id from a menu that is out of date never reaches another bot: where it
/// meant a command of a bot, it means the same command in any later menu that
/// shows the bot, and nothing in one that does not.
pub proof fn a_stale_id_never_reaches_another_bot(
    slots: Seq<Seq<char>>,
    names: Seq<Seq<char>>,
    later_slots: Seq<Seq<char>>,
    later: Seq<Seq<char>>,
    name: Seq<char>,
    offset: int,
)
    requires
        slots.is_prefix_of(later_slots),
        later_slots.no_duplicates(),
        names.contains(name),
        0 <= offset < 5,
        forall|k: int| 0 <= k < names.len() ==> slots.contains(#[trigger] names[k]),
        forall|k: int| 0 <= k < later.len() ==> later_slots.contains(#[trigger] later[k]),
    ensures
        meaning(later_slots, later, base_of(slots, name) + offset) == if later.contains(name) {
            meaning(slots, names, base_of(slots, name) + offset)
        } else {
            None
        },
{
    let k = choose|k: int| 0 <= k < names.len() && names[k] == name;
    assert(slots.contains(names[k]));
    lemma_base_stays(slots, later_slots, name);
    lemma_prefix_contains(slots, later_slots, name);
    lemma_bot_meaning(slots, names, name, base_of(slots, name) + offset);
    lemma_bot_meaning(later_slots, later, name, base_of(slots, name) + offset);
}

/// A builder keeps the slots that it has handed out.
pub proof fn slots_are_kept(slots: Seq<Seq<char>>, names: Seq<Seq<char>>)
    requires
        slots.no_duplicates(),
    ensures
        slots.is_prefix_of(with_slots(slots, names)),
        with_slots(slots, names).no_duplicates(),
        with_slots(slots, names).len() <= slots.len() + names.len(),
        forall|i: int| 0 <= i < names.len() ==> with_slots(slots, names).contains(#[trigger] names[i]),
{
    lemma_with_slots(slots, names);
}

/// Bots that a builder knows take no more slots, however often they are shown.
pub proof fn known_bots_take_no_slots(slots: Seq<Seq<char>>, names: Seq<Seq<char>>)
    requires
        forall|i: int| 0 <= i < names.len() ==> slots.contains(#[trigger] names[i]),
    ensures
        with_slots(slots, names) == slots,
    decreases names.len(),
{
    if names.len() > 0 {
        let rest = names.drop_last();
        assert forall|i: int| 0 <= i < rest.len() implies slots.contains(#[trigger] rest[i]) by {
            assert(rest[i] == names[i]);
        }
        known_bots_take_no_slots(slots, rest);
        assert(slots.contains(names[names.len() - 1]));
    }
}

/// The slots of a builder are kept by every later one: what one build keeps of
/// another, and that of a third, is kept from the first to the last.
pub proof fn slots_are_kept_for_good(
    slots: Seq<Seq<char>>,
    later: Seq<Seq<char>>,
    last: Seq<Seq<char>>,
)
    requires
        slots.is_prefix_of(later),
        later.is_prefix_of(last),
    ensures
        slots.is_prefix_of(last),
{
    lemma_prefix(slots, later, last);
}

// ---- the ids that are shown ----

/// The ids of the items among some entries, in their order.
pub open spec fn item_ids(entries: Seq<MenuEntry>) -> Seq<int>
    decreases entries.len(),
{
    if entries.len() == 0 {
        seq![]
    } else {
        match entries.last() {
            MenuEntry::Item { id, .. } => item_ids(entries.drop_last()).push(id as int),
            _ => item_ids(entries.drop_last()),
        }
    }
}

/// The ids of one entry: its own, or those of the items in its submenu.
pub open spec fn entry_ids(entry: MenuEntry) -> Seq<int> {
    match entry {
        MenuEntry::Item { id, .. } => seq![id as int],
        MenuEntry::Separator => seq![],
        MenuEntry::Submenu { items, .. } => item_ids(items@),
    }
}

/// The ids of a whole menu, those in its submenus with them.
pub open spec fn menu_ids(entries: Seq<MenuEntry>) -> Seq<int>
    decreases entries.len(),
{
    if entries.len() == 0 {
        seq![]
    } else {
        menu_ids(entries.drop_last()) + entry_ids(entries.last())
    }
}

/// The ids of a bot's commands.
pub open spec fn command_ids(base: int) -> Seq<int> {
    seq![base, base + 1, base + 2, base + 3, base + 4]
}

/// The ids of the commands of some bots.
pub open spec fn bot_ids(slots: Seq<Seq<char>>, names: Seq<Seq<char>>) -> Seq<int>
    decreases names.len(),
{
    if names.len() == 0 {
        seq![]
    } else {
        bot_ids(slots, names.drop_last()) + command_ids(base_of(slots, names.last()))
    }
}

/// The ids of what is always there, as the menu has them.
pub open spec fn fixed_ids() -> Seq<int> {
    seq![
        ID_SPOTIFY_AUTH as int,
        ID_YT_INSTALL as int,
        ID_YT_UPDATE as int,
        ID_ADD_SERVER as int,
        ID_CHECK_UPDATES as int,
        ID_SETTINGS as int,
        ID_EXIT as int,
    ]
}

proof fn lemma_item_ids_of_bot(e: MenuEntry, bot: ShownBot, base: int)
    requires
        is_bot_menu(e, bot, base),
    ensures
        entry_ids(e) == command_ids(base),
{
    if let MenuEntry::Submenu { items, .. } = e {
        let s = items@;
        reveal_with_fuel(item_ids, 7);
        assert(s.drop_last() =~= s.take(5));
        assert(s.take(5).drop_last() =~= s.take(4));
        assert(s.take(4).drop_last() =~= s.take(3));
        assert(s.take(3).drop_last() =~= s.take(2));
        assert(s.take(2).drop_last() =~= s.take(1));
        assert(s.take(1).drop_last() =~= s.take(0));
        assert(item_ids(s.take(0)) =~= seq![]);
        assert(item_ids(s.take(1)) =~= seq![base]);
        assert(item_ids(s.take(2)) =~= seq![base, base + 1]);
        assert(item_ids(s.take(3)) =~= seq![base, base + 1, base + 2]);
        assert(item_ids(s.take(4)) =~= seq![base, base + 1, base + 2]);
        assert(item_ids(s.take(5)) =~= seq![base, base + 1, base + 2, base + 3]);
        assert(item_ids(s) =~= command_ids(base));
    }
}

proof fn lemma_menu_ids_of_bots(
    entries: Seq<MenuEntry>,
    slots: Seq<Seq<char>>,
    bots: Seq<ShownBot>,
    n: int,
)
    requires
        0 <= n <= bots.len(),
        n <= entries.len(),
        forall|i: int|
            0 <= i < bots.len() ==> is_bot_menu(
                #[trigger] entries[i],
                bots[i],
                base_of(slots, bots[i].0@),
            ),
    ensures
        menu_ids(entries.take(n)) == bot_ids(slots, bot_names(bots).take(n)),
    decreases n,
{
    if n > 0 {
        lemma_menu_ids_of_bots(entries, slots, bots, n - 1);
        assert(entries.take(n).drop_last() =~= entries.take(n - 1));
        assert(bot_names(bots).take(n).drop_last() =~= bot_names(bots).take(n - 1));
        assert(bot_names(bots).take(n).last() == bots[n - 1].0@);
        assert(entries.take(n).last() == entries[n - 1]);
        lemma_item_ids_of_bot(entries[n - 1], bots[n - 1], base_of(slots, bots[n - 1].0@));
    }
}

proof fn lemma_menu_ids_of_common(entries: Seq<MenuEntry>, at: int, facts: FactsView)
    requires
        0 <= at,
        is_common_part(entries, at, facts),
    ensures
        menu_ids(entries) == menu_ids(entries.take(at)) + fixed_ids(),
{
    let first = menu_ids(entries.take(at));
    if let MenuEntry::Submenu { items, .. } = entries[at] {
        reveal_with_fuel(item_ids, 2);
        assert(item_ids(items@) =~= seq![ID_SPOTIFY_AUTH as int]) by {
            assert(items@.drop_last() =~= seq![]);
        }
    }
    if let MenuEntry::Submenu { items, .. } = entries[at + 1] {
        reveal_with_fuel(item_ids, 3);
        assert(item_ids(items@) =~= seq![ID_YT_INSTALL as int, ID_YT_UPDATE as int]) by {
            assert(items@.drop_last() =~= items@.take(1));
            assert(items@.take(1).drop_last() =~= seq![]);
        }
    }
    lemma_menu_ids_step(entries, at);
    lemma_menu_ids_step(entries, at + 1);
    lemma_menu_ids_step(entries, at + 2);
    lemma_menu_ids_step(entries, at + 3);
    lemma_menu_ids_step(entries, at + 4);
    lemma_menu_ids_step(entries, at + 5);
    lemma_menu_ids_step(entries, at + 6);
    lemma_menu_ids_step(entries, at + 7);
    assert(entries.take(at + 8) =~= entries);
    assert(menu_ids(entries) =~= first + fixed_ids());
}

proof fn lemma_menu_ids_step(entries: Seq<MenuEntry>, i: int)
    requires
        0 <= i < entries.len(),
    ensures
        menu_ids(entries.take(i + 1)) == menu_ids(entries.take(i)) + entry_ids(entries[i]),
{
    assert(entries.take(i + 1).drop_last() =~= entries.take(i));
}

/// The ids of a menu are those of its bots, then those that are always there.
proof fn lemma_menu_ids(
    entries: Seq<MenuEntry>,
    slots: Seq<Seq<char>>,
    bots: Seq<ShownBot>,
    facts: FactsView,
)
    requires
        is_menu(entries, slots, bots, facts),
    ensures
        menu_ids(entries) == bot_ids(slots, bot_names(bots)) + fixed_ids(),
{
    let n = bots.len() as int;
    lemma_menu_ids_of_bots(entries, slots, bots, n);
    assert(bot_names(bots).take(n) =~= bot_names(bots));
    if n == 0 {
        lemma_menu_ids_of_common(entries, 0, facts);
    } else {
        lemma_menu_ids_of_common(entries, n + 1, facts);
        lemma_menu_ids_step(entries, n);
        assert(menu_ids(entries.take(n + 1)) =~= menu_ids(entries.take(n)));
    }
}

/// Two lists without duplicates and without a common element make one without
/// duplicates.
proof fn lemma_apart(a: Seq<int>, b: Seq<int>)
    requires
        a.no_duplicates(),
        b.no_duplicates(),
        forall|id: int| #[trigger] a.contains(id) ==> !b.contains(id),
    ensures
        (a + b).no_duplicates(),
        forall|id: int| #[trigger] (a + b).contains(id) <==> a.contains(id) || b.contains(id),
{
    let s = a + b;
    assert forall|i: int, j: int| 0 <= i < j < s.len() implies s[i] != s[j] by {
        if i < a.len() && j >= a.len() {
            assert(a.contains(s[i]));
            assert(b[j - a.len()] == s[j]);
            assert(b.contains(s[j]));
        } else if i >= a.len() {
            assert(b[i - a.len()] == s[i]);
            assert(b[j - a.len()] == s[j]);
        }
    }
    assert forall|id: int| #[trigger] s.contains(id) <==> a.contains(id) || b.contains(id) by {
        if a.contains(id) {
            let k = choose|k: int| 0 <= k < a.len() && a[k] == id;
            assert(s[k] == id);
        }
        if b.contains(id) {
            let k = choose|k: int| 0 <= k < b.len() && b[k] == id;
            assert(s[k + a.len()] == id);
        }
    }
}

proof fn lemma_command_ids(base: int)
    ensures
        command_ids(base).no_duplicates(),
        forall|id: int| #[trigger] command_ids(base).contains(id) <==> base <= id < base + 5,
{
    let s = command_ids(base);
    assert forall|id: int| #[trigger] s.contains(id) <==> base <= id < base + 5 by {
        if base <= id < base + 5 {
            assert(s[id - base] == id);
        }
    }
}

proof fn lemma_bot_ids(slots: Seq<Seq<char>>, names: Seq<Seq<char>>)
    requires
        names.no_duplicates(),
        forall|i: int| 0 <= i < names.len() ==> slots.contains(#[trigger] names[i]),
    ensures
        bot_ids(slots, names).no_duplicates(),
        forall|id: int| #[trigger]
            bot_ids(slots, names).contains(id) <==> bot_meaning(slots, names, id) is Some,
        forall|id: int| #[trigger] bot_ids(slots, names).contains(id) ==> id >= BOT_ID_BASE,
    decreases names.len(),
{
    if names.len() > 0 {
        let rest = names.drop_last();
        let last = names.last();
        let base = base_of(slots, last);
        assert(slots.contains(names[names.len() - 1]));
        assert forall|i: int| 0 <= i < rest.len() implies slots.contains(#[trigger] rest[i]) by {
            assert(slots.contains(names[i]));
        }
        assert(!rest.contains(last)) by {
            if rest.contains(last) {
                let k = choose|k: int| 0 <= k < rest.len() && rest[k] == last;
                assert(names[k] == names[names.len() - 1]);
            }
        }
        lemma_bot_ids(slots, rest);
        lemma_command_ids(base);
        lemma_index_is_there(slots, last);
        let a = bot_ids(slots, rest);
        let b = command_ids(base);
        assert forall|id: int| #[trigger] a.contains(id) implies !b.contains(id) by {
            if b.contains(id) {
                lemma_bot_meaning(slots, rest, last, id);
            }
        }
        lemma_apart(a, b);
    }
}

/// Every id of a menu that shows each bot once is an id of its own, is not the
/// one for "dismissed", and means something; no other id means anything.
pub proof fn every_id_has_one_meaning(
    entries: Seq<MenuEntry>,
    slots: Seq<Seq<char>>,
    bots: Seq<ShownBot>,
    facts: FactsView,
)
    requires
        is_menu(entries, slots, bots, facts),
        bot_names(bots).no_duplicates(),
        forall|i: int| 0 <= i < bots.len() ==> slots.contains(#[trigger] bot_names(bots)[i]),
    ensures
        menu_ids(entries).no_duplicates(),
        !menu_ids(entries).contains(0),
        forall|id: int| #[trigger]
            menu_ids(entries).contains(id) <==> meaning(slots, bot_names(bots), id) is Some,
{
    let names = bot_names(bots);
    lemma_menu_ids(entries, slots, bots, facts);
    lemma_bot_ids(slots, names);
    let a = bot_ids(slots, names);
    let b = fixed_ids();
    assert forall|id: int| #[trigger] b.contains(id) <==> fixed_meaning(id) is Some by {
        if fixed_meaning(id) is Some {
            assert(b[0] == 2 && b[1] == 3 && b[2] == 4 && b[3] == 1 && b[4] == 5 && b[5] == 6 && b[6]
                == 7);
        }
    }
    assert forall|id: int| #[trigger] a.contains(id) implies !b.contains(id) by {
        assert(id >= BOT_ID_BASE);
    }
    lemma_apart(a, b);
}

proof fn lemma_bot_of_id(slots: Seq<Seq<char>>, names: Seq<Seq<char>>, id: int) -> (name: Seq<char>)
    requires
        bot_meaning(slots, names, id) is Some,
    ensures
        names.contains(name),
        base_of(slots, name) <= id < base_of(slots, name) + 5,
    decreases names.len(),
{
    let base = base_of(slots, names.last());
    if base <= id < base + 5 {
        assert(names[names.len() - 1] == names.last());
        names.last()
    } else {
        let rest = names.drop_last();
        let name = lemma_bot_of_id(slots, rest, id);
        let k = choose|k: int| 0 <= k < rest.len() && rest[k] == name;
        assert(names[k] == name);
        name
    }
}

/// An id never changes its meaning: where it means something in two menus of
/// the same builder, it means the same.
pub proof fn an_id_never_changes_its_meaning(
    slots: Seq<Seq<char>>,
    names: Seq<Seq<char>>,
    later_slots: Seq<Seq<char>>,
    later: Seq<Seq<char>>,
    id: int,
)
    requires
        slots.is_prefix_of(later_slots),
        later_slots.no_duplicates(),
        forall|k: int| 0 <= k < names.len() ==> slots.contains(#[trigger] names[k]),
        forall|k: int| 0 <= k < later.len() ==> later_slots.contains(#[trigger] later[k]),
        meaning(slots, names, id) is Some,
        meaning(later_slots, later, id) is Some,
    ensures
        meaning(slots, names, id) == meaning(later_slots, later, id),
{
    if fixed_meaning(id) is None {
        let name = lemma_bot_of_id(slots, names, id);
        let offset = id - base_of(slots, name);
        a_stale_id_never_reaches_another_bot(slots, names, later_slots, later, name, offset);
    }
}

/// What the label of a command says it does to a bot.
pub open spec fn label_of(action: BotAction) -> Seq<char> {
    match action {
        BotAction::Start => "Start"@,
        BotAction::Stop => "Stop"@,
        BotAction::Restart => "Restart"@,
        BotAction::Logs => "View Logs"@,
        BotAction::Config => "Edit Config"@,
    }
}

/// Whether a command would change anything for a bot that runs or not.
pub open spec fn makes_sense(action: BotAction, running: bool) -> bool {
    match action {
        BotAction::Start => !running,
        BotAction::Stop => running,
        _ => true,
    }
}

/// Every command in the submenu of a bot does to that bot what its label says,
/// and it can be chosen unless it would change nothing: a bot that runs is not
/// started, and one that does not is not stopped.
pub proof fn a_command_does_what_its_label_says(
    entries: Seq<MenuEntry>,
    slots: Seq<Seq<char>>,
    bots: Seq<ShownBot>,
    facts: FactsView,
    b: int,
    action: BotAction,
)
    requires
        is_menu(entries, slots, bots, facts),
        0 <= b < bots.len(),
        forall|i: int| 0 <= i < bots.len() ==> slots.contains(#[trigger] bot_names(bots)[i]),
    ensures
        entries[b] matches MenuEntry::Submenu { label, items } && bots[b].0@.is_prefix_of(label@)
            && bots[b].1@.is_suffix_of(label@) && exists|k: int, id: int|
            0 <= k < items@.len() && #[trigger] is_item(
                items@[k],
                id,
                label_of(action),
                makes_sense(action, bots[b].2),
            ) && meaning(slots, bot_names(bots), id) == Some(
                ActionView::Bot { name: bots[b].0@, action },
            ),
{
    let names = bot_names(bots);
    let base = base_of(slots, bots[b].0@);
    assert(names[b] == bots[b].0@);
    assert(is_bot_menu(entries[b], bots[b], base));
    let offset: int = match action {
        BotAction::Start => 0,
        BotAction::Stop => 1,
        BotAction::Restart => 2,
        BotAction::Logs => 3,
        BotAction::Config => 4,
    };
    let k: int = match action {
        BotAction::Start => 0,
        BotAction::Stop => 1,
        BotAction::Restart => 2,
        BotAction::Logs => 4,
        BotAction::Config => 5,
    };
    every_command_reaches_its_bot(slots, names, b, offset);
    if let MenuEntry::Submenu { label, items } = entries[b] {
        assert(bots[b].0@ =~= label@.take(bots[b].0@.len() as int));
        assert(bots[b].1@ =~= label@.skip(label@.len() - bots[b].1@.len()));
        assert(is_item(
            items@[k],
            base + offset,
            label_of(action),
            makes_sense(action, bots[b].2),
        ));
    }
}

/// What the label of a command that is always there says it does.
pub open spec fn common_label(action: ActionView) -> Seq<char> {
    match action {
        ActionView::AddServer => "Add Server"@,
        ActionView::SpotifyAuth => "Sign in / re-authenticate"@,
        ActionView::YoutubeInstall => "Install tools"@,
        ActionView::YoutubeUpdate => "Update tools"@,
        ActionView::CheckUpdates => "Check for updates"@,
        ActionView::Settings => "Settings"@,
        _ => "Exit"@,
    }
}

/// Whether a command helps, where the tools are there or not.
pub open spec fn helps(action: ActionView, installed: bool) -> bool {
    match action {
        ActionView::YoutubeInstall => !installed,
        ActionView::YoutubeUpdate => installed,
        _ => true,
    }
}

/// Every command that is always there does what its label says. Tools that are
/// there can only be updated, and tools that are not can only be installed.
pub proof fn a_common_command_does_what_its_label_says(
    entries: Seq<MenuEntry>,
    slots: Seq<Seq<char>>,
    bots: Seq<ShownBot>,
    facts: FactsView,
    action: ActionView,
)
    requires
        is_menu(entries, slots, bots, facts),
        !(action is Bot),
    ensures
        exists|e: MenuEntry, id: int| #[trigger]
            is_item(
                e,
                id,
                common_label(action),
                helps(action, facts.youtube_installed),
            ) && meaning(slots, bot_names(bots), id) == Some(action) && (entries.contains(e)
                || exists|m: int|
                0 <= m < entries.len() && (#[trigger] entries[m] matches MenuEntry::Submenu {
                    label,
                    items,
                } && items@.contains(e))),
{
    let n = bots.len() as int;
    let at: int = if n == 0 {
        0
    } else {
        n + 1
    };
    assert(is_common_part(entries, at, facts));
    let sub = entries[at];
    let tools = entries[at + 1];
    if let MenuEntry::Submenu { label, items } = sub {
        assert(items@.contains(items@[0]));
    }
    if let MenuEntry::Submenu { label, items } = tools {
        assert(items@.contains(items@[0]));
        assert(items@.contains(items@[1]));
    }
    assert(entries.contains(entries[at + 3]));
    assert(entries.contains(entries[at + 4]));
    assert(entries.contains(entries[at + 5]));
    assert(entries.contains(entries[at + 7]));
    let (e, id): (MenuEntry, int) = match action {
        ActionView::SpotifyAuth => (sub->items@[0], ID_SPOTIFY_AUTH as int),
        ActionView::YoutubeInstall => (tools->items@[0], ID_YT_INSTALL as int),
        ActionView::YoutubeUpdate => (tools->items@[1], ID_YT_UPDATE as int),
        ActionView::AddServer => (entries[at + 3], ID_ADD_SERVER as int),
        ActionView::CheckUpdates => (entries[at + 4], ID_CHECK_UPDATES as int),
        ActionView::Settings => (entries[at + 5], ID_SETTINGS as int),
        _ => (entries[at + 7], ID_EXIT as int),
    };
    assert(is_item(e, id, common_label(action), helps(action, facts.youtube_installed)));
    assert(meaning(slots, bot_names(bots), id) == Some(action));
}

/// The Spotify line names whoever is signed in, and nobody where nobody is.
pub proof fn the_spotify_line_names_the_account(one: Seq<char>, other: Seq<char>)
    ensures
        one.is_suffix_of(spotify_line(true, Some(one))),
        spotify_line(true, Some(one)) == spotify_line(true, Some(other)) ==> one == other,
        spotify_line(true, None).is_prefix_of(spotify_line(true, Some(one))),
        spotify_line(false, Some(one)) == spotify_line(false, None),
        spotify_line(false, None) != spotify_line(true, None),
        spotify_line(false, None) != spotify_line(true, Some(one)),
{
    reveal_strlit("Spotify: not signed in");
    reveal_strlit("Spotify: signed in as ");
    reveal_strlit("Spotify: signed in");
    let a = spotify_line(true, Some(one));
    let n = "Spotify: signed in as "@.len() as int;
    assert(a.skip(n) =~= one);
    assert(spotify_line(true, Some(other)).skip(n) =~= other);
    assert(one =~= a.subrange(a.len() - one.len(), a.len() as int));
    let short = "Spotify: signed in"@;
    assert(short =~= a.take(short.len() as int));
    assert("Spotify: not signed in"@[9] == 'n');
    assert("Spotify: signed in"@[9] == 's');
    assert(a[9] == 's');
}

} // verus!
