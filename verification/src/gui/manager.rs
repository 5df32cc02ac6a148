//! Bot instances for the system tray: what they are called, how they are, and
//! when one may be started or stopped. The threads they run in are the
//! caller's.
use vstd::prelude::*;
use vstd::string::*;

use crate::bot::runner::{BotExit, RunnerEvent, RunnerEventView};
use crate::control::Configured;
use crate::text::{
    comes_first, in_order, lemma_views_push, ordered, ordered_total, ordered_transitive, same,
    views,
};

verus! {

/// Status of a bot instance, displayed in tray menu and tooltip.
#[derive(Debug)]
pub enum BotStatus {
    Stopped,
    Starting,
    Connecting,
    Authenticating,
    Connected,
    Playing(String),
    Disconnected,
    Error(String),
}

pub enum StatusView {
    Stopped,
    Starting,
    Connecting,
    Authenticating,
    Connected,
    Playing(Seq<char>),
    Disconnected,
    Error(Seq<char>),
}

impl View for BotStatus {
    type V = StatusView;

    open spec fn view(&self) -> StatusView {
        match *self {
            BotStatus::Stopped => StatusView::Stopped,
            BotStatus::Starting => StatusView::Starting,
            BotStatus::Connecting => StatusView::Connecting,
            BotStatus::Authenticating => StatusView::Authenticating,
            BotStatus::Connected => StatusView::Connected,
            BotStatus::Playing(track) => StatusView::Playing(track@),
            BotStatus::Disconnected => StatusView::Disconnected,
            BotStatus::Error(text) => StatusView::Error(text@),
        }
    }
}

impl StatusView {
    /// The status as it is shown.
    pub open spec fn text(self) -> Seq<char> {
        match self {
            StatusView::Stopped => "Stopped"@,
            StatusView::Starting => "Starting..."@,
            StatusView::Connecting => "Connecting..."@,
            StatusView::Authenticating => "Authenticating..."@,
            StatusView::Connected => "Connected, Idle"@,
            StatusView::Playing(track) => "Connected, Playing: "@ + track,
            StatusView::Disconnected => "Disconnected"@,
            StatusView::Error(text) => "Error: "@ + text,
        }
    }
}

impl Clone for BotStatus {
    fn clone(&self) -> (r: Self)
        ensures
            r@ == self@,
    {
        match self {
            BotStatus::Stopped => BotStatus::Stopped,
            BotStatus::Starting => BotStatus::Starting,
            BotStatus::Connecting => BotStatus::Connecting,
            BotStatus::Authenticating => BotStatus::Authenticating,
            BotStatus::Connected => BotStatus::Connected,
            BotStatus::Playing(track) => BotStatus::Playing(track.clone()),
            BotStatus::Disconnected => BotStatus::Disconnected,
            BotStatus::Error(text) => BotStatus::Error(text.clone()),
        }
    }
}

impl BotStatus {
    /// The status as it is shown.
    pub fn text(&self) -> (r: String)
        ensures
            r@ == self@.text(),
    {
        match self {
            BotStatus::Stopped => String::from_str("Stopped"),
            BotStatus::Starting => String::from_str("Starting..."),
            BotStatus::Connecting => String::from_str("Connecting..."),
            BotStatus::Authenticating => String::from_str("Authenticating..."),
            BotStatus::Connected => String::from_str("Connected, Idle"),
            BotStatus::Playing(track) => {
                let mut out = String::from_str("Connected, Playing: ");
                out.append(track.as_str());
                out
            },
            BotStatus::Disconnected => String::from_str("Disconnected"),
            BotStatus::Error(text) => {
                let mut out = String::from_str("Error: ");
                out.append(text.as_str());
                out
            },
        }
    }
}

/// The status that an event of a running bot stands for.
pub open spec fn status_after(event: RunnerEventView) -> StatusView {
    match event {
        RunnerEventView::Connecting => StatusView::Connecting,
        RunnerEventView::Authenticating => StatusView::Authenticating,
        RunnerEventView::Connected | RunnerEventView::Idle => StatusView::Connected,
        RunnerEventView::Playing(track) => StatusView::Playing(track),
        RunnerEventView::Disconnected => StatusView::Disconnected,
        RunnerEventView::Error(text) => StatusView::Error(text),
    }
}

pub fn status_of_event(event: RunnerEvent) -> (r: BotStatus)
    ensures
        r@ == status_after(event@),
{
    match event {
        RunnerEvent::Connecting => BotStatus::Connecting,
        RunnerEvent::Authenticating => BotStatus::Authenticating,
        RunnerEvent::Connected => BotStatus::Connected,
        RunnerEvent::Idle => BotStatus::Connected,
        RunnerEvent::Playing(track) => BotStatus::Playing(track),
        RunnerEvent::Disconnected => BotStatus::Disconnected,
        RunnerEvent::Error(text) => BotStatus::Error(text),
    }
}

/// What to do once a bot has ended.
#[derive(Debug)]
pub enum AfterRun {
    /// Run it again with the config as it is then.
    Again,
    /// Leave it, with this status.
    End(BotStatus),
}

/// What to do once a bot has ended, for whatever reason.
pub fn after_run(ended: Result<BotExit, String>) -> (r: AfterRun)
    ensures
        match ended {
            Ok(BotExit::Restart) => r is Again,
            Ok(_) => r matches AfterRun::End(status) && status@ == StatusView::Stopped,
            Err(text) => r matches AfterRun::End(status) && status@ == StatusView::Error(text@),
        },
{
    match ended {
        Ok(BotExit::Restart) => AfterRun::Again,
        Ok(_) => AfterRun::End(BotStatus::Stopped),
        Err(text) => AfterRun::End(BotStatus::Error(text)),
    }
}

/// What a bot whose config cannot be read is shown as.
pub fn config_status(error: &str) -> (r: BotStatus)
    ensures
        r@ == StatusView::Error("Config: "@ + error@),
{
    let mut text = String::from_str("Config: ");
    text.append(error);
    BotStatus::Error(text)
}

/// What a bot that gets no runtime is shown as.
pub fn runtime_status(error: &str) -> (r: BotStatus)
    ensures
        r@ == StatusView::Error("Runtime: "@ + error@),
{
    let mut text = String::from_str("Runtime: ");
    text.append(error);
    BotStatus::Error(text)
}

/// One bot of the tray.
#[derive(Debug)]
pub struct BotInstance {
    pub name: String,
    pub config_path: String,
    pub status: BotStatus,
}

/// The names of some bots.
pub open spec fn instance_names(v: Seq<BotInstance>) -> Seq<Seq<char>> {
    v.map_values(|b: BotInstance| b.name@)
}

/// What to do to restart a bot.
#[derive(Debug, Clone, Copy, PartialEq, Eq, Structural)]
pub enum Restart {
    /// There is no such bot.
    Unknown,
    /// It is not running: just start it.
    Start,
    /// Ask it to stop, and start it once it has.
    StopFirst,
}

/// The bots of the tray, by name and in the order of their names.
#[derive(Debug)]
pub struct BotManager {
    pub instances: Vec<BotInstance>,
}

impl BotManager {
    /// Each name once, in order.
    pub open spec fn wf(self) -> bool {
        &&& in_order(self.names())
        &&& self.names().no_duplicates()
    }

    pub open spec fn names(self) -> Seq<Seq<char>> {
        instance_names(self.instances@)
    }

    pub fn new() -> (r: Self)
        ensures
            r.wf(),
            r.instances@.len() == 0,
    {
        BotManager { instances: Vec::new() }
    }

    /// Where a bot stands.
    fn find(&self, name: &str) -> (r: Option<usize>)
        ensures
            match r {
                Some(i) => i < self.instances@.len() && self.instances@[i as int].name@ == name@,
                None => !self.names().contains(name@),
            },
    {
        let mut i: usize = 0;
        while i < self.instances.len()
            invariant
                i <= self.instances.len(),
                forall|k: int| 0 <= k < i ==> #[trigger] self.names()[k] != name@,
            decreases self.instances.len() - i,
        {
            assert(self.names()[i as int] == self.instances@[i as int].name@);
            if same(self.instances[i].name.as_str(), name) {
                return Some(i);
            }
            i += 1;
        }
        None
    }

    /// Add a bot that is not there yet.
    fn insert(&mut self, name: String, config_path: String)
        requires
            old(self).wf(),
            !old(self).names().contains(name@),
        ensures
            final(self).wf(),
            final(self).instances@.len() == old(self).instances@.len() + 1,
            exists|at: int|
                0 <= at <= old(self).instances@.len() && #[trigger] final(self).instances@.remove(at)
                    == old(self).instances@ && final(self).instances@[at].name@ == name@
                    && final(self).instances@[at].config_path@ == config_path@
                    && final(self).instances@[at].status == BotStatus::Stopped,
            forall|n: Seq<char>| #[trigger]
                final(self).names().contains(n) <==> old(self).names().contains(n) || n == name@,
    {
        let ghost w = self.names();
        let ghost was = self.instances@;
        let mut i: usize = 0;
        while i < self.instances.len() && comes_first(
            self.instances[i].name.as_str(),
            name.as_str(),
        )
            invariant
                i <= self.instances.len(),
                w == instance_names(self.instances@),
                forall|k: int| 0 <= k < i ==> ordered(#[trigger] w[k], name@),
            decreases self.instances.len() - i,
        {
            assert(w[i as int] == self.instances@[i as int].name@);
            i += 1;
        }
        let ghost n = name@;
        let ghost at = i as int;
        self.instances.insert(i, BotInstance { name, config_path, status: BotStatus::Stopped });
        proof {
            let t = self.names();
            assert(t =~= w.insert(at, n));
            assert(self.instances@.remove(at) =~= was);
            lemma_inserted_in_order(w, n, at);
            assert forall|x: Seq<char>| #[trigger] t.contains(x) <==> w.contains(x) || x == n by {
                lemma_contains_insert(w, n, at, x);
            }
            lemma_no_duplicates_insert(w, n, at);
        }
    }

    /// Take in the configured bots that are not there yet, and name them.
    pub fn load_configs(&mut self, configs: &Vec<Configured>) -> (r: Vec<String>)
        requires
            old(self).wf(),
        ensures
            final(self).wf(),
            views(r@) == new_names(old(self).names(), configs@),
            forall|n: Seq<char>| #[trigger]
                final(self).names().contains(n) <==> old(self).names().contains(n)
                    || names_of(configs@).contains(n),
            forall|b: BotInstance|
                old(self).instances@.contains(b) ==> #[trigger] final(self).instances@.contains(b),
            forall|b: BotInstance| #[trigger]
                final(self).instances@.contains(b) ==> old(self).instances@.contains(b) || (!old(
                    self,
                ).names().contains(b.name@) && brought_by(b, configs@)),
    {
        let ghost start = self.names();
        let ghost first = self.instances@;
        let mut out: Vec<String> = Vec::new();
        let mut i: usize = 0;
        proof {
            assert(views(out@) =~= new_names(start, configs@.take(0)));
            assert(names_of(configs@.take(0)) =~= seq![]);
        }
        while i < configs.len()
            invariant
                i <= configs.len(),
                self.wf(),
                views(out@) == new_names(start, configs@.take(i as int)),
                forall|n: Seq<char>| #[trigger]
                    self.names().contains(n) <==> start.contains(n) || names_of(
                        configs@.take(i as int),
                    ).contains(n),
                start == instance_names(first),
                forall|b: BotInstance|
                    first.contains(b) ==> #[trigger] self.instances@.contains(b),
                forall|b: BotInstance| #[trigger]
                    self.instances@.contains(b) ==> first.contains(b) || (!start.contains(b.name@)
                        && brought_by(b, configs@)),
            decreases configs.len() - i,
        {
            let ghost was = self.instances@;
            let ghost before = configs@.take(i as int);
            let ghost now = configs@.take(i + 1);
            let name = configs[i].name.clone();
            proof {
                assert(now.drop_last() =~= before);
                assert(names_of(now) =~= names_of(before).push(name@));
                assert(now.last().name@ == name@);
            }
            let there = self.find(name.as_str());
            proof {
                if let Some(k) = there {
                    assert(self.names()[k as int] == name@);
                    assert(self.names().contains(name@));
                }
                assert(self.names().contains(name@) <==> start.contains(name@) || names_of(
                    before,
                ).contains(name@));
                assert forall|n: Seq<char>| #[trigger] names_of(now).contains(n) <==> names_of(
                    before,
                ).contains(n) || n == name@ by {
                    lemma_contains_insert(names_of(before), name@, names_of(before).len() as int, n);
                    assert(names_of(before).insert(names_of(before).len() as int, name@)
                        =~= names_of(now));
                }
            }
            if there.is_none() {
                self.insert(name.clone(), configs[i].path.clone());
                proof {
                    lemma_views_push(out@, name);
                    let at = choose|at: int|
                        0 <= at <= was.len() && #[trigger] self.instances@.remove(at) == was
                            && self.instances@[at].name@ == name@ && self.instances@[at].config_path@
                            == configs@[i as int].path@ && self.instances@[at].status
                            == BotStatus::Stopped;
                    let fresh = self.instances@[at];
                    assert(self.instances@ =~= was.insert(at, fresh));
                    assert(configs@[i as int].name@ == fresh.name@);
                    assert(brought_by(fresh, configs@));
                    assert forall|b: BotInstance| #[trigger]
                        self.instances@.contains(b) <==> was.contains(b) || b == fresh by {
                        lemma_contains_insert(was, fresh, at, b);
                    }
                }
                out.push(name);
            }
            i += 1;
        }
        assert(configs@.take(i as int) =~= configs@);
        out
    }

    /// How the bots are, by name.
    pub fn statuses(&self) -> (r: Vec<(String, BotStatus)>)
        ensures
            status_pairs(r@) == statuses_of(self.instances@),
    {
        let mut out: Vec<(String, BotStatus)> = Vec::new();
        let mut i: usize = 0;
        while i < self.instances.len()
            invariant
                i <= self.instances.len(),
                status_pairs(out@) =~= statuses_of(self.instances@).take(i as int),
            decreases self.instances.len() - i,
        {
            let name = self.instances[i].name.clone();
            let status = self.instances[i].status.clone();
            let ghost before = out@;
            let ghost pair = (name@, status@);
            out.push((name, status));
            assert(status_pairs(out@) =~= status_pairs(before).push(pair));
            i += 1;
        }
        assert(statuses_of(self.instances@).take(i as int) =~= statuses_of(self.instances@));
        out
    }

    /// Note how a bot is. Returns whether there is such a bot.
    pub fn set_status(&mut self, name: &str, status: BotStatus) -> (r: bool)
        requires
            old(self).wf(),
        ensures
            final(self).wf(),
            r == old(self).names().contains(name@),
            status_set(old(self).instances@, final(self).instances@, name@, status),
    {
        match self.find(name) {
            Some(i) => {
                let ghost was = self.instances@;
                let ghost w = self.names();
                proof {
                    assert(w[i as int] == name@);
                    assert(w.contains(name@));
                }
                self.instances[i].status = status;
                proof {
                    assert(self.names() =~= w);
                    assert forall|k: int| 0 <= k < was.len() && was[k].name@ == name@ implies k
                        == i by {
                        assert(w[k] == w[i as int]);
                    }
                }
                true
            },
            None => {
                proof {
                    assert forall|k: int| 0 <= k < self.instances@.len() implies (
                    #[trigger] self.instances@[k]).name@ != name@ by {
                        assert(self.names()[k] == self.instances@[k].name@);
                    }
                }
                false
            },
        }
    }

    /// Whether a bot may be started: there is such a bot, and it is not
    /// running.
    pub fn start(&mut self, name: &str, running: bool) -> (r: bool)
        requires
            old(self).wf(),
        ensures
            final(self).wf(),
            r == (old(self).names().contains(name@) && !running),
            !r ==> *final(self) == *old(self),
            r ==> status_set(
                old(self).instances@,
                final(self).instances@,
                name@,
                BotStatus::Starting,
            ),
    {
        if running {
            return false;
        }
        match self.find(name) {
            Some(i) => {
                assert(self.names()[i as int] == name@);
                self.set_status(name, BotStatus::Starting)
            },
            None => false,
        }
    }

    /// Whether a bot can be asked to stop: there is such a bot, and it is
    /// running.
    pub fn stop(&self, name: &str, running: bool) -> (r: bool)
        ensures
            r == (self.names().contains(name@) && running),
    {
        match self.find(name) {
            Some(i) => {
                assert(self.names()[i as int] == name@);
                running
            },
            None => false,
        }
    }

    /// What to do to restart a bot.
    pub fn restart(&self, name: &str, running: bool) -> (r: Restart)
        ensures
            r == (if !self.names().contains(name@) {
                Restart::Unknown
            } else if running {
                Restart::StopFirst
            } else {
                Restart::Start
            }),
    {
        match self.find(name) {
            Some(i) => {
                assert(self.names()[i as int] == name@);
                if running {
                    Restart::StopFirst
                } else {
                    Restart::Start
                }
            },
            None => Restart::Unknown,
        }
    }

    /// Where a bot's config is.
    pub fn config_path(&self, name: &str) -> (r: Option<String>)
        requires
            self.wf(),
        ensures
            match r {
                Some(path) => exists|i: int|
                    0 <= i < self.instances@.len() && (#[trigger] self.instances@[i]).name@ == name@
                        && self.instances@[i].config_path@ == path@,
                None => !self.names().contains(name@),
            },
    {
        match self.find(name) {
            Some(i) => Some(self.instances[i].config_path.clone()),
            None => None,
        }
    }
}

impl Default for BotManager {
    fn default() -> (r: Self)
        ensures
            r.wf(),
            r.instances@.len() == 0,
    {
        BotManager::new()
    }
}

/// The names in some configs.
pub open spec fn names_of(configs: Seq<Configured>) -> Seq<Seq<char>> {
    configs.map_values(|c: Configured| c.name@)
}

/// The names in some configs that are not there yet, each once.
pub open spec fn new_names(there: Seq<Seq<char>>, configs: Seq<Configured>) -> Seq<Seq<char>>
    decreases configs.len(),
{
    if configs.len() == 0 {
        seq![]
    } else {
        let before = configs.drop_last();
        let name = configs.last().name@;
        if there.contains(name) || names_of(before).contains(name) {
            new_names(there, before)
        } else {
            new_names(there, before).push(name)
        }
    }
}

/// Whether a bot is as some configs bring it: stopped, with the first config
/// of its name.
pub open spec fn brought_by(b: BotInstance, configs: Seq<Configured>) -> bool {
    &&& b.status == BotStatus::Stopped
    &&& exists|k: int|
        0 <= k < configs.len() && (#[trigger] configs[k]).name@ == b.name@ && configs[k].path@
            == b.config_path@ && !names_of(configs.take(k)).contains(b.name@)
}

/// Whether one of some bots has got another status, and nothing else changed.
pub open spec fn status_set(
    old: Seq<BotInstance>,
    new: Seq<BotInstance>,
    name: Seq<char>,
    status: BotStatus,
) -> bool {
    &&& new.len() == old.len()
    &&& forall|i: int|
        0 <= i < old.len() ==> #[trigger] new[i] == (if old[i].name@ == name {
            BotInstance { status, ..old[i] }
        } else {
            old[i]
        })
}

/// Names and statuses.
pub open spec fn status_pairs(v: Seq<(String, BotStatus)>) -> Seq<(Seq<char>, StatusView)> {
    v.map_values(|p: (String, BotStatus)| (p.0@, p.1@))
}

pub open spec fn statuses_of(v: Seq<BotInstance>) -> Seq<(Seq<char>, StatusView)> {
    v.map_values(|b: BotInstance| (b.name@, b.status@))
}

proof fn lemma_contains_insert<A>(w: Seq<A>, n: A, at: int, x: A)
    requires
        0 <= at <= w.len(),
    ensures
        w.insert(at, n).contains(x) <==> w.contains(x) || x == n,
{
    let t = w.insert(at, n);
    if w.contains(x) {
        let k = choose|k: int| 0 <= k < w.len() && w[k] == x;
        assert(t[if k < at {
            k
        } else {
            k + 1
        }] == x);
    }
    if x == n {
        assert(t[at] == x);
    }
    if t.contains(x) {
        let k = choose|k: int| 0 <= k < t.len() && t[k] == x;
        if k != at {
            assert(w[if k < at {
                k
            } else {
                k - 1
            }] == x);
        }
    }
}

proof fn lemma_no_duplicates_insert(w: Seq<Seq<char>>, n: Seq<char>, at: int)
    requires
        0 <= at <= w.len(),
        w.no_duplicates(),
        !w.contains(n),
    ensures
        w.insert(at, n).no_duplicates(),
{
    let t = w.insert(at, n);
    assert forall|i: int, j: int| 0 <= i < t.len() && 0 <= j < t.len() && i != j implies t[i]
        != t[j] by {
        let x = if i < at {
            i
        } else {
            i - 1
        };
        let y = if j < at {
            j
        } else {
            j - 1
        };
        if i == at {
            assert(w[y] == t[j]);
        } else if j == at {
            assert(w[x] == t[i]);
        } else {
            assert(w[x] == t[i] && w[y] == t[j]);
        }
    }
}

proof fn lemma_inserted_in_order(w: Seq<Seq<char>>, n: Seq<char>, at: int)
    requires
        0 <= at <= w.len(),
        in_order(w),
        forall|k: int| 0 <= k < at ==> ordered(#[trigger] w[k], n),
        at < w.len() ==> !ordered(w[at], n),
    ensures
        in_order(w.insert(at, n)),
{
    let t = w.insert(at, n);
    assert forall|a: int, b: int| 0 <= a < b < t.len() implies ordered(
        #[trigger] t[a],
        #[trigger] t[b],
    ) by {
        if b == at {
            assert(t[a] == w[a]);
        } else if a == at {
            assert(t[b] == w[b - 1]);
            ordered_total(w[at], n);
            if b - 1 > at {
                assert(ordered(w[at], w[b - 1]));
                ordered_transitive(n, w[at], w[b - 1]);
            }
        } else {
            let x = if a < at {
                a
            } else {
                a - 1
            };
            let y = if b < at {
                b
            } else {
                b - 1
            };
            assert(ordered(w[x], w[y]));
        }
    }
}

/// The bots that are new are those of the configs that were not there, each
/// named once.
pub proof fn new_bots_are_named_once(there: Seq<Seq<char>>, configs: Seq<Configured>, name: Seq<char>)
    ensures
        new_names(there, configs).contains(name) <==> names_of(configs).contains(name)
            && !there.contains(name),
        new_names(there, configs).no_duplicates(),
    decreases configs.len(),
{
    let new = new_names(there, configs);
    if configs.len() > 0 {
        let p = configs.drop_last();
        let last = configs.last().name@;
        let before = new_names(there, p);
        new_bots_are_named_once(there, p, name);
        new_bots_are_named_once(there, p, last);
        assert(names_of(configs) =~= names_of(p).push(last));
        lemma_contains_insert(names_of(p), last, names_of(p).len() as int, name);
        assert(names_of(p).insert(names_of(p).len() as int, last) =~= names_of(configs));
        lemma_contains_insert(before, last, before.len() as int, name);
        if new != before {
            assert(before.insert(before.len() as int, last) =~= new);
            lemma_no_duplicates_insert(before, last, before.len() as int);
        }
    }
}

/// A bot whose status is noted shows that status, and no other bot changes.
pub proof fn a_status_is_noted_for_its_bot(
    old: Seq<BotInstance>,
    new: Seq<BotInstance>,
    name: Seq<char>,
    status: BotStatus,
    i: int,
)
    requires
        status_set(old, new, name, status),
        0 <= i < old.len(),
    ensures
        statuses_of(new).len() == statuses_of(old).len(),
        statuses_of(new)[i] == (if old[i].name@ == name {
            (name, status@)
        } else {
            statuses_of(old)[i]
        }),
        new[i].config_path == old[i].config_path,
{
    assert(new[i].name == old[i].name);
}

/// A track is shown while it plays, and only then; an error is shown with its
/// text.
pub proof fn a_status_shows_what_happened(event: RunnerEventView)
    ensures
        event matches RunnerEventView::Playing(track) ==> track.is_suffix_of(
            status_after(event).text(),
        ),
        event matches RunnerEventView::Error(text) ==> text.is_suffix_of(status_after(event).text()),
        status_after(event) is Playing <==> event is Playing,
        status_after(event) is Error <==> event is Error,
        status_after(event) is Disconnected <==> event is Disconnected,
        event is Idle ==> status_after(event) == status_after(RunnerEventView::Connected),
{
    let text = status_after(event).text();
    match event {
        RunnerEventView::Playing(t) => {
            assert(text.subrange(text.len() - t.len(), text.len() as int) =~= t);
        },
        RunnerEventView::Error(t) => {
            assert(text.subrange(text.len() - t.len(), text.len() as int) =~= t);
        },
        _ => {},
    }
}

} // verus!
