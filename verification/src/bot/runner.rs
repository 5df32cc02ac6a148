//! The bot's lifecycle as decisions.
//!
//! The command processor is a state machine: a command or an outside result
//! comes in, the playback state changes, and a list of actions says what has
//! to happen outside. Loading a track, asking a service and talking to the
//! server are done by whoever runs the machine, and what came of it is handed
//! back in.
use vstd::prelude::*;
use vstd::string::*;

use crate::bot::cache::{list_view, track_views};
use crate::bot::commands::{
    format_search_results, opt_view, results_text, shown_error, user_error, BotCommand,
    CommandView, PlaybackMode,
};
use crate::bot::queue::{PrevAction, Queue, QueueEntry, QueueView};
use crate::bot::state::{
    entries_for, entry_ids, new_song, new_songs, pick_from, pick_queued, source_queued, user_key, PlaybackStatus, PlayerState,
    RepeatMode,
};
use crate::config::{gender_for, parse_gender, smaller, BotConfig, ConfigChange, Gender};
use crate::services::Service;
use crate::text::{decimal, decimal_wide, digits, same, trim, trimmed, views};
use crate::track::{Track, TrackView};

verus! {

/// How the bot exited.
#[derive(Debug, Clone, Copy, PartialEq, Eq, Structural)]
pub enum BotExit {
    /// Clean quit (user sent quit command).
    Quit,
    /// Restart requested (user sent restart command).
    Restart,
    /// External shutdown signal (tray stop button, systemd stop).
    Shutdown,
}

/// Status events sent to the tray (or any observer).
#[derive(Debug, Clone)]
pub enum RunnerEvent {
    Connecting,
    Authenticating,
    Connected,
    Playing(String),
    Idle,
    Disconnected,
    Error(String),
}

/// A status event with its texts as sequences of characters.
pub enum RunnerEventView {
    Connecting,
    Authenticating,
    Connected,
    Playing(Seq<char>),
    Idle,
    Disconnected,
    Error(Seq<char>),
}

impl View for RunnerEvent {
    type V = RunnerEventView;

    open spec fn view(&self) -> RunnerEventView {
        match *self {
            RunnerEvent::Connecting => RunnerEventView::Connecting,
            RunnerEvent::Authenticating => RunnerEventView::Authenticating,
            RunnerEvent::Connected => RunnerEventView::Connected,
            RunnerEvent::Playing(name) => RunnerEventView::Playing(name@),
            RunnerEvent::Idle => RunnerEventView::Idle,
            RunnerEvent::Disconnected => RunnerEventView::Disconnected,
            RunnerEvent::Error(text) => RunnerEventView::Error(text@),
        }
    }
}

// ---- waiting time ----

/// How long the tracks of a list play, in milliseconds.
pub open spec fn total_ms(entries: Seq<QueueEntry>) -> nat
    decreases entries.len(),
{
    if entries.len() == 0 {
        0
    } else {
        total_ms(entries.drop_last()) + entries.last().track@.duration_ms() as nat
    }
}

/// What is left of a track.
pub open spec fn left_ms(t: TrackView, position_ms: u32) -> nat {
    if t.duration_ms() > position_ms {
        (t.duration_ms() - position_ms) as nat
    } else {
        0
    }
}

/// How long it takes until the last track of a line starts: the rest of the
/// current one and everything in between.
pub open spec fn wait_ms(q: QueueView, position_ms: u32, line: Seq<QueueEntry>) -> nat {
    (match q.current {
        Some(e) => left_ms(e.track@, position_ms),
        None => 0,
    }) + total_ms(line.drop_last())
}

/// The place of the last track of a line, which holds what plays next in its
/// order, and its estimated waiting time, in minutes rounded to the nearest.
pub open spec fn line_text(q: QueueView, position_ms: u32, line: Seq<QueueEntry>) -> Seq<char> {
    if q.current is None || line.len() == 0 {
        seq![]
    } else {
        let minutes = (wait_ms(q, position_ms, line) + 30_000) / 60_000;
        let place = if line.len() == 1 {
            "next"@
        } else {
            digits(line.len()) + " ahead"@
        };
        if minutes > 0 {
            " ("@ + place + ", ~"@ + digits(minutes) + " min)"@
        } else {
            " ("@ + place + ")"@
        }
    }
}

/// The place and the waiting time of the last track of the whole queue.
pub open spec fn wait_text(q: QueueView, position_ms: u32) -> Seq<char> {
    line_text(q, position_ms, q.coming())
}

/// The place and the waiting time of the last explicit pick: the source waits
/// behind it.
pub open spec fn pick_wait_text(q: QueueView, position_ms: u32) -> Seq<char> {
    line_text(q, position_ms, q.next_up)
}

proof fn lemma_total_ms(entries: Seq<QueueEntry>)
    ensures
        total_ms(entries) <= entries.len() * u32::MAX,
    decreases entries.len(),
{
    if entries.len() > 0 {
        lemma_total_ms(entries.drop_last());
        assert(entries.len() * u32::MAX == (entries.len() - 1) * u32::MAX + u32::MAX)
            by (nonlinear_arith);
    }
}

/// Format queue position and estimated wait time for a newly queued track.
/// Returns a string like " (3 ahead, ~8 min)" or empty if not applicable.
pub fn queue_wait_info(state: &PlayerState) -> (r: String)
    requires
        state.wf(),
    ensures
        r@ == wait_text(state.queue@, state.position_ms),
{
    let n: usize = state.upcoming_len();
    proof {
        let q = state.queue@;
        assert(q.coming().take(n as int) =~= q.coming());
    }
    line_wait_info(state, n)
}

/// The same for a newly queued pick, which plays before the source.
pub fn pick_wait_info(state: &PlayerState) -> (r: String)
    requires
        state.wf(),
    ensures
        r@ == pick_wait_text(state.queue@, state.position_ms),
{
    let n: usize = state.queue.next_up_len();
    proof {
        let q = state.queue@;
        assert(q.coming().take(n as int) =~= q.next_up);
    }
    line_wait_info(state, n)
}

fn line_wait_info(state: &PlayerState, n: usize) -> (r: String)
    requires
        state.wf(),
        n <= state.queue@.coming().len(),
    ensures
        r@ == line_text(
            state.queue@,
            state.position_ms,
            state.queue@.coming().take(n as int),
        ),
{
    let current = match state.current() {
        Some(entry) => entry,
        None => {
            return String::new();
        },
    };
    if n == 0 {
        return String::new();
    }
    let upcoming = state.upcoming();
    let ghost line = state.queue@.coming().take(n as int);
    let ghost between = line.drop_last();
    let mut wait: u128 = current.track.duration_ms().saturating_sub(state.position_ms) as u128;
    let ghost left = wait as nat;
    proof {
        lemma_total_ms(between);
        let m = between.len();
        assert(m * u32::MAX <= u64::MAX * u32::MAX) by (nonlinear_arith)
            requires
                m <= u64::MAX,
        ;
    }
    let mut i: usize = 0;
    while i < n - 1
        invariant
            i <= n - 1,
            n <= upcoming@.len(),
            upcoming@.len() == state.queue@.coming().len(),
            line == state.queue@.coming().take(n as int),
            between == line.drop_last(),
            forall|k: int|
                0 <= k < upcoming@.len() ==> *(#[trigger] upcoming@[k])
                    == state.queue@.coming()[k],
            wait == left + total_ms(between.take(i as int)),
            left + total_ms(between) + 30_000 <= u128::MAX,
        decreases n - i,
    {
        proof {
            assert(between.take(i + 1).drop_last() =~= between.take(i as int));
            assert(between.take(i + 1).last() == between[i as int]);
            lemma_total_ms_take(between, i + 1);
        }
        wait += upcoming[i].track.duration_ms() as u128;
        i += 1;
    }
    assert(between.take(i as int) =~= between);
    let minutes: u128 = (wait + 30_000) / 60_000;
    let mut out = String::from_str(" (");
    if n == 1 {
        out.append("next");
    } else {
        out.append(decimal(n as u64).as_str());
        out.append(" ahead");
    }
    if minutes > 0 {
        out.append(", ~");
        out.append(decimal_wide(minutes).as_str());
        out.append(" min)");
    } else {
        out.append(")");
    }
    out
}

proof fn lemma_total_ms_take(entries: Seq<QueueEntry>, n: int)
    requires
        0 <= n <= entries.len(),
    ensures
        total_ms(entries.take(n)) <= total_ms(entries),
    decreases entries.len() - n,
{
    if n == entries.len() {
        assert(entries.take(n) =~= entries);
    } else {
        lemma_total_ms_take(entries, n + 1);
        assert(entries.take(n + 1).drop_last() =~= entries.take(n));
    }
}

// ---- actions ----

/// What has to happen outside.
#[derive(Debug)]
pub enum Action {
    /// Send a text to a user.
    Reply { user_id: i32, text: String },
    /// Show a text as the bot's status.
    SetStatus(String),
    /// Tell the observer.
    Report(RunnerEvent),
    /// Stop both players, drop buffered audio and leave pause.
    StopAudio,
    /// Stop whatever plays and load this. What came of it goes to `started`.
    Load { service: Service, uri: String },
    /// Let both players go on.
    Resume,
    /// Hold both players.
    PauseAudio,
    /// Move within the current track.
    SeekTo { service: Service, position_ms: u32 },
    /// Begin to fetch a track ahead of time.
    Preload { uri: String },
    /// Look a query up. The answer goes to `resolved`.
    Resolve { service: Service, query: String, limit: u8, user_id: i32, user_name: String },
    /// Search. The answer goes to `searched`.
    Search { service: Service, query: String, limit: u8, user_id: i32 },
    /// Ask for recommendations because the queue ran out. The answer goes to
    /// `recommended`.
    Recommend { seed_uri: String, batch: u8, played: Vec<String>, user_id: i32 },
    /// Ask for recommendations ahead of time. The answer goes to `prefetched`.
    Prefetch { seed_uri: String, batch: u8, played: Vec<String> },
    /// Fetch the rest of a bulk load. Each batch goes to `bulk_batch`.
    LoadRest { generation: u64, requester: String },
    /// Send `RadioPreFetch` for this track after the configured delay, in
    /// place of any that is still waiting.
    SchedulePrefetch { seed_uri: String },
    /// Hand a command to the processor itself.
    Enqueue(BotCommand),
    /// Change the stored configuration.
    Save(ConfigChange),
    /// Save the volume once it has not changed for a while, then call
    /// `volume_saved`.
    SaveVolumeLater,
    /// Make a language the server default.
    SaveDefaultLanguage(String),
    /// Join a channel. Whether it exists goes to `channel_looked_up`.
    Join { path: String, user_id: i32 },
    ChangeNick(String),
    /// Show the bot with this gender and status.
    ShowGender { gender: Gender, status: String },
    /// Leave the server and end.
    Exit(BotExit),
}

/// A configuration change with its texts as sequences of characters.
pub enum ChangeView {
    Volume(u8),
    Radio(bool),
    Gender(Seq<char>),
    AtExit { radio: bool, volume: u8, repeat_track: bool, repeat_queue: bool, shuffle: bool },
}

pub open spec fn change_view(c: ConfigChange) -> ChangeView {
    match c {
        ConfigChange::Volume(volume) => ChangeView::Volume(volume),
        ConfigChange::Radio(on) => ChangeView::Radio(on),
        ConfigChange::Gender(gender) => ChangeView::Gender(gender@),
        ConfigChange::AtExit { radio, volume, repeat_track, repeat_queue, shuffle } =>
        ChangeView::AtExit { radio, volume, repeat_track, repeat_queue, shuffle },
    }
}

/// An action with its texts as sequences of characters.
pub enum ActionView {
    Reply { user_id: i32, text: Seq<char> },
    SetStatus(Seq<char>),
    Report(RunnerEventView),
    StopAudio,
    Load { service: Service, uri: Seq<char> },
    Resume,
    PauseAudio,
    SeekTo { service: Service, position_ms: u32 },
    Preload { uri: Seq<char> },
    Resolve {
        service: Service,
        query: Seq<char>,
        limit: u8,
        user_id: i32,
        user_name: Seq<char>,
    },
    Search { service: Service, query: Seq<char>, limit: u8, user_id: i32 },
    Recommend { seed_uri: Seq<char>, batch: u8, played: Seq<Seq<char>>, user_id: i32 },
    Prefetch { seed_uri: Seq<char>, batch: u8, played: Seq<Seq<char>> },
    LoadRest { generation: u64, requester: Seq<char> },
    SchedulePrefetch { seed_uri: Seq<char> },
    Enqueue(CommandView),
    Save(ChangeView),
    SaveVolumeLater,
    SaveDefaultLanguage(Seq<char>),
    Join { path: Seq<char>, user_id: i32 },
    ChangeNick(Seq<char>),
    ShowGender { gender: Gender, status: Seq<char> },
    Exit(BotExit),
}

impl View for Action {
    type V = ActionView;

    open spec fn view(&self) -> ActionView {
        match *self {
            Action::Reply { user_id, text } => ActionView::Reply { user_id, text: text@ },
            Action::SetStatus(text) => ActionView::SetStatus(text@),
            Action::Report(event) => ActionView::Report(event@),
            Action::StopAudio => ActionView::StopAudio,
            Action::Load { service, uri } => ActionView::Load { service, uri: uri@ },
            Action::Resume => ActionView::Resume,
            Action::PauseAudio => ActionView::PauseAudio,
            Action::SeekTo { service, position_ms } => ActionView::SeekTo { service, position_ms },
            Action::Preload { uri } => ActionView::Preload { uri: uri@ },
            Action::Resolve { service, query, limit, user_id, user_name } => ActionView::Resolve {
                service,
                query: query@,
                limit,
                user_id,
                user_name: user_name@,
            },
            Action::Search { service, query, limit, user_id } => ActionView::Search {
                service,
                query: query@,
                limit,
                user_id,
            },
            Action::Recommend { seed_uri, batch, played, user_id } => ActionView::Recommend {
                seed_uri: seed_uri@,
                batch,
                played: views(played@),
                user_id,
            },
            Action::Prefetch { seed_uri, batch, played } => ActionView::Prefetch {
                seed_uri: seed_uri@,
                batch,
                played: views(played@),
            },
            Action::LoadRest { generation, requester } => ActionView::LoadRest {
                generation,
                requester: requester@,
            },
            Action::SchedulePrefetch { seed_uri } => ActionView::SchedulePrefetch {
                seed_uri: seed_uri@,
            },
            Action::Enqueue(command) => ActionView::Enqueue(command@),
            Action::Save(change) => ActionView::Save(change_view(change)),
            Action::SaveVolumeLater => ActionView::SaveVolumeLater,
            Action::SaveDefaultLanguage(code) => ActionView::SaveDefaultLanguage(code@),
            Action::Join { path, user_id } => ActionView::Join { path: path@, user_id },
            Action::ChangeNick(name) => ActionView::ChangeNick(name@),
            Action::ShowGender { gender, status } => ActionView::ShowGender {
                gender,
                status: status@,
            },
            Action::Exit(reason) => ActionView::Exit(reason),
        }
    }
}

pub open spec fn action_views(v: Seq<Action>) -> Seq<ActionView> {
    v.map_values(|a: Action| a@)
}

fn act(out: &mut Vec<Action>, a: Action)
    ensures
        action_views(final(out)@) == action_views(old(out)@).push(a@),
{
    let ghost before = out@;
    out.push(a);
    assert(action_views(out@) =~= action_views(before).push(a@));
}

/// A reply, which only a real user gets: automatic commands carry no user.
pub open spec fn replies(user_id: i32, text: Seq<char>) -> Seq<ActionView> {
    if user_id > 0 {
        seq![ActionView::Reply { user_id, text }]
    } else {
        seq![]
    }
}

fn reply(out: &mut Vec<Action>, user_id: i32, text: String)
    ensures
        action_views(final(out)@) == action_views(old(out)@) + replies(user_id, text@),
{
    if user_id > 0 {
        act(out, Action::Reply { user_id, text });
        assert(action_views(out@) =~= action_views(old(out)@) + replies(user_id, text@));
    } else {
        assert(action_views(out@) + Seq::<ActionView>::empty() =~= action_views(out@));
    }
}

fn no_actions() -> (r: Vec<Action>)
    ensures
        action_views(r@) == Seq::<ActionView>::empty(),
{
    let r: Vec<Action> = Vec::new();
    assert(action_views(r@) =~= Seq::<ActionView>::empty());
    r
}

/// What it takes to be idle.
pub open spec fn going_idle() -> Seq<ActionView> {
    seq![
        ActionView::StopAudio,
        ActionView::SetStatus("Idle"@),
        ActionView::Report(RunnerEventView::Idle),
    ]
}

fn go_idle(out: &mut Vec<Action>)
    ensures
        action_views(final(out)@) == action_views(old(out)@) + going_idle(),
{
    let ghost before = action_views(out@);
    act(out, Action::StopAudio);
    act(out, Action::SetStatus(String::from_str("Idle")));
    act(out, Action::Report(RunnerEvent::Idle));
    assert(action_views(out@) =~= before + going_idle());
}

/// The status line for a track: with its number where there are several.
pub open spec fn status_text(name: Seq<char>, q: QueueView) -> Seq<char> {
    if q.place().1 > 1 {
        name + " ["@ + digits(q.place().0) + "/"@ + digits(q.place().1) + "]"@
    } else {
        name
    }
}

/// The status line for the track that plays.
pub fn now_playing_status(name: &str, state: &PlayerState) -> (r: String)
    requires
        state.wf(),
    ensures
        r@ == status_text(name@, state.queue@),
{
    let (position, total) = state.queue.position();
    let mut out = name.to_owned();
    if total > 1 {
        out.append(" [");
        out.append(decimal(position as u64).as_str());
        out.append("/");
        out.append(decimal(total as u64).as_str());
        out.append("]");
    }
    out
}

/// Showing a track as the one that plays.
pub open spec fn announcing(name: Seq<char>, q: QueueView) -> Seq<ActionView> {
    seq![
        ActionView::SetStatus(status_text(name, q)),
        ActionView::Report(RunnerEventView::Playing(name)),
    ]
}

fn announce(out: &mut Vec<Action>, name: &str, state: &PlayerState)
    requires
        state.wf(),
    ensures
        action_views(final(out)@) == action_views(old(out)@) + announcing(name@, state.queue@),
{
    let ghost before = action_views(out@);
    act(out, Action::SetStatus(now_playing_status(name, state)));
    act(out, Action::Report(RunnerEvent::Playing(name.to_owned())));
    assert(action_views(out@) =~= before + announcing(name@, state.queue@));
}

// ---- the processor ----

/// How many loads may be refused in a row before the bot gives up, so that a
/// queue full of dead entries does not loop forever.
pub const MAX_CONSECUTIVE_START_FAILURES: u32 = 3;

/// Whether recommendations are fetched once a track plays.
#[derive(Debug, Clone, Copy, PartialEq, Eq, Structural)]
pub enum PrefetchRule {
    Never,
    /// Where radio is on.
    IfRadio,
    /// Where radio is on, nothing is coming, and the track allows it.
    IfRadioAtEnd,
}

/// A track that was asked to play, until it is known whether it does.
#[derive(Debug)]
pub struct Pending {
    pub uri: String,
    pub name: String,
    pub user_id: i32,
    /// What the user is told once it plays.
    pub says: String,
    pub prefetch: PrefetchRule,
    /// Whether the bot goes idle where it does not play.
    pub last_resort: bool,
}

/// A pending track with its texts as sequences of characters.
pub struct PendingView {
    pub uri: Seq<char>,
    pub name: Seq<char>,
    pub user_id: i32,
    pub says: Seq<char>,
    pub prefetch: PrefetchRule,
    pub last_resort: bool,
}

impl View for Pending {
    type V = PendingView;

    open spec fn view(&self) -> PendingView {
        PendingView {
            uri: self.uri@,
            name: self.name@,
            user_id: self.user_id,
            says: self.says@,
            prefetch: self.prefetch,
            last_resort: self.last_resort,
        }
    }
}

pub open spec fn pending_view(p: Option<Pending>) -> Option<PendingView> {
    match p {
        Some(x) => Some(x@),
        None => None,
    }
}

pub struct Processor {
    pub state: PlayerState,
    /// Loads that were refused in a row.
    pub failures: u32,
    pub pending: Option<Pending>,
    /// A volume change waits to be saved.
    pub volume_unsaved: bool,
    /// The YouTube load that plays now.
    pub youtube_load: u64,
    pub search_limit: u8,
    pub radio_batch: u8,
}

/// Asking for a track to play, and what to do about it afterwards.
pub open spec fn loads(
    p: Processor,
    track: TrackView,
    user_id: i32,
    says: Seq<char>,
    prefetch: PrefetchRule,
    last_resort: bool,
) -> bool {
    pending_view(p.pending) == Some(
        PendingView {
            uri: track.uri(),
            name: track.display_name(),
            user_id,
            says,
            prefetch,
            last_resort,
        },
    )
}

/// Whether the recommendations for a track that now plays are fetched ahead.
pub open spec fn prefetches(state: PlayerState, rule: PrefetchRule) -> bool {
    match rule {
        PrefetchRule::Never => false,
        PrefetchRule::IfRadio => state.radio_enabled,
        PrefetchRule::IfRadioAtEnd => state.radio_enabled && state.queue@.coming().len() == 0
            && (state.queue@.current matches Some(e) && e.allow_recommend),
    }
}

pub open spec fn load_action(track: TrackView) -> ActionView {
    ActionView::Load { service: track.service(), uri: track.uri() }
}

/// The playback state with the queue forgotten.
pub open spec fn cleared(old: PlayerState, new: PlayerState) -> bool {
    &&& new.queue@ == old.queue@.emptied()
    &&& new == (PlayerState {
        queue: new.queue,
        status: PlaybackStatus::Idle,
        position_ms: 0,
        bulk_load_generation: (old.bulk_load_generation + 1) as u64,
        auto_advance_pending: false,
        ..old
    })
}

/// What a confirmed or refused load leads to.
pub open spec fn start_outcome(
    old: Processor,
    new: Processor,
    ok: bool,
    out: Seq<ActionView>,
) -> bool {
    match pending_view(old.pending) {
        None => new == old && out.len() == 0,
        Some(p) => {
            let failed = replies(p.user_id, "Failed to start track: "@ + p.name);
            let rest = if p.last_resort {
                going_idle()
            } else {
                seq![]
            };
            let gave_up = old.failures + 1 >= MAX_CONSECUTIVE_START_FAILURES;
            &&& new.pending is None
            &&& new == (Processor {
                state: new.state,
                failures: new.failures,
                pending: new.pending,
                ..old
            })
            &&& if ok {
                &&& new.failures == 0
                &&& new.state == (PlayerState {
                    status: PlaybackStatus::Loading,
                    tracks_played: (old.state.tracks_played + 1) as u32,
                    ..old.state
                })
                &&& out == replies(p.user_id, p.says) + announcing(p.name, old.state.queue@) + (
                if prefetches(new.state, p.prefetch) {
                    seq![ActionView::SchedulePrefetch { seed_uri: p.uri }]
                } else {
                    seq![]
                })
            } else if gave_up {
                &&& new.failures == 0
                &&& cleared(old.state, new.state)
                &&& out == failed + going_idle() + rest
            } else {
                &&& new.failures == old.failures + 1
                &&& new.state == (if p.last_resort {
                    PlayerState { status: PlaybackStatus::Idle, position_ms: 0, ..old.state }
                } else {
                    old.state
                })
                &&& out == failed + seq![
                    ActionView::Enqueue(
                        CommandView::Next { user_id: 0i32, after_track: Some(p.uri) },
                    ),
                ] + rest
            }
        },
    }
}

impl Processor {
    pub open spec fn wf(&self) -> bool {
        &&& self.state.wf()
        &&& self.failures < MAX_CONSECUTIVE_START_FAILURES
    }

    /// Whether the counters have room for one more step.
    pub open spec fn roomy(&self) -> bool {
        &&& self.state.bulk_load_generation < u64::MAX - 1
        &&& self.state.tracks_played < u32::MAX
        &&& self.state.queue@.lap() < usize::MAX
    }

    /// Whether the counters have room for one more step that brings this many
    /// tracks.
    pub fn room_for(&self, tracks: usize) -> (r: bool)
        requires
            self.wf(),
        ensures
            r == (self.roomy() && self.state.queue@.lap() + tracks <= usize::MAX),
    {
        let total: usize = self.state.queue.lap_len();
        self.state.bulk_load_generation < u64::MAX - 1 && self.state.tracks_played < u32::MAX
            && total < usize::MAX && tracks <= usize::MAX - total
    }

    /// Whether the current track can be left for a place this far away.
    pub fn can_seek(&self, offset_ms: i32) -> (r: bool)
        ensures
            r == seek_fits(self.state.position_ms, offset_ms),
    {
        let position: i64 = self.state.position_ms as i64;
        position <= i32::MAX as i64 && position + offset_ms as i64 <= i32::MAX as i64
    }

    /// The processor at startup.
    pub fn new(state: PlayerState, search_limit: u8, radio_batch: u8) -> (r: Self)
        requires
            state.wf(),
        ensures
            r.wf(),
            r.state == state,
            r.failures == 0,
            r.pending is None,
            !r.volume_unsaved,
            r.youtube_load == 0,
            r.search_limit == search_limit,
            r.radio_batch == radio_batch,
    {
        Processor {
            state,
            failures: 0,
            pending: None,
            volume_unsaved: false,
            youtube_load: 0,
            search_limit,
            radio_batch,
        }
    }

    fn load(
        &mut self,
        out: &mut Vec<Action>,
        track: &Track,
        user_id: i32,
        says: String,
        prefetch: PrefetchRule,
        last_resort: bool,
    )
        ensures
            action_views(final(out)@) == action_views(old(out)@).push(load_action(track@)),
            loads(*final(self), track@, user_id, says@, prefetch, last_resort),
            *final(self) == (Processor { pending: final(self).pending, ..*old(self) }),
    {
        act(out, Action::Load { service: track.service(), uri: track.uri().to_owned() });
        self.pending = Some(
            Pending {
                uri: track.uri().to_owned(),
                name: track.display_name(),
                user_id,
                says,
                prefetch,
                last_resort,
            },
        );
    }

    /// A load was confirmed (`ok`) or refused.
    pub fn started(&mut self, ok: bool) -> (r: Vec<Action>)
        requires
            old(self).wf(),
            old(self).roomy(),
        ensures
            final(self).wf(),
            start_outcome(*old(self), *final(self), ok, action_views(r@)),
    {
        let mut out = no_actions();
        let p = match self.pending.take() {
            Some(p) => p,
            None => {
                return out;
            },
        };
        if ok {
            self.failures = 0;
            self.state.status = PlaybackStatus::Loading;
            self.state.tracks_played += 1;
            reply(&mut out, p.user_id, p.says.clone());
            announce(&mut out, p.name.as_str(), &self.state);
            let at_end = self.state.upcoming_len() == 0 && (match self.state.current() {
                Some(entry) => entry.allow_recommend,
                None => false,
            });
            let wanted = match p.prefetch {
                PrefetchRule::Never => false,
                PrefetchRule::IfRadio => self.state.radio_enabled,
                PrefetchRule::IfRadioAtEnd => self.state.radio_enabled && at_end,
            };
            if wanted {
                act(&mut out, Action::SchedulePrefetch { seed_uri: p.uri });
            }
            assert(action_views(out@) =~= replies(p.user_id, p.says@) + announcing(
                p.name@,
                old(self).state.queue@,
            ) + (if wanted {
                seq![ActionView::SchedulePrefetch { seed_uri: p.uri@ }]
            } else {
                seq![]
            }));
            return out;
        }
        self.failures += 1;
        let mut text = String::from_str("Failed to start track: ");
        text.append(p.name.as_str());
        reply(&mut out, p.user_id, text);
        if self.failures >= MAX_CONSECUTIVE_START_FAILURES {
            self.failures = 0;
            self.state.clear();
            go_idle(&mut out);
        } else {
            act(
                &mut out,
                Action::Enqueue(BotCommand::Next { user_id: 0, after_track: Some(p.uri) }),
            );
        }
        if p.last_resort {
            self.state.status = PlaybackStatus::Idle;
            self.state.position_ms = 0;
            go_idle(&mut out);
        }
        proof {
            let failed = replies(p.user_id, "Failed to start track: "@ + p.name@);
            let rest = if p.last_resort {
                going_idle()
            } else {
                seq![]
            };
            if old(self).failures + 1 >= MAX_CONSECUTIVE_START_FAILURES {
                assert(action_views(out@) =~= failed + going_idle() + rest);
            } else {
                assert(action_views(out@) =~= failed + seq![
                    ActionView::Enqueue(
                        CommandView::Next { user_id: 0i32, after_track: Some(p.uri@) },
                    ),
                ] + rest);
            }
        }
        out
    }
}

// ---- queueing what was found ----

pub open spec fn more_text(more: bool) -> Seq<char> {
    if more {
        ", more loading"@
    } else {
        ""@
    }
}

/// What is said when a request starts to play at once.
pub open spec fn now_playing_text(first: Seq<char>, count: nat, more: bool) -> Seq<char> {
    if count > 1 {
        "Now playing: "@ + first + " (+"@ + digits((count - 1) as nat) + " queued"@ + more_text(
            more,
        ) + ")"@
    } else {
        "Now playing: "@ + first
    }
}

/// What is said when a request has to wait its turn.
pub open spec fn queued_text(first: Seq<char>, count: nat, wait: Seq<char>, more: bool) -> Seq<
    char,
> {
    if count > 1 {
        "Queued "@ + digits(count) + " tracks"@ + wait + more_text(more)
    } else {
        "Queued: "@ + first + wait
    }
}

fn say_more(more: bool) -> (r: &'static str)
    ensures
        r@ == more_text(more),
{
    if more {
        ", more loading"
    } else {
        ""
    }
}

fn say_now_playing(first: &str, count: usize, more: bool) -> (r: String)
    requires
        count > 0,
    ensures
        r@ == now_playing_text(first@, count as nat, more),
{
    let mut out = String::from_str("Now playing: ");
    out.append(first);
    if count > 1 {
        out.append(" (+");
        out.append(decimal(count as u64 - 1).as_str());
        out.append(" queued");
        out.append(say_more(more));
        out.append(")");
    }
    out
}

fn say_queued(first: &str, count: usize, wait: &str, more: bool) -> (r: String)
    ensures
        r@ == queued_text(first@, count as nat, wait@, more),
{
    if count > 1 {
        let mut out = String::from_str("Queued ");
        out.append(decimal(count as u64).as_str());
        out.append(" tracks");
        out.append(wait);
        out.append(say_more(more));
        out
    } else {
        let mut out = String::from_str("Queued: ");
        out.append(first);
        out.append(wait);
        out
    }
}

/// The state that a request finds: an idle bot starts over.
pub open spec fn ready(old: PlayerState) -> QueueView {
    if old.status == PlaybackStatus::Idle {
        old.queue@.emptied()
    } else {
        old.queue@
    }
}

/// How often a request makes background loads stale: once where it starts
/// over, and once where it starts one itself.
pub open spec fn generation_after(old: PlayerState, more: bool) -> int {
    old.bulk_load_generation + (if old.status == PlaybackStatus::Idle {
        1int
    } else {
        0int
    }) + (if more {
        1int
    } else {
        0int
    })
}

/// The state after a request, but for its queue.
pub open spec fn after_request(old: PlayerState, new: PlayerState, more: bool) -> bool {
    let idle = old.status == PlaybackStatus::Idle;
    new == (PlayerState {
        queue: new.queue,
        position_ms: if idle {
            0u32
        } else {
            old.position_ms
        },
        bulk_load_generation: generation_after(old, more) as u64,
        auto_advance_pending: !idle && old.auto_advance_pending,
        ..old
    })
}

/// What the answer to a query leads to.
pub open spec fn resolve_outcome(
    old: Processor,
    new: Processor,
    tracks: Seq<Track>,
    more: bool,
    user_id: i32,
    user_name: Seq<char>,
    out: Seq<ActionView>,
) -> bool {
    if tracks.len() == 0 {
        new == old && out == replies(user_id, "No results found"@)
    } else {
        let first = tracks[0]@;
        let name = first.display_name();
        let rest = if more {
            seq![
                ActionView::LoadRest {
                    generation: new.state.bulk_load_generation,
                    requester: user_name,
                },
            ]
        } else {
            seq![]
        };
        &&& after_request(old.state, new.state, more)
        &&& if tracks.len() > 1 {
            source_queued(
                ready(old.state),
                new.state.queue@,
                tracks,
                user_name,
                false,
                old.state.shuffle,
            )
        } else {
            pick_queued(ready(old.state), new.state.queue@, first, user_name, true)
        }
        &&& if old.state.status == PlaybackStatus::Idle {
            &&& out == rest + seq![load_action(first)]
            &&& loads(
                new,
                first,
                user_id,
                now_playing_text(name, tracks.len(), more),
                if tracks.len() > 1 {
                    PrefetchRule::Never
                } else {
                    PrefetchRule::IfRadio
                },
                false,
            )
            &&& new == (Processor { state: new.state, pending: new.pending, ..old })
        } else {
            &&& out == rest + replies(
                user_id,
                queued_text(
                    name,
                    tracks.len(),
                    if tracks.len() > 1 {
                        wait_text(new.state.queue@, new.state.position_ms)
                    } else {
                        pick_wait_text(new.state.queue@, new.state.position_ms)
                    },
                    more,
                ),
            )
            &&& new == (Processor { state: new.state, ..old })
        }
    }
}

/// The text and length of a track that may have been found.
pub open spec fn found_view(t: Option<Track>) -> Option<TrackView> {
    match t {
        Some(x) => Some(x@),
        None => None,
    }
}

/// What a pick from search results leads to.
pub open spec fn pick_outcome(
    old: Processor,
    new: Processor,
    picked: Option<TrackView>,
    user_id: i32,
    user_name: Seq<char>,
    out: Seq<ActionView>,
) -> bool {
    match picked {
        None => new == old && out == replies(user_id, "Invalid pick or no search results"@),
        Some(track) => {
            let name = track.display_name();
            &&& new.state.search_results@ == old.state.search_results@.remove(user_key(user_id))
            &&& old.state.search_results.answers().is_prefix_of(new.state.search_results.answers())
            &&& after_request(
                PlayerState { search_results: new.state.search_results, ..old.state },
                new.state,
                false,
            )
            &&& pick_queued(ready(old.state), new.state.queue@, track, user_name, true)
            &&& if old.state.status == PlaybackStatus::Idle {
                &&& out == seq![load_action(track)]
                &&& loads(
                    new,
                    track,
                    user_id,
                    "Now playing: "@ + name,
                    PrefetchRule::IfRadio,
                    false,
                )
                &&& new == (Processor { state: new.state, pending: new.pending, ..old })
            } else {
                &&& out == replies(
                    user_id,
                    queued_text(
                        name,
                        1,
                        pick_wait_text(new.state.queue@, new.state.position_ms),
                        false,
                    ),
                )
                &&& new == (Processor { state: new.state, ..old })
            }
        },
    }
}

/// What a batch of a background load leads to. A batch of a load that has
/// been overtaken is dropped.
pub open spec fn batch_outcome(
    old: Processor,
    new: Processor,
    generation: u64,
    tracks: Seq<Track>,
    requester: Seq<char>,
    out: Seq<ActionView>,
) -> bool {
    if old.state.bulk_load_generation != generation {
        new == old && out.len() == 0
    } else {
        &&& source_queued(
            old.state.queue@,
            new.state.queue@,
            tracks,
            requester,
            false,
            old.state.shuffle,
        )
        &&& new == (Processor {
            state: PlayerState { queue: new.state.queue, ..old.state },
            ..old
        })
        &&& out == (if old.state.queue@.current is None && tracks.len() > 0 {
            seq![ActionView::Enqueue(CommandView::StartCurrent)]
        } else {
            seq![]
        })
    }
}

impl Processor {
    /// The answer to a query came: its first tracks, and whether there are
    /// more to be fetched in the background.
    pub fn resolved(&mut self, tracks: Vec<Track>, more: bool, user_id: i32, user_name: &str) -> (r:
        Vec<Action>)
        requires
            old(self).wf(),
            old(self).roomy(),
            old(self).state.queue@.lap() + tracks@.len() <= usize::MAX,
        ensures
            final(self).wf(),
            resolve_outcome(
                *old(self),
                *final(self),
                tracks@,
                more,
                user_id,
                user_name@,
                action_views(r@),
            ),
    {
        let mut out = no_actions();
        let count: usize = tracks.len();
        if count == 0 {
            reply(&mut out, user_id, String::from_str("No results found"));
            assert(action_views(out@) =~= replies(user_id, "No results found"@));
            return out;
        }
        let first = tracks[0].clone();
        let name = first.display_name();
        let idle = self.state.status == PlaybackStatus::Idle;
        if idle {
            self.state.clear();
        }
        assert(self.state.queue@ == ready(old(self).state));
        if count > 1 {
            self.state.enqueue_source(tracks, user_name.to_owned(), false);
        } else {
            let mut single = tracks;
            if let Some(track) = single.pop() {
                self.enqueue_pick(track, user_name);
            }
        }
        let ghost rest = if more {
            seq![
                ActionView::LoadRest {
                    generation: (self.state.bulk_load_generation + 1) as u64,
                    requester: user_name@,
                },
            ]
        } else {
            seq![]
        };
        if more {
            let generation = self.state.begin_bulk_load();
            act(&mut out, Action::LoadRest { generation, requester: user_name.to_owned() });
        }
        assert(action_views(out@) =~= rest);
        if idle {
            let says = say_now_playing(name.as_str(), count, more);
            let rule = if count > 1 {
                PrefetchRule::Never
            } else {
                PrefetchRule::IfRadio
            };
            self.load(&mut out, &first, user_id, says, rule, false);
            assert(action_views(out@) =~= rest + seq![load_action(first@)]);
        } else {
            let wait = if count > 1 {
                queue_wait_info(&self.state)
            } else {
                pick_wait_info(&self.state)
            };
            reply(&mut out, user_id, say_queued(name.as_str(), count, wait.as_str(), more));
        }
        out
    }

    fn enqueue_pick(&mut self, track: Track, user_name: &str)
        requires
            old(self).state.wf(),
            old(self).state.queue@.lap() < usize::MAX,
        ensures
            final(self).state.wf(),
            pick_queued(
                old(self).state.queue@,
                final(self).state.queue@,
                track@,
                user_name@,
                true,
            ),
            *final(self) == (Processor {
                state: PlayerState { queue: final(self).state.queue, ..old(self).state },
                ..*old(self)
            }),
    {
        let requester = user_name.to_owned();
        let ghost entry = QueueEntry { track, requester, allow_recommend: true };
        self.state.enqueue_next(track, requester, true);
        assert(entry.track@ == track@);
    }

    /// A query failed.
    pub fn resolve_failed(&mut self, error: &str, user_id: i32) -> (r: Vec<Action>)
        ensures
            *final(self) == *old(self),
            action_views(r@) == replies(user_id, "Search failed: "@ + shown_error(error@)),
    {
        failure_reply(user_id, "Search failed: ", error)
    }

    /// The Spotify session could not be connected.
    pub fn connect_failed(&mut self, error: &str, user_id: i32) -> (r: Vec<Action>)
        ensures
            *final(self) == *old(self),
            action_views(r@) == replies(user_id, "Spotify unavailable: "@ + shown_error(error@)),
    {
        failure_reply(user_id, "Spotify unavailable: ", error)
    }

    /// Search results came: the user gets them listed and can pick from them.
    pub fn searched(&mut self, tracks: Vec<Track>, header: &str, footer: &str, user_id: i32) -> (r:
        Vec<Action>)
        ensures
            action_views(r@) == replies(user_id, results_text(tracks@, header@, footer@)),
            final(self).state.search_results@ == old(self).state.search_results@.insert(
                user_key(user_id),
                track_views(tracks@),
            ),
            *final(self) == (Processor {
                state: PlayerState {
                    search_results: final(self).state.search_results,
                    ..old(self).state
                },
                ..*old(self)
            }),
    {
        let mut out = no_actions();
        let text = format_search_results(tracks.as_slice(), header, footer);
        reply(&mut out, user_id, text);
        self.state.insert_search_results(user_id, tracks);
        assert(action_views(out@) =~= replies(user_id, text@));
        out
    }

    /// A pick from search results, with the track that it found.
    pub fn picked(&mut self, track: Option<Track>, user_id: i32, user_name: &str) -> (r: Vec<
        Action,
    >)
        requires
            old(self).wf(),
            old(self).roomy(),
        ensures
            final(self).wf(),
            pick_outcome(
                *old(self),
                *final(self),
                found_view(track),
                user_id,
                user_name@,
                action_views(r@),
            ),
    {
        let mut out = no_actions();
        let track = match track {
            Some(track) => track,
            None => {
                let text = String::from_str("Invalid pick or no search results");
                reply(&mut out, user_id, text);
                assert(action_views(out@) =~= replies(user_id, text@));
                return out;
            },
        };
        let _ = self.state.remove_search_results(user_id);
        assert(old(self).state.search_results.answers().is_prefix_of(
            self.state.search_results.answers(),
        )) by {
            let now = self.state.search_results.answers();
            assert(now.drop_last() =~= now.subrange(0, now.len() - 1));
        }
        let idle = self.state.status == PlaybackStatus::Idle;
        if idle {
            self.state.clear();
        }
        assert(self.state.queue@ == ready(old(self).state));
        let copy = track.clone();
        let name = copy.display_name();
        self.enqueue_pick(track, user_name);
        if idle {
            let says = say_now_playing(name.as_str(), 1, false);
            self.load(&mut out, &copy, user_id, says, PrefetchRule::IfRadio, false);
            assert(action_views(out@) =~= seq![load_action(copy@)]);
        } else {
            let wait = pick_wait_info(&self.state);
            let text = say_queued(name.as_str(), 1, wait.as_str(), false);
            reply(&mut out, user_id, text);
            assert(action_views(out@) =~= replies(user_id, text@));
        }
        out
    }

    /// The YouTube player has begun a load, or given one up: only the end of a
    /// track of this generation counts from now on.
    pub fn youtube_loaded(&mut self, generation: u64)
        ensures
            *final(self) == (Processor { youtube_load: generation, ..*old(self) }),
    {
        self.youtube_load = generation;
    }

    /// Whether a background load is still wanted: a stop, a cleared queue or a
    /// newer load ends it.
    pub fn load_goes_on(&self, generation: u64) -> (r: bool)
        ensures
            r == (self.state.bulk_load_generation == generation),
    {
        self.state.bulk_load_generation == generation
    }

    /// A batch of a background load came.
    pub fn bulk_batch(&mut self, generation: u64, tracks: Vec<Track>, requester: &str) -> (r: Vec<
        Action,
    >)
        requires
            old(self).wf(),
            old(self).state.queue@.lap() + tracks@.len() <= usize::MAX,
        ensures
            final(self).wf(),
            batch_outcome(
                *old(self),
                *final(self),
                generation,
                tracks@,
                requester@,
                action_views(r@),
            ),
    {
        let mut out = no_actions();
        if self.state.bulk_load_generation != generation {
            return out;
        }
        let dry = self.state.current().is_none();
        let some = tracks.len() > 0;
        self.state.enqueue_source(tracks, requester.to_owned(), false);
        if dry && some {
            act(&mut out, Action::Enqueue(BotCommand::StartCurrent));
        }
        assert(action_views(out@) =~= (if dry && some {
            seq![ActionView::Enqueue(CommandView::StartCurrent)]
        } else {
            seq![]
        }));
        out
    }
}

fn failure_reply(user_id: i32, what: &str, error: &str) -> (r: Vec<Action>)
    ensures
        action_views(r@) == replies(user_id, what@ + shown_error(error@)),
{
    let mut out = no_actions();
    let mut text = what.to_owned();
    text.append(user_error(error).as_str());
    reply(&mut out, user_id, text);
    assert(action_views(out@) =~= replies(user_id, text@));
    out
}

/// What to do after a call for metadata.
#[derive(Debug, Clone, Copy, PartialEq, Eq, Structural)]
pub enum AfterCall {
    /// Go on with what came back, be it an error.
    Take,
    /// Try to connect again first.
    Reconnect,
    /// Make the call once more.
    Again,
}

/// What follows a call for metadata.
pub open spec fn call_step(failed: bool, reconnected: Option<bool>, retried: bool) -> AfterCall {
    if !failed || retried {
        AfterCall::Take
    } else {
        match reconnected {
            None => AfterCall::Reconnect,
            Some(true) => AfterCall::Again,
            Some(false) => AfterCall::Take,
        }
    }
}

/// Decide after a call for metadata: one that failed is made once more, where
/// connecting again succeeded. `reconnected` is `None` before that was tried.
pub fn after_call(failed: bool, reconnected: Option<bool>, retried: bool) -> (r: AfterCall)
    ensures
        r == call_step(failed, reconnected, retried),
{
    if !failed || retried {
        return AfterCall::Take;
    }
    match reconnected {
        None => AfterCall::Reconnect,
        Some(worked) => if worked {
            AfterCall::Again
        } else {
            AfterCall::Take
        },
    }
}

/// How many tracks each background batch fetches. Pacing keeps the request
/// stream looking like a normal client.
pub const BULK_BG_BATCH: usize = 25;

/// The pause between two batches.
pub const BULK_BG_DELAY_SECS: u64 = 1;

/// Where a batch of so many tracks ends.
pub open spec fn batch_until(from: int, total: int) -> int {
    if from + BULK_BG_BATCH <= total {
        from + BULK_BG_BATCH
    } else {
        total
    }
}

/// Where the batch that begins at `from` ends, of `total` tracks.
pub fn batch_end(from: usize, total: usize) -> (r: usize)
    requires
        from <= total,
    ensures
        r == batch_until(from as int, total as int),
{
    if total - from >= BULK_BG_BATCH {
        from + BULK_BG_BATCH
    } else {
        total
    }
}

// ---- moving through the queue ----

/// Whether an automatic advance is meant for a track that no longer plays.
pub open spec fn stale_advance(q: QueueView, after_track: Option<Seq<char>>) -> bool {
    after_track matches Some(uri) && !(q.current matches Some(e) && e.track@.uri() == uri)
}

/// The track from which radio goes on when the queue has run out. Repeat means
/// "keep playing what is here", so radio adds nothing while it holds.
pub open spec fn radio_seed(state: PlayerState) -> Option<TrackView> {
    match state.queue@.current {
        Some(e) => if state.radio_enabled && e.allow_recommend && state.repeat == RepeatMode::Off {
            Some(e.track@)
        } else {
            None
        },
        None => None,
    }
}

/// What advancing leads to.
pub open spec fn next_outcome(
    old: Processor,
    new: Processor,
    user_id: i32,
    after_track: Option<Seq<char>>,
    out: Seq<ActionView>,
) -> bool {
    let q = old.state.queue@;
    let ended = after_track is Some;
    let pending_advance = old.state.auto_advance_pending && !ended;
    if stale_advance(q, after_track) {
        &&& out.len() == 0
        &&& new == (Processor {
            state: PlayerState { auto_advance_pending: false, ..old.state },
            ..old
        })
    } else {
        &&& q.advances_to(new.state.queue@, old.state.repeat, old.state.shuffle, ended)
        &&& match new.state.queue@.current {
            Some(e) => {
                &&& out == seq![load_action(e.track@)]
                &&& loads(
                    new,
                    e.track@,
                    user_id,
                    "Now playing: "@ + e.track@.display_name(),
                    PrefetchRule::IfRadioAtEnd,
                    false,
                )
                &&& new == (Processor {
                    state: PlayerState {
                        queue: new.state.queue,
                        auto_advance_pending: pending_advance,
                        ..old.state
                    },
                    pending: new.pending,
                    ..old
                })
            },
            None => match radio_seed(old.state) {
                Some(seed) => {
                    &&& out == seq![
                        ActionView::Recommend {
                            seed_uri: seed.uri(),
                            batch: old.radio_batch,
                            played: entry_ids(q.everything()),
                            user_id,
                        },
                    ]
                    &&& new == (Processor {
                        state: PlayerState {
                            queue: new.state.queue,
                            auto_advance_pending: pending_advance,
                            ..old.state
                        },
                        ..old
                    })
                },
                None => {
                    &&& out == replies(user_id, "End of queue"@) + going_idle()
                    &&& new == (Processor {
                        state: PlayerState {
                            queue: new.state.queue,
                            status: PlaybackStatus::Idle,
                            position_ms: 0,
                            auto_advance_pending: pending_advance,
                            ..old.state
                        },
                        ..old
                    })
                },
            },
        }
    }
}

/// What stepping back leads to.
pub open spec fn prev_outcome(
    old: Processor,
    new: Processor,
    user_id: i32,
    out: Seq<ActionView>,
) -> bool {
    let q = old.state.queue@;
    match q.prev_action(old.state.position_ms) {
        PrevAction::RestartCurrent => {
            &&& q.current matches Some(e) && out == seq![
                ActionView::SeekTo { service: e.track@.service(), position_ms: 0u32 },
            ]
            &&& new.state.queue@ == q
            &&& new == (Processor {
                state: PlayerState { queue: new.state.queue, position_ms: 0, ..old.state },
                ..old
            })
        },
        PrevAction::MovedBack => {
            let track = q.history.last().track@;
            &&& new.state.queue@ == q.moved_back()
            &&& out == seq![load_action(track)]
            &&& loads(
                new,
                track,
                user_id,
                "Now playing: "@ + track.display_name(),
                PrefetchRule::Never,
                false,
            )
            &&& new == (Processor {
                state: PlayerState { queue: new.state.queue, ..old.state },
                pending: new.pending,
                ..old
            })
        },
        PrevAction::NothingBehind => {
            &&& out.len() == 0
            &&& new.state.queue@ == q
            &&& new == (Processor {
                state: PlayerState { queue: new.state.queue, ..old.state },
                ..old
            })
        },
    }
}

/// Where a seek leads.
pub open spec fn seek_target(position_ms: u32, offset_ms: i32) -> int {
    if position_ms + offset_ms < 0 {
        0
    } else {
        position_ms + offset_ms
    }
}

/// Whether a seek stays within what a position can express.
pub open spec fn seek_fits(position_ms: u32, offset_ms: i32) -> bool {
    position_ms <= i32::MAX && position_ms + offset_ms <= i32::MAX
}

/// The service whose player has the current track, or the active one.
pub open spec fn playing_service(state: PlayerState) -> Service {
    match state.queue@.current {
        Some(e) => e.track@.service(),
        None => state.active_service,
    }
}

/// What the answer of the radio leads to.
#[derive(Debug)]
pub enum RadioAnswer {
    /// The seed is nothing that radio can start from.
    NoSeed,
    Tracks(Vec<Track>),
    Failed(String),
}

/// Nothing plays any more.
pub open spec fn idled(old: Processor, new: Processor) -> bool {
    new == (Processor {
        state: PlayerState { status: PlaybackStatus::Idle, position_ms: 0, ..old.state },
        ..old
    })
}

pub open spec fn radio_outcome(
    old: Processor,
    new: Processor,
    answer: RadioAnswer,
    user_id: i32,
    out: Seq<ActionView>,
) -> bool {
    match answer {
        RadioAnswer::NoSeed => idled(old, new) && out == going_idle(),
        RadioAnswer::Failed(error) => idled(old, new) && out == replies(
            user_id,
            "Radio failed: "@ + shown_error(error@),
        ) + going_idle(),
        RadioAnswer::Tracks(tracks) => {
            let fresh = new_songs(old.state.queue@, tracks@, tracks@.len() as int);
            if fresh.len() == 0 {
                idled(old, new) && out == replies(user_id, "Radio: no recommendations found"@)
                    + going_idle()
            } else {
                &&& source_queued(
                    old.state.queue@,
                    new.state.queue@,
                    fresh,
                    "Radio"@,
                    true,
                    old.state.shuffle,
                )
                &&& new.state.queue@.current matches Some(e) && {
                    &&& out == seq![load_action(e.track@)]
                    &&& loads(
                        new,
                        e.track@,
                        user_id,
                        "Radio: "@ + e.track@.display_name(),
                        PrefetchRule::Never,
                        true,
                    )
                }
                &&& new == (Processor {
                    state: PlayerState { queue: new.state.queue, ..old.state },
                    pending: new.pending,
                    ..old
                })
            }
        },
    }
}

/// What recommendations that were fetched ahead of time lead to.
pub open spec fn prefetch_outcome(old: Processor, new: Processor, tracks: Seq<Track>) -> bool {
    let fresh = new_songs(old.state.queue@, tracks, tracks.len() as int);
    if old.state.repeat != RepeatMode::Off || fresh.len() == 0 {
        new == old
    } else {
        &&& source_queued(
            old.state.queue@,
            new.state.queue@,
            fresh,
            "Radio"@,
            true,
            old.state.shuffle,
        )
        &&& new == (Processor {
            state: PlayerState { queue: new.state.queue, ..old.state },
            ..old
        })
    }
}

/// Whether recommendations are still wanted for the track they were scheduled
/// for.
pub open spec fn wants_prefetch(state: PlayerState, seed_uri: Seq<char>) -> bool {
    &&& state.status != PlaybackStatus::Idle
    &&& radio_seed(state) matches Some(t) && t.uri() == seed_uri
    &&& state.queue@.coming().len() == 0
}

proof fn lemma_source_starts(
    old: QueueView,
    new: QueueView,
    tracks: Seq<Track>,
    requester: Seq<char>,
    allow_recommend: bool,
    shuffle: bool,
)
    requires
        old.wf(),
        tracks.len() > 0,
        source_queued(old, new, tracks, requester, allow_recommend, shuffle),
    ensures
        new.current is Some,
{
}

proof fn lemma_new_songs_len(q: QueueView, tracks: Seq<Track>, n: int)
    requires
        0 <= n,
    ensures
        new_songs(q, tracks, n).len() <= n,
    decreases n,
{
    if n > 0 {
        lemma_new_songs_len(q, tracks, n - 1);
    }
}

impl Processor {
    /// The track that plays now: its address and whether radio may go on from
    /// it.
    fn seed(&self) -> (r: Option<String>)
        ensures
            match r {
                Some(uri) => radio_seed(self.state) matches Some(t) && t.uri() == uri@,
                None => radio_seed(self.state) is None,
            },
    {
        match self.state.current() {
            Some(entry) => {
                if self.state.radio_enabled && entry.allow_recommend && !self.state.repeat_active() {
                    Some(entry.track.uri().to_owned())
                } else {
                    None
                }
            },
            None => None,
        }
    }

    fn current_uri_is(&self, uri: &str) -> (r: bool)
        ensures
            r == (self.state.queue@.current matches Some(e) && e.track@.uri() == uri@),
    {
        match self.state.current() {
            Some(entry) => same(entry.track.uri(), uri),
            None => false,
        }
    }

    /// Load the current track.
    fn load_current(
        &mut self,
        out: &mut Vec<Action>,
        user_id: i32,
        what: &str,
        prefetch: PrefetchRule,
        last_resort: bool,
    )
        requires
            old(self).state.queue@.current is Some,
        ensures
            old(self).state.queue@.current matches Some(e) && {
                &&& action_views(final(out)@) == action_views(old(out)@).push(
                    load_action(e.track@),
                )
                &&& loads(
                    *final(self),
                    e.track@,
                    user_id,
                    what@ + e.track@.display_name(),
                    prefetch,
                    last_resort,
                )
            },
            *final(self) == (Processor { pending: final(self).pending, ..*old(self) }),
    {
        if let Some(entry) = self.state.current() {
            let track = entry.track.clone();
            let mut says = what.to_owned();
            says.append(track.display_name().as_str());
            self.load(out, &track, user_id, says, prefetch, last_resort);
        }
    }

    /// Advance: because a user asked to skip, or because a track is done.
    pub fn next(&mut self, user_id: i32, after_track: Option<String>) -> (r: Vec<Action>)
        requires
            old(self).wf(),
        ensures
            final(self).wf(),
            next_outcome(
                *old(self),
                *final(self),
                user_id,
                opt_view(after_track),
                action_views(r@),
            ),
    {
        let mut out = no_actions();
        let ended = match after_track {
            Some(uri) => {
                self.state.release_auto_advance();
                // Dropped where the queue already moved past that track.
                if !self.current_uri_is(uri.as_str()) {
                    return out;
                }
                true
            },
            None => false,
        };
        let seed = self.seed();
        let played = self.state.known_ids();
        let found = if ended {
            self.state.advance().is_some()
        } else {
            self.state.advance_manual().is_some()
        };
        if found {
            self.load_current(
                &mut out,
                user_id,
                "Now playing: ",
                PrefetchRule::IfRadioAtEnd,
                false,
            );
            assert(self.state.queue@.current matches Some(e) && action_views(out@) =~= seq![
                load_action(e.track@),
            ]);
            return out;
        }
        match seed {
            Some(seed_uri) => {
                let batch = self.radio_batch;
                act(&mut out, Action::Recommend { seed_uri, batch, played, user_id });
                assert(action_views(out@) =~= seq![
                    ActionView::Recommend {
                        seed_uri: seed_uri@,
                        batch,
                        played: entry_ids(old(self).state.queue@.everything()),
                        user_id,
                    },
                ]);
            },
            None => {
                reply(&mut out, user_id, String::from_str("End of queue"));
                // Nothing left playing: a clean idle state, so the status line
                // and the playback status don't stay stuck on "Playing".
                self.state.status = PlaybackStatus::Idle;
                self.state.position_ms = 0;
                go_idle(&mut out);
                assert(action_views(out@) =~= replies(user_id, "End of queue"@) + going_idle());
            },
        }
        out
    }

    /// The radio seed was understood and recommendations are being fetched.
    pub fn fetching(&self, user_id: i32) -> (r: Vec<Action>)
        ensures
            action_views(r@) == replies(user_id, "Radio: fetching recommendations..."@),
    {
        let mut out = no_actions();
        let text = String::from_str("Radio: fetching recommendations...");
        reply(&mut out, user_id, text);
        assert(action_views(out@) =~= replies(user_id, text@));
        out
    }

    /// The answer of the radio came after the queue had run out.
    pub fn recommended(&mut self, answer: RadioAnswer, user_id: i32) -> (r: Vec<Action>)
        requires
            old(self).wf(),
            answer matches RadioAnswer::Tracks(tracks) ==> old(self).state.queue@.lap()
                + tracks@.len() <= usize::MAX,
        ensures
            final(self).wf(),
            radio_outcome(*old(self), *final(self), answer, user_id, action_views(r@)),
    {
        let mut out = no_actions();
        let ghost given = answer;
        match answer {
            RadioAnswer::NoSeed => {},
            RadioAnswer::Failed(error) => {
                let mut text = String::from_str("Radio failed: ");
                text.append(user_error(error.as_str()).as_str());
                reply(&mut out, user_id, text);
            },
            RadioAnswer::Tracks(tracks) => {
                proof {
                    lemma_new_songs_len(self.state.queue@, tracks@, tracks@.len() as int);
                }
                let fresh = self.state.filter_unqueued_similar(tracks);
                if fresh.len() > 0 {
                    let ghost before = self.state.queue@;
                    let ghost songs = fresh@;
                    self.state.enqueue_source(fresh, String::from_str("Radio"), true);
                    proof {
                        lemma_source_starts(
                            before,
                            self.state.queue@,
                            songs,
                            "Radio"@,
                            true,
                            self.state.shuffle,
                        );
                    }
                    self.load_current(&mut out, user_id, "Radio: ", PrefetchRule::Never, true);
                    assert(self.state.queue@.current matches Some(e) && action_views(out@) =~= seq![
                        load_action(e.track@),
                    ]);
                    return out;
                }
                reply(&mut out, user_id, String::from_str("Radio: no recommendations found"));
            },
        }
        self.state.status = PlaybackStatus::Idle;
        self.state.position_ms = 0;
        go_idle(&mut out);
        proof {
            match given {
                RadioAnswer::NoSeed => {
                    assert(action_views(out@) =~= going_idle());
                },
                RadioAnswer::Failed(error) => {
                    assert(action_views(out@) =~= replies(
                        user_id,
                        "Radio failed: "@ + shown_error(error@),
                    ) + going_idle());
                },
                RadioAnswer::Tracks(_) => {
                    assert(action_views(out@) =~= replies(
                        user_id,
                        "Radio: no recommendations found"@,
                    ) + going_idle());
                },
            }
        }
        out
    }

    /// Recommendations that were fetched ahead of time came.
    pub fn prefetched(&mut self, tracks: Vec<Track>)
        requires
            old(self).wf(),
            old(self).state.queue@.lap() + tracks@.len() <= usize::MAX,
        ensures
            final(self).wf(),
            prefetch_outcome(*old(self), *final(self), tracks@),
    {
        proof {
            lemma_new_songs_len(self.state.queue@, tracks@, tracks@.len() as int);
        }
        if self.state.repeat_active() {
            return;
        }
        let fresh = self.state.filter_unqueued_similar(tracks);
        if fresh.len() > 0 {
            self.state.enqueue_source(fresh, String::from_str("Radio"), true);
        }
    }

    /// Step back.
    pub fn prev(&mut self, user_id: i32) -> (r: Vec<Action>)
        requires
            old(self).wf(),
        ensures
            final(self).wf(),
            prev_outcome(*old(self), *final(self), user_id, action_views(r@)),
    {
        let mut out = no_actions();
        let position = self.state.position_ms;
        match self.state.go_prev(position) {
            PrevAction::RestartCurrent => {
                if let Some(entry) = self.state.current() {
                    let service = entry.track.service();
                    act(&mut out, Action::SeekTo { service, position_ms: 0 });
                    assert(action_views(out@) =~= seq![
                        ActionView::SeekTo { service, position_ms: 0u32 },
                    ]);
                }
                self.state.position_ms = 0;
            },
            PrevAction::MovedBack => {
                self.load_current(
                    &mut out,
                    user_id,
                    "Now playing: ",
                    PrefetchRule::Never,
                    false,
                );
                assert(self.state.queue@.current matches Some(e) && action_views(out@) =~= seq![
                    load_action(e.track@),
                ]);
            },
            PrevAction::NothingBehind => {},
        }
        out
    }

    /// Move within the current track. The new position counts at once, so a
    /// rapid second seek goes on from the intended target.
    pub fn seek(&mut self, offset_ms: i32) -> (r: Vec<Action>)
        requires
            seek_fits(old(self).state.position_ms, offset_ms),
        ensures
            action_views(r@) == seq![
                ActionView::SeekTo {
                    service: playing_service(old(self).state),
                    position_ms: seek_target(old(self).state.position_ms, offset_ms) as u32,
                },
            ],
            *final(self) == (Processor {
                state: PlayerState {
                    position_ms: seek_target(old(self).state.position_ms, offset_ms) as u32,
                    ..old(self).state
                },
                ..*old(self)
            }),
    {
        let mut out = no_actions();
        let target: i64 = self.state.position_ms as i64 + offset_ms as i64;
        let position_ms: u32 = if target < 0 {
            0
        } else {
            target as u32
        };
        let service = match self.state.current() {
            Some(entry) => entry.track.service(),
            None => self.state.active_service,
        };
        self.state.position_ms = position_ms;
        act(&mut out, Action::SeekTo { service, position_ms });
        assert(action_views(out@) =~= seq![ActionView::SeekTo { service, position_ms }]);
        out
    }

    /// A volume change has been saved.
    pub fn volume_saved(&mut self)
        ensures
            *final(self) == (Processor { volume_unsaved: false, ..*old(self) }),
    {
        self.volume_unsaved = false;
    }

    /// Whether a channel that a user wants the bot in exists.
    pub fn channel_looked_up(&self, found: bool, path: &str, user_id: i32) -> (r: Vec<Action>)
        ensures
            action_views(r@) == (if found {
                seq![]
            } else {
                replies(user_id, "Channel not found: "@ + path@)
            }),
    {
        let mut out = no_actions();
        if !found {
            let mut text = String::from_str("Channel not found: ");
            text.append(path);
            reply(&mut out, user_id, text);
            assert(action_views(out@) =~= replies(user_id, text@));
        }
        out
    }
}

// ---- commands ----

/// The repeat mode that a mode command asks for. Shuffle is not touched.
pub open spec fn repeat_for(mode: PlaybackMode) -> RepeatMode {
    match mode {
        PlaybackMode::RepeatTrack => RepeatMode::Track,
        PlaybackMode::RepeatQueue => RepeatMode::Queue,
        PlaybackMode::Off => RepeatMode::Off,
    }
}

/// The state is changed in this way and nothing else is.
pub open spec fn only_state(old: Processor, new: Processor, state: PlayerState) -> bool {
    new == (Processor { state, ..old })
}

/// What an end of the bot leads to.
pub open spec fn exit_actions(state: PlayerState, volume: u8, reason: BotExit) -> Seq<ActionView> {
    seq![
        ActionView::StopAudio,
        ActionView::SetStatus("Idle"@),
        ActionView::Report(RunnerEventView::Idle),
        ActionView::Save(
            ChangeView::AtExit {
                radio: state.radio_enabled,
                volume,
                repeat_track: state.repeat == RepeatMode::Track,
                repeat_queue: state.repeat == RepeatMode::Queue,
                shuffle: state.shuffle,
            },
        ),
        ActionView::Exit(reason),
    ]
}

/// The status line as it is now.
pub open spec fn current_status(state: PlayerState) -> Seq<char> {
    match state.queue@.current {
        Some(e) => status_text(e.track@.display_name(), state.queue@),
        None => "Idle"@,
    }
}

/// Sending an automatic advance, unless one is on its way already.
pub open spec fn auto_advance(
    old: Processor,
    new: Processor,
    uri: Option<Seq<char>>,
    out: Seq<ActionView>,
) -> bool {
    &&& new == (Processor {
        state: PlayerState { auto_advance_pending: true, ..old.state },
        ..old
    })
    &&& out == (if old.state.auto_advance_pending {
        seq![]
    } else {
        seq![ActionView::Enqueue(CommandView::Next { user_id: 0i32, after_track: uri })]
    })
}

/// The address of the current track.
pub open spec fn current_uri(state: PlayerState) -> Option<Seq<char>> {
    match state.queue@.current {
        Some(e) => Some(e.track@.uri()),
        None => None,
    }
}

/// What the commands that only change settings lead to.
pub open spec fn setting_outcome(
    old: Processor,
    new: Processor,
    command: CommandView,
    out: Seq<ActionView>,
) -> bool {
    match command {
        CommandView::SetVolume { .. } => {
            &&& new == (Processor { volume_unsaved: true, ..old })
            &&& out == (if old.volume_unsaved {
                seq![]
            } else {
                seq![ActionView::SaveVolumeLater]
            })
        },
        CommandView::SetMode { mode, .. } => {
            &&& out.len() == 0
            &&& only_state(old, new, PlayerState { repeat: repeat_for(mode), ..old.state })
        },
        CommandView::SetShuffle { enable, .. } => {
            &&& out.len() == 0
            &&& only_state(
                old,
                new,
                PlayerState { queue: new.state.queue, shuffle: enable, ..old.state },
            )
            &&& if enable {
                old.state.queue@.shuffled_to(new.state.queue@)
            } else {
                new.state.queue == old.state.queue
            }
        },
        CommandView::RadioToggle { enable, .. } => {
            &&& out == seq![ActionView::Save(ChangeView::Radio(enable))]
            &&& only_state(old, new, PlayerState { radio_enabled: enable, ..old.state })
        },
        CommandView::SetService { service, .. } => {
            &&& out.len() == 0
            &&& only_state(old, new, PlayerState { active_service: service, ..old.state })
        },
        CommandView::SetGender { gender, .. } => {
            &&& new == old
            &&& out == seq![
                ActionView::ShowGender {
                    gender: gender_for(gender),
                    status: current_status(old.state),
                },
                ActionView::Save(ChangeView::Gender(gender)),
            ]
        },
        CommandView::SetDefaultLanguage { code, .. } => {
            &&& new == old
            &&& out == seq![ActionView::SaveDefaultLanguage(code)]
        },
        CommandView::ChangeNick { name, .. } => {
            &&& new == old
            &&& out == seq![ActionView::ChangeNick(name)]
        },
        CommandView::JoinChannel { path, user_id } => {
            &&& new == old
            &&& out == seq![ActionView::Join { path, user_id }]
        },
        _ => true,
    }
}

/// Whether a command only changes settings.
pub open spec fn is_setting(command: CommandView) -> bool {
    match command {
        CommandView::SetVolume { .. } => true,
        CommandView::SetMode { .. } => true,
        CommandView::SetShuffle { .. } => true,
        CommandView::RadioToggle { .. } => true,
        CommandView::SetService { .. } => true,
        CommandView::SetGender { .. } => true,
        CommandView::SetDefaultLanguage { .. } => true,
        CommandView::ChangeNick { .. } => true,
        CommandView::JoinChannel { .. } => true,
        _ => false,
    }
}

/// The store of search results was asked for those of a user, and gave `held`.
/// Nothing else happened.
pub open spec fn store_answered(
    old: Processor,
    new: Processor,
    user_id: i32,
    held: Option<Seq<TrackView>>,
) -> bool {
    let lists = old.state.search_results@;
    &&& new == (Processor {
        state: PlayerState { search_results: new.state.search_results, ..old.state },
        ..old
    })
    &&& new.state.search_results@ == lists
    &&& new.state.search_results.limits() == old.state.search_results.limits()
    &&& new.state.search_results.answers() == old.state.search_results.answers().push(
        (user_key(user_id), held),
    )
    &&& held matches Some(list) ==> lists.contains_key(user_key(user_id)) && list
        == lists[user_key(user_id)]
}

/// The track with a number in a list of results, counted from 0.
pub open spec fn numbered(held: Option<Seq<TrackView>>, pick: usize) -> Option<TrackView> {
    match held {
        Some(list) => if pick < list.len() {
            Some(list[pick as int])
        } else {
            None
        },
        None => None,
    }
}

/// What picking by number leads to. Whether the results are still there is the
/// store's to say: it is asked, and the track with that number is picked.
pub open spec fn choice_outcome(
    old: Processor,
    new: Processor,
    user_id: i32,
    pick: usize,
    user_name: Seq<char>,
    out: Seq<ActionView>,
) -> bool {
    exists|asked: Processor, held: Option<Seq<TrackView>>|
        {
            &&& #[trigger] store_answered(old, asked, user_id, held)
            &&& pick_outcome(asked, new, numbered(held, pick), user_id, user_name, out)
        }
}

/// What every command leads to. `volume` is the volume as it is now.
pub open spec fn command_outcome(
    old: Processor,
    new: Processor,
    command: CommandView,
    volume: u8,
    out: Seq<ActionView>,
) -> bool {
    match command {
        CommandView::SearchAndPlay { query, user_id, user_name } => {
            &&& new == old
            &&& out == seq![
                ActionView::Resolve {
                    service: old.state.active_service,
                    query,
                    limit: old.search_limit,
                    user_id,
                    user_name,
                },
            ]
        },
        CommandView::SearchOnly { query, user_id } => {
            &&& new == old
            &&& out == seq![
                ActionView::Search {
                    service: old.state.active_service,
                    query,
                    limit: old.search_limit,
                    user_id,
                },
            ]
        },
        CommandView::SearchPick { user_id, pick, user_name } => choice_outcome(
            old,
            new,
            user_id,
            pick,
            user_name,
            out,
        ),
        CommandView::Play { .. } => {
            &&& only_state(
                old,
                new,
                PlayerState { status: PlaybackStatus::Playing, ..old.state },
            )
            &&& out == seq![ActionView::Resume] + (match old.state.queue@.current {
                Some(e) => seq![
                    ActionView::Report(RunnerEventView::Playing(e.track@.display_name())),
                ],
                None => seq![],
            })
        },
        CommandView::Pause { .. } => {
            &&& only_state(
                old,
                new,
                PlayerState { status: PlaybackStatus::Paused, ..old.state },
            )
            &&& out == seq![ActionView::PauseAudio, ActionView::Report(RunnerEventView::Idle)]
        },
        CommandView::Stop { .. } => {
            &&& cleared(old.state, new.state)
            &&& only_state(old, new, new.state)
            &&& out == going_idle()
        },
        CommandView::Next { user_id, after_track } => next_outcome(
            old,
            new,
            user_id,
            after_track,
            out,
        ),
        CommandView::Prev { user_id } => prev_outcome(old, new, user_id, out),
        CommandView::Seek { offset_ms, .. } => {
            let target = seek_target(old.state.position_ms, offset_ms) as u32;
            &&& only_state(old, new, PlayerState { position_ms: target, ..old.state })
            &&& out == seq![
                ActionView::SeekTo {
                    service: playing_service(old.state),
                    position_ms: target,
                },
            ]
        },
        CommandView::QueueClear { .. } => {
            &&& out.len() == 0
            &&& new.state.queue@ == (QueueView {
                next_up: seq![],
                upcoming: seq![],
                ..old.state.queue@
            })
            &&& only_state(
                old,
                new,
                PlayerState {
                    queue: new.state.queue,
                    bulk_load_generation: (old.state.bulk_load_generation + 1) as u64,
                    ..old.state
                },
            )
        },
        CommandView::QueueRemove { index, .. } => {
            &&& out.len() == 0
            &&& new.state.queue@ == old.state.queue@.removed(index as int)
            &&& only_state(old, new, PlayerState { queue: new.state.queue, ..old.state })
        },
        CommandView::RadioPreFetch { seed_uri } => {
            &&& new == old
            &&& out == (if wants_prefetch(old.state, seed_uri) {
                seq![
                    ActionView::Prefetch {
                        seed_uri,
                        batch: old.radio_batch,
                        played: entry_ids(old.state.queue@.everything()),
                    },
                ]
            } else {
                seq![]
            })
        },
        CommandView::PreloadNext => {
            &&& new == old
            &&& out == (match old.state.queue@.next_track(old.state.repeat) {
                Some(e) => seq![ActionView::Preload { uri: e.track@.uri() }],
                None => seq![],
            })
        },
        CommandView::StartCurrent => match old.state.queue@.current {
            Some(e) => {
                &&& out == seq![load_action(e.track@)]
                &&& loads(
                    new,
                    e.track@,
                    0,
                    "Now playing: "@ + e.track@.display_name(),
                    PrefetchRule::Never,
                    false,
                )
                &&& new == (Processor { pending: new.pending, ..old })
            },
            None => new == old && out.len() == 0,
        },
        CommandView::TrackEnded { generation, .. } => if generation != old.youtube_load {
            new == old && out.len() == 0
        } else {
            auto_advance(old, new, current_uri(old.state), out)
        },
        CommandView::Quit { .. } => new == old && out == exit_actions(
            old.state,
            volume,
            BotExit::Quit,
        ),
        CommandView::Restart { .. } => new == old && out == exit_actions(
            old.state,
            volume,
            BotExit::Restart,
        ),
        _ => setting_outcome(old, new, command, out),
    }
}

impl Processor {
    fn advance_automatically(&mut self, uri: Option<String>) -> (r: Vec<Action>)
        ensures
            auto_advance(*old(self), *final(self), opt_view(uri), action_views(r@)),
    {
        let mut out = no_actions();
        if self.state.try_arm_auto_advance() {
            act(&mut out, Action::Enqueue(BotCommand::Next { user_id: 0, after_track: uri }));
            assert(action_views(out@) =~= seq![
                ActionView::Enqueue(
                    CommandView::Next { user_id: 0i32, after_track: opt_view(uri) },
                ),
            ]);
        }
        out
    }

    fn uri_of_current(&self) -> (r: Option<String>)
        ensures
            opt_view(r) == current_uri(self.state),
    {
        match self.state.current() {
            Some(entry) => Some(entry.track.uri().to_owned()),
            None => None,
        }
    }

    fn exit(&self, volume: u8, reason: BotExit) -> (r: Vec<Action>)
        ensures
            action_views(r@) == exit_actions(self.state, volume, reason),
    {
        let mut out = no_actions();
        go_idle(&mut out);
        let (repeat_track, repeat_queue) = self.state.repeat.to_flags();
        act(
            &mut out,
            Action::Save(
                ConfigChange::AtExit {
                    radio: self.state.radio_enabled,
                    volume,
                    repeat_track,
                    repeat_queue,
                    shuffle: self.state.shuffle,
                },
            ),
        );
        act(&mut out, Action::Exit(reason));
        assert(action_views(out@) =~= exit_actions(self.state, volume, reason));
        out
    }

    fn change_setting(&mut self, command: BotCommand) -> (r: Vec<Action>)
        requires
            old(self).wf(),
            is_setting(command@),
        ensures
            final(self).wf(),
            setting_outcome(*old(self), *final(self), command@, action_views(r@)),
    {
        let mut out = no_actions();
        match command {
            BotCommand::SetVolume { .. } => {
                // Debounce: one save for all changes within a while.
                if !self.volume_unsaved {
                    act(&mut out, Action::SaveVolumeLater);
                    assert(action_views(out@) =~= seq![ActionView::SaveVolumeLater]);
                }
                self.volume_unsaved = true;
            },
            BotCommand::SetMode { mode, .. } => {
                self.state.repeat = match mode {
                    PlaybackMode::RepeatTrack => RepeatMode::Track,
                    PlaybackMode::RepeatQueue => RepeatMode::Queue,
                    PlaybackMode::Off => RepeatMode::Off,
                };
            },
            BotCommand::SetShuffle { enable, .. } => {
                self.state.shuffle = enable;
                if enable {
                    self.state.shuffle_now();
                }
            },
            BotCommand::RadioToggle { enable, .. } => {
                self.state.radio_enabled = enable;
                act(&mut out, Action::Save(ConfigChange::Radio(enable)));
                assert(action_views(out@) =~= seq![ActionView::Save(ChangeView::Radio(enable))]);
            },
            BotCommand::SetService { service, .. } => {
                self.state.active_service = service;
            },
            BotCommand::SetGender { gender, .. } => {
                let shown = parse_gender(gender.as_str());
                let status = match self.state.current() {
                    Some(entry) => now_playing_status(
                        entry.track.display_name().as_str(),
                        &self.state,
                    ),
                    None => String::from_str("Idle"),
                };
                act(&mut out, Action::ShowGender { gender: shown, status });
                act(&mut out, Action::Save(ConfigChange::Gender(gender)));
                assert(action_views(out@) =~= seq![
                    ActionView::ShowGender { gender: shown, status: current_status(self.state) },
                    ActionView::Save(ChangeView::Gender(gender@)),
                ]);
            },
            BotCommand::SetDefaultLanguage { code, .. } => {
                act(&mut out, Action::SaveDefaultLanguage(code));
                assert(action_views(out@) =~= seq![ActionView::SaveDefaultLanguage(code@)]);
            },
            BotCommand::ChangeNick { name, .. } => {
                act(&mut out, Action::ChangeNick(name));
                assert(action_views(out@) =~= seq![ActionView::ChangeNick(name@)]);
            },
            BotCommand::JoinChannel { path, user_id } => {
                act(&mut out, Action::Join { path, user_id });
                assert(action_views(out@) =~= seq![ActionView::Join { path: path@, user_id }]);
            },
            _ => {},
        }
        out
    }

    fn pick_number(&mut self, user_id: i32, pick: usize, user_name: &str) -> (r: Vec<Action>)
        requires
            old(self).wf(),
            old(self).roomy(),
        ensures
            final(self).wf(),
            choice_outcome(
                *old(self),
                *final(self),
                user_id,
                pick,
                user_name@,
                action_views(r@),
            ),
    {
        let results = self.state.ask_search_results(user_id);
        let ghost asked = *self;
        let ghost held = list_view(results);
        let track = pick_from(&results, pick);
        assert(found_view(track) == numbered(held, pick));
        assert(store_answered(*old(self), asked, user_id, held));
        self.picked(track, user_id, user_name)
    }

    fn play(&mut self) -> (r: Vec<Action>)
        ensures
            only_state(
                *old(self),
                *final(self),
                PlayerState { status: PlaybackStatus::Playing, ..old(self).state },
            ),
            action_views(r@) == seq![ActionView::Resume] + (match old(self).state.queue@.current {
                Some(e) => seq![
                    ActionView::Report(RunnerEventView::Playing(e.track@.display_name())),
                ],
                None => seq![],
            }),
    {
        let mut out = no_actions();
        act(&mut out, Action::Resume);
        self.state.status = PlaybackStatus::Playing;
        if let Some(entry) = self.state.current() {
            act(&mut out, Action::Report(RunnerEvent::Playing(entry.track.display_name())));
        }
        out
    }

    fn wants_recommendations(&self, seed_uri: &str) -> (r: bool)
        requires
            self.wf(),
        ensures
            r == wants_prefetch(self.state, seed_uri@),
    {
        if self.state.status == PlaybackStatus::Idle || self.state.upcoming_len() > 0 {
            return false;
        }
        match self.seed() {
            Some(uri) => same(uri.as_str(), seed_uri),
            None => false,
        }
    }

    /// Carry out a command. `volume` is the volume as it is now.
    pub fn handle(&mut self, command: BotCommand, volume: u8) -> (r: Vec<Action>)
        requires
            old(self).wf(),
            old(self).roomy(),
            command matches BotCommand::Seek { offset_ms, .. } ==> seek_fits(
                old(self).state.position_ms,
                offset_ms,
            ),
        ensures
            final(self).wf(),
            command_outcome(*old(self), *final(self), command@, volume, action_views(r@)),
    {
        match command {
            BotCommand::SearchAndPlay { query, user_id, user_name } => {
                let mut out = no_actions();
                let service = self.state.active_service;
                let limit = self.search_limit;
                act(&mut out, Action::Resolve { service, query, limit, user_id, user_name });
                assert(action_views(out@) =~= seq![
                    ActionView::Resolve {
                        service,
                        query: query@,
                        limit,
                        user_id,
                        user_name: user_name@,
                    },
                ]);
                out
            },
            BotCommand::SearchOnly { query, user_id } => {
                let mut out = no_actions();
                let service = self.state.active_service;
                let limit = self.search_limit;
                act(&mut out, Action::Search { service, query, limit, user_id });
                assert(action_views(out@) =~= seq![
                    ActionView::Search { service, query: query@, limit, user_id },
                ]);
                out
            },
            BotCommand::SearchPick { user_id, pick, user_name } => {
                self.pick_number(user_id, pick, user_name.as_str())
            },
            BotCommand::Play { .. } => self.play(),
            BotCommand::Pause { .. } => {
                let mut out = no_actions();
                self.state.status = PlaybackStatus::Paused;
                act(&mut out, Action::PauseAudio);
                act(&mut out, Action::Report(RunnerEvent::Idle));
                assert(action_views(out@) =~= seq![
                    ActionView::PauseAudio,
                    ActionView::Report(RunnerEventView::Idle),
                ]);
                out
            },
            BotCommand::Stop { .. } => {
                let mut out = no_actions();
                self.state.clear();
                go_idle(&mut out);
                assert(action_views(out@) =~= going_idle());
                out
            },
            BotCommand::Next { user_id, after_track } => self.next(user_id, after_track),
            BotCommand::Prev { user_id } => self.prev(user_id),
            BotCommand::Seek { offset_ms, .. } => self.seek(offset_ms),
            BotCommand::QueueClear { .. } => {
                self.state.clear_upcoming();
                no_actions()
            },
            BotCommand::QueueRemove { index, .. } => {
                let _ = self.state.remove_upcoming(index);
                no_actions()
            },
            BotCommand::RadioPreFetch { seed_uri } => {
                let mut out = no_actions();
                if self.wants_recommendations(seed_uri.as_str()) {
                    let played = self.state.known_ids();
                    let batch = self.radio_batch;
                    act(&mut out, Action::Prefetch { seed_uri, batch, played });
                    assert(action_views(out@) =~= seq![
                        ActionView::Prefetch {
                            seed_uri: seed_uri@,
                            batch,
                            played: entry_ids(self.state.queue@.everything()),
                        },
                    ]);
                }
                out
            },
            BotCommand::PreloadNext => {
                let mut out = no_actions();
                if let Some(entry) = self.state.peek_next() {
                    let uri = entry.track.uri().to_owned();
                    act(&mut out, Action::Preload { uri });
                    assert(action_views(out@) =~= seq![ActionView::Preload { uri: uri@ }]);
                }
                out
            },
            BotCommand::StartCurrent => {
                let mut out = no_actions();
                if self.state.current().is_some() {
                    self.load_current(&mut out, 0, "Now playing: ", PrefetchRule::Never, false);
                    assert(self.state.queue@.current matches Some(e) && action_views(out@) =~= seq![
                        load_action(e.track@),
                    ]);
                }
                out
            },
            BotCommand::TrackEnded { generation, .. } => {
                // A track that was already skipped or stopped.
                if generation != self.youtube_load {
                    return no_actions();
                }
                let uri = self.uri_of_current();
                self.advance_automatically(uri)
            },
            BotCommand::Quit { .. } => self.exit(volume, BotExit::Quit),
            BotCommand::Restart { .. } => self.exit(volume, BotExit::Restart),
            other => self.change_setting(other),
        }
    }
}

// ---- signals of the player ----

/// What the Spotify player signals. Addresses are given where they are known.
#[derive(Debug)]
pub enum PlayerSignal {
    Playing(u32),
    Paused(u32),
    EndOfTrack(Option<String>),
    Unavailable(Option<String>),
    TimeToPreload,
    Position(u32),
}

/// Whether the end of a track concerns the current one. Where that cannot be
/// told it does.
pub open spec fn ends_current(state: PlayerState, ended: Option<Seq<char>>) -> bool {
    match (current_uri(state), ended) {
        (Some(a), Some(b)) => a == b,
        _ => true,
    }
}

/// The address that an automatic advance carries: that of the track that is
/// done, or of the current one.
pub open spec fn done_uri(state: PlayerState, done: Option<Seq<char>>) -> Option<Seq<char>> {
    match done {
        Some(uri) => Some(uri),
        None => current_uri(state),
    }
}

pub open spec fn signal_outcome(
    old: Processor,
    new: Processor,
    signal: PlayerSignal,
    out: Seq<ActionView>,
) -> bool {
    match signal {
        PlayerSignal::Playing(position_ms) => {
            &&& out.len() == 0
            &&& only_state(
                old,
                new,
                PlayerState { status: PlaybackStatus::Playing, position_ms, ..old.state },
            )
        },
        PlayerSignal::Paused(position_ms) => {
            &&& out.len() == 0
            &&& only_state(
                old,
                new,
                PlayerState { status: PlaybackStatus::Paused, position_ms, ..old.state },
            )
        },
        PlayerSignal::Position(position_ms) => {
            &&& out.len() == 0
            &&& only_state(old, new, PlayerState { position_ms, ..old.state })
        },
        PlayerSignal::EndOfTrack(ended) => if ends_current(old.state, opt_view(ended)) {
            auto_advance(old, new, done_uri(old.state, opt_view(ended)), out)
        } else {
            new == old && out.len() == 0
        },
        PlayerSignal::Unavailable(which) => auto_advance(
            old,
            new,
            done_uri(old.state, opt_view(which)),
            out,
        ),
        PlayerSignal::TimeToPreload => new == old && out == seq![
            ActionView::Enqueue(CommandView::PreloadNext),
        ],
    }
}

impl Processor {
    /// Take a signal of the player in.
    pub fn signalled(&mut self, signal: PlayerSignal) -> (r: Vec<Action>)
        requires
            old(self).wf(),
        ensures
            final(self).wf(),
            signal_outcome(*old(self), *final(self), signal, action_views(r@)),
    {
        match signal {
            PlayerSignal::Playing(position_ms) => {
                self.state.status = PlaybackStatus::Playing;
                self.state.position_ms = position_ms;
                no_actions()
            },
            PlayerSignal::Paused(position_ms) => {
                self.state.status = PlaybackStatus::Paused;
                self.state.position_ms = position_ms;
                no_actions()
            },
            PlayerSignal::Position(position_ms) => {
                self.state.position_ms = position_ms;
                no_actions()
            },
            PlayerSignal::EndOfTrack(ended) => {
                // A track we've already moved past (e.g. the user skipped just
                // as it ended) must not advance the queue twice.
                match ended {
                    Some(uri) => {
                        if self.state.current().is_some() && !self.current_uri_is(uri.as_str()) {
                            return no_actions();
                        }
                        self.advance_automatically(Some(uri))
                    },
                    None => {
                        let uri = self.uri_of_current();
                        self.advance_automatically(uri)
                    },
                }
            },
            PlayerSignal::Unavailable(which) => match which {
                Some(uri) => self.advance_automatically(Some(uri)),
                None => {
                    let uri = self.uri_of_current();
                    self.advance_automatically(uri)
                },
            },
            PlayerSignal::TimeToPreload => {
                let mut out = no_actions();
                act(&mut out, Action::Enqueue(BotCommand::PreloadNext));
                assert(action_views(out@) =~= seq![ActionView::Enqueue(CommandView::PreloadNext)]);
                out
            },
        }
    }
}

// ---- starting and ending ----

/// Whether a playback state is one that a configuration starts with.
pub open spec fn starts_with(config: BotConfig, state: PlayerState) -> bool {
    &&& state.wf()
    &&& state.radio_enabled == config.radio_enabled
    &&& state.repeat == RepeatMode::of_flags(config.repeat_track, config.repeat_queue)
    &&& state.shuffle == config.shuffle
    &&& state.active_service == config.default_service
    &&& state.queue@.everything().len() == 0
    &&& state.status == PlaybackStatus::Idle
    &&& state.position_ms == 0
    &&& state.tracks_played == 0
    &&& state.bulk_load_generation == 0
    &&& !state.auto_advance_pending
}

/// The playback state that a configuration starts with.
pub fn initial_state(config: &BotConfig) -> (r: PlayerState)
    ensures
        starts_with(*config, r),
{
    let mut state = PlayerState::new();
    state.radio_enabled = config.radio_enabled;
    state.repeat = RepeatMode::from_flags(config.repeat_track, config.repeat_queue);
    state.shuffle = config.shuffle;
    state.active_service = config.default_service;
    state
}

/// The volume that a configuration starts with: never above the maximum.
pub fn initial_volume(config: &BotConfig) -> (r: u8)
    ensures
        r == smaller(config.volume, config.max_volume),
{
    if config.volume <= config.max_volume {
        config.volume
    } else {
        config.max_volume
    }
}

/// The channel to join: on a restart the one the bot was in, else the
/// configured one.
pub fn channel_to_join(configured: &str, last: Option<&str>) -> (r: String)
    ensures
        r@ == (match last {
            Some(channel) => channel@,
            None => configured@,
        }),
{
    match last {
        Some(channel) => channel.to_owned(),
        None => configured.to_owned(),
    }
}

/// Whether Spotify is connected at startup. A YouTube-only user without cached
/// credentials is never sent to the browser then; the connection is made on
/// their first Spotify command instead.
pub fn connects_at_startup(has_cached_credentials: bool, default_service: Service) -> (r: bool)
    ensures
        r == (has_cached_credentials || default_service == Service::Spotify),
{
    has_cached_credentials || default_service == Service::Spotify
}

/// Why the bot ended: an explicit quit or restart first, then the outside
/// shutdown signal, which a quit or restart sets too.
pub fn exit_reason(exit: Option<BotExit>, shutdown: bool) -> (r: BotExit)
    ensures
        r == (match exit {
            Some(reason) => reason,
            None => if shutdown {
                BotExit::Shutdown
            } else {
                BotExit::Quit
            },
        }),
{
    match exit {
        Some(reason) => reason,
        None => if shutdown {
            BotExit::Shutdown
        } else {
            BotExit::Quit
        },
    }
}

pub open spec fn or_not_installed(version: Option<&str>) -> Seq<char> {
    match version {
        Some(v) => v@,
        None => "not installed"@,
    }
}

/// The version of the SDK as a file gives it: trimmed, and unknown where there
/// is none.
pub open spec fn sdk_version(file: Option<&str>) -> Seq<char> {
    match file {
        Some(text) => if trimmed(text@).len() > 0 {
            trimmed(text@)
        } else {
            "unknown"@
        },
        None => "unknown"@,
    }
}

/// One line for the log that says exactly what is running: the app and the
/// tools it depends on.
pub fn startup_versions(
    app: &str,
    sdk_file: Option<&str>,
    yt_dlp: Option<&str>,
    bgutil: Option<&str>,
) -> (r: String)
    ensures
        r@ == "Versions — app: v"@ + app@ + ", TeamTalk SDK: "@ + sdk_version(sdk_file)
            + ", yt-dlp: "@ + or_not_installed(yt_dlp) + ", bgutil-pot: "@ + or_not_installed(
            bgutil,
        ),
{
    let mut out = String::from_str("Versions — app: v");
    out.append(app);
    out.append(", TeamTalk SDK: ");
    match sdk_file {
        Some(text) => {
            let version = trim(text);
            if version.is_empty() {
                out.append("unknown");
            } else {
                out.append(version);
            }
        },
        None => out.append("unknown"),
    }
    out.append(", yt-dlp: ");
    match yt_dlp {
        Some(v) => out.append(v),
        None => out.append("not installed"),
    }
    out.append(", bgutil-pot: ");
    match bgutil {
        Some(v) => out.append(v),
        None => out.append("not installed"),
    }
    out
}

// ---- the link to the server ----

/// How long the automatic reconnect may take before the bot gives up, so that
/// a supervisor can start it afresh instead of it polling a dead connection
/// forever.
pub const RECONNECT_DEADLINE_MS: u64 = 360_000;

/// The kind of text message that is addressed to one user.
pub const PRIVATE_MESSAGE: i32 = 1;

/// What is known about the connection to the server.
#[derive(Debug, Clone, Copy, PartialEq, Eq, Structural)]
pub struct ServerLink {
    /// When the connection was lost, in milliseconds of a steady clock.
    pub lost_at_ms: Option<u64>,
    /// The channel that the bot is in, or was last in; 0 for none.
    pub channel: i32,
}

/// Since when the connection is lost, after another loss.
pub open spec fn lost_since(before: Option<u64>, now_ms: u64) -> u64 {
    match before {
        Some(at) => at,
        None => now_ms,
    }
}

/// The channel to rejoin for a bot that was in one and finds itself in another.
pub open spec fn rejoins(mine: i32, channel: i32) -> Option<i32> {
    if mine != 0 && channel != mine {
        Some(mine)
    } else {
        None
    }
}

/// Whether a connection has been lost for too long.
pub open spec fn out_of_time(lost_at_ms: Option<u64>, now_ms: u64) -> bool {
    lost_at_ms matches Some(at) && now_ms - at > RECONNECT_DEADLINE_MS
}

impl ServerLink {
    pub fn new(channel: i32) -> (r: Self)
        ensures
            r.lost_at_ms is None,
            r.channel == channel,
    {
        ServerLink { lost_at_ms: None, channel }
    }

    /// The connection was lost. The clock runs from the first loss.
    pub fn lost(&mut self, now_ms: u64)
        ensures
            final(self).lost_at_ms == Some(lost_since(old(self).lost_at_ms, now_ms)),
            final(self).channel == old(self).channel,
    {
        if self.lost_at_ms.is_none() {
            self.lost_at_ms = Some(now_ms);
        }
    }

    /// Logged in again, now in `channel`. Returns the channel to rejoin where
    /// the reconnect did not land the bot back in it.
    pub fn logged_in(&mut self, channel: i32) -> (r: Option<i32>)
        ensures
            final(self).lost_at_ms is None,
            final(self).channel == old(self).channel,
            r == rejoins(old(self).channel, channel),
    {
        self.lost_at_ms = None;
        if self.channel != 0 && channel != self.channel {
            Some(self.channel)
        } else {
            None
        }
    }

    /// Somebody entered a channel. Where it is the bot itself, that is where
    /// it is now, so moves by an admin are respected. Returns whether it was.
    pub fn entered(&mut self, user_id: i32, my_id: i32, channel: i32) -> (r: bool)
        ensures
            r == (user_id == my_id && channel != 0),
            final(self).lost_at_ms == old(self).lost_at_ms,
            final(self).channel == (if r {
                channel
            } else {
                old(self).channel
            }),
    {
        if user_id == my_id && channel != 0 {
            self.channel = channel;
            true
        } else {
            false
        }
    }

    /// Whether the automatic reconnect has taken too long.
    pub fn exhausted(&self, now_ms: u64) -> (r: bool)
        ensures
            r == out_of_time(self.lost_at_ms, now_ms),
    {
        match self.lost_at_ms {
            Some(at) => now_ms > at && now_ms - at > RECONNECT_DEADLINE_MS,
            None => false,
        }
    }
}

/// Whether a message is one for the bot.
pub open spec fn for_bot(kind: i32, sender_id: i32, my_id: i32, text: Seq<char>) -> bool {
    kind == PRIVATE_MESSAGE && sender_id != my_id && text.len() > 0
}

/// Whether a text message is a command for the bot: private, not its own, and
/// not empty.
pub fn is_for_bot(kind: i32, sender_id: i32, my_id: i32, text: &str) -> (r: bool)
    ensures
        r == for_bot(kind, sender_id, my_id, text@),
{
    kind == PRIVATE_MESSAGE && sender_id != my_id && !text.is_empty()
}

// ---- what holds of every run ----

/// Of several signals that one track is done, only the first one advances the
/// queue.
pub proof fn a_track_advances_the_queue_once(
    a: Processor,
    b: Processor,
    c: Processor,
    uri: Option<Seq<char>>,
    uri2: Option<Seq<char>>,
    out: Seq<ActionView>,
    out2: Seq<ActionView>,
)
    requires
        auto_advance(a, b, uri, out),
        auto_advance(b, c, uri2, out2),
    ensures
        out2.len() == 0,
        c.state.queue == a.state.queue,
{
}

/// An advance for a track that no longer plays leaves the queue alone, but
/// frees the way for the next one.
pub proof fn a_stale_advance_changes_nothing(
    old: Processor,
    new: Processor,
    user_id: i32,
    uri: Seq<char>,
    out: Seq<ActionView>,
)
    requires
        old.state.queue@.current matches Some(e) ==> e.track@.uri() != uri,
        next_outcome(old, new, user_id, Some(uri), out),
    ensures
        out.len() == 0,
        new.state.queue == old.state.queue,
        !new.state.auto_advance_pending,
{
}

/// The end of a YouTube track of an earlier load changes nothing: once the
/// player has moved on, whatever still comes from the load before is dropped.
pub proof fn a_stale_completion_changes_nothing(
    before: Processor,
    old: Processor,
    new: Processor,
    generation: u64,
    earlier: u64,
    error: Option<Seq<char>>,
    volume: u8,
    out: Seq<ActionView>,
)
    requires
        old == (Processor { youtube_load: generation, ..before }),
        earlier != generation,
        command_outcome(
            old,
            new,
            CommandView::TrackEnded { generation: earlier, error },
            volume,
            out,
        ),
    ensures
        new == old,
        out.len() == 0,
{
}

/// The end of the YouTube track that plays asks for the next track, once.
pub proof fn a_completion_advances_the_queue(
    old: Processor,
    new: Processor,
    error: Option<Seq<char>>,
    volume: u8,
    out: Seq<ActionView>,
)
    requires
        !old.state.auto_advance_pending,
        command_outcome(
            old,
            new,
            CommandView::TrackEnded { generation: old.youtube_load, error },
            volume,
            out,
        ),
    ensures
        new.state.auto_advance_pending,
        out == seq![
            ActionView::Enqueue(
                CommandView::Next { user_id: 0, after_track: current_uri(old.state) },
            ),
        ],
{
}

/// A skip while anything is queued asks for the first track that is coming,
/// in every mode.
pub proof fn a_skip_loads_the_next_track(
    old: Processor,
    new: Processor,
    user_id: i32,
    out: Seq<ActionView>,
)
    requires
        old.wf(),
        old.state.queue@.coming().len() > 0,
        next_outcome(old, new, user_id, None, out),
    ensures
        out == seq![load_action(old.state.queue@.coming()[0].track@)],
{
    crate::bot::queue::a_skip_always_moves(
        old.state.queue@,
        new.state.queue@,
        old.state.repeat,
        old.state.shuffle,
    );
}

/// Radio adds nothing to a queue that repeats.
pub proof fn radio_is_silent_while_repeating(state: PlayerState, seed_uri: Seq<char>)
    requires
        state.repeat != RepeatMode::Off,
    ensures
        radio_seed(state) is None,
        !wants_prefetch(state, seed_uri),
{
}

/// After as many refused loads in a row as are allowed the bot is idle with an
/// empty queue, and counts anew.
pub proof fn refused_loads_end_in_silence(
    old: Processor,
    new: Processor,
    out: Seq<ActionView>,
)
    requires
        old.wf(),
        old.pending is Some,
        old.failures + 1 == MAX_CONSECUTIVE_START_FAILURES,
        start_outcome(old, new, false, out),
    ensures
        new.failures == 0,
        new.state.status == PlaybackStatus::Idle,
        new.state.queue@.everything().len() == 0,
        new.state.position_ms == 0,
{
}

/// A load that was overtaken adds nothing to the queue: stopping, clearing and
/// starting another one all overtake it.
pub proof fn an_overtaken_load_adds_nothing(
    old: Processor,
    new: Processor,
    generation: u64,
    tracks: Seq<Track>,
    requester: Seq<char>,
    out: Seq<ActionView>,
)
    requires
        generation < old.state.bulk_load_generation,
        batch_outcome(old, new, generation, tracks, requester, out),
    ensures
        new == old,
        out.len() == 0,
{
}

/// What queueing a source adds to a queue is of that source, and nothing that
/// was there goes.
proof fn lemma_what_a_source_adds(
    old: QueueView,
    new: QueueView,
    tracks: Seq<Track>,
    requester: Seq<char>,
    allow_recommend: bool,
    shuffle: bool,
    entry: QueueEntry,
)
    requires
        source_queued(old, new, tracks, requester, allow_recommend, shuffle),
    ensures
        new.everything().contains(entry) ==> old.everything().contains(entry) || (tracks.contains(
            entry.track,
        ) && entry.requester@ == requester && entry.allow_recommend == allow_recommend),
        old.everything().contains(entry) ==> new.everything().contains(entry),
{
    let entries = choose|entries: Seq<QueueEntry>|
        #![trigger entries_for(tracks, requester, allow_recommend, entries)]
        entries_for(tracks, requester, allow_recommend, entries) && ({
            let filled = old.with_source(entries);
            if shuffle {
                filled.shuffled_to(new)
            } else {
                new == filled
            }
        });
    let added = QueueView { upcoming: old.upcoming + entries, ..old };
    let filled = added.started();
    assert(added.everything() =~= old.everything() + entries);
    if added.current is None && added.coming().len() > 0 {
        assert(seq![added.coming()[0]] + added.coming().skip(1) =~= added.coming());
        assert(filled.playing() + filled.coming() =~= added.coming());
        assert(filled.everything() =~= added.everything());
    }
    assert(new.everything().to_multiset() == filled.everything().to_multiset()) by {
        if shuffle {
            let head = filled.history + filled.playing() + filled.next_up;
            assert(filled.everything() =~= head + filled.upcoming);
            assert(new.everything() =~= head + new.upcoming);
            vstd::seq_lib::lemma_multiset_commutative(head, filled.upcoming);
            vstd::seq_lib::lemma_multiset_commutative(head, new.upcoming);
        }
    }
    new.everything().to_multiset_ensures();
    filled.everything().to_multiset_ensures();
    assert(new.everything().contains(entry) == (new.everything().to_multiset().count(entry) > 0));
    assert(filled.everything().contains(entry) == (filled.everything().to_multiset().count(entry)
        > 0));
    if filled.everything().contains(entry) {
        let i = choose|i: int| 0 <= i < filled.everything().len() && filled.everything()[i] == entry;
        if i < old.everything().len() {
            assert(old.everything()[i] == entry);
        } else {
            let k = i - old.everything().len();
            assert(entries[k] == entry);
            assert(tracks[k] == entry.track);
        }
    }
    if old.everything().contains(entry) {
        let i = choose|i: int| 0 <= i < old.everything().len() && old.everything()[i] == entry;
        assert(filled.everything()[i] == entry);
    }
}

proof fn lemma_new_songs_are_given(q: QueueView, tracks: Seq<Track>, n: int, t: Track)
    requires
        0 <= n <= tracks.len(),
        new_songs(q, tracks, n).contains(t),
    ensures
        tracks.contains(t),
    decreases n,
{
    if n > 0 {
        let songs = new_songs(q, tracks, n);
        let i = choose|i: int| 0 <= i < songs.len() && songs[i] == t;
        if new_songs(q, tracks, n - 1).contains(t) {
            lemma_new_songs_are_given(q, tracks, n - 1, t);
        } else if new_song(q, tracks, n - 1) && i == songs.len() - 1 {
            assert(tracks[n - 1] == t);
        } else {
            assert(new_songs(q, tracks, n - 1)[i] == t);
        }
    }
}

/// Radio goes on from its own tracks: whatever it adds to the queue is one of
/// the recommended tracks and may be recommended from, so that running out of
/// tracks there asks for recommendations again.
pub proof fn radio_goes_on_from_its_own_tracks(
    old: Processor,
    new: Processor,
    tracks: Vec<Track>,
    user_id: i32,
    out: Seq<ActionView>,
    entry: QueueEntry,
)
    requires
        radio_outcome(old, new, RadioAnswer::Tracks(tracks), user_id, out) || prefetch_outcome(
            old,
            new,
            tracks@,
        ),
        new.state.queue@.everything().contains(entry),
        !old.state.queue@.everything().contains(entry),
    ensures
        entry.allow_recommend,
        tracks@.contains(entry.track),
        forall|later: Processor, after: Processor, who: i32, done: Option<Seq<char>>, then: Seq<
            ActionView,
        >|
            later.wf() && later.state.queue@.current == Some(entry)
                && later.state.queue@.coming().len() == 0 && later.state.radio_enabled
                && later.state.repeat == RepeatMode::Off && (done is None || done == Some(
                entry.track@.uri(),
            )) && #[trigger] next_outcome(later, after, who, done, then) ==> {
                &&& then.len() == 1
                &&& then[0] matches ActionView::Recommend { seed_uri, .. } && seed_uri
                    == entry.track@.uri()
                &&& after.state.status == later.state.status
            },
{
    let fresh = new_songs(old.state.queue@, tracks@, tracks@.len() as int);
    assert(fresh.len() > 0);
    lemma_what_a_source_adds(
        old.state.queue@,
        new.state.queue@,
        fresh,
        "Radio"@,
        true,
        old.state.shuffle,
        entry,
    );
    lemma_new_songs_are_given(old.state.queue@, tracks@, tracks@.len() as int, entry.track);
}

/// Radio keeps what is queued.
pub proof fn radio_takes_nothing_away(
    old: Processor,
    new: Processor,
    tracks: Vec<Track>,
    user_id: i32,
    out: Seq<ActionView>,
    entry: QueueEntry,
)
    requires
        radio_outcome(old, new, RadioAnswer::Tracks(tracks), user_id, out) || prefetch_outcome(
            old,
            new,
            tracks@,
        ),
        old.state.queue@.everything().contains(entry),
    ensures
        new.state.queue@.everything().contains(entry),
{
    let fresh = new_songs(old.state.queue@, tracks@, tracks@.len() as int);
    if fresh.len() > 0 && new.state.queue != old.state.queue {
        lemma_what_a_source_adds(
            old.state.queue@,
            new.state.queue@,
            fresh,
            "Radio"@,
            true,
            old.state.shuffle,
            entry,
        );
    }
}

/// Picking a number asks the store of search results for those of the user who
/// picks. Where it has them and the number is among them, exactly that track
/// is queued, by that user, and played at once where nothing plays; the
/// results are then forgotten. Only where it has none, or not as many, is the
/// pick refused, and then nothing changes.
pub proof fn a_pick_takes_the_track_with_that_number(
    old: Processor,
    new: Processor,
    user_id: i32,
    pick: usize,
    user_name: Seq<char>,
    volume: u8,
    out: Seq<ActionView>,
)
    requires
        old.wf(),
        command_outcome(
            old,
            new,
            CommandView::SearchPick { user_id, pick, user_name },
            volume,
            out,
        ),
    ensures
        old.state.search_results.answers().len() < new.state.search_results.answers().len(),
        ({
            let (asked_for, held) =
                new.state.search_results.answers()[old.state.search_results.answers().len() as int];
            &&& asked_for == user_key(user_id)
            &&& if held matches Some(list) && pick < list.len() {
                let track = held->0[pick as int];
                &&& !new.state.search_results@.contains_key(user_key(user_id))
                &&& if old.state.status == PlaybackStatus::Idle {
                    &&& new.state.queue@.current matches Some(e) && e.track@ == track
                        && e.requester@ == user_name && e.allow_recommend
                    &&& out == seq![
                        ActionView::Load { service: track.service(), uri: track.uri() },
                    ]
                } else {
                    old.state.queue@.current is Some ==> {
                        &&& new.state.queue@.current == old.state.queue@.current
                        &&& new.state.queue@.next_up.len() == old.state.queue@.next_up.len() + 1
                        &&& new.state.queue@.next_up.last().track@ == track
                        &&& new.state.queue@.next_up.last().requester@ == user_name
                        &&& new.state.queue@.upcoming == old.state.queue@.upcoming
                    }
                }
            } else {
                &&& new.state.queue == old.state.queue
                &&& new.state.status == old.state.status
                &&& new.pending == old.pending
                &&& new.state.search_results@ == old.state.search_results@
                &&& out == replies(user_id, "Invalid pick or no search results"@)
            }
        }),
{
    let (asked, held) = choose|asked: Processor, held: Option<Seq<TrackView>>|
        {
            &&& #[trigger] store_answered(old, asked, user_id, held)
            &&& pick_outcome(asked, new, numbered(held, pick), user_id, user_name, out)
        };
    let n = old.state.search_results.answers().len() as int;
    let all = new.state.search_results.answers();
    assert(asked.state.search_results.answers()[n] == (user_key(user_id), held));
    assert(all[n] == (user_key(user_id), held)) by {
        let part = all.subrange(0, n + 1);
        if numbered(held, pick) is Some {
            assert(part == asked.state.search_results.answers());
            assert(part[n] == all[n]);
        }
    }
}

// ---- what is said of the time ----

/// A track waits for what is left of the one that plays and for every track
/// before it, and for nothing else.
pub proof fn a_wait_counts_what_comes_before(
    q: QueueView,
    position_ms: u32,
    line: Seq<QueueEntry>,
    a: QueueEntry,
    b: QueueEntry,
)
    requires
        q.current is Some,
    ensures
        wait_ms(q, position_ms, line.push(a).push(b)) == wait_ms(q, position_ms, line.push(a))
            + a.track@.duration_ms(),
        wait_ms(q, position_ms, line.push(a)) == wait_ms(q, position_ms, line.push(b)),
        position_ms <= q.current->0.track@.duration_ms() ==> wait_ms(q, position_ms, seq![a])
            + position_ms == q.current->0.track@.duration_ms(),
{
    assert(line.push(a).push(b).drop_last() =~= line.push(a));
    assert(line.push(a).drop_last() =~= line);
    assert(line.push(b).drop_last() =~= line);
    assert(seq![a].drop_last() =~= Seq::<QueueEntry>::empty());
}

/// The wait is told to the nearest minute, and how many are in the line; one
/// of less than half a minute is not told.
pub proof fn a_wait_is_told_to_the_minute(
    q: QueueView,
    position_ms: u32,
    line: Seq<QueueEntry>,
) -> (minutes: nat)
    requires
        q.current is Some,
        line.len() > 0,
    ensures
        2 * (minutes * 60_000 - wait_ms(q, position_ms, line)) <= 60_000,
        2 * (wait_ms(q, position_ms, line) - minutes * 60_000) < 60_000,
        minutes > 0 ==> (", ~"@ + digits(minutes) + " min)"@).is_suffix_of(
            line_text(q, position_ms, line),
        ),
        line.len() > 1 ==> (" ("@ + digits(line.len()) + " ahead"@).is_prefix_of(
            line_text(q, position_ms, line),
        ),
        line.len() == 1 ==> (" ("@ + "next"@).is_prefix_of(line_text(q, position_ms, line)),
{
    let minutes = (wait_ms(q, position_ms, line) + 30_000) / 60_000;
    let text = line_text(q, position_ms, line);
    let place = if line.len() == 1 {
        "next"@
    } else {
        digits(line.len()) + " ahead"@
    };
    let front = " ("@ + place;
    assert(front =~= text.take(front.len() as int));
    assert(" ("@ + digits(line.len()) + " ahead"@ =~= " ("@ + (digits(line.len()) + " ahead"@));
    if minutes > 0 {
        let back = ", ~"@ + digits(minutes) + " min)"@;
        assert(back =~= text.subrange(text.len() - back.len(), text.len() as int));
    }
    minutes
}

/// The status line begins with the track, and says which of how many it is
/// where there are several.
pub proof fn the_status_names_the_track(name: Seq<char>, q: QueueView)
    ensures
        name.is_prefix_of(status_text(name, q)),
        q.place().1 <= 1 ==> status_text(name, q) == name,
        q.place().1 > 1 ==> (" ["@ + digits(q.place().0) + "/"@ + digits(q.place().1)
            + "]"@).is_suffix_of(status_text(name, q)),
{
    let text = status_text(name, q);
    assert(name =~= text.take(name.len() as int));
    if q.place().1 > 1 {
        let back = " ["@ + digits(q.place().0) + "/"@ + digits(q.place().1) + "]"@;
        assert(back =~= text.subrange(text.len() - back.len(), text.len() as int));
    }
}

/// A request that starts over, or that starts to load in the background,
/// outdates every load that is under way; another one outdates none.
pub proof fn a_fresh_start_outdates_earlier_loads(old: PlayerState, more: bool)
    ensures
        generation_after(old, more) > old.bulk_load_generation <==> more || old.status
            == PlaybackStatus::Idle,
        generation_after(old, more) >= old.bulk_load_generation,
{
}

// ---- around the bot ----

/// A call that failed is made once more and no oftener, and only over a new
/// connection; one that did not fail is taken as it is.
pub proof fn a_failed_call_is_made_once_more(
    failed: bool,
    reconnected: Option<bool>,
    retried: bool,
)
    ensures
        call_step(failed, reconnected, retried) == AfterCall::Again <==> failed && !retried
            && reconnected == Some(true),
        call_step(failed, reconnected, retried) == AfterCall::Reconnect <==> failed && !retried
            && reconnected is None,
        call_step(failed, reconnected, true) == AfterCall::Take,
        call_step(false, reconnected, retried) == AfterCall::Take,
{
}

/// The batches of a load follow each other without a gap, none is larger than
/// allowed, and the last one ends with the last track.
pub proof fn batches_cover_every_track(from: int, total: int)
    requires
        0 <= from < total,
    ensures
        from < batch_until(from, total) <= total,
        batch_until(from, total) - from <= BULK_BG_BATCH,
        batch_until(from, total) < total ==> batch_until(from, total) - from == BULK_BG_BATCH,
{
}

/// The clock runs from the first loss, and runs out only once the deadline has
/// passed since then; a bot that is connected is never out of time.
pub proof fn the_clock_runs_from_the_first_loss(first: u64, later: u64, now: u64)
    ensures
        lost_since(Some(lost_since(None, first)), later) == first,
        out_of_time(Some(first), now) <==> now > first + RECONNECT_DEADLINE_MS,
        !out_of_time(None, now),
        out_of_time(Some(first), now) && now <= later ==> out_of_time(Some(first), later),
{
}

/// After a reconnect the bot goes back to the channel it was in, and nowhere
/// else; where it is there already, or was in none, it stays.
pub proof fn a_reconnect_leads_back_to_the_channel(mine: i32, channel: i32)
    ensures
        rejoins(mine, channel) matches Some(to) ==> to == mine && to != channel && to != 0,
        rejoins(mine, mine) is None,
        rejoins(0, channel) is None,
        mine != 0 && channel != mine ==> rejoins(mine, channel) is Some,
{
}

/// The bot never answers itself, nor a message that others read, nor nothing.
pub proof fn only_private_messages_of_others_are_answered(
    kind: i32,
    sender_id: i32,
    my_id: i32,
    text: Seq<char>,
)
    ensures
        for_bot(kind, sender_id, my_id, text) ==> kind == PRIVATE_MESSAGE && sender_id != my_id
            && text.len() > 0,
        sender_id != my_id && text.len() > 0 ==> for_bot(PRIVATE_MESSAGE, sender_id, my_id, text),
{
}

} // verus!
