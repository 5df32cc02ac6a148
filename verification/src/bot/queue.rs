//! The play queue.
//!
//! Modelled the way a listener thinks about it, and the way Spotify presents
//! it: what has played, what is playing, and what is coming. What is coming has
//! two tiers: tracks a user explicitly asked for ("next in queue") play before
//! the source being worked through, be that a playlist or radio ("next from").
//!
//! There is no index into one list. Advancing moves entries between
//! collections, so "the queue has tracks in it but nothing can be advanced to"
//! cannot be expressed.
use rand::seq::SliceRandom;
use std::collections::VecDeque;
use vstd::prelude::*;

use crate::bot::state::RepeatMode;
use crate::track::Track;

verus! {

/// Default number of played tracks kept behind the current one. Enough to step
/// back over an evening; bounded so an endless source (radio) cannot grow the
/// queue for as long as the bot runs.
pub const DEFAULT_HISTORY_CAP: usize = 20;

/// How far into a track `o` restarts it instead of stepping back, matching the
/// Previous button in Spotify.
pub const PREV_RESTART_AFTER_MS: u32 = 3_000;

#[derive(Debug)]
pub struct QueueEntry {
    pub track: Track,
    pub requester: String,
    /// Only allow radio recommendations for single-track plays (not
    /// playlists/albums).
    pub allow_recommend: bool,
}

/// What `go_prev` did, so the caller knows whether to restart or load a track.
#[derive(Debug, Clone, Copy, PartialEq, Eq, Structural)]
pub enum PrevAction {
    /// Far enough into the track that "previous" means "start this one again".
    RestartCurrent,
    /// Moved back; `current()` is the track to load.
    MovedBack,
    /// Nothing has played yet.
    NothingBehind,
}

#[derive(Debug)]
pub struct Queue {
    history: VecDeque<QueueEntry>,
    current: Option<QueueEntry>,
    /// Explicit picks. Always played before `upcoming`, always in the order
    /// they were asked for: shuffle does not touch these.
    next_up: VecDeque<QueueEntry>,
    /// The source being played through: a playlist, an album, radio.
    upcoming: VecDeque<QueueEntry>,
    history_cap: usize,
    /// Tracks retired since the queue was last cleared or looped. Kept
    /// separately from `history`, which is capped and so cannot answer "which
    /// number is this track" once a long playlist passes the cap.
    played_total: usize,
}

/// The queue as sequences: what has played (latest last), what plays, the
/// explicit picks, the rest of the source, how much history is kept, and how
/// many tracks have been retired on this lap.
#[verifier::ext_equal]
pub struct QueueView {
    pub history: Seq<QueueEntry>,
    pub current: Option<QueueEntry>,
    pub next_up: Seq<QueueEntry>,
    pub upcoming: Seq<QueueEntry>,
    pub cap: nat,
    pub played: nat,
}

/// The last `n` elements of `s`, or all of it where it has fewer.
pub open spec fn last_of(s: Seq<QueueEntry>, n: nat) -> Seq<QueueEntry> {
    if s.len() > n {
        s.skip(s.len() - n)
    } else {
        s
    }
}

impl QueueView {
    /// Nothing played, nothing playing, nothing to come.
    pub open spec fn emptied(self) -> QueueView {
        QueueView {
            history: seq![],
            current: None,
            next_up: seq![],
            upcoming: seq![],
            played: 0,
            ..self
        }
    }

    /// Everything still to play, in the order in which it will play.
    pub open spec fn coming(self) -> Seq<QueueEntry> {
        self.next_up + self.upcoming
    }

    /// The current track as a sequence of one or none.
    pub open spec fn playing(self) -> Seq<QueueEntry> {
        match self.current {
            Some(entry) => seq![entry],
            None => seq![],
        }
    }

    /// Everything the queue knows about, in playing order.
    pub open spec fn everything(self) -> Seq<QueueEntry> {
        self.history + self.playing() + self.coming()
    }

    /// Tracks counted on this lap: played, playing and still to come.
    pub open spec fn lap(self) -> nat {
        self.played + self.playing().len() + self.next_up.len() + self.upcoming.len()
    }

    /// The states that a queue can be in. Nothing is queued without something
    /// playing; history never holds more than was played; the numbers shown
    /// beside a track fit a machine word.
    pub open spec fn wf(self) -> bool {
        &&& self.current is None ==> self.coming().len() == 0
        &&& self.history.len() <= self.played
        &&& self.lap() <= usize::MAX
    }

    /// Nothing playing takes the first track that is coming.
    pub open spec fn started(self) -> QueueView {
        if self.current is Some || self.coming().len() == 0 {
            self
        } else {
            self.on_next()
        }
    }

    /// With one more explicit pick, which starts to play if nothing does.
    pub open spec fn with_pick(self, entry: QueueEntry) -> QueueView {
        (QueueView { next_up: self.next_up.push(entry), ..self }).started()
    }

    /// With more tracks of a source, which start to play if nothing does.
    pub open spec fn with_source(self, entries: Seq<QueueEntry>) -> QueueView {
        (QueueView { upcoming: self.upcoming + entries, ..self }).started()
    }

    /// The first track that is coming becomes the current one.
    pub open spec fn on_next(self) -> QueueView {
        if self.next_up.len() > 0 {
            QueueView { current: Some(self.next_up[0]), next_up: self.next_up.skip(1), ..self }
        } else {
            QueueView { current: Some(self.upcoming[0]), upcoming: self.upcoming.skip(1), ..self }
        }
    }

    /// The current track moved into history, which keeps at most `cap` where
    /// `trim` is set.
    pub open spec fn retired(self, trim: bool) -> QueueView {
        let history = self.history + self.playing();
        QueueView {
            history: if trim {
                last_of(history, self.cap)
            } else {
                history
            },
            current: None,
            played: self.played + self.playing().len(),
            ..self
        }
    }

    /// Everything played, and the current track, queued again from the top.
    pub open spec fn lapped(self) -> QueueView {
        let lap = self.history + self.playing();
        QueueView {
            history: seq![],
            current: if lap.len() > 0 {
                Some(lap[0])
            } else {
                None
            },
            next_up: seq![],
            upcoming: if lap.len() > 0 {
                lap.skip(1)
            } else {
                lap
            },
            played: 0,
            ..self
        }
    }

    /// Whether advancing starts a new lap: nothing is coming, and either the
    /// queue repeats or a skip is made while the track repeats.
    pub open spec fn laps(self, repeat: RepeatMode, ended: bool) -> bool {
        &&& self.coming().len() == 0
        &&& repeat == RepeatMode::Queue || (repeat == RepeatMode::Track && !ended)
    }

    /// Where advancing leads. `ended` tells the end of a track from a skip.
    pub open spec fn advanced(self, repeat: RepeatMode, ended: bool) -> QueueView {
        if repeat == RepeatMode::Track && ended && self.current is Some {
            self
        } else if self.coming().len() > 0 {
            self.retired(repeat != RepeatMode::Queue).on_next()
        } else if self.laps(repeat, ended) {
            self.lapped()
        } else {
            self.retired(true)
        }
    }

    /// `new` is the start of a new lap over the tracks of this one, in some
    /// order.
    pub open spec fn lapped_shuffled(self, new: QueueView) -> bool {
        &&& new.history.len() == 0
        &&& new.next_up.len() == 0
        &&& new.played == 0
        &&& new.cap == self.cap
        &&& (new.playing() + new.upcoming).to_multiset() == (self.history
            + self.playing()).to_multiset()
        &&& new.current is None ==> new.upcoming.len() == 0
    }

    /// Whether advancing can lead from this queue to `new`. Only a new lap
    /// under shuffle leaves a choice.
    pub open spec fn advances_to(
        self,
        new: QueueView,
        repeat: RepeatMode,
        shuffle: bool,
        ended: bool,
    ) -> bool {
        if shuffle && self.laps(repeat, ended) {
            self.lapped_shuffled(new)
        } else {
            new == self.advanced(repeat, ended)
        }
    }

    /// The track that advancing would make current.
    pub open spec fn next_track(self, repeat: RepeatMode) -> Option<QueueEntry> {
        if repeat == RepeatMode::Track {
            self.current
        } else if self.coming().len() > 0 {
            Some(self.coming()[0])
        } else if repeat == RepeatMode::Queue {
            if self.history.len() > 0 {
                Some(self.history[0])
            } else {
                self.current
            }
        } else {
            None
        }
    }

    /// What stepping back does at `position_ms` into the current track.
    pub open spec fn prev_action(self, position_ms: u32) -> PrevAction {
        if self.current is Some && position_ms > PREV_RESTART_AFTER_MS {
            PrevAction::RestartCurrent
        } else if self.history.len() > 0 {
            PrevAction::MovedBack
        } else {
            PrevAction::NothingBehind
        }
    }

    /// The track before the current one plays again, and the current one is
    /// next.
    pub open spec fn moved_back(self) -> QueueView {
        QueueView {
            history: self.history.drop_last(),
            current: Some(self.history.last()),
            next_up: self.playing() + self.next_up,
            played: (self.played - 1) as nat,
            ..self
        }
    }

    /// Where stepping back leads.
    pub open spec fn previous(self, position_ms: u32) -> QueueView {
        if self.prev_action(position_ms) == PrevAction::MovedBack {
            self.moved_back()
        } else {
            self
        }
    }

    /// `new` differs at most in the order of the source tier.
    pub open spec fn shuffled_to(self, new: QueueView) -> bool {
        &&& new.upcoming.to_multiset() == self.upcoming.to_multiset()
        &&& new.upcoming.len() == self.upcoming.len()
        &&& new == (QueueView { upcoming: new.upcoming, ..self })
    }

    /// Without the `n`-th upcoming track, counted from 1.
    pub open spec fn removed(self, n: int) -> QueueView {
        if n < 1 || n > self.coming().len() {
            self
        } else if n <= self.next_up.len() {
            QueueView { next_up: self.next_up.remove(n - 1), ..self }
        } else {
            QueueView { upcoming: self.upcoming.remove(n - 1 - self.next_up.len()), ..self }
        }
    }

    /// The number of the current track and how many there are on this lap.
    pub open spec fn place(self) -> (nat, nat) {
        if self.current is None {
            (0, 0)
        } else {
            (self.played + 1, self.lap())
        }
    }
}

impl View for Queue {
    type V = QueueView;

    closed spec fn view(&self) -> QueueView {
        QueueView {
            history: self.history@,
            current: self.current,
            next_up: self.next_up@,
            upcoming: self.upcoming@,
            cap: self.history_cap as nat,
            played: self.played_total as nat,
        }
    }
}

/// `rand::seq::SliceRandom::shuffle` with `rand::thread_rng`: swaps elements of
/// the slice, so the same elements stand in it afterwards. Which order they
/// stand in is chance.
#[verifier::external_body]
fn shuffle_entries(v: &mut Vec<QueueEntry>)
    ensures
        final(v)@.to_multiset() == old(v)@.to_multiset(),
        final(v)@.len() == old(v)@.len(),
{
    v.shuffle(&mut rand::thread_rng());
}

impl Default for Queue {
    fn default() -> (r: Self)
        ensures
            r@.wf(),
            r@.everything().len() == 0,
            r@.cap == DEFAULT_HISTORY_CAP,
            r@.played == 0,
    {
        Queue::new()
    }
}

impl Queue {
    /// An empty queue that keeps a limited history.
    pub fn new() -> (r: Self)
        ensures
            r@.wf(),
            r@.everything().len() == 0,
            r@.cap == DEFAULT_HISTORY_CAP,
            r@.played == 0,
    {
        Queue::with_history_cap(DEFAULT_HISTORY_CAP)
    }

    pub fn with_history_cap(history_cap: usize) -> (r: Self)
        ensures
            r@.wf(),
            r@.everything().len() == 0,
            r@.cap == history_cap,
            r@.played == 0,
    {
        Queue {
            history: VecDeque::new(),
            current: None,
            next_up: VecDeque::new(),
            upcoming: VecDeque::new(),
            history_cap,
            played_total: 0,
        }
    }

    pub fn current(&self) -> (r: Option<&QueueEntry>)
        ensures
            match self@.current {
                Some(entry) => r matches Some(e) && *e == entry,
                None => r is None,
            },
    {
        self.current.as_ref()
    }

    /// Nothing playing and nothing to play.
    pub fn is_empty(&self) -> (r: bool)
        ensures
            r == (self@.current is None && self@.coming().len() == 0),
    {
        self.current.is_none() && self.next_up.len() == 0 && self.upcoming.len() == 0
    }

    /// Tracks still to play, explicit picks first.
    pub fn upcoming(&self) -> (r: Vec<&QueueEntry>)
        ensures
            r@.len() == self@.coming().len(),
            forall|i: int| 0 <= i < r@.len() ==> *(#[trigger] r@[i]) == self@.coming()[i],
    {
        let mut out: Vec<&QueueEntry> = Vec::new();
        let mut i: usize = 0;
        while i < self.next_up.len()
            invariant
                i <= self.next_up.len(),
                out@.len() == i,
                forall|k: int| 0 <= k < i ==> *(#[trigger] out@[k]) == self@.coming()[k],
            decreases self.next_up.len() - i,
        {
            out.push(&self.next_up[i]);
            i += 1;
        }
        let mut j: usize = 0;
        while j < self.upcoming.len()
            invariant
                j <= self.upcoming.len(),
                out@.len() == self.next_up.len() + j,
                forall|k: int| 0 <= k < out@.len() ==> *(#[trigger] out@[k]) == self@.coming()[k],
            decreases self.upcoming.len() - j,
        {
            out.push(&self.upcoming[j]);
            j += 1;
        }
        out
    }

    pub fn upcoming_len(&self) -> (r: usize)
        requires
            self@.wf(),
        ensures
            r == self@.coming().len(),
    {
        self.next_up.len() + self.upcoming.len()
    }

    /// Everything the queue knows about, for duplicate checks.
    pub fn all_entries(&self) -> (r: Vec<&QueueEntry>)
        ensures
            r@.len() == self@.everything().len(),
            forall|i: int| 0 <= i < r@.len() ==> *(#[trigger] r@[i]) == self@.everything()[i],
    {
        let mut out: Vec<&QueueEntry> = Vec::new();
        let mut i: usize = 0;
        while i < self.history.len()
            invariant
                i <= self.history.len(),
                out@.len() == i,
                forall|k: int| 0 <= k < i ==> *(#[trigger] out@[k]) == self@.history[k],
            decreases self.history.len() - i,
        {
            out.push(&self.history[i]);
            i += 1;
        }
        if let Some(entry) = self.current.as_ref() {
            out.push(entry);
        }
        let mut rest = self.upcoming();
        let ghost known = self@.history + self@.playing();
        assert(out@.len() == known.len());
        assert(forall|k: int| 0 <= k < out@.len() ==> *(#[trigger] out@[k]) == known[k]);
        out.append(&mut rest);
        out
    }

    /// Add a track the user explicitly asked for: it plays before whatever
    /// source is being worked through. Starts playing if nothing is.
    pub fn push_next(&mut self, entry: QueueEntry)
        requires
            old(self)@.wf(),
            old(self)@.lap() < usize::MAX,
        ensures
            final(self)@.wf(),
            final(self)@ == old(self)@.with_pick(entry),
    {
        self.next_up.push_back(entry);
        self.start_if_idle();
    }

    /// Add tracks from a source being played through (playlist, album, radio).
    /// Starts playing if nothing is.
    pub fn push_source(&mut self, entries: Vec<QueueEntry>)
        requires
            old(self)@.wf(),
            old(self)@.lap() + entries@.len() <= usize::MAX,
        ensures
            final(self)@.wf(),
            final(self)@ == old(self)@.with_source(entries@),
    {
        let ghost before = self@;
        for entry in it: entries
            invariant
                it.seq() == entries@,
                self@ == (QueueView {
                    upcoming: before.upcoming + entries@.take(it.index() as int),
                    ..before
                }),
        {
            self.upcoming.push_back(entry);
        }
        assert(entries@.take(entries@.len() as int) =~= entries@);
        self.start_if_idle();
    }

    /// Take the next track when nothing is playing, so a refill of an
    /// exhausted queue always becomes the current track.
    fn start_if_idle(&mut self)
        ensures
            final(self)@ == old(self)@.started(),
    {
        if self.current.is_none() {
            self.current = self.take_next();
        }
    }

    fn take_next(&mut self) -> (r: Option<QueueEntry>)
        ensures
            match r {
                Some(entry) => {
                    &&& old(self)@.coming().len() > 0
                    &&& entry == old(self)@.coming()[0]
                    &&& final(self)@ == (QueueView {
                        current: old(self)@.current,
                        ..old(self)@.on_next()
                    })
                },
                None => old(self)@.coming().len() == 0 && final(self)@ == old(self)@,
            },
    {
        match self.next_up.pop_front() {
            Some(entry) => Some(entry),
            None => self.upcoming.pop_front(),
        }
    }

    /// Move the current track into history.
    ///
    /// `trim` is false under repeat-queue, where history is not just a record
    /// of the past but the material the next lap is rebuilt from: dropping the
    /// front of it there would quietly shorten a playlist every time round.
    /// Nothing is appended during a lap, so history stays bounded by the size
    /// of the queue itself.
    fn retire_current(&mut self, trim: bool)
        requires
            old(self)@.lap() <= usize::MAX,
        ensures
            final(self)@ == old(self)@.retired(trim),
    {
        if let Some(entry) = self.current.take() {
            self.history.push_back(entry);
            self.played_total += 1;
        }
        let ghost full = self@;
        if trim {
            while self.history.len() > self.history_cap
                invariant
                    self@ == (QueueView { history: self@.history, ..full }),
                    self@.history.len() <= full.history.len(),
                    self@.history.len() >= full.cap || self@.history == full.history,
                    self@.history == full.history.skip(
                        full.history.len() - self@.history.len(),
                    ),
                decreases self.history.len(),
            {
                let _ = self.history.pop_front();
            }
        }
    }

    /// Advance because the current track ended.
    pub fn advance(&mut self, repeat: RepeatMode, shuffle: bool) -> (r: Option<&QueueEntry>)
        requires
            old(self)@.wf(),
        ensures
            final(self)@.wf(),
            old(self)@.advances_to(final(self)@, repeat, shuffle, true),
            match final(self)@.current {
                Some(entry) => r matches Some(e) && *e == entry,
                None => r is None,
            },
    {
        self.advance_inner(repeat, shuffle, true)
    }

    /// Advance because the user asked to skip. Repeat-track describes what
    /// happens when a track *ends*, so an explicit skip always moves.
    pub fn advance_manual(&mut self, repeat: RepeatMode, shuffle: bool) -> (r: Option<&QueueEntry>)
        requires
            old(self)@.wf(),
        ensures
            final(self)@.wf(),
            old(self)@.advances_to(final(self)@, repeat, shuffle, false),
            match final(self)@.current {
                Some(entry) => r matches Some(e) && *e == entry,
                None => r is None,
            },
    {
        self.advance_inner(repeat, shuffle, false)
    }

    fn advance_inner(&mut self, repeat: RepeatMode, shuffle: bool, honor_repeat_track: bool) -> (r:
        Option<&QueueEntry>)
        requires
            old(self)@.wf(),
        ensures
            final(self)@.wf(),
            old(self)@.advances_to(final(self)@, repeat, shuffle, honor_repeat_track),
            match final(self)@.current {
                Some(entry) => r matches Some(e) && *e == entry,
                None => r is None,
            },
    {
        if repeat == RepeatMode::Track && honor_repeat_track && self.current.is_some() {
            return self.current.as_ref();
        }
        let trim_history = repeat != RepeatMode::Queue;
        if let Some(next) = self.take_next() {
            self.retire_current(trim_history);
            self.current = Some(next);
            return self.current.as_ref();
        }
        // Nothing left. Repeat-queue starts the whole thing again; a manual
        // skip under repeat-track loops rather than stopping the music.
        let loops = repeat == RepeatMode::Queue || (repeat == RepeatMode::Track
            && !honor_repeat_track);
        if loops {
            // Everything is about to be drained back into the queue, so the
            // cap must not eat the front of it first.
            self.retire_current(false);
            self.upcoming.append(&mut self.history);
            // A new lap: numbering starts from the top again.
            self.played_total = 0;
            assert(self@.upcoming =~= old(self)@.history + old(self)@.playing());
            if shuffle {
                self.shuffle_source();
            }
            let ghost mixed = self@.upcoming;
            self.current = self.take_next();
            proof {
                if mixed.len() > 0 {
                    assert(seq![mixed[0]] + mixed.skip(1) =~= mixed);
                }
                assert(self@.playing() + self@.upcoming =~= mixed);
                assert(!shuffle ==> self@ =~= old(self)@.lapped());
            }
            return self.current.as_ref();
        }
        self.retire_current(trim_history);
        None
    }

    /// The track that would play next, without moving anything, for
    /// preloading. Mirrors what `advance` would pick, repeat mode included.
    pub fn peek_next(&self, repeat: RepeatMode) -> (r: Option<&QueueEntry>)
        ensures
            match self@.next_track(repeat) {
                Some(entry) => r matches Some(e) && *e == entry,
                None => r is None,
            },
    {
        if repeat == RepeatMode::Track {
            return self.current.as_ref();
        }
        if self.next_up.len() > 0 {
            return Some(&self.next_up[0]);
        }
        if self.upcoming.len() > 0 {
            return Some(&self.upcoming[0]);
        }
        // About to lap: the next track is the front of what will be drained
        // back in, which is the current track where nothing played before it.
        if repeat == RepeatMode::Queue {
            if self.history.len() > 0 {
                return Some(&self.history[0]);
            }
            return self.current.as_ref();
        }
        None
    }

    /// Step back. Past `PREV_RESTART_AFTER_MS` into the track this means
    /// "play this one again", matching Spotify's Previous button.
    pub fn go_prev(&mut self, position_ms: u32) -> (r: PrevAction)
        requires
            old(self)@.wf(),
        ensures
            final(self)@.wf(),
            r == old(self)@.prev_action(position_ms),
            final(self)@ == old(self)@.previous(position_ms),
    {
        if self.current.is_some() && position_ms > PREV_RESTART_AFTER_MS {
            return PrevAction::RestartCurrent;
        }
        let previous = match self.history.pop_back() {
            Some(entry) => entry,
            None => {
                return PrevAction::NothingBehind;
            },
        };
        // The track being left plays next, so stepping back and forward again
        // returns where you were.
        if let Some(entry) = self.current.take() {
            self.next_up.push_front(entry);
        }
        self.current = Some(previous);
        self.played_total = self.played_total.saturating_sub(1);
        PrevAction::MovedBack
    }

    /// Randomise the order of the source tier. Explicit picks keep their order.
    pub fn shuffle_source(&mut self)
        ensures
            old(self)@.shuffled_to(final(self)@),
    {
        let mut items = self.take_source();
        shuffle_entries(&mut items);
        self.put_source(items);
    }

    /// Take the source tier out, in its order.
    fn take_source(&mut self) -> (r: Vec<QueueEntry>)
        ensures
            r@ == old(self)@.upcoming,
            final(self)@ == (QueueView { upcoming: seq![], ..old(self)@ }),
    {
        let ghost before = self@;
        let mut items: Vec<QueueEntry> = Vec::new();
        while self.upcoming.len() > 0
            invariant
                self@ == (QueueView { upcoming: self@.upcoming, ..before }),
                items@ + self@.upcoming =~= before.upcoming,
            decreases self.upcoming.len(),
        {
            if let Some(entry) = self.upcoming.pop_front() {
                items.push(entry);
            }
        }
        items
    }

    /// Make these tracks the source tier, in the order given.
    fn put_source(&mut self, items: Vec<QueueEntry>)
        ensures
            final(self)@ == (QueueView { upcoming: items@, ..old(self)@ }),
    {
        let ghost before = self@;
        let ghost given = items@;
        self.upcoming.clear();
        for entry in it: items
            invariant
                it.seq() == given,
                self@ == (QueueView { upcoming: given.take(it.index() as int), ..before }),
        {
            self.upcoming.push_back(entry);
        }
        assert(given.take(given.len() as int) =~= given);
    }

    /// Remove the `n`-th upcoming track, counting explicit picks first and
    /// starting at 1: the numbering `queue` displays.
    pub fn remove_upcoming(&mut self, n: usize) -> (r: Option<QueueEntry>)
        requires
            old(self)@.wf(),
        ensures
            final(self)@.wf(),
            final(self)@ == old(self)@.removed(n as int),
            if 1 <= n <= old(self)@.coming().len() {
                r == Some(old(self)@.coming()[n - 1])
            } else {
                r is None
            },
    {
        if n == 0 {
            return None;
        }
        let index: usize = n - 1;
        if index < self.next_up.len() {
            return self.next_up.remove(index);
        }
        self.upcoming.remove(index - self.next_up.len())
    }

    /// Drop everything still to play, keeping the current track and history.
    pub fn clear_upcoming(&mut self)
        requires
            old(self)@.wf(),
        ensures
            final(self)@.wf(),
            final(self)@ == (QueueView { next_up: seq![], upcoming: seq![], ..old(self)@ }),
    {
        self.next_up.clear();
        self.upcoming.clear();
    }

    /// Which track this is and how many are known about, as
    /// `(position, total)`: the numbers shown beside the current track. Both
    /// are 0 when nothing is playing.
    pub fn position(&self) -> (r: (usize, usize))
        requires
            self@.wf(),
        ensures
            r.0 == self@.place().0,
            r.1 == self@.place().1,
    {
        if self.current.is_none() {
            return (0, 0);
        }
        let position: usize = self.played_total + 1;
        (position, position + self.upcoming_len())
    }

    /// How many explicit picks wait to be played.
    pub fn next_up_len(&self) -> (r: usize)
        ensures
            r == self@.next_up.len(),
    {
        self.next_up.len()
    }

    /// How many tracks are counted on this lap.
    pub fn lap_len(&self) -> (r: usize)
        requires
            self@.wf(),
        ensures
            r == self@.lap(),
    {
        if self.current.is_none() {
            self.played_total
        } else {
            self.played_total + 1 + self.upcoming_len()
        }
    }

    /// How many played tracks are kept behind the current one.
    pub fn history_len(&self) -> (r: usize)
        ensures
            r == self@.history.len(),
    {
        self.history.len()
    }

    /// Forget everything, including what is playing.
    pub fn clear(&mut self)
        ensures
            final(self)@.wf(),
            final(self)@ == old(self)@.emptied(),
    {
        self.played_total = 0;
        self.history.clear();
        self.current = None;
        self.next_up.clear();
        self.upcoming.clear();
    }
}

// ---- what holds of every queue ----

/// A skip always moves while tracks are queued, whatever the modes: the first
/// track that was coming plays, and one track fewer is coming.
pub proof fn a_skip_always_moves(q: QueueView, new: QueueView, repeat: RepeatMode, shuffle: bool)
    requires
        q.wf(),
        q.coming().len() > 0,
        q.advances_to(new, repeat, shuffle, false),
    ensures
        new.current == Some(q.coming()[0]),
        new.coming() == q.coming().skip(1),
{
    assert(new.coming() =~= q.coming().skip(1));
}

/// Something is always playing while anything at all is queued.
pub proof fn nothing_is_queued_without_something_playing(q: QueueView)
    requires
        q.wf(),
        q.coming().len() > 0,
    ensures
        q.current is Some,
{
}

/// Tracks put into an exhausted queue start to play at once.
pub proof fn a_refill_starts_to_play(q: QueueView, entries: Seq<QueueEntry>)
    requires
        q.wf(),
        q.current is None,
        entries.len() > 0,
    ensures
        q.with_source(entries).current == Some(entries[0]),
        q.with_source(entries).coming() == entries.skip(1),
        q.with_source(entries).history == q.history,
        q.with_pick(entries[0]).current == Some(entries[0]),
        q.with_pick(entries[0]).coming().len() == 0,
{
    let new = q.with_source(entries);
    assert(q.upcoming + entries =~= entries);
    assert(new.coming() =~= entries.skip(1));
}

/// An explicit pick plays after the picks made before it and before the rest
/// of the source.
pub proof fn an_explicit_pick_precedes_the_source(q: QueueView, entry: QueueEntry)
    requires
        q.wf(),
        q.current is Some,
    ensures
        q.with_pick(entry).coming() == q.next_up.push(entry) + q.upcoming,
        q.with_pick(entry).current == q.current,
        q.with_pick(entry).history == q.history,
        q.with_pick(entry).played == q.played,
{
}

/// The tracks of a source play in their order, after everything that is coming
/// already; what plays goes on.
pub proof fn a_source_plays_after_what_is_coming(q: QueueView, entries: Seq<QueueEntry>)
    requires
        q.wf(),
        q.current is Some,
    ensures
        q.with_source(entries).coming() == q.coming() + entries,
        q.with_source(entries).current == q.current,
        q.with_source(entries).history == q.history,
        q.with_source(entries).played == q.played,
{
    assert(q.with_source(entries).coming() =~= q.coming() + entries);
}

/// The end of a track under repeat-track plays it again and moves nothing.
pub proof fn repeat_track_stays(q: QueueView, new: QueueView, shuffle: bool)
    requires
        q.wf(),
        q.current is Some,
        q.advances_to(new, RepeatMode::Track, shuffle, true),
    ensures
        new == q,
{
}

/// Repeat-queue never loses a track, and without shuffle it never changes the
/// order in which the tracks go round.
pub proof fn repeat_queue_keeps_every_track(
    q: QueueView,
    new: QueueView,
    shuffle: bool,
    ended: bool,
)
    requires
        q.wf(),
        q.advances_to(new, RepeatMode::Queue, shuffle, ended),
    ensures
        new.everything().to_multiset() == q.everything().to_multiset(),
        !shuffle ==> new.everything() == q.everything(),
{
    if q.coming().len() > 0 {
        assert(new.everything() =~= q.everything());
    } else {
        assert(q.everything() =~= q.history + q.playing());
        assert(new.everything() =~= new.playing() + new.upcoming);
        if !shuffle {
            let lap = q.history + q.playing();
            if lap.len() > 0 {
                assert(seq![lap[0]] + lap.skip(1) =~= lap);
            }
            assert(new.everything() =~= q.everything());
        }
    }
}

/// A track that ends while others are coming is not lost until the history
/// cap takes it, and the cap takes the oldest first.
pub proof fn history_is_the_recent_past(q: QueueView, new: QueueView, shuffle: bool, ended: bool)
    requires
        q.wf(),
        q.advances_to(new, RepeatMode::Off, shuffle, ended),
    ensures
        new.history.len() <= q.cap,
        new.history == last_of(q.history + q.playing(), q.cap),
{
}

/// The past that is kept stays within the cap as long as the queue does not
/// repeat.
pub proof fn history_stays_within_the_cap(
    q: QueueView,
    new: QueueView,
    repeat: RepeatMode,
    shuffle: bool,
    ended: bool,
)
    requires
        q.wf(),
        q.history.len() <= q.cap,
        repeat != RepeatMode::Queue,
        q.advances_to(new, repeat, shuffle, ended),
    ensures
        new.history.len() <= new.cap,
{
}

/// Stepping back and then forward leads to where one was: the same track
/// plays, and nothing else has changed either unless history is over its cap.
pub proof fn back_and_forward_again(q: QueueView, repeat: RepeatMode)
    requires
        q.wf(),
        q.current is Some,
        q.history.len() > 0,
    ensures
        q.moved_back().advanced(repeat, false).current == q.current,
        q.moved_back().advanced(repeat, false).coming() == q.coming(),
        q.history.len() <= q.cap || repeat == RepeatMode::Queue ==> q.moved_back().advanced(
            repeat,
            false,
        ) == q,
{
    let b = q.moved_back();
    let f = b.advanced(repeat, false);
    assert(b.coming().len() > 0);
    assert(b.next_up.skip(1) =~= q.next_up);
    assert(f.coming() =~= q.coming());
    assert(b.history + b.playing() =~= q.history);
    assert(q.history.len() <= q.cap || repeat == RepeatMode::Queue ==> f =~= q);
}

/// The track offered for preloading is the one that the end of the current
/// track leads to, wherever that is not left to chance.
pub proof fn peeking_mirrors_advancing(
    q: QueueView,
    new: QueueView,
    repeat: RepeatMode,
    shuffle: bool,
)
    requires
        q.wf(),
        q.advances_to(new, repeat, shuffle, true),
        !(shuffle && q.laps(repeat, true)),
    ensures
        new.current == q.next_track(repeat),
{
}

/// Numbers count up by one with each track, the total stays, and a new lap
/// starts from the top.
pub proof fn position_counts_through_the_queue(
    q: QueueView,
    new: QueueView,
    repeat: RepeatMode,
    shuffle: bool,
)
    requires
        q.wf(),
        q.current is Some,
        q.advances_to(new, repeat, shuffle, false),
    ensures
        q.coming().len() > 0 ==> new.place() == (q.place().0 + 1, q.place().1),
        q.laps(repeat, false) ==> new.place() == (1nat, q.history.len() + 1),
{
    if q.coming().len() == 0 && q.laps(repeat, false) {
        let lap = q.history + q.playing();
        if shuffle {
            let all = new.playing() + new.upcoming;
            lap.to_multiset_ensures();
            all.to_multiset_ensures();
            assert(all.len() == all.to_multiset().len());
            assert(lap.len() == lap.to_multiset().len());
        }
    }
}

/// Stepping back counts down by one.
pub proof fn position_steps_back(q: QueueView)
    requires
        q.wf(),
        q.current is Some,
        q.history.len() > 0,
    ensures
        q.moved_back().place() == ((q.place().0 - 1) as nat, q.place().1),
{
}

/// Removing takes the track with the number shown beside it, leaves the
/// others in order, and never touches the one that plays.
pub proof fn removal_goes_by_the_numbers_shown(q: QueueView, n: int)
    requires
        q.wf(),
        1 <= n <= q.coming().len(),
    ensures
        q.removed(n).coming() == q.coming().remove(n - 1),
        q.removed(n).current == q.current,
        q.removed(n).history == q.history,
{
    assert(q.removed(n).coming() =~= q.coming().remove(n - 1));
}

/// Shuffling keeps every track and leaves the explicit picks first, in order.
pub proof fn shuffle_keeps_every_track(q: QueueView, new: QueueView)
    requires
        q.wf(),
        q.shuffled_to(new),
    ensures
        new.wf(),
        new.everything().to_multiset() == q.everything().to_multiset(),
        new.coming().take(q.next_up.len() as int) == q.next_up,
{
    let head = q.history + q.playing() + q.next_up;
    assert(q.everything() =~= head + q.upcoming);
    assert(new.everything() =~= head + new.upcoming);
    vstd::seq_lib::lemma_multiset_commutative(head, q.upcoming);
    vstd::seq_lib::lemma_multiset_commutative(head, new.upcoming);
    assert(new.coming().take(q.next_up.len() as int) =~= q.next_up);
}

/// The cap takes the oldest: what is kept of the past is its end, as much of
/// it as the cap allows.
pub proof fn the_cap_takes_the_oldest(s: Seq<QueueEntry>, n: nat)
    ensures
        last_of(s, n).is_suffix_of(s),
        last_of(s, n).len() == (if s.len() <= n {
            s.len()
        } else {
            n
        }),
{
    let kept = last_of(s, n);
    assert(kept =~= s.subrange(s.len() - kept.len(), s.len() as int));
}

} // verus!
