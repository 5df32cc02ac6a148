//! Playback state: the queue, the modes, and what each user may pick from.
use vstd::prelude::*;
use vstd::string::*;

use crate::bot::cache::{list_view, track_views, TrackStore};
use crate::bot::queue::{PrevAction, Queue, QueueEntry, QueueView, DEFAULT_HISTORY_CAP};
use crate::services::Service;
use crate::text::{
    alphanumeric, chars_of, contains, decimal, digits, is_one_of, join, joined, lemma_views_push,
    lowercase, occurs, split, split_at_all, split_words, to_lower, views, words,
};
use crate::track::{Track, TrackView};

verus! {

/// How long a user's search results stay pickable, in milliseconds.
pub const SEARCH_RESULT_TTL_MS: u64 = 600_000;

/// How many users can hold pickable results at once. Bounded so a busy channel
/// cannot grow this without limit.
pub const SEARCH_RESULT_CAPACITY: u64 = 256;

#[derive(Debug, Clone, Copy, PartialEq, Eq, Structural)]
pub enum PlaybackStatus {
    Idle,
    Loading,
    Playing,
    Paused,
}

/// What happens when a track ends. One setting rather than two booleans:
/// "repeat this track" and "repeat the queue" are alternatives, and two
/// separate flags would make the impossible both-at-once state expressible.
#[derive(Debug, Clone, Copy, PartialEq, Eq, Structural)]
pub enum RepeatMode {
    Off,
    Track,
    Queue,
}

impl Default for RepeatMode {
    fn default() -> (r: Self)
        ensures
            r == RepeatMode::Off,
    {
        RepeatMode::Off
    }
}

impl RepeatMode {
    pub open spec fn of_flags(track: bool, queue: bool) -> RepeatMode {
        if track {
            RepeatMode::Track
        } else if queue {
            RepeatMode::Queue
        } else {
            RepeatMode::Off
        }
    }

    /// Read the pair of booleans the config file stores. A file with both set
    /// is not a state the bot can produce; track-repeat is the narrower of the
    /// two, so it wins.
    pub fn from_flags(track: bool, queue: bool) -> (r: Self)
        ensures
            r == RepeatMode::of_flags(track, queue),
    {
        match (track, queue) {
            (true, _) => RepeatMode::Track,
            (false, true) => RepeatMode::Queue,
            (false, false) => RepeatMode::Off,
        }
    }

    /// Back to the `(repeat_track, repeat_queue)` pair the config stores.
    pub fn to_flags(self) -> (r: (bool, bool))
        ensures
            r == (self == RepeatMode::Track, self == RepeatMode::Queue),
    {
        match self {
            RepeatMode::Off => (false, false),
            RepeatMode::Track => (true, false),
            RepeatMode::Queue => (false, true),
        }
    }
}

/// A repeat mode comes back unchanged from the pair of flags it is stored as.
pub proof fn repeat_mode_round_trips(mode: RepeatMode)
    ensures
        RepeatMode::of_flags(mode == RepeatMode::Track, mode == RepeatMode::Queue) == mode,
{
}

// ---- one key per song ----

/// Whether a qualifier marks a re-release of the same recording rather than a
/// new one. "live", "acoustic" and "remix" do not: those are genuinely
/// different performances and stay separate queue entries.
pub open spec fn reissue(segment: Seq<char>) -> bool {
    &&& !occurs(segment, "remix"@)
    &&& {
        ||| occurs(segment, "remaster"@)
        ||| occurs(segment, "version"@)
        ||| occurs(segment, "edit"@)
        ||| occurs(segment, "mono"@)
        ||| occurs(segment, "stereo"@)
        ||| occurs(segment, "anniversary"@)
        ||| occurs(segment, "deluxe"@)
        ||| occurs(segment, "reissue"@)
        ||| occurs(segment, "mix"@)
    }
}

pub fn is_reissue_marker(segment: &str) -> (r: bool)
    ensures
        r == reissue(segment@),
{
    // "remix" contains "mix" but is a different recording.
    if contains(segment, "remix") {
        return false;
    }
    contains(segment, "remaster") || contains(segment, "version") || contains(segment, "edit")
        || contains(segment, "mono") || contains(segment, "stereo") || contains(
        segment,
        "anniversary",
    ) || contains(segment, "deluxe") || contains(segment, "reissue") || contains(segment, "mix")
}

/// Text outside brackets, the text of the bracket being read, and how deep
/// that bracket is.
pub struct Brackets {
    pub outside: Seq<char>,
    pub group: Seq<char>,
    pub depth: nat,
}

/// Reading `s` from left to right. A closing bracket ends the group, which is
/// kept unless it marks a re-release.
pub open spec fn bracketed(s: Seq<char>) -> Brackets
    decreases s.len(),
{
    if s.len() == 0 {
        Brackets { outside: seq![], group: seq![], depth: 0 }
    } else {
        let b = bracketed(s.drop_last());
        let c = s.last();
        if c == '(' || c == '[' {
            Brackets { depth: b.depth + 1, ..b }
        } else if c == ')' || c == ']' {
            if b.depth > 0 {
                Brackets {
                    outside: if reissue(b.group) {
                        b.outside
                    } else {
                        b.outside + b.group
                    },
                    group: seq![],
                    depth: (b.depth - 1) as nat,
                }
            } else {
                b
            }
        } else if b.depth > 0 {
            Brackets { group: b.group.push(c), ..b }
        } else {
            Brackets { outside: b.outside.push(c), ..b }
        }
    }
}

/// `s` without its brackets, and without those that mark a re-release.
pub open spec fn unbracketed(s: Seq<char>) -> Seq<char> {
    bracketed(s).outside + bracketed(s).group
}

fn strip_brackets(s: &str) -> (r: String)
    ensures
        r@ == unbracketed(s@),
{
    let v = chars_of(s);
    let mut outside = String::new();
    let mut group = String::new();
    let mut depth: usize = 0;
    let mut i: usize = 0;
    while i < v.len()
        invariant
            i <= v.len(),
            depth <= i,
            (Brackets { outside: outside@, group: group@, depth: depth as nat }) == bracketed(
                v@.take(i as int),
            ),
        decreases v.len() - i,
    {
        let c = v[i];
        assert(v@.take(i + 1).drop_last() =~= v@.take(i as int));
        if c == '(' || c == '[' {
            depth += 1;
        } else if c == ')' || c == ']' {
            if depth > 0 {
                depth -= 1;
                if !is_reissue_marker(group.as_str()) {
                    outside.append(group.as_str());
                }
                group = String::new();
            }
        } else if depth > 0 {
            group.push(c);
        } else {
            outside.push(c);
        }
        i += 1;
    }
    assert(v@.take(i as int) =~= v@);
    outside.append(group.as_str());
    outside
}

/// The parts of a name without trailing re-release qualifiers. The first two
/// parts, the artist and the title, always stay.
pub open spec fn kept_parts(parts: Seq<Seq<char>>) -> Seq<Seq<char>>
    decreases parts.len(),
{
    if parts.len() == 0 {
        seq![]
    } else if parts.len() <= 2 || !reissue(parts.last()) {
        kept_parts(parts.drop_last()).push(parts.last())
    } else {
        kept_parts(parts.drop_last())
    }
}

/// Apostrophes vanish, and every other character that is no letter or digit
/// becomes a space.
pub open spec fn plain(s: Seq<char>) -> Seq<char>
    decreases s.len(),
{
    if s.len() == 0 {
        seq![]
    } else if s.last() == '\'' || s.last() == '\u{2019}' {
        plain(s.drop_last())
    } else if alphanumeric(s.last()) {
        plain(s.drop_last()).push(s.last())
    } else {
        plain(s.drop_last()).push(' ')
    }
}

/// A loose identity for a song.
pub open spec fn key_of(display_name: Seq<char>) -> Seq<char> {
    key_of_lower(lowercase(display_name))
}

/// The identity of a song whose name is in lower case.
pub open spec fn key_of_lower(name: Seq<char>) -> Seq<char> {
    joined(words(plain(joined(kept_parts(split(unbracketed(name), " - "@)), " "@))), " "@)
}

fn keep_parts(parts: &Vec<String>) -> (r: Vec<String>)
    ensures
        views(r@) == kept_parts(views(parts@)),
{
    let mut out: Vec<String> = Vec::new();
    let mut i: usize = 0;
    while i < parts.len()
        invariant
            i <= parts.len(),
            views(out@) == kept_parts(views(parts@).take(i as int)),
        decreases parts.len() - i,
    {
        assert(views(parts@).take(i + 1).drop_last() =~= views(parts@).take(i as int));
        assert(views(parts@).take(i + 1).last() == parts@[i as int]@);
        if i < 2 || !is_reissue_marker(parts[i].as_str()) {
            let part = parts[i].clone();
            proof {
                lemma_views_push(out@, part);
            }
            out.push(part);
        }
        i += 1;
    }
    assert(views(parts@).take(i as int) =~= views(parts@));
    out
}

fn plain_text(s: &str) -> (r: String)
    ensures
        r@ == plain(s@),
{
    let v = chars_of(s);
    let mut out = String::new();
    let mut i: usize = 0;
    while i < v.len()
        invariant
            i <= v.len(),
            out@ == plain(v@.take(i as int)),
        decreases v.len() - i,
    {
        let c = v[i];
        assert(v@.take(i + 1).drop_last() =~= v@.take(i as int));
        if c != '\'' && c != '\u{2019}' {
            if c.is_alphanumeric() {
                out.push(c);
            } else {
                out.push(' ');
            }
        }
        i += 1;
    }
    assert(v@.take(i as int) =~= v@);
    out
}

/// The identity of a song whose name is already in lower case.
pub fn song_key_of_lower(name: &str) -> (r: String)
    ensures
        r@ == key_of_lower(name@),
{
    proof {
        reveal_strlit(" - ");
    }
    let without_brackets = strip_brackets(name);
    let parts = split_at_all(without_brackets.as_str(), " - ");
    let kept = keep_parts(&parts);
    let line = join(&kept, " ");
    let tidy = plain_text(line.as_str());
    join(&split_words(tidy.as_str()), " ")
}

/// A loose identity for a song: the same recording released twice should share
/// one key. Case, punctuation, spacing and re-release qualifiers are dropped.
pub fn song_key(display_name: &str) -> (r: String)
    ensures
        r@ == key_of(display_name@),
{
    let lower = to_lower(display_name);
    song_key_of_lower(lower.as_str())
}

// ---- the state ----

pub struct PlayerState {
    pub queue: Queue,
    pub status: PlaybackStatus,
    pub repeat: RepeatMode,
    pub shuffle: bool,
    pub radio_enabled: bool,
    /// Pickable search results per user. Expiry and the capacity bound are the
    /// store's job.
    pub search_results: TrackStore,
    pub position_ms: u32,
    pub tracks_played: u32,
    /// The service that bare commands target (e.g. `p <query>`). In memory
    /// only: resets on restart.
    pub active_service: Service,
    /// Bumped on stop/clear and each new bulk load; a background bulk loader
    /// captures the value at spawn and dies when it no longer matches.
    pub bulk_load_generation: u64,
    /// True while an automatic advance is in flight. See
    /// `try_arm_auto_advance`.
    pub auto_advance_pending: bool,
}

/// Where the pickable results of a user are kept.
pub open spec fn user_key(user_id: i32) -> (u8, Seq<char>, i32) {
    (0u8, ""@, user_id)
}

/// The ids of a list of entries.
pub open spec fn entry_ids(entries: Seq<QueueEntry>) -> Seq<Seq<char>> {
    entries.map_values(|e: QueueEntry| e.track@.id())
}

/// The song keys of a list of entries.
pub open spec fn entry_keys(entries: Seq<QueueEntry>) -> Seq<Seq<char>> {
    entries.map_values(|e: QueueEntry| key_of(e.track@.display_name()))
}

/// The entries that tracks become in the queue.
pub open spec fn entries_for(
    tracks: Seq<Track>,
    requester: Seq<char>,
    allow_recommend: bool,
    entries: Seq<QueueEntry>,
) -> bool {
    &&& entries.len() == tracks.len()
    &&& forall|i: int|
        0 <= i < tracks.len() ==> {
            &&& (#[trigger] entries[i]).track == tracks[i]
            &&& entries[i].requester@ == requester
            &&& entries[i].allow_recommend == allow_recommend
        }
}

/// Whether queueing the tracks of a source leads from one queue to another.
/// Only shuffle leaves a choice.
pub open spec fn source_queued(
    old: QueueView,
    new: QueueView,
    tracks: Seq<Track>,
    requester: Seq<char>,
    allow_recommend: bool,
    shuffle: bool,
) -> bool {
    exists|entries: Seq<QueueEntry>|
        #![trigger entries_for(tracks, requester, allow_recommend, entries)]
        entries_for(tracks, requester, allow_recommend, entries) && ({
            let filled = old.with_source(entries);
            if shuffle {
                filled.shuffled_to(new)
            } else {
                new == filled
            }
        })
}

/// Whether queueing a track that a user asked for leads from one queue to
/// another.
pub open spec fn pick_queued(
    old: QueueView,
    new: QueueView,
    track: TrackView,
    requester: Seq<char>,
    allow_recommend: bool,
) -> bool {
    exists|entry: QueueEntry|
        {
            &&& #[trigger] entry.track@ == track
            &&& entry.requester@ == requester
            &&& entry.allow_recommend == allow_recommend
            &&& new == old.with_pick(entry)
        }
}

/// Whether the track at `i` is a song that neither the queue nor the tracks
/// before it hold, by id and by name.
pub open spec fn new_song(q: QueueView, tracks: Seq<Track>, i: int) -> bool {
    &&& !entry_ids(q.everything()).contains(tracks[i]@.id())
    &&& !entry_keys(q.everything()).contains(key_of(tracks[i]@.display_name()))
    &&& forall|j: int|
        0 <= j < i ==> (#[trigger] tracks[j])@.id() != tracks[i]@.id() && key_of(
            tracks[j]@.display_name(),
        ) != key_of(tracks[i]@.display_name())
}

/// The tracks that are new songs, in order.
pub open spec fn new_songs(q: QueueView, tracks: Seq<Track>, n: int) -> Seq<Track>
    decreases n,
{
    if n <= 0 {
        seq![]
    } else if new_song(q, tracks, n - 1) {
        new_songs(q, tracks, n - 1).push(tracks[n - 1])
    } else {
        new_songs(q, tracks, n - 1)
    }
}

/// `[marker]: name [length]`, the way a track is listed.
pub open spec fn listed(t: TrackView) -> Seq<char> {
    " ["@ + t.service().marker_spec() + "]: "@ + t.display_name() + " ["@ + t.duration_display()
        + "]"@
}

fn push_listed(out: &mut String, track: &Track)
    ensures
        final(out)@ == old(out)@ + listed(track@),
{
    let ghost before = out@;
    out.append(" [");
    out.append(track.service().marker());
    out.append("]: ");
    out.append(track.display_name().as_str());
    out.append(" [");
    out.append(track.duration_display().as_str());
    out.append("]");
    assert(out@ =~= before + listed(track@));
}

/// One numbered line of the queue.
pub open spec fn queue_line(i: nat, e: QueueEntry) -> Seq<char> {
    "  "@ + digits(i + 1) + "."@ + listed(e.track@)
}

/// The listing of the current track and the first `n` upcoming ones.
pub open spec fn queue_lines(q: QueueView, n: nat) -> Seq<char>
    decreases n,
{
    if n == 0 {
        match q.current {
            Some(e) => "> Now playing"@ + listed(e.track@),
            None => seq![],
        }
    } else {
        let before = queue_lines(q, (n - 1) as nat);
        (if before.len() > 0 {
            before.push('\n')
        } else {
            before
        }) + queue_line((n - 1) as nat, q.coming()[n - 1])
    }
}

/// The whole listing.
pub open spec fn queue_text(q: QueueView) -> Seq<char> {
    if q.current is None && q.coming().len() == 0 {
        "Queue is empty"@
    } else if q.coming().len() == 0 {
        queue_lines(q, 0).push('\n') + "  Nothing upcoming"@
    } else {
        queue_lines(q, q.coming().len())
    }
}

/// The active modes, named.
pub open spec fn modes_text(repeat: RepeatMode, shuffle: bool) -> Seq<char> {
    match (repeat, shuffle) {
        (RepeatMode::Off, false) => "No modes active"@,
        (RepeatMode::Off, true) => "Shuffle"@,
        (RepeatMode::Track, false) => "Repeat Track"@,
        (RepeatMode::Queue, false) => "Repeat Queue"@,
        (RepeatMode::Track, true) => "Repeat Track"@ + ", "@ + "Shuffle"@,
        (RepeatMode::Queue, true) => "Repeat Queue"@ + ", "@ + "Shuffle"@,
    }
}

/// The `pick`-th of a list of results.
pub fn pick_from(results: &Option<Vec<Track>>, pick: usize) -> (r: Option<Track>)
    ensures
        match results {
            Some(v) => if pick < v@.len() {
                r matches Some(t) && t@ == v@[pick as int]@
            } else {
                r is None
            },
            None => r is None,
        },
{
    match results {
        Some(v) => {
            if pick < v.len() {
                Some(v[pick].clone())
            } else {
                None
            }
        },
        None => None,
    }
}

impl Default for PlayerState {
    fn default() -> (r: Self)
        ensures
            r.fresh(),
    {
        PlayerState::new()
    }
}

impl PlayerState {
    pub open spec fn wf(&self) -> bool {
        self.queue@.wf()
    }

    /// The state that the bot starts in.
    pub open spec fn fresh(&self) -> bool {
        &&& self.wf()
        &&& self.queue@.everything().len() == 0
        &&& self.queue@.played == 0
        &&& self.queue@.cap == DEFAULT_HISTORY_CAP
        &&& self.status == PlaybackStatus::Idle
        &&& self.repeat == RepeatMode::Off
        &&& !self.shuffle
        &&& !self.radio_enabled
        &&& self.search_results@.dom() == Set::<(u8, Seq<char>, i32)>::empty()
        &&& self.search_results.limits() == (SEARCH_RESULT_CAPACITY, SEARCH_RESULT_TTL_MS)
        &&& self.position_ms == 0
        &&& self.tracks_played == 0
        &&& self.active_service == Service::Spotify
        &&& self.bulk_load_generation == 0
        &&& !self.auto_advance_pending
    }

    pub fn new() -> (r: Self)
        ensures
            r.fresh(),
    {
        PlayerState {
            queue: Queue::new(),
            status: PlaybackStatus::Idle,
            repeat: RepeatMode::Off,
            shuffle: false,
            radio_enabled: false,
            search_results: TrackStore::new(SEARCH_RESULT_CAPACITY, SEARCH_RESULT_TTL_MS),
            position_ms: 0,
            tracks_played: 0,
            active_service: Service::default(),
            bulk_load_generation: 0,
            auto_advance_pending: false,
        }
    }

    pub fn current(&self) -> (r: Option<&QueueEntry>)
        ensures
            match self.queue@.current {
                Some(entry) => r matches Some(e) && *e == entry,
                None => r is None,
            },
    {
        self.queue.current()
    }

    /// Tracks still to play, explicit picks first.
    pub fn upcoming(&self) -> (r: Vec<&QueueEntry>)
        ensures
            r@.len() == self.queue@.coming().len(),
            forall|i: int| 0 <= i < r@.len() ==> *(#[trigger] r@[i]) == self.queue@.coming()[i],
    {
        self.queue.upcoming()
    }

    pub fn upcoming_len(&self) -> (r: usize)
        requires
            self.wf(),
        ensures
            r == self.queue@.coming().len(),
    {
        self.queue.upcoming_len()
    }

    fn key_for(user_id: i32) -> (r: (u8, String, i32))
        ensures
            (r.0, r.1@, r.2) == user_key(user_id),
    {
        (0, String::from_str(""), user_id)
    }

    /// Store a user's pickable search results.
    pub fn insert_search_results(&mut self, user_id: i32, tracks: Vec<Track>)
        ensures
            final(self).search_results@ == old(self).search_results@.insert(
                user_key(user_id),
                track_views(tracks@),
            ),
            final(self).search_results.answers() == old(self).search_results.answers(),
            *final(self) == (PlayerState {
                search_results: final(self).search_results,
                ..*old(self)
            }),
    {
        self.search_results.insert(PlayerState::key_for(user_id), tracks);
    }

    /// A user's current search results, if any.
    pub fn get_search_results(&self, user_id: i32) -> (r: Option<Vec<Track>>)
        ensures
            r matches Some(v) ==> self.search_results@.contains_key(user_key(user_id))
                && track_views(v@) == self.search_results@[user_key(user_id)],
    {
        self.search_results.get(&PlayerState::key_for(user_id))
    }

    /// A user's current search results, if any, as the store answers now.
    pub fn ask_search_results(&mut self, user_id: i32) -> (r: Option<Vec<Track>>)
        ensures
            r matches Some(v) ==> old(self).search_results@.contains_key(user_key(user_id))
                && track_views(v@) == old(self).search_results@[user_key(user_id)],
            final(self).search_results.answers() == old(self).search_results.answers().push(
                (user_key(user_id), list_view(r)),
            ),
            final(self).search_results@ == old(self).search_results@,
            final(self).search_results.limits() == old(self).search_results.limits(),
            *final(self) == (PlayerState {
                search_results: final(self).search_results,
                ..*old(self)
            }),
    {
        let key = PlayerState::key_for(user_id);
        self.search_results.ask(&key)
    }

    /// Remove a user's search results; returns whether an entry existed.
    pub fn remove_search_results(&mut self, user_id: i32) -> (r: bool)
        ensures
            r ==> old(self).search_results@.contains_key(user_key(user_id)),
            final(self).search_results.answers().len() == old(self).search_results.answers().len()
                + 1,
            final(self).search_results.answers().drop_last()
                == old(self).search_results.answers(),
            final(self).search_results.answers().last().0 == user_key(user_id),
            r == (final(self).search_results.answers().last().1 is Some),
            final(self).search_results@ == old(self).search_results@.remove(user_key(user_id)),
            *final(self) == (PlayerState {
                search_results: final(self).search_results,
                ..*old(self)
            }),
    {
        let key = PlayerState::key_for(user_id);
        let existed = self.search_results.ask(&key).is_some();
        self.search_results.remove(&key);
        assert(self.search_results.answers().drop_last()
            =~= old(self).search_results.answers());
        existed
    }

    /// The `pick`-th result of a user's search, if present.
    pub fn pick_search_result(&self, user_id: i32, pick: usize) -> (r: Option<Track>)
        ensures
            r matches Some(t) ==> self.search_results@.contains_key(user_key(user_id)) && pick
                < self.search_results@[user_key(user_id)].len() && t@
                == self.search_results@[user_key(user_id)][pick as int],
    {
        pick_from(&self.get_search_results(user_id), pick)
    }

    /// Queue a track the user asked for by name: it plays before whatever
    /// source is being worked through, the way "next in queue" sits ahead of
    /// "next from" in Spotify.
    pub fn enqueue_next(&mut self, track: Track, requester: String, allow_recommend: bool)
        requires
            old(self).wf(),
            old(self).queue@.lap() < usize::MAX,
        ensures
            final(self).wf(),
            final(self).queue@ == old(self).queue@.with_pick(
                (QueueEntry { track, requester, allow_recommend }),
            ),
            *final(self) == (PlayerState { queue: final(self).queue, ..*old(self) }),
    {
        self.queue.push_next(QueueEntry { track, requester, allow_recommend });
    }

    /// Queue tracks from a source being played through: a playlist, an album,
    /// or radio.
    pub fn enqueue_source(&mut self, tracks: Vec<Track>, requester: String, allow_recommend: bool)
        requires
            old(self).wf(),
            old(self).queue@.lap() + tracks@.len() <= usize::MAX,
        ensures
            final(self).wf(),
            *final(self) == (PlayerState { queue: final(self).queue, ..*old(self) }),
            source_queued(
                old(self).queue@,
                final(self).queue@,
                tracks@,
                requester@,
                allow_recommend,
                old(self).shuffle,
            ),
    {
        let ghost all = tracks@;
        let mut entries: Vec<QueueEntry> = Vec::new();
        for track in it: tracks
            invariant
                it.seq() == all,
                entries@.len() == it.index(),
                forall|i: int|
                    0 <= i < entries@.len() ==> {
                        &&& (#[trigger] entries@[i]).track == all[i]
                        &&& entries@[i].requester@ == requester@
                        &&& entries@[i].allow_recommend == allow_recommend
                    },
        {
            entries.push(QueueEntry { track, requester: requester.clone(), allow_recommend });
        }
        assert(entries_for(all, requester@, allow_recommend, entries@));
        self.queue.push_source(entries);
        let ghost filled = self.queue@;
        // With shuffle on, a playlist added now must land shuffled too,
        // otherwise it plays in order and shuffle looks broken.
        if self.shuffle {
            self.queue.shuffle_source();
        }
    }

    /// Whether either repeat mode is on. Repeat means "keep playing what is
    /// already here", so radio must not append to the queue while it holds.
    pub fn repeat_active(&self) -> (r: bool)
        ensures
            r == (self.repeat != RepeatMode::Off),
    {
        self.repeat != RepeatMode::Off
    }

    pub fn repeats_track(&self) -> (r: bool)
        ensures
            r == (self.repeat == RepeatMode::Track),
    {
        self.repeat == RepeatMode::Track
    }

    pub fn repeats_queue(&self) -> (r: bool)
        ensures
            r == (self.repeat == RepeatMode::Queue),
    {
        self.repeat == RepeatMode::Queue
    }

    /// Claim the right to send an automatic advance, returning false when one
    /// is already in flight.
    ///
    /// One track can raise several "this track is done" signals (a natural
    /// end-of-track, an `Unavailable`, a YouTube `TrackEnded`), and each would
    /// send its own advance. The usual defence is the stale check, which
    /// compares the ended track against the current one; under repeat-track
    /// those are always equal, so every duplicate looks fresh and the track
    /// restarts once per signal.
    pub fn try_arm_auto_advance(&mut self) -> (r: bool)
        ensures
            r == !old(self).auto_advance_pending,
            *final(self) == (PlayerState { auto_advance_pending: true, ..*old(self) }),
    {
        if self.auto_advance_pending {
            return false;
        }
        self.auto_advance_pending = true;
        true
    }

    /// Release the claim once the advance has been consumed (or abandoned).
    pub fn release_auto_advance(&mut self)
        ensures
            *final(self) == (PlayerState { auto_advance_pending: false, ..*old(self) }),
    {
        self.auto_advance_pending = false;
    }

    /// Advance because the current track ended.
    pub fn advance(&mut self) -> (r: Option<&QueueEntry>)
        requires
            old(self).wf(),
        ensures
            final(self).wf(),
            old(self).queue@.advances_to(
                final(self).queue@,
                old(self).repeat,
                old(self).shuffle,
                true,
            ),
            *final(self) == (PlayerState { queue: final(self).queue, ..*old(self) }),
            match final(self).queue@.current {
                Some(entry) => r matches Some(e) && *e == entry,
                None => r is None,
            },
    {
        let repeat = self.repeat;
        let shuffle = self.shuffle;
        self.queue.advance(repeat, shuffle)
    }

    /// Advance because the user asked to skip.
    pub fn advance_manual(&mut self) -> (r: Option<&QueueEntry>)
        requires
            old(self).wf(),
        ensures
            final(self).wf(),
            old(self).queue@.advances_to(
                final(self).queue@,
                old(self).repeat,
                old(self).shuffle,
                false,
            ),
            *final(self) == (PlayerState { queue: final(self).queue, ..*old(self) }),
            match final(self).queue@.current {
                Some(entry) => r matches Some(e) && *e == entry,
                None => r is None,
            },
    {
        let repeat = self.repeat;
        let shuffle = self.shuffle;
        self.queue.advance_manual(repeat, shuffle)
    }

    /// Step back, given how far into the current track playback is.
    pub fn go_prev(&mut self, position_ms: u32) -> (r: PrevAction)
        requires
            old(self).wf(),
        ensures
            final(self).wf(),
            r == old(self).queue@.prev_action(position_ms),
            final(self).queue@ == old(self).queue@.previous(position_ms),
            *final(self) == (PlayerState { queue: final(self).queue, ..*old(self) }),
    {
        self.queue.go_prev(position_ms)
    }

    /// The track that would play next, for preloading.
    pub fn peek_next(&self) -> (r: Option<&QueueEntry>)
        ensures
            match self.queue@.next_track(self.repeat) {
                Some(entry) => r matches Some(e) && *e == entry,
                None => r is None,
            },
    {
        self.queue.peek_next(self.repeat)
    }

    /// Randomise the order of the source tier.
    pub fn shuffle_now(&mut self)
        ensures
            old(self).queue@.shuffled_to(final(self).queue@),
            *final(self) == (PlayerState { queue: final(self).queue, ..*old(self) }),
    {
        self.queue.shuffle_source();
    }

    /// Stop: forget the queue and whatever was in flight for it.
    pub fn clear(&mut self)
        requires
            old(self).bulk_load_generation < u64::MAX,
        ensures
            final(self).wf(),
            final(self).queue@ == old(self).queue@.emptied(),
            *final(self) == (PlayerState {
                queue: final(self).queue,
                status: PlaybackStatus::Idle,
                position_ms: 0,
                bulk_load_generation: (old(self).bulk_load_generation + 1) as u64,
                auto_advance_pending: false,
                ..*old(self)
            }),
    {
        self.queue.clear();
        self.status = PlaybackStatus::Idle;
        self.position_ms = 0;
        self.bulk_load_generation += 1;
        // A waiter armed for the track we just stopped will never be consumed.
        self.auto_advance_pending = false;
    }

    /// Drop everything after the current track (or the whole queue when
    /// nothing is playing). Also invalidates any in-flight background bulk
    /// loader, which would otherwise keep re-filling the queue the user just
    /// cleared.
    pub fn clear_upcoming(&mut self)
        requires
            old(self).wf(),
            old(self).bulk_load_generation < u64::MAX,
        ensures
            final(self).wf(),
            final(self).queue@ == (QueueView {
                next_up: seq![],
                upcoming: seq![],
                ..old(self).queue@
            }),
            *final(self) == (PlayerState {
                queue: final(self).queue,
                bulk_load_generation: (old(self).bulk_load_generation + 1) as u64,
                ..*old(self)
            }),
    {
        self.queue.clear_upcoming();
        self.bulk_load_generation += 1;
    }

    /// Start a new bulk load: invalidates any in-flight background loader and
    /// returns the generation the new loader must carry.
    pub fn begin_bulk_load(&mut self) -> (r: u64)
        requires
            old(self).bulk_load_generation < u64::MAX,
        ensures
            r == old(self).bulk_load_generation + 1,
            *final(self) == (PlayerState { bulk_load_generation: r, ..*old(self) }),
    {
        self.bulk_load_generation += 1;
        self.bulk_load_generation
    }

    /// The ids of everything that the queue knows about.
    pub fn known_ids(&self) -> (r: Vec<String>)
        ensures
            views(r@) == entry_ids(self.queue@.everything()),
    {
        let entries = self.queue.all_entries();
        let mut out: Vec<String> = Vec::new();
        let mut i: usize = 0;
        while i < entries.len()
            invariant
                i <= entries.len(),
                entries@.len() == self.queue@.everything().len(),
                forall|k: int|
                    0 <= k < entries@.len() ==> *(#[trigger] entries@[k])
                        == self.queue@.everything()[k],
                views(out@) == entry_ids(self.queue@.everything()).take(i as int),
            decreases entries.len() - i,
        {
            let id = entries[i].track.id().to_owned();
            proof {
                lemma_views_push(out@, id);
                assert(entry_ids(self.queue@.everything()).take(i + 1) =~= entry_ids(
                    self.queue@.everything(),
                ).take(i as int).push(id@));
            }
            out.push(id);
            i += 1;
        }
        assert(entry_ids(self.queue@.everything()).take(i as int) =~= entry_ids(
            self.queue@.everything(),
        ));
        out
    }

    fn known_keys(&self) -> (r: Vec<String>)
        ensures
            views(r@) == entry_keys(self.queue@.everything()),
    {
        let entries = self.queue.all_entries();
        let mut out: Vec<String> = Vec::new();
        let mut i: usize = 0;
        while i < entries.len()
            invariant
                i <= entries.len(),
                entries@.len() == self.queue@.everything().len(),
                forall|k: int|
                    0 <= k < entries@.len() ==> *(#[trigger] entries@[k])
                        == self.queue@.everything()[k],
                views(out@) == entry_keys(self.queue@.everything()).take(i as int),
            decreases entries.len() - i,
        {
            let key = song_key(entries[i].track.display_name().as_str());
            proof {
                lemma_views_push(out@, key);
                assert(entry_keys(self.queue@.everything()).take(i + 1) =~= entry_keys(
                    self.queue@.everything(),
                ).take(i as int).push(key@));
            }
            out.push(key);
            i += 1;
        }
        assert(entry_keys(self.queue@.everything()).take(i as int) =~= entry_keys(
            self.queue@.everything(),
        ));
        out
    }

    /// Drop incoming tracks that are already in the queue (by track id), so
    /// repeating a bulk source (liked songs, a playlist) doesn't duplicate it.
    pub fn filter_unqueued(&self, tracks: Vec<Track>) -> (r: Vec<Track>)
        ensures
            r@ == tracks@.filter(
                |t: Track| !entry_ids(self.queue@.everything()).contains(t@.id()),
            ),
    {
        let queued = self.known_ids();
        let ghost all = tracks@;
        let ghost keep = |t: Track| !entry_ids(self.queue@.everything()).contains(t@.id());
        let mut out: Vec<Track> = Vec::new();
        proof {
            reveal(Seq::filter);
        }
        assert(out@ =~= all.take(0).filter(keep));
        for track in it: tracks
            invariant
                it.seq() == all,
                keep == (|t: Track| !entry_ids(self.queue@.everything()).contains(t@.id())),
                views(queued@) == entry_ids(self.queue@.everything()),
                out@ == all.take(it.index() as int).filter(keep),
        {
            proof {
                reveal(Seq::filter);
                let i = it.index() as int;
                assert(all.take(i + 1).drop_last() =~= all.take(i));
                assert(all.take(i + 1).last() == all[i]);
            }
            if !is_one_of(&queued, track.id()) {
                out.push(track);
            }
        }
        assert(all.take(all.len() as int) =~= all);
        out
    }

    /// Like `filter_unqueued`, but also drops re-releases of songs already
    /// queued (and duplicates inside `tracks` itself).
    ///
    /// Radio recommendations are excluded by track id, and the same recording
    /// carries a different id on every remaster, single and regional release,
    /// so a station seeded from one song can hand back that song again and
    /// again, each copy looking new. Matching on `song_key` catches those.
    pub fn filter_unqueued_similar(&self, tracks: Vec<Track>) -> (r: Vec<Track>)
        ensures
            r@ == new_songs(self.queue@, tracks@, tracks@.len() as int),
    {
        let ghost q = self.queue@;
        let mut seen_ids = self.known_ids();
        let mut seen_songs = self.known_keys();
        let ghost all = tracks@;
        let mut out: Vec<Track> = Vec::new();
        for track in it: tracks
            invariant
                it.seq() == all,
                q == self.queue@,
                out@ == new_songs(q, all, it.index() as int),
                views(seen_ids@).len() == entry_ids(q.everything()).len() + it.index(),
                views(seen_songs@).len() == entry_keys(q.everything()).len() + it.index(),
                forall|k: int|
                    0 <= k < entry_ids(q.everything()).len() ==> #[trigger] views(seen_ids@)[k]
                        == entry_ids(q.everything())[k],
                forall|k: int|
                    0 <= k < it.index() ==> #[trigger] views(seen_ids@)[entry_ids(
                        q.everything(),
                    ).len() + k] == all[k]@.id(),
                forall|k: int|
                    0 <= k < entry_keys(q.everything()).len() ==> #[trigger] views(
                        seen_songs@,
                    )[k] == entry_keys(q.everything())[k],
                forall|k: int|
                    0 <= k < it.index() ==> #[trigger] views(seen_songs@)[entry_keys(
                        q.everything(),
                    ).len() + k] == key_of(all[k]@.display_name()),
        {
            // Both records must be made: a song whose id is known still has to
            // be remembered by name for the rest of the batch.
            let id = track.id().to_owned();
            let key = song_key(track.display_name().as_str());
            let new_id = !is_one_of(&seen_ids, id.as_str());
            let new_key = !is_one_of(&seen_songs, key.as_str());
            proof {
                let n = it.index() as int;
                lemma_seen(entry_ids(q.everything()), views(seen_ids@), all.map_values(|t: Track| t@.id()), n, id@);
                lemma_seen(
                    entry_keys(q.everything()),
                    views(seen_songs@),
                    all.map_values(|t: Track| key_of(t@.display_name())),
                    n,
                    key@,
                );
                let ids = all.map_values(|t: Track| t@.id());
                let keys = all.map_values(|t: Track| key_of(t@.display_name()));
                assert(forall|j: int| 0 <= j < n ==> ids[j] == (#[trigger] all[j])@.id());
                assert(forall|j: int|
                    0 <= j < n ==> keys[j] == key_of((#[trigger] all[j])@.display_name()));
                assert((new_id && new_key) == new_song(q, all, n)) by {
                    if new_id && new_key {
                        assert forall|j: int| 0 <= j < n implies (#[trigger] all[j])@.id()
                            != all[n]@.id() && key_of(all[j]@.display_name()) != key_of(
                            all[n]@.display_name(),
                        ) by {
                            assert(ids[j] == all[j]@.id());
                            assert(keys[j] == key_of(all[j]@.display_name()));
                        }
                    }
                    if new_song(q, all, n) {
                        assert forall|j: int| 0 <= j < n implies #[trigger] ids[j] != id@ by {
                            assert(all[j]@.id() != all[n]@.id());
                        }
                        assert forall|j: int| 0 <= j < n implies #[trigger] keys[j] != key@ by {
                            assert(key_of(all[j]@.display_name()) != key_of(
                                all[n]@.display_name(),
                            ));
                        }
                    }
                }
                lemma_views_push(seen_ids@, id);
                lemma_views_push(seen_songs@, key);
            }
            seen_ids.push(id);
            seen_songs.push(key);
            if new_id && new_key {
                out.push(track);
            }
        }
        out
    }

    /// Remove the `n`-th upcoming track, counting from 1 the way `queue`
    /// displays them. The playing track is not removable.
    pub fn remove_upcoming(&mut self, n: usize) -> (r: Option<QueueEntry>)
        requires
            old(self).wf(),
        ensures
            final(self).wf(),
            final(self).queue@ == old(self).queue@.removed(n as int),
            *final(self) == (PlayerState { queue: final(self).queue, ..*old(self) }),
            if 1 <= n <= old(self).queue@.coming().len() {
                r == Some(old(self).queue@.coming()[n - 1])
            } else {
                r is None
            },
    {
        self.queue.remove_upcoming(n)
    }

    /// The current track followed by what is still to come.
    ///
    /// Played tracks are deliberately left out, the way Spotify's queue and
    /// YouTube Music's "up next" do it: the queue answers "what is coming",
    /// not "what have we heard". Upcoming entries are numbered from 1 so the
    /// numbers shown are the numbers `queue rm N` takes.
    pub fn queue_display(&self) -> (r: String)
        requires
            self.wf(),
        ensures
            r@ == queue_text(self.queue@),
    {
        if self.queue.is_empty() {
            return String::from_str("Queue is empty");
        }
        let mut out = String::new();
        if let Some(entry) = self.queue.current() {
            out.append("> Now playing");
            push_listed(&mut out, &entry.track);
        }
        assert(out@ =~= queue_lines(self.queue@, 0));
        let upcoming = self.queue.upcoming();
        let mut i: usize = 0;
        while i < upcoming.len()
            invariant
                i <= upcoming.len(),
                upcoming@.len() == self.queue@.coming().len(),
                forall|k: int|
                    0 <= k < upcoming@.len() ==> *(#[trigger] upcoming@[k])
                        == self.queue@.coming()[k],
                out@ == queue_lines(self.queue@, i as nat),
            decreases upcoming.len() - i,
        {
            if !out.as_str().is_empty() {
                out.push('\n');
            }
            let ghost before = out@;
            out.append("  ");
            out.append(decimal(i as u64 + 1).as_str());
            out.append(".");
            push_listed(&mut out, &upcoming[i].track);
            assert(out@ =~= before + queue_line(i as nat, self.queue@.coming()[i as int]));
            i += 1;
        }
        if upcoming.len() == 0 {
            if !out.as_str().is_empty() {
                out.push('\n');
            }
            proof {
                reveal_strlit("> Now playing");
            }
            out.append("  Nothing upcoming");
        }
        out
    }

    pub fn mode_display(&self) -> (r: String)
        ensures
            r@ == modes_text(self.repeat, self.shuffle),
    {
        let mut out = match self.repeat {
            RepeatMode::Off => {
                return if self.shuffle {
                    String::from_str("Shuffle")
                } else {
                    String::from_str("No modes active")
                };
            },
            RepeatMode::Track => String::from_str("Repeat Track"),
            RepeatMode::Queue => String::from_str("Repeat Queue"),
        };
        if self.shuffle {
            out.append(", ");
            out.append("Shuffle");
        }
        out
    }
}

/// What is remembered is the queue's own, then the batch so far.
proof fn lemma_seen(
    known: Seq<Seq<char>>,
    seen: Seq<Seq<char>>,
    batch: Seq<Seq<char>>,
    n: int,
    x: Seq<char>,
)
    requires
        0 <= n <= batch.len(),
        seen.len() == known.len() + n,
        forall|k: int| 0 <= k < known.len() ==> #[trigger] seen[k] == known[k],
        forall|k: int| 0 <= k < n ==> #[trigger] seen[known.len() + k] == batch[k],
    ensures
        seen.contains(x) == (known.contains(x) || exists|j: int| 0 <= j < n && #[trigger] batch[j] == x),
{
    if seen.contains(x) {
        let k = choose|k: int| 0 <= k < seen.len() && seen[k] == x;
        if k < known.len() {
            assert(known[k] == x);
        } else {
            assert(seen[known.len() + (k - known.len())] == batch[k - known.len()]);
        }
    }
    if known.contains(x) {
        let k = choose|k: int| 0 <= k < known.len() && known[k] == x;
        assert(seen[k] == x);
    }
    if exists|j: int| 0 <= j < n && #[trigger] batch[j] == x {
        let j = choose|j: int| 0 <= j < n && #[trigger] batch[j] == x;
        assert(seen[known.len() + j] == x);
    }
}

// ---- what holds of every state ----

/// What is kept as new is none of the songs that the queue knows, neither by
/// id nor by name, and no song is kept twice.
pub proof fn only_new_songs_are_kept(q: QueueView, tracks: Seq<Track>, n: int, i: int, j: int)
    requires
        0 <= n <= tracks.len(),
        0 <= i < j < new_songs(q, tracks, n).len() || 0 <= i == j < new_songs(q, tracks, n).len(),
    ensures
        ({
            let kept = new_songs(q, tracks, n);
            &&& !entry_ids(q.everything()).contains(kept[i]@.id())
            &&& !entry_keys(q.everything()).contains(key_of(kept[i]@.display_name()))
            &&& i < j ==> kept[i]@.id() != kept[j]@.id() && key_of(kept[i]@.display_name())
                != key_of(kept[j]@.display_name())
        }),
    decreases n,
{
    let kept = new_songs(q, tracks, n);
    if n > 0 {
        let before = new_songs(q, tracks, n - 1);
        if j < before.len() {
            only_new_songs_are_kept(q, tracks, n - 1, i, j);
            assert(kept[i] == before[i]);
            assert(kept[j] == before[j]);
        } else if i < j {
            only_new_songs_are_kept(q, tracks, n - 1, i, i);
            assert(kept[i] == before[i]);
            lemma_kept_was_given(q, tracks, n - 1, i);
            let k = choose|k: int| 0 <= k < n - 1 && #[trigger] tracks[k] == before[i];
            assert(tracks[k]@.id() != tracks[n - 1]@.id());
        }
    }
}

proof fn lemma_kept_was_given(q: QueueView, tracks: Seq<Track>, n: int, i: int)
    requires
        0 <= n <= tracks.len(),
        0 <= i < new_songs(q, tracks, n).len(),
    ensures
        exists|k: int| 0 <= k < n && #[trigger] tracks[k] == new_songs(q, tracks, n)[i],
    decreases n,
{
    if n > 0 {
        let before = new_songs(q, tracks, n - 1);
        if i < before.len() {
            lemma_kept_was_given(q, tracks, n - 1, i);
            let k = choose|k: int| 0 <= k < n - 1 && #[trigger] tracks[k] == before[i];
            assert(tracks[k] == new_songs(q, tracks, n)[i]);
        } else {
            assert(tracks[n - 1] == new_songs(q, tracks, n)[i]);
        }
    }
}

/// A song that neither the queue nor an earlier one of the tracks holds is
/// kept.
pub proof fn every_new_song_is_kept(q: QueueView, tracks: Seq<Track>, n: int, k: int)
    requires
        0 <= k < n <= tracks.len(),
        !entry_ids(q.everything()).contains(tracks[k]@.id()),
        !entry_keys(q.everything()).contains(key_of(tracks[k]@.display_name())),
        forall|j: int|
            0 <= j < k ==> (#[trigger] tracks[j])@.id() != tracks[k]@.id() && key_of(
                tracks[j]@.display_name(),
            ) != key_of(tracks[k]@.display_name()),
    ensures
        new_songs(q, tracks, n).contains(tracks[k]),
    decreases n,
{
    let kept = new_songs(q, tracks, n);
    let before = new_songs(q, tracks, n - 1);
    if k == n - 1 {
        assert(kept[before.len() as int] == tracks[k]);
    } else {
        every_new_song_is_kept(q, tracks, n - 1, k);
        let i = choose|i: int| 0 <= i < before.len() && before[i] == tracks[k];
        assert(kept[i] == tracks[k]);
    }
}

/// A note in brackets that marks a re-release does not count for the name of a
/// song, and the text of any other note does.
pub proof fn a_note_in_brackets(name: Seq<char>, note: Seq<char>)
    requires
        bracketed(name).depth == 0,
        bracketed(name).group.len() == 0,
        forall|i: int|
            0 <= i < note.len() ==> (#[trigger] note[i]) != '(' && note[i] != '[' && note[i] != ')'
                && note[i] != ']',
    ensures
        unbracketed(name.push('(') + note.push(')')) == (if reissue(note) {
            unbracketed(name)
        } else {
            unbracketed(name) + note
        }),
{
    let open = name.push('(');
    assert(open.drop_last() =~= name);
    lemma_group(open, note);
    let all = name.push('(') + note.push(')');
    assert(all.drop_last() =~= open + note);
    assert(bracketed(open + note).group =~= note);
    assert(unbracketed(name) =~= bracketed(name).outside);
    assert(unbracketed(all) =~= bracketed(all).outside);
}

proof fn lemma_group(open: Seq<char>, note: Seq<char>)
    requires
        bracketed(open).depth == 1,
        forall|i: int|
            0 <= i < note.len() ==> (#[trigger] note[i]) != '(' && note[i] != '[' && note[i] != ')'
                && note[i] != ']',
    ensures
        bracketed(open + note).depth == 1,
        bracketed(open + note).outside == bracketed(open).outside,
        bracketed(open + note).group == bracketed(open).group + note,
    decreases note.len(),
{
    if note.len() == 0 {
        assert(open + note =~= open);
        assert(bracketed(open).group + note =~= bracketed(open).group);
    } else {
        let p = note.drop_last();
        assert forall|i: int| 0 <= i < p.len() implies (#[trigger] p[i]) != '(' && p[i] != '['
            && p[i] != ')' && p[i] != ']' by {
            assert(p[i] == note[i]);
        }
        lemma_group(open, p);
        assert((open + note).drop_last() =~= open + p);
        assert((open + note).last() == note[note.len() - 1]);
        assert((bracketed(open).group + p).push(note.last()) =~= bracketed(open).group + note);
    }
}

/// Different modes read differently.
pub proof fn modes_are_told_apart(a: RepeatMode, x: bool, b: RepeatMode, y: bool)
    requires
        modes_text(a, x) == modes_text(b, y),
    ensures
        a == b,
        x == y,
{
    reveal_strlit("No modes active");
    reveal_strlit("Shuffle");
    reveal_strlit("Repeat Track");
    reveal_strlit("Repeat Queue");
    reveal_strlit(", ");
    assert("No modes active"@.len() == 15 && "Shuffle"@.len() == 7);
    assert("Repeat Track"@.len() == 12 && "Repeat Queue"@.len() == 12);
    assert("Repeat Track"@[7] == 'T' && "Repeat Queue"@[7] == 'Q');
    assert(("Repeat Track"@ + ", "@ + "Shuffle"@)[7] == 'T');
    assert(("Repeat Queue"@ + ", "@ + "Shuffle"@)[7] == 'Q');
    assert(("Repeat Track"@ + ", "@ + "Shuffle"@).len() == 21);
    assert(("Repeat Queue"@ + ", "@ + "Shuffle"@).len() == 21);
}

/// Both a repeat mode and shuffle are named where they are on, and neither
/// where it is off.
pub proof fn active_modes_are_named(repeat: RepeatMode, shuffle: bool)
    ensures
        shuffle ==> occurs(modes_text(repeat, shuffle), "Shuffle"@),
        repeat == RepeatMode::Track ==> occurs(modes_text(repeat, shuffle), "Track"@),
        repeat == RepeatMode::Queue ==> occurs(modes_text(repeat, shuffle), "Queue"@),
        repeat == RepeatMode::Off && !shuffle ==> occurs(modes_text(repeat, shuffle), "No modes"@),
{
    reveal_strlit("No modes active");
    reveal_strlit("No modes");
    reveal_strlit("Shuffle");
    reveal_strlit("Repeat Track");
    reveal_strlit("Repeat Queue");
    reveal_strlit("Track");
    reveal_strlit("Queue");
    reveal_strlit(", ");
    let t = modes_text(repeat, shuffle);
    if shuffle {
        if repeat == RepeatMode::Off {
            assert(t.subrange(0, 7) =~= "Shuffle"@);
            assert(crate::text::at(t, 0, "Shuffle"@));
        } else {
            assert(t.subrange(14, 21) =~= "Shuffle"@);
            assert(crate::text::at(t, 14, "Shuffle"@));
        }
    }
    if repeat == RepeatMode::Track {
        assert(t.subrange(7, 12) =~= "Track"@);
        assert(crate::text::at(t, 7, "Track"@));
    }
    if repeat == RepeatMode::Queue {
        assert(t.subrange(7, 12) =~= "Queue"@);
        assert(crate::text::at(t, 7, "Queue"@));
    }
    if repeat == RepeatMode::Off && !shuffle {
        assert(t.subrange(0, 8) =~= "No modes"@);
        assert(crate::text::at(t, 0, "No modes"@));
    }
}

/// The listing of the queue shows every track that is coming, with the number
/// by which it can be removed, and those with lower numbers first.
pub proof fn the_listing_numbers_what_is_coming(q: QueueView, n: int)
    requires
        1 <= n <= q.coming().len(),
    ensures
        exists|at: int|
            {
                &&& 0 <= at <= queue_text(q).len()
                &&& #[trigger] queue_text(q).skip(at) == "  "@ + digits(n as nat) + "."@ + listed(
                    q.coming()[n - 1].track@,
                ) + lines_after(q, n, q.coming().len() as int)
            },
{
    let m = q.coming().len() as int;
    lemma_listing(q, n, m);
    assert(queue_text(q) == queue_lines(q, m as nat));
    let at = choose|at: int|
        {
            &&& 0 <= at <= queue_lines(q, m as nat).len()
            &&& #[trigger] queue_lines(q, m as nat).skip(at) == "  "@ + digits(n as nat) + "."@
                + listed(q.coming()[n - 1].track@) + lines_after(q, n, m)
        };
    assert(queue_text(q).skip(at) == queue_lines(q, m as nat).skip(at));
}

/// The lines of the listing that follow the `n`-th, up to the `m`-th.
pub open spec fn lines_after(q: QueueView, n: int, m: int) -> Seq<char>
    decreases m - n,
{
    if m <= n {
        seq![]
    } else {
        lines_after(q, n, m - 1) + "\n  "@ + digits(m as nat) + "."@ + listed(
            q.coming()[m - 1].track@,
        )
    }
}

proof fn lemma_lines_after(q: QueueView, n: int, m: int)
    requires
        0 <= n < m,
    ensures
        lines_after(q, n, m) == lines_after(q, n, m - 1).push('\n') + queue_line(
            (m - 1) as nat,
            q.coming()[m - 1],
        ),
{
    reveal_strlit("\n  ");
    reveal_strlit("  ");
    let front = lines_after(q, n, m - 1);
    let number = digits(m as nat);
    let shown = listed(q.coming()[m - 1].track@);
    assert("\n  "@ =~= seq!['\n'] + "  "@);
    assert(((m - 1) as nat + 1) as nat == m as nat);
    let line = "  "@ + number + "."@ + shown;
    assert(front + (seq!['\n'] + "  "@) + number + "."@ + shown =~= front.push('\n') + line);
}

proof fn lemma_put_behind(
    before: Seq<char>,
    at: int,
    here: Seq<char>,
    after: Seq<char>,
    line: Seq<char>,
)
    requires
        0 <= at <= before.len(),
        before.skip(at) == here + after,
    ensures
        (before.push('\n') + line).skip(at) == here + (after.push('\n') + line),
{
    let text = before.push('\n') + line;
    assert(text.skip(at) =~= before.skip(at).push('\n') + line);
    assert((here + after).push('\n') + line =~= here + (after.push('\n') + line));
}

proof fn lemma_listing(q: QueueView, n: int, m: int)
    requires
        1 <= n <= m <= q.coming().len(),
    ensures
        exists|at: int|
            {
                &&& 0 <= at <= queue_lines(q, m as nat).len()
                &&& #[trigger] queue_lines(q, m as nat).skip(at) == "  "@ + digits(n as nat)
                    + "."@ + listed(q.coming()[n - 1].track@) + lines_after(q, n, m)
            },
    decreases m,
{
    let text = queue_lines(q, m as nat);
    let before = queue_lines(q, (m - 1) as nat);
    let line = queue_line((m - 1) as nat, q.coming()[m - 1]);
    let here = "  "@ + digits(n as nat) + "."@ + listed(q.coming()[n - 1].track@);
    if n == m {
        let at = text.len() - line.len();
        assert(text.skip(at) =~= line);
        assert(((m - 1) as nat + 1) as nat == m as nat);
        assert(line == here);
        assert(here + lines_after(q, n, m) =~= here);
        assert(text.skip(at) == here + lines_after(q, n, m));
    } else {
        lemma_listing(q, n, m - 1);
        let at = choose|at: int|
            {
                &&& 0 <= at <= before.len()
                &&& #[trigger] before.skip(at) == here + lines_after(q, n, m - 1)
            };
        assert(before.len() > 0) by {
            reveal_strlit("  ");
            assert(here.len() > 0);
            assert(before.skip(at).len() > 0);
        }
        lemma_lines_after(q, n, m);
        lemma_put_behind(before, at, here, lines_after(q, n, m - 1), line);
        assert(text == before.push('\n') + line);
        assert(text.skip(at) == here + lines_after(q, n, m));
    }
}

/// Only letters and numbers count in a song key: an apostrophe is as if it
/// were not there, and anything else parts words.
pub proof fn only_letters_and_numbers_count(a: Seq<char>, c: char, b: Seq<char>)
    ensures
        plain(a + b) == plain(a) + plain(b),
        c == '\'' || c == '\u{2019}' ==> plain(a.push(c) + b) == plain(a + b),
        c != '\'' && c != '\u{2019}' && alphanumeric(c) ==> plain(a.push(c) + b) == plain(a).push(c)
            + plain(b),
        c != '\'' && c != '\u{2019}' && !alphanumeric(c) ==> plain(a.push(c) + b) == plain(a).push(
            ' ',
        ) + plain(b),
{
    lemma_plain_parts(a, b);
    lemma_plain_parts(a.push(c), b);
    assert(a.push(c).drop_last() =~= a);
}

proof fn lemma_plain_parts(a: Seq<char>, b: Seq<char>)
    ensures
        plain(a + b) == plain(a) + plain(b),
    decreases b.len(),
{
    if b.len() == 0 {
        assert(a + b =~= a);
        assert(plain(a) + plain(b) =~= plain(a));
    } else {
        lemma_plain_parts(a, b.drop_last());
        assert((a + b).drop_last() =~= a + b.drop_last());
        assert(plain(a + b) =~= plain(a) + plain(b));
    }
}

/// A part behind the artist and the title counts unless it only tells of a
/// reissue; the artist and the title always do.
pub proof fn a_reissue_behind_a_dash_does_not_count(parts: Seq<Seq<char>>, note: Seq<char>)
    ensures
        parts.len() >= 2 && reissue(note) ==> kept_parts(parts.push(note)) == kept_parts(parts),
        parts.len() < 2 || !reissue(note) ==> kept_parts(parts.push(note)) == kept_parts(
            parts,
        ).push(note),
        parts.len() <= 2 ==> kept_parts(parts) == parts,
{
    assert(parts.push(note).drop_last() =~= parts);
    lemma_first_parts_stay(parts);
}

proof fn lemma_first_parts_stay(parts: Seq<Seq<char>>)
    ensures
        parts.len() <= 2 ==> kept_parts(parts) == parts,
    decreases parts.len(),
{
    if 0 < parts.len() <= 2 {
        lemma_first_parts_stay(parts.drop_last());
        assert(parts.drop_last().push(parts.last()) =~= parts);
    } else if parts.len() == 0 {
        assert(kept_parts(parts) =~= parts);
    }
}

/// The search results of two users are kept apart.
pub proof fn results_are_kept_for_each_user(one: i32, other: i32)
    ensures
        user_key(one) == user_key(other) <==> one == other,
{
}

/// A track is listed with its service, its name and how long it is.
pub proof fn a_track_is_listed_by_name(t: TrackView)
    ensures
        (" ["@ + t.service().marker_spec() + "]: "@ + t.display_name()).is_prefix_of(listed(t)),
        (t.duration_display() + "]"@).is_suffix_of(listed(t)),
        listed(t).len() > t.display_name().len() + t.duration_display().len(),
{
    reveal_strlit("]");
    let text = listed(t);
    let front = " ["@ + t.service().marker_spec() + "]: "@ + t.display_name();
    let back = t.duration_display() + "]"@;
    assert(front =~= text.take(front.len() as int));
    assert(back =~= text.subrange(text.len() - back.len(), text.len() as int));
}

/// The listing begins with the track that plays.
pub proof fn the_listing_begins_with_what_plays(q: QueueView)
    requires
        q.current is Some,
    ensures
        ("> Now playing"@ + listed(q.current->0.track@)).is_prefix_of(queue_text(q)),
{
    let head = "> Now playing"@ + listed(q.current->0.track@);
    assert(queue_lines(q, 0) == head);
    if q.coming().len() == 0 {
        let text = queue_text(q);
        assert(head =~= text.take(head.len() as int));
    } else {
        lemma_lines_grow(q, q.coming().len());
    }
}

proof fn lemma_lines_grow(q: QueueView, n: nat)
    requires
        n <= q.coming().len(),
    ensures
        queue_lines(q, 0).is_prefix_of(queue_lines(q, n)),
    decreases n,
{
    let head = queue_lines(q, 0);
    if n == 0 {
        assert(head =~= head.take(head.len() as int));
    } else {
        lemma_lines_grow(q, (n - 1) as nat);
        let before = queue_lines(q, (n - 1) as nat);
        let text = queue_lines(q, n);
        assert(head =~= before.take(head.len() as int));
        assert(head =~= text.take(head.len() as int));
    }
}

/// A note with one of the words for a reissue is one, wherever the word stands;
/// a remix is a recording of its own.
pub proof fn reissues_are_told_by_their_words(before: Seq<char>, after: Seq<char>)
    ensures
        !reissue(before + "remix"@ + after),
        !occurs(before + "remaster"@ + after, "remix"@) ==> reissue(before + "remaster"@ + after),
        !occurs(before + "version"@ + after, "remix"@) ==> reissue(before + "version"@ + after),
        !occurs(before + "edit"@ + after, "remix"@) ==> reissue(before + "edit"@ + after),
        !occurs(before + "mono"@ + after, "remix"@) ==> reissue(before + "mono"@ + after),
        !occurs(before + "stereo"@ + after, "remix"@) ==> reissue(before + "stereo"@ + after),
        !occurs(before + "anniversary"@ + after, "remix"@) ==> reissue(before + "anniversary"@ + after),
        !occurs(before + "deluxe"@ + after, "remix"@) ==> reissue(before + "deluxe"@ + after),
        !occurs(before + "reissue"@ + after, "remix"@) ==> reissue(before + "reissue"@ + after),
        !occurs(before + "mix"@ + after, "remix"@) ==> reissue(before + "mix"@ + after),
{
    lemma_within(before, "remix"@, after);
    lemma_within(before, "remaster"@, after);
    lemma_within(before, "version"@, after);
    lemma_within(before, "edit"@, after);
    lemma_within(before, "mono"@, after);
    lemma_within(before, "stereo"@, after);
    lemma_within(before, "anniversary"@, after);
    lemma_within(before, "deluxe"@, after);
    lemma_within(before, "reissue"@, after);
    lemma_within(before, "mix"@, after);
}

proof fn lemma_within(before: Seq<char>, word: Seq<char>, after: Seq<char>)
    ensures
        occurs(before + word + after, word),
{
    let s = before + word + after;
    let i = before.len() as int;
    assert(s.subrange(i, i + word.len()) =~= word);
    assert(crate::text::at(s, i, word));
}

} // verus!
