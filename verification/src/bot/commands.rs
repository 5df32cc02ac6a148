//! The command language: what a message asks for, and what is answered.
use vstd::prelude::*;
use vstd::string::*;

use crate::bot::cache::{list_view, track_views, TrackStore};
use crate::bot::state::{modes_text, queue_text, user_key, PlaybackStatus, PlayerState};
use crate::config::{is_valid_gender, valid_gender};
use crate::i18n::{arg_views, message, Catalog, Key};
use crate::services::Service;
use crate::text::{
    all_digits, byte_count, byte_count_adds_up, byte_len, chars_of, decimal, decimal2, digits, is_digit, is_white, join,
    joined, lemma_views_push, lines, lowercase, parse_signed, parse_unsigned, same, signed,
    signed_decimal, signed_digits, slice_string, split_lines, starts_with, strip_prefix, to_lower,
    trim, trimmed, two_digits, unsigned, views,
};
use crate::track::{Track, TrackView};

verus! {

/// Commands sent from the bot thread to the command processor.
#[derive(Debug)]
pub enum BotCommand {
    SearchAndPlay { query: String, user_id: i32, user_name: String },
    Play { user_id: i32 },
    Pause { user_id: i32 },
    Stop { user_id: i32 },
    /// `after_track`: Some(uri) when sent automatically because that track
    /// ended or failed: the handler drops it if the queue already moved past
    /// that track (races with a manual `n`). None for a user-issued skip.
    Next { user_id: i32, after_track: Option<String> },
    Prev { user_id: i32 },
    Seek { offset_ms: i32, user_id: i32 },
    SetVolume { percent: u8, user_id: i32 },
    SetMode { mode: PlaybackMode, user_id: i32 },
    SetShuffle { enable: bool, user_id: i32 },
    RadioToggle { enable: bool, user_id: i32 },
    QueueClear { user_id: i32 },
    QueueRemove { index: usize, user_id: i32 },
    SearchOnly { query: String, user_id: i32 },
    SearchPick { user_id: i32, pick: usize, user_name: String },
    JoinChannel { path: String, user_id: i32 },
    ChangeNick { name: String, user_id: i32 },
    SetGender { gender: String, user_id: i32 },
    Quit { user_id: i32 },
    Restart { user_id: i32 },
    SetService { service: Service, user_id: i32 },
    /// Admin: set the server-wide default language (glang). Persisted to config.
    SetDefaultLanguage { code: String, user_id: i32 },
    /// Internal: pre-fetch radio recommendations for the given seed track
    RadioPreFetch { seed_uri: String },
    /// Internal: preload next track for gapless playback
    PreloadNext,
    /// Internal: start whatever the queue says is current. Sent when a
    /// background load fills a queue that had run dry: the queue makes the
    /// first arrival current, but only the command loop can start audio.
    StartCurrent,
    /// Internal: a YouTube track finished (or errored). `generation` identifies
    /// which load this belongs to so a stale completion (after the user already
    /// skipped/stopped) is dropped instead of double-advancing the queue.
    /// `error` carries a short failure reason when playback did not end cleanly.
    TrackEnded { generation: u64, error: Option<String> },
}

/// What happens when a track ends. Shuffle is a separate toggle, the way it is
/// in Spotify, so it can be combined with either repeat mode.
#[derive(Debug, Clone, Copy, PartialEq, Eq, Structural)]
pub enum PlaybackMode {
    RepeatTrack,
    RepeatQueue,
    Off,
}

/// A command with its texts as sequences of characters.
pub enum CommandView {
    SearchAndPlay { query: Seq<char>, user_id: i32, user_name: Seq<char> },
    Play { user_id: i32 },
    Pause { user_id: i32 },
    Stop { user_id: i32 },
    Next { user_id: i32, after_track: Option<Seq<char>> },
    Prev { user_id: i32 },
    Seek { offset_ms: i32, user_id: i32 },
    SetVolume { percent: u8, user_id: i32 },
    SetMode { mode: PlaybackMode, user_id: i32 },
    SetShuffle { enable: bool, user_id: i32 },
    RadioToggle { enable: bool, user_id: i32 },
    QueueClear { user_id: i32 },
    QueueRemove { index: usize, user_id: i32 },
    SearchOnly { query: Seq<char>, user_id: i32 },
    SearchPick { user_id: i32, pick: usize, user_name: Seq<char> },
    JoinChannel { path: Seq<char>, user_id: i32 },
    ChangeNick { name: Seq<char>, user_id: i32 },
    SetGender { gender: Seq<char>, user_id: i32 },
    Quit { user_id: i32 },
    Restart { user_id: i32 },
    SetService { service: Service, user_id: i32 },
    SetDefaultLanguage { code: Seq<char>, user_id: i32 },
    RadioPreFetch { seed_uri: Seq<char> },
    PreloadNext,
    StartCurrent,
    TrackEnded { generation: u64, error: Option<Seq<char>> },
}

/// The characters of an optional string.
pub open spec fn opt_view(s: Option<String>) -> Option<Seq<char>> {
    match s {
        Some(t) => Some(t@),
        None => None,
    }
}

impl View for BotCommand {
    type V = CommandView;

    open spec fn view(&self) -> CommandView {
        match *self {
            BotCommand::SearchAndPlay { query, user_id, user_name } => CommandView::SearchAndPlay {
                query: query@,
                user_id,
                user_name: user_name@,
            },
            BotCommand::Play { user_id } => CommandView::Play { user_id },
            BotCommand::Pause { user_id } => CommandView::Pause { user_id },
            BotCommand::Stop { user_id } => CommandView::Stop { user_id },
            BotCommand::Next { user_id, after_track } => CommandView::Next {
                user_id,
                after_track: opt_view(after_track),
            },
            BotCommand::Prev { user_id } => CommandView::Prev { user_id },
            BotCommand::Seek { offset_ms, user_id } => CommandView::Seek { offset_ms, user_id },
            BotCommand::SetVolume { percent, user_id } => CommandView::SetVolume {
                percent,
                user_id,
            },
            BotCommand::SetMode { mode, user_id } => CommandView::SetMode { mode, user_id },
            BotCommand::SetShuffle { enable, user_id } => CommandView::SetShuffle {
                enable,
                user_id,
            },
            BotCommand::RadioToggle { enable, user_id } => CommandView::RadioToggle {
                enable,
                user_id,
            },
            BotCommand::QueueClear { user_id } => CommandView::QueueClear { user_id },
            BotCommand::QueueRemove { index, user_id } => CommandView::QueueRemove {
                index,
                user_id,
            },
            BotCommand::SearchOnly { query, user_id } => CommandView::SearchOnly {
                query: query@,
                user_id,
            },
            BotCommand::SearchPick { user_id, pick, user_name } => CommandView::SearchPick {
                user_id,
                pick,
                user_name: user_name@,
            },
            BotCommand::JoinChannel { path, user_id } => CommandView::JoinChannel {
                path: path@,
                user_id,
            },
            BotCommand::ChangeNick { name, user_id } => CommandView::ChangeNick {
                name: name@,
                user_id,
            },
            BotCommand::SetGender { gender, user_id } => CommandView::SetGender {
                gender: gender@,
                user_id,
            },
            BotCommand::Quit { user_id } => CommandView::Quit { user_id },
            BotCommand::Restart { user_id } => CommandView::Restart { user_id },
            BotCommand::SetService { service, user_id } => CommandView::SetService {
                service,
                user_id,
            },
            BotCommand::SetDefaultLanguage { code, user_id } => CommandView::SetDefaultLanguage {
                code: code@,
                user_id,
            },
            BotCommand::RadioPreFetch { seed_uri } => CommandView::RadioPreFetch {
                seed_uri: seed_uri@,
            },
            BotCommand::PreloadNext => CommandView::PreloadNext,
            BotCommand::StartCurrent => CommandView::StartCurrent,
            BotCommand::TrackEnded { generation, error } => CommandView::TrackEnded {
                generation,
                error: opt_view(error),
            },
        }
    }
}

// ---- splitting replies ----

/// Maximum reply length before message-chunking kicks in.
pub const MAX_REPLY_LEN: usize = 500;

/// Chunks that are full, and the one being filled.
pub struct Chunking {
    pub done: Seq<Seq<char>>,
    pub chunk: Seq<char>,
}

impl Chunking {
    pub open spec fn ended(self) -> Seq<Seq<char>> {
        if self.chunk.len() > 0 {
            self.done.push(self.chunk)
        } else {
            self.done
        }
    }
}

/// Filling chunks with lines: a line goes into the chunk being filled as long
/// as the chunk stays within `max_len` bytes, else it starts the next one.
pub open spec fn chunking(lines: Seq<Seq<char>>, max_len: nat) -> Chunking
    decreases lines.len(),
{
    if lines.len() == 0 {
        Chunking { done: seq![], chunk: seq![] }
    } else {
        let c = chunking(lines.drop_last(), max_len);
        let line = lines.last();
        if c.chunk.len() == 0 {
            Chunking { done: c.done, chunk: line }
        } else if byte_count(c.chunk) + 1 + byte_count(line) > max_len {
            Chunking { done: c.done.push(c.chunk), chunk: line }
        } else {
            Chunking { done: c.done, chunk: c.chunk.push('\n') + line }
        }
    }
}

/// The chunks of a message.
pub open spec fn chunks(text: Seq<char>, max_len: nat) -> Seq<Seq<char>> {
    if text.len() == 0 {
        seq![]
    } else if byte_count(text) <= max_len {
        seq![text]
    } else {
        chunking(lines(text), max_len).ended()
    }
}

/// Split a message into chunks no larger than `max_len`, splitting on line
/// boundaries (never mid-line). A line that is itself longer than `max_len` is
/// returned as a single oversized chunk rather than truncated.
///
/// Empty input returns an empty Vec (nothing to send).
pub fn chunk_message(text: &str, max_len: usize) -> (r: Vec<String>)
    ensures
        views(r@) == chunks(text@, max_len as nat),
{
    let mut out: Vec<String> = Vec::new();
    if text.is_empty() {
        assert(views(out@) =~= seq![]);
        return out;
    }
    if byte_len(text) <= max_len {
        let whole = text.to_owned();
        proof {
            lemma_views_push(out@, whole);
        }
        out.push(whole);
        assert(views(out@) =~= seq![text@]);
        return out;
    }
    let all = split_lines(text);
    let ghost ls = views(all@);
    let mut chunk = String::new();
    let mut i: usize = 0;
    while i < all.len()
        invariant
            i <= all.len(),
            ls == views(all@),
            views(out@) == chunking(ls.take(i as int), max_len as nat).done,
            chunk@ == chunking(ls.take(i as int), max_len as nat).chunk,
        decreases all.len() - i,
    {
        proof {
            assert(ls.take(i + 1).drop_last() =~= ls.take(i as int));
            assert(ls.take(i + 1).last() == all@[i as int]@);
        }
        let line = all[i].as_str();
        if chunk.as_str().is_empty() {
            chunk = line.to_owned();
        } else {
            let have = byte_len(chunk.as_str());
            let more = byte_len(line);
            if have >= max_len || more >= max_len - have {
                proof {
                    lemma_views_push(out@, chunk);
                }
                out.push(chunk);
                chunk = line.to_owned();
            } else {
                chunk.push('\n');
                chunk.append(line);
            }
        }
        i += 1;
    }
    assert(ls.take(i as int) =~= ls);
    if !chunk.as_str().is_empty() {
        proof {
            lemma_views_push(out@, chunk);
        }
        out.push(chunk);
    }
    out
}

/// The chunks of a reply, in the order in which they are sent.
pub fn reply_chunks(text: &str) -> (r: Vec<String>)
    ensures
        views(r@) == chunks(text@, MAX_REPLY_LEN as nat),
{
    chunk_message(text, MAX_REPLY_LEN)
}

/// A chunk is never empty, and it is within the limit unless it is one line
/// that is longer by itself.
pub proof fn chunks_fit(text: Seq<char>, max_len: nat, i: int)
    requires
        0 <= i < chunks(text, max_len).len(),
    ensures
        chunks(text, max_len)[i].len() > 0,
        byte_count(chunks(text, max_len)[i]) <= max_len || lines(text).contains(
            chunks(text, max_len)[i],
        ),
{
    if byte_count(text) > max_len {
        lemma_chunking(lines(text), max_len);
        let c = chunking(lines(text), max_len);
        if i < c.done.len() {
            assert(chunks(text, max_len)[i] == c.done[i]);
        }
    }
}

/// Whether chunks are made of the lines of a text, each of a run of lines put
/// together again: `runs` tells where each begins and ends. The runs follow
/// each other, none begins with a blank line, and every line that is not blank
/// is in one of them.
pub open spec fn made_of_lines(
    ls: Seq<Seq<char>>,
    chunks: Seq<Seq<char>>,
    runs: Seq<(int, int)>,
) -> bool {
    &&& runs.len() == chunks.len()
    &&& forall|i: int|
        0 <= i < runs.len() ==> {
            &&& 0 <= (#[trigger] runs[i]).0 < runs[i].1 <= ls.len()
            &&& ls[runs[i].0].len() > 0
            &&& chunks[i] == joined(ls.subrange(runs[i].0, runs[i].1), "\n"@)
        }
    &&& forall|i: int, j: int|
        0 <= i < j < runs.len() ==> (#[trigger] runs[i]).1 <= (#[trigger] runs[j]).0
    &&& forall|k: int| 0 <= k < ls.len() && ls[k].len() > 0 ==> #[trigger] in_a_run(runs, k)
}

/// Whether the line at `k` is in one of some runs.
pub open spec fn in_a_run(runs: Seq<(int, int)>, k: int) -> bool {
    exists|i: int| 0 <= i < runs.len() && (#[trigger] runs[i]).0 <= k < runs[i].1
}

/// A message that fits is sent as it is. Of a longer one every line is sent
/// whole and in its place, but for blank lines at which a chunk would begin.
pub proof fn chunks_keep_the_lines(text: Seq<char>, max_len: nat)
    ensures
        text.len() > 0 && byte_count(text) <= max_len ==> chunks(text, max_len) == seq![text],
        byte_count(text) > max_len ==> exists|runs: Seq<(int, int)>| #[trigger]
            made_of_lines(lines(text), chunks(text, max_len), runs),
{
    if text.len() == 0 {
        byte_count_adds_up(text, text);
        assert(text + text =~= text);
    }
    if byte_count(text) > max_len {
        let runs = lemma_runs(lines(text), max_len);
        assert(made_of_lines(lines(text), chunks(text, max_len), runs));
    }
}

/// Of a message without blank lines that does not fit, the chunks with line
/// breaks between them are the lines with line breaks between them: nothing is
/// lost, added or moved.
pub proof fn chunks_put_together_are_the_message(text: Seq<char>, max_len: nat)
    requires
        byte_count(text) > max_len,
        forall|k: int| 0 <= k < lines(text).len() ==> (#[trigger] lines(text)[k]).len() > 0,
    ensures
        joined(chunks(text, max_len), "\n"@) == joined(lines(text), "\n"@),
{
    if text.len() == 0 {
        byte_count_adds_up(text, text);
        assert(text + text =~= text);
    }
    lemma_chunks_joined(lines(text), max_len);
}

proof fn lemma_joined_push(parts: Seq<Seq<char>>, last: Seq<char>, sep: Seq<char>)
    requires
        parts.len() > 0,
    ensures
        joined(parts.push(last), sep) == joined(parts, sep) + sep + last,
{
    assert(parts.push(last).drop_last() =~= parts);
}

proof fn lemma_chunks_joined(ls: Seq<Seq<char>>, max_len: nat)
    requires
        forall|k: int| 0 <= k < ls.len() ==> (#[trigger] ls[k]).len() > 0,
    ensures
        joined(chunking(ls, max_len).ended(), "\n"@) == joined(ls, "\n"@),
        ls.len() > 0 ==> chunking(ls, max_len).chunk.len() > 0,
    decreases ls.len(),
{
    if ls.len() > 0 {
        reveal_strlit("\n");
        let p = ls.drop_last();
        let line = ls.last();
        assert(ls[ls.len() - 1] == line);
        assert forall|k: int| 0 <= k < p.len() implies (#[trigger] p[k]).len() > 0 by {
            assert(p[k] == ls[k]);
        }
        lemma_chunks_joined(p, max_len);
        let b = chunking(p, max_len);
        let c = chunking(ls, max_len);
        assert("\n"@ =~= seq!['\n']);
        if p.len() == 0 {
            assert(c.ended() =~= seq![line]);
        } else {
            lemma_joined_push(p, line, "\n"@);
            assert(p.push(line) =~= ls);
            if byte_count(b.chunk) + 1 + byte_count(line) > max_len {
                assert(c.ended() =~= b.ended().push(line));
                lemma_joined_push(b.ended(), line, "\n"@);
            } else if b.done.len() == 0 {
                assert(b.ended() =~= seq![b.chunk]);
                assert(c.ended() =~= seq![c.chunk]);
                assert(b.chunk.push('\n') + line =~= b.chunk + "\n"@ + line);
            } else {
                lemma_joined_push(b.done, b.chunk, "\n"@);
                lemma_joined_push(b.done, c.chunk, "\n"@);
                assert(joined(b.done, "\n"@) + "\n"@ + (b.chunk.push('\n') + line) =~= joined(
                    b.done,
                    "\n"@,
                ) + "\n"@ + b.chunk + "\n"@ + line);
            }
        }
    }
}

/// The lines in runs stay where they are when a line follows.
proof fn lemma_runs_stay(ls: Seq<Seq<char>>, line: Seq<char>, runs: Seq<(int, int)>, i: int)
    requires
        0 <= i < runs.len(),
        0 <= runs[i].0 < runs[i].1 <= ls.len(),
    ensures
        ls.push(line).subrange(runs[i].0, runs[i].1) == ls.subrange(runs[i].0, runs[i].1),
        ls.push(line)[runs[i].0] == ls[runs[i].0],
{
    assert(ls.push(line).subrange(runs[i].0, runs[i].1) =~= ls.subrange(runs[i].0, runs[i].1));
}

proof fn lemma_blank_line_follows(
    ls: Seq<Seq<char>>,
    line: Seq<char>,
    parts: Seq<Seq<char>>,
    runs: Seq<(int, int)>,
)
    requires
        made_of_lines(ls, parts, runs),
        line.len() == 0,
    ensures
        made_of_lines(ls.push(line), parts, runs),
{
    let all = ls.push(line);
    assert forall|i: int| 0 <= i < runs.len() implies {
        &&& 0 <= (#[trigger] runs[i]).0 < runs[i].1 <= all.len()
        &&& all[runs[i].0].len() > 0
        &&& parts[i] == joined(all.subrange(runs[i].0, runs[i].1), "\n"@)
    } by {
        lemma_runs_stay(ls, line, runs, i);
    }
    assert forall|k: int| 0 <= k < all.len() && all[k].len() > 0 implies #[trigger] in_a_run(
        runs,
        k,
    ) by {
        assert(all[k] == ls[k]);
    }
}

proof fn lemma_run_begins(
    ls: Seq<Seq<char>>,
    line: Seq<char>,
    parts: Seq<Seq<char>>,
    runs: Seq<(int, int)>,
)
    requires
        made_of_lines(ls, parts, runs),
        line.len() > 0,
    ensures
        made_of_lines(
            ls.push(line),
            parts.push(line),
            runs.push((ls.len() as int, ls.len() as int + 1)),
        ),
{
    let n = ls.len() as int;
    let all = ls.push(line);
    let longer = runs.push((n, n + 1));
    assert(all.subrange(n, n + 1) =~= seq![line]);
    assert forall|i: int| 0 <= i < longer.len() implies {
        &&& 0 <= (#[trigger] longer[i]).0 < longer[i].1 <= all.len()
        &&& all[longer[i].0].len() > 0
        &&& parts.push(line)[i] == joined(all.subrange(longer[i].0, longer[i].1), "\n"@)
    } by {
        if i < runs.len() {
            assert(longer[i] == runs[i]);
            lemma_runs_stay(ls, line, runs, i);
        }
    }
    assert forall|k: int| 0 <= k < all.len() && all[k].len() > 0 implies #[trigger] in_a_run(
        longer,
        k,
    ) by {
        if k < n {
            assert(all[k] == ls[k]);
            assert(in_a_run(runs, k));
            let i = choose|i: int| 0 <= i < runs.len() && (#[trigger] runs[i]).0 <= k < runs[i].1;
            assert(longer[i] == runs[i]);
        } else {
            assert(longer[runs.len() as int] == (n, n + 1));
        }
    }
}

proof fn lemma_run_goes_on(
    ls: Seq<Seq<char>>,
    line: Seq<char>,
    parts: Seq<Seq<char>>,
    runs: Seq<(int, int)>,
)
    requires
        made_of_lines(ls, parts, runs),
        runs.len() > 0,
        runs.last().1 == ls.len(),
    ensures
        made_of_lines(
            ls.push(line),
            parts.drop_last().push(parts.last() + "\n"@ + line),
            runs.drop_last().push((runs.last().0, ls.len() as int + 1)),
        ),
{
    let n = ls.len() as int;
    let all = ls.push(line);
    let m = runs.len() - 1;
    let from = runs.last().0;
    let longer = runs.drop_last().push((from, n + 1));
    let filled = parts.drop_last().push(parts.last() + "\n"@ + line);
    assert(runs[m] == runs.last());
    lemma_runs_stay(ls, line, runs, m);
    assert(all.subrange(from, n + 1).drop_last() =~= all.subrange(from, n));
    assert(all.subrange(from, n + 1).last() == line);
    assert(joined(all.subrange(from, n + 1), "\n"@) == parts.last() + "\n"@ + line);
    assert forall|i: int| 0 <= i < longer.len() implies {
        &&& 0 <= (#[trigger] longer[i]).0 < longer[i].1 <= all.len()
        &&& all[longer[i].0].len() > 0
        &&& filled[i] == joined(all.subrange(longer[i].0, longer[i].1), "\n"@)
    } by {
        if i < m {
            assert(longer[i] == runs[i]);
            lemma_runs_stay(ls, line, runs, i);
        }
    }
    assert forall|i: int, j: int| 0 <= i < j < longer.len() implies (#[trigger] longer[i]).1 <= (
    #[trigger] longer[j]).0 by {
        assert(longer[i] == runs[i]);
        assert(longer[j].0 == runs[j].0);
    }
    assert forall|k: int| 0 <= k < all.len() && all[k].len() > 0 implies #[trigger] in_a_run(
        longer,
        k,
    ) by {
        if k < n {
            assert(all[k] == ls[k]);
            assert(in_a_run(runs, k));
            let i = choose|i: int| 0 <= i < runs.len() && (#[trigger] runs[i]).0 <= k < runs[i].1;
            if i < m {
                assert(longer[i] == runs[i]);
            } else {
                assert(longer[m] == (from, n + 1));
            }
        } else {
            assert(longer[m] == (from, n + 1));
        }
    }
}

/// The runs of the chunks that some lines fill. The last run reaches to the
/// end as long as its chunk is being filled.
proof fn lemma_runs(ls: Seq<Seq<char>>, max_len: nat) -> (runs: Seq<(int, int)>)
    ensures
        made_of_lines(ls, chunking(ls, max_len).ended(), runs),
        chunking(ls, max_len).chunk.len() > 0 ==> runs.len() > 0 && runs.last().1 == ls.len(),
    decreases ls.len(),
{
    let c = chunking(ls, max_len);
    if ls.len() == 0 {
        assert(c.ended() =~= seq![]);
        seq![]
    } else {
        let p = ls.drop_last();
        let line = ls.last();
        assert(p.push(line) =~= ls);
        let before = lemma_runs(p, max_len);
        let b = chunking(p, max_len);
        if b.chunk.len() == 0 || byte_count(b.chunk) + 1 + byte_count(line) > max_len {
            if line.len() > 0 {
                lemma_run_begins(p, line, b.ended(), before);
                assert(c.ended() =~= b.ended().push(line));
                before.push((p.len() as int, p.len() as int + 1))
            } else {
                lemma_blank_line_follows(p, line, b.ended(), before);
                assert(c.ended() =~= b.ended());
                before
            }
        } else {
            reveal_strlit("\n");
            assert("\n"@ =~= seq!['\n']);
            lemma_run_goes_on(p, line, b.ended(), before);
            assert(c.chunk =~= b.ended().last() + "\n"@ + line);
            assert(c.ended() =~= b.ended().drop_last().push(c.chunk));
            before.drop_last().push((before.last().0, p.len() as int + 1))
        }
    }
}

proof fn lemma_chunking(ls: Seq<Seq<char>>, max_len: nat)
    ensures
        ({
            let c = chunking(ls, max_len);
            &&& forall|i: int|
                0 <= i < c.done.len() ==> (#[trigger] c.done[i]).len() > 0 && (byte_count(c.done[i])
                    <= max_len || ls.contains(c.done[i]))
            &&& c.chunk.len() > 0 ==> byte_count(c.chunk) <= max_len || ls.contains(c.chunk)
        }),
    decreases ls.len(),
{
    if ls.len() > 0 {
        let p = ls.drop_last();
        lemma_chunking(p, max_len);
        let b = chunking(p, max_len);
        let c = chunking(ls, max_len);
        assert(ls[ls.len() - 1] == ls.last());
        assert forall|x: Seq<char>| p.contains(x) implies ls.contains(x) by {
            let k = choose|k: int| 0 <= k < p.len() && p[k] == x;
            assert(ls[k] == x);
        }
        if b.chunk.len() > 0 && byte_count(b.chunk) + 1 + byte_count(ls.last()) <= max_len {
            byte_count_adds_up(b.chunk.push('\n'), ls.last());
            byte_count_adds_up(b.chunk, seq!['\n']);
            assert(b.chunk.push('\n') =~= b.chunk + seq!['\n']);
            lemma_newline_is_one_byte();
        }
        assert forall|i: int| 0 <= i < c.done.len() implies (#[trigger] c.done[i]).len() > 0 && (
        byte_count(c.done[i]) <= max_len || ls.contains(c.done[i])) by {
            if i < b.done.len() {
                assert(c.done[i] == b.done[i]);
            }
        }
    }
}

proof fn lemma_newline_is_one_byte()
    ensures
        byte_count(seq!['\n']) == 1,
{
    vstd::utf8::is_ascii_chars_encode_utf8(seq!['\n']);
}

// ---- reading a message ----

/// Result of the first-pass classification of an incoming message, before any
/// command-specific handling.
#[derive(Debug, PartialEq)]
pub enum Input {
    /// Empty/whitespace-only message.
    Empty,
    /// Search cancellation word (a / cancel / abort / exit).
    Cancel,
    /// Bare number (search pick). `n` is as typed (1-based; 0 is a no-op).
    Number(usize),
    /// A command word plus its (case-preserved) argument string.
    Command { name: String, args: String },
}

/// A classified message with its texts as sequences of characters.
pub enum InputView {
    Empty,
    Cancel,
    Number(usize),
    Command { name: Seq<char>, args: Seq<char> },
}

impl View for Input {
    type V = InputView;

    open spec fn view(&self) -> InputView {
        match *self {
            Input::Empty => InputView::Empty,
            Input::Cancel => InputView::Cancel,
            Input::Number(n) => InputView::Number(n),
            Input::Command { name, args } => InputView::Command { name: name@, args: args@ },
        }
    }
}

/// How many characters `s` begins with that are no white space.
pub open spec fn word_length(s: Seq<char>) -> nat
    decreases s.len(),
{
    if s.len() > 0 && !is_white(s[0]) {
        1 + word_length(s.skip(1))
    } else {
        0
    }
}

pub open spec fn cancel_word(word: Seq<char>) -> bool {
    word == "a"@ || word == "cancel"@ || word == "abort"@ || word == "exit"@
}

/// A message that is neither empty nor has a prefix.
pub open spec fn classified_bare(s: Seq<char>) -> InputView {
    if cancel_word(lowercase(s)) {
        InputView::Cancel
    } else if unsigned(s) matches Some(n) && n <= usize::MAX {
        InputView::Number(unsigned(s)->0 as usize)
    } else {
        let end = word_length(s) as int;
        if end < s.len() {
            InputView::Command { name: lowercase(s.take(end)), args: trimmed(s.skip(end + 1)) }
        } else {
            InputView::Command { name: lowercase(s), args: ""@ }
        }
    }
}

/// What a message is.
pub open spec fn classified(text: Seq<char>) -> InputView {
    let t = trimmed(text);
    if t.len() == 0 {
        InputView::Empty
    } else if t[0] == '/' || t[0] == '!' {
        classified_bare(t.skip(1))
    } else {
        classified_bare(t)
    }
}

proof fn lemma_word_length(s: Seq<char>, n: int)
    requires
        0 <= n <= s.len(),
        forall|k: int| 0 <= k < n ==> !is_white(#[trigger] s[k]),
        n < s.len() ==> is_white(s[n]),
    ensures
        word_length(s) == n,
    decreases n,
{
    if n > 0 {
        assert(!is_white(s[0]));
        assert forall|k: int| 0 <= k < n - 1 implies !is_white(#[trigger] s.skip(1)[k]) by {
            assert(s.skip(1)[k] == s[k + 1]);
        }
        lemma_word_length(s.skip(1), n - 1);
    }
}

fn classify_bare(stripped: &str) -> (r: Input)
    ensures
        r@ == classified_bare(stripped@),
{
    let lower = to_lower(stripped);
    let word = lower.as_str();
    if same(word, "a") || same(word, "cancel") || same(word, "abort") || same(word, "exit") {
        return Input::Cancel;
    }
    if let Some(n) = parse_unsigned(stripped, usize::MAX as u64) {
        return Input::Number(n as usize);
    }
    let v = chars_of(stripped);
    let mut i: usize = 0;
    while i < v.len() && !is_white(v[i])
        invariant
            i <= v.len(),
            forall|k: int| 0 <= k < i ==> !is_white(#[trigger] v@[k]),
        decreases v.len() - i,
    {
        i += 1;
    }
    proof {
        lemma_word_length(v@, i as int);
    }
    if i < v.len() {
        let name = slice_string(&v, 0, i);
        assert(name@ =~= v@.take(i as int));
        let rest = slice_string(&v, i + 1, v.len());
        assert(rest@ =~= v@.skip(i + 1));
        Input::Command {
            name: to_lower(name.as_str()),
            args: trim(rest.as_str()).to_owned(),
        }
    } else {
        Input::Command { name: lower, args: String::from_str("") }
    }
}

/// Classify raw message text: strip an optional `/`/`!` prefix, detect cancel
/// words and bare-number picks, otherwise split into a lowercased command word
/// and its trimmed argument string.
pub fn classify_input(text: &str) -> (r: Input)
    ensures
        r@ == classified(text@),
{
    let t = trim(text);
    if t.is_empty() {
        return Input::Empty;
    }
    proof {
        reveal_strlit("/");
        reveal_strlit("!");
        assert(t@.subrange(0, 1) =~= seq![t@[0]]);
        assert("/"@ =~= seq!['/']);
        assert("!"@ =~= seq!['!']);
        assert("/"@.is_prefix_of(t@) == (t@[0] == '/')) by {
            if t@[0] == '/' {
                assert("/"@ =~= t@.subrange(0, 1));
            } else if "/"@.is_prefix_of(t@) {
                assert(t@.subrange(0, 1)[0] == '/');
            }
        }
        assert("!"@.is_prefix_of(t@) == (t@[0] == '!')) by {
            if t@[0] == '!' {
                assert("!"@ =~= t@.subrange(0, 1));
            } else if "!"@.is_prefix_of(t@) {
                assert(t@.subrange(0, 1)[0] == '!');
            }
        }
    }
    if let Some(rest) = strip_prefix(t, "/") {
        return classify_bare(rest);
    }
    if let Some(rest) = strip_prefix(t, "!") {
        return classify_bare(rest);
    }
    classify_bare(t)
}

/// Parsed volume command. `SetTo` carries the raw requested percent (unbounded;
/// the caller clamps against `max_volume`).
#[derive(Debug, Clone, Copy, PartialEq, Eq, Structural)]
pub enum VolumeParse {
    Show,
    SetTo(u16),
}

/// Whether `cmd` is `prefix` directly followed by at least one digit and
/// nothing else.
pub open spec fn with_digits(cmd: Seq<char>, prefix: Seq<char>) -> bool {
    &&& prefix.is_prefix_of(cmd)
    &&& cmd.len() > prefix.len()
    &&& all_digits(cmd.skip(prefix.len() as int))
}

/// A number within a limit.
pub open spec fn bounded(s: Seq<char>, max: int) -> Option<nat> {
    match unsigned(s) {
        Some(n) => if n <= max {
            Some(n)
        } else {
            None
        },
        None => None,
    }
}

/// What a volume command asks for, or `None` for any other command.
pub open spec fn volume_request(cmd: Seq<char>, args: Seq<char>) -> Option<VolumeParse> {
    let amount = if with_digits(cmd, "v"@) {
        Some(cmd.skip(1))
    } else if cmd == "v"@ || cmd == "volume"@ {
        Some(args)
    } else {
        None
    };
    match amount {
        Some(s) => match bounded(s, u16::MAX as int) {
            Some(n) => Some(VolumeParse::SetTo(n as u16)),
            None => Some(VolumeParse::Show),
        },
        None => None,
    }
}

fn digits_after<'a>(cmd: &'a str, prefix: &str) -> (r: Option<&'a str>)
    ensures
        match r {
            Some(d) => with_digits(cmd@, prefix@) && d@ == cmd@.skip(prefix@.len() as int),
            None => !with_digits(cmd@, prefix@),
        },
{
    match strip_prefix(cmd, prefix) {
        Some(rest) => {
            let v = chars_of(rest);
            if v.len() == 0 {
                return None;
            }
            let mut i: usize = 0;
            while i < v.len()
                invariant
                    i <= v.len(),
                    v@ == rest@,
                    prefix@.is_prefix_of(cmd@),
                    rest@ == cmd@.skip(prefix@.len() as int),
                    forall|k: int| 0 <= k < i ==> is_digit(#[trigger] v@[k]),
                decreases v.len() - i,
            {
                if !is_digit(v[i]) {
                    return None;
                }
                i += 1;
            }
            Some(rest)
        },
        None => None,
    }
}

/// Parse a volume command word + args, matching `v`, `volume`, `v50`, `v 50`.
/// Returns `None` if the command word is not a volume command at all.
pub fn parse_volume(cmd: &str, args: &str) -> (r: Option<VolumeParse>)
    ensures
        r == volume_request(cmd@, args@),
{
    proof {
        reveal_strlit("v");
    }
    let amount = match digits_after(cmd, "v") {
        Some(d) => d,
        None => if same(cmd, "v") || same(cmd, "volume") {
            args
        } else {
            return None;
        },
    };
    match parse_unsigned(amount, u16::MAX as u64) {
        Some(n) => Some(VolumeParse::SetTo(n as u16)),
        None => Some(VolumeParse::Show),
    }
}

/// Parsed seek command. `Seconds` is signed (negative = backward).
#[derive(Debug, Clone, Copy, PartialEq, Eq, Structural)]
pub enum SeekParse {
    Seconds(i32),
    Usage,
}

/// An integer that fits 32 bits.
pub open spec fn small_integer(s: Seq<char>) -> Option<int> {
    match signed(s) {
        Some(n) => if i32::MIN <= n <= i32::MAX {
            Some(n)
        } else {
            None
        },
        None => None,
    }
}

/// What a seek command gives as its distance, and whether it goes forward;
/// `None` for any other command.
pub open spec fn seek_amount(cmd: Seq<char>, args: Seq<char>) -> Option<(bool, Seq<char>)> {
    if with_digits(cmd, "sf"@) {
        Some((true, cmd.skip(2)))
    } else if with_digits(cmd, "sb"@) {
        Some((false, cmd.skip(2)))
    } else if cmd == "sf"@ {
        Some((true, args))
    } else if cmd == "sb"@ {
        Some((false, args))
    } else {
        None
    }
}

/// What a seek command asks for in seconds, backward as a negative number:
/// ten seconds where it gives no distance. `Some(None)` is a distance that is
/// no number.
pub open spec fn seek_request(cmd: Seq<char>, args: Seq<char>) -> Option<Option<int>> {
    match seek_amount(cmd, args) {
        Some((forward, amount)) => {
            let secs = if amount.len() == 0 {
                Some(10int)
            } else {
                small_integer(amount)
            };
            match secs {
                Some(n) => Some(
                    Some(
                        if forward {
                            n
                        } else {
                            -n
                        },
                    ),
                ),
                None => Some(None),
            }
        },
        None => None,
    }
}

/// Parse a seek command word + args. Matches bare `sf`/`sb` (default 10s) or
/// `sf`/`sb` immediately followed by digits (`sf10`); a non-numeric explicit
/// arg yields `Usage`. Returns `None` for anything that is not a seek command
/// (notably "sblah", which must not silently seek).
pub fn parse_seek(cmd: &str, args: &str) -> (r: Option<SeekParse>)
    requires
        seek_request(cmd@, args@) matches Some(Some(n)) ==> n <= i32::MAX,
    ensures
        match seek_request(cmd@, args@) {
            Some(Some(n)) => r matches Some(SeekParse::Seconds(secs)) && secs == n,
            Some(None) => r == Some(SeekParse::Usage),
            None => r is None,
        },
{
    proof {
        reveal_strlit("sf");
        reveal_strlit("sb");
    }
    let (forward, amount) = match digits_after(cmd, "sf") {
        Some(d) => (true, d),
        None => match digits_after(cmd, "sb") {
            Some(d) => (false, d),
            None => if same(cmd, "sf") {
                (true, args)
            } else if same(cmd, "sb") {
                (false, args)
            } else {
                return None;
            },
        },
    };
    let secs: i64 = if amount.is_empty() {
        10
    } else {
        match parse_signed(amount, i32::MAX as i64) {
            Some(n) => n,
            None => {
                return Some(SeekParse::Usage);
            },
        }
    };
    if forward {
        Some(SeekParse::Seconds(secs as i32))
    } else {
        Some(SeekParse::Seconds((-secs) as i32))
    }
}

/// What the argument of `shuffle` asks for.
pub open spec fn shuffle_request(args: Seq<char>, currently_on: bool) -> Option<bool> {
    let word = lowercase(trimmed(args));
    if word == ""@ {
        Some(!currently_on)
    } else if word == "on"@ || word == "1"@ || word == "yes"@ || word == "true"@ {
        Some(true)
    } else if word == "off"@ || word == "0"@ || word == "no"@ || word == "false"@ {
        Some(false)
    } else {
        None
    }
}

/// Parse the argument to `shuffle`. No argument toggles, so the answer depends
/// on `currently_on`. `None` means the argument was not understood.
pub fn parse_shuffle(args: &str, currently_on: bool) -> (r: Option<bool>)
    ensures
        r == shuffle_request(args@, currently_on),
{
    let lower = to_lower(trim(args));
    let word = lower.as_str();
    if same(word, "") {
        Some(!currently_on)
    } else if same(word, "on") || same(word, "1") || same(word, "yes") || same(word, "true") {
        Some(true)
    } else if same(word, "off") || same(word, "0") || same(word, "no") || same(word, "false") {
        Some(false)
    } else {
        None
    }
}

// ---- rendering ----

/// The longest error shown to a user.
pub const MAX_USER_ERROR: usize = 200;

/// A text with its line breaks turned into spaces.
pub open spec fn on_one_line(s: Seq<char>) -> Seq<char> {
    s.map_values(
        |c: char|
            if c == '\n' || c == '\r' {
                ' '
            } else {
                c
            },
    )
}

/// An error as it is shown to a user.
pub open spec fn shown_error(e: Seq<char>) -> Seq<char> {
    let t = trimmed(on_one_line(e));
    if t.len() > MAX_USER_ERROR {
        t.take(MAX_USER_ERROR - 3) + "..."@
    } else {
        t
    }
}

/// Sanitize an error for display to a user: collapse to a single line and cap
/// the length, so a raw multi-line text (which may embed internal detail)
/// doesn't flood a TeamTalk PM. Logs keep the full error.
pub fn user_error(e: &str) -> (r: String)
    ensures
        r@ == shown_error(e@),
{
    let v = chars_of(e);
    let mut line = String::new();
    let mut i: usize = 0;
    while i < v.len()
        invariant
            i <= v.len(),
            v@ == e@,
            line@ =~= on_one_line(e@).take(i as int),
        decreases v.len() - i,
    {
        let c = v[i];
        line.push(
            if c == '\n' || c == '\r' {
                ' '
            } else {
                c
            },
        );
        i += 1;
    }
    assert(line@ =~= on_one_line(e@));
    let t = trim(line.as_str());
    let n = t.unicode_len();
    if n > MAX_USER_ERROR {
        let mut head = t.substring_char(0, MAX_USER_ERROR - 3).to_owned();
        assert(t@.subrange(0, MAX_USER_ERROR - 3) =~= t@.take(MAX_USER_ERROR - 3));
        head.append("...");
        head
    } else {
        t.to_owned()
    }
}

/// An error shown to a user is one line of limited length.
pub proof fn a_shown_error_is_short(e: Seq<char>)
    ensures
        shown_error(e).len() <= MAX_USER_ERROR,
        !shown_error(e).contains('\n'),
        !shown_error(e).contains('\r'),
{
    reveal_strlit("...");
    let line = on_one_line(e);
    let t = trimmed(line);
    let start = crate::text::trimmed_start(line);
    assert forall|i: int| 0 <= i < t.len() implies #[trigger] t[i] != '\n' && t[i] != '\r' by {
        crate::text::lemma_trimmed_part(line);
        let k = crate::text::leading_white(line) + i;
        assert(t[i] == line[k]);
        assert(line[k] == (if e[k] == '\n' || e[k] == '\r' {
            ' '
        } else {
            e[k]
        }));
    }
}

/// The numbered lines of the first `n` results.
pub open spec fn result_lines(tracks: Seq<Track>, n: nat) -> Seq<char>
    decreases n,
{
    if n == 0 {
        seq![]
    } else {
        let t = tracks[n - 1]@;
        result_lines(tracks, (n - 1) as nat) + "  "@ + digits(n) + ": "@ + t.display_name() + " ["@
            + t.duration_display() + "]\n"@
    }
}

/// A listing of search results.
pub open spec fn results_text(tracks: Seq<Track>, header: Seq<char>, footer: Seq<char>) -> Seq<
    char,
> {
    header + "\n"@ + result_lines(tracks, tracks.len()) + footer
}

/// Render a search-results numbered listing. Header and footer are passed in
/// (translated by the caller) so this stays a pure formatter.
pub fn format_search_results(tracks: &[Track], header: &str, footer: &str) -> (r: String)
    ensures
        r@ == results_text(tracks@, header@, footer@),
{
    let mut msg = header.to_owned();
    msg.append("\n");
    let ghost head = msg@;
    let mut i: usize = 0;
    while i < tracks.len()
        invariant
            i <= tracks.len(),
            msg@ =~= head + result_lines(tracks@, i as nat),
        decreases tracks.len() - i,
    {
        msg.append("  ");
        msg.append(decimal(i as u64 + 1).as_str());
        msg.append(": ");
        msg.append(tracks[i].display_name().as_str());
        msg.append(" [");
        msg.append(tracks[i].duration_display().as_str());
        msg.append("]\n");
        i += 1;
    }
    msg.append(footer);
    msg
}

/// The listing of search results shows every result with the number by which
/// it can be picked, those with lower numbers first, and ends with the footer.
pub proof fn results_are_listed_by_number(
    tracks: Seq<Track>,
    header: Seq<char>,
    footer: Seq<char>,
    n: int,
)
    requires
        1 <= n <= tracks.len(),
    ensures
        exists|at: int|
            {
                &&& 0 <= at <= results_text(tracks, header, footer).len()
                &&& #[trigger] results_text(tracks, header, footer).skip(at) == "  "@ + digits(
                    n as nat,
                ) + ": "@ + tracks[n - 1]@.display_name() + " ["@ + tracks[n
                    - 1]@.duration_display() + "]\n"@ + results_after(
                    tracks,
                    n,
                    tracks.len() as int,
                ) + footer
            },
        header.is_prefix_of(results_text(tracks, header, footer)),
{
    let m = tracks.len() as int;
    let text = results_text(tracks, header, footer);
    let head = header + "\n"@;
    let lines = result_lines(tracks, m as nat);
    lemma_results(tracks, n, m);
    let here = result_line(n as nat, tracks[n - 1]@);
    let at = choose|at: int|
        {
            &&& 0 <= at <= lines.len()
            &&& #[trigger] lines.skip(at) == here + results_after(tracks, n, m)
        };
    assert(text.skip(head.len() + at) =~= lines.skip(at) + footer);
    assert(text.subrange(0, header.len() as int) =~= header);
}

/// The lines of the listing that follow the `n`-th, up to the `m`-th.
pub open spec fn results_after(tracks: Seq<Track>, n: int, m: int) -> Seq<char>
    decreases m - n,
{
    if m <= n {
        seq![]
    } else {
        results_after(tracks, n, m - 1) + "  "@ + digits(m as nat) + ": "@ + tracks[m
            - 1]@.display_name() + " ["@ + tracks[m - 1]@.duration_display() + "]\n"@
    }
}

spec fn result_line(n: nat, t: TrackView) -> Seq<char> {
    "  "@ + digits(n) + ": "@ + t.display_name() + " ["@ + t.duration_display() + "]\n"@
}

proof fn lemma_more_results(tracks: Seq<Track>, n: int, m: int)
    requires
        0 <= n < m <= tracks.len(),
    ensures
        result_lines(tracks, m as nat) == result_lines(tracks, (m - 1) as nat) + result_line(
            m as nat,
            tracks[m - 1]@,
        ),
        results_after(tracks, n, m) == results_after(tracks, n, m - 1) + result_line(
            m as nat,
            tracks[m - 1]@,
        ),
{
    assert(result_lines(tracks, m as nat) =~= result_lines(tracks, (m - 1) as nat) + result_line(
        m as nat,
        tracks[m - 1]@,
    ));
    assert(results_after(tracks, n, m) =~= results_after(tracks, n, m - 1) + result_line(
        m as nat,
        tracks[m - 1]@,
    ));
}

proof fn lemma_results(tracks: Seq<Track>, n: int, m: int)
    requires
        1 <= n <= m <= tracks.len(),
    ensures
        exists|at: int|
            {
                &&& 0 <= at <= result_lines(tracks, m as nat).len()
                &&& #[trigger] result_lines(tracks, m as nat).skip(at) == result_line(
                    n as nat,
                    tracks[n - 1]@,
                ) + results_after(tracks, n, m)
            },
    decreases m,
{
    let text = result_lines(tracks, m as nat);
    let before = result_lines(tracks, (m - 1) as nat);
    let here = result_line(n as nat, tracks[n - 1]@);
    lemma_more_results(tracks, n - 1, m);
    if n == m {
        assert(text.skip(before.len() as int) =~= here + results_after(tracks, n, m));
    } else {
        lemma_more_results(tracks, n, m);
        lemma_results(tracks, n, m - 1);
        let at = choose|at: int|
            {
                &&& 0 <= at <= before.len()
                &&& #[trigger] before.skip(at) == here + results_after(tracks, n, m - 1)
            };
        let tail = result_line(m as nat, tracks[m - 1]@);
        assert(text.skip(at) =~= before.skip(at) + tail);
        assert(text.skip(at) =~= here + results_after(tracks, n, m));
    }
}

/// The help overview: Spotify-only sections are omitted on YouTube, and the
/// admin section for everybody else.
pub open spec fn help_overview(
    langs: Map<Seq<char>, Map<Seq<char>, Seq<char>>>,
    lang: Seq<char>,
    active: Service,
    is_admin: bool,
) -> Seq<char> {
    let none = Seq::<(Seq<char>, Seq<char>)>::empty();
    let a = message(langs, lang, Key::HelpOverviewPlayback, none);
    let b = if active == Service::Spotify {
        a.push('\n') + message(langs, lang, Key::HelpOverviewSpotify, none)
    } else {
        a
    };
    let c = b.push('\n') + message(langs, lang, Key::HelpOverviewRest, none);
    let d = if is_admin {
        c.push('\n') + message(langs, lang, Key::HelpOverviewAdmin, none)
    } else {
        c
    };
    d.push('\n') + message(
        langs,
        lang,
        Key::HelpOverviewFooter,
        seq![("service"@, active.name_spec())],
    )
}

/// Build help text for the currently active service, in the caller's language.
/// Spotify-only sections (radio, liked) are omitted on YouTube.
pub fn help_text(catalog: &Catalog, lang: &str, active: Service, is_admin: bool) -> (r: String)
    ensures
        r@ == help_overview(catalog@, lang@, active, is_admin),
{
    let none: [(&str, String); 0] = [];
    assert(arg_views(none@) =~= Seq::<(Seq<char>, Seq<char>)>::empty());
    let mut out = catalog.t(lang, Key::HelpOverviewPlayback, &none);
    if active == Service::Spotify {
        out.push('\n');
        out.append(catalog.t(lang, Key::HelpOverviewSpotify, &none).as_str());
    }
    out.push('\n');
    out.append(catalog.t(lang, Key::HelpOverviewRest, &none).as_str());
    if is_admin {
        out.push('\n');
        out.append(catalog.t(lang, Key::HelpOverviewAdmin, &none).as_str());
    }
    out.push('\n');
    let args = [("service", active.name().to_owned())];
    assert(arg_views(args@) =~= seq![("service"@, active.name_spec())]);
    let footer = catalog.t(lang, Key::HelpOverviewFooter, &args);
    out.append(footer.as_str());
    out
}

// ---- deciding ----

/// What a message leads to.
#[derive(Debug)]
pub enum Effect {
    /// Hand a command to the command processor.
    Send(BotCommand),
    /// Answer with a message in the user's language.
    Say { key: Key, args: Vec<(&'static str, String)> },
    /// Answer with this text.
    Reply(String),
    /// Take over a new volume at once.
    SetVolume(u8),
    /// Remember the user's language.
    SetLanguage(String),
    /// Forget the user's language: the server default holds again.
    ClearLanguage,
}

/// An effect with its texts as sequences of characters.
pub enum EffectView {
    Send(CommandView),
    Say(Key, Seq<(Seq<char>, Seq<char>)>),
    Reply(Seq<char>),
    SetVolume(u8),
    SetLanguage(Seq<char>),
    ClearLanguage,
}

impl View for Effect {
    type V = EffectView;

    open spec fn view(&self) -> EffectView {
        match *self {
            Effect::Send(command) => EffectView::Send(command@),
            Effect::Say { key, args } => EffectView::Say(key, arg_views(args@)),
            Effect::Reply(text) => EffectView::Reply(text@),
            Effect::SetVolume(percent) => EffectView::SetVolume(percent),
            Effect::SetLanguage(code) => EffectView::SetLanguage(code@),
            Effect::ClearLanguage => EffectView::ClearLanguage,
        }
    }
}

pub open spec fn effect_views(v: Seq<Effect>) -> Seq<EffectView> {
    v.map_values(|e: Effect| e@)
}

/// Who asks, and what the answer depends on besides the playback state.
pub struct Asker {
    pub user_id: i32,
    pub is_admin: bool,
    pub volume: u8,
    pub max_volume: u8,
    pub uptime_secs: u64,
    pub version: String,
    /// The codes and names of the languages that are loaded.
    pub languages: Vec<(String, String)>,
    /// The code of the user's language.
    pub language: String,
    pub default_language: String,
}

/// What to do, and whether the bot goes on listening.
pub struct Decision {
    pub effects: Vec<Effect>,
    pub go_on: bool,
}

/// Commands that only an admin may use. For everybody else they do nothing,
/// without a word, so that their existence is never revealed.
pub open spec fn admin_command(cmd: Seq<char>) -> bool {
    cmd == "q"@ || cmd == "quit"@ || cmd == "rs"@ || cmd == "restart"@ || cmd == "jc"@ || cmd
        == "glang"@
}

pub fn is_admin_command(cmd: &str) -> (r: bool)
    ensures
        r == admin_command(cmd@),
{
    same(cmd, "q") || same(cmd, "quit") || same(cmd, "rs") || same(cmd, "restart") || same(
        cmd,
        "jc",
    ) || same(cmd, "glang")
}

pub open spec fn just(e: EffectView) -> Seq<EffectView> {
    seq![e]
}

/// A message without arguments.
pub open spec fn says(key: Key) -> EffectView {
    EffectView::Say(key, seq![])
}

/// A message with one argument.
pub open spec fn says_one(key: Key, name: Seq<char>, value: Seq<char>) -> EffectView {
    EffectView::Say(key, seq![(name, value)])
}

/// A message with two arguments.
pub open spec fn says_two(
    key: Key,
    name: Seq<char>,
    value: Seq<char>,
    name2: Seq<char>,
    value2: Seq<char>,
) -> EffectView {
    EffectView::Say(key, seq![(name, value), (name2, value2)])
}

fn no_effect() -> (r: Vec<Effect>)
    ensures
        effect_views(r@) == Seq::<EffectView>::empty(),
{
    let r: Vec<Effect> = Vec::new();
    assert(effect_views(r@) =~= Seq::<EffectView>::empty());
    r
}

fn one(a: Effect) -> (r: Vec<Effect>)
    ensures
        effect_views(r@) == seq![a@],
{
    let r = vec![a];
    assert(effect_views(r@) =~= seq![a@]);
    r
}

fn two(a: Effect, b: Effect) -> (r: Vec<Effect>)
    ensures
        effect_views(r@) == seq![a@, b@],
{
    let r = vec![a, b];
    assert(effect_views(r@) =~= seq![a@, b@]);
    r
}

fn three(a: Effect, b: Effect, c: Effect) -> (r: Vec<Effect>)
    ensures
        effect_views(r@) == seq![a@, b@, c@],
{
    let r = vec![a, b, c];
    assert(effect_views(r@) =~= seq![a@, b@, c@]);
    r
}

fn say(key: Key) -> (r: Effect)
    ensures
        r@ == says(key),
{
    let args: Vec<(&'static str, String)> = Vec::new();
    assert(arg_views(args@) =~= Seq::<(Seq<char>, Seq<char>)>::empty());
    Effect::Say { key, args }
}

fn say_one(key: Key, name: &'static str, value: String) -> (r: Effect)
    ensures
        r@ == says_one(key, name@, value@),
{
    let args: Vec<(&'static str, String)> = vec![(name, value)];
    assert(arg_views(args@) =~= seq![(name@, value@)]);
    Effect::Say { key, args }
}

fn say_two(
    key: Key,
    name: &'static str,
    value: String,
    name2: &'static str,
    value2: String,
) -> (r: Effect)
    ensures
        r@ == says_two(key, name@, value@, name2@, value2@),
{
    let args: Vec<(&'static str, String)> = vec![(name, value), (name2, value2)];
    assert(arg_views(args@) =~= seq![(name@, value@), (name2@, value2@)]);
    Effect::Say { key, args }
}

/// The name under which a user queues tracks.
pub open spec fn user_label(user_id: i32) -> Seq<char> {
    "User#"@ + signed_digits(user_id as int)
}

fn label_of(user_id: i32) -> (r: String)
    ensures
        r@ == user_label(user_id),
{
    let mut out = String::from_str("User#");
    out.append(signed_decimal(user_id as i64).as_str());
    out
}

/// Minutes and seconds.
pub open spec fn clock(secs: nat) -> Seq<char> {
    digits(secs / 60) + ":"@ + two_digits(secs % 60)
}

/// Hours, where there are any, and minutes.
pub open spec fn uptime_text(secs: nat) -> Seq<char> {
    if secs >= 3600 {
        digits(secs / 3600) + "h "@ + digits((secs % 3600) / 60) + "m"@
    } else {
        digits((secs % 3600) / 60) + "m"@
    }
}

fn show_uptime(secs: u64) -> (r: String)
    ensures
        r@ == uptime_text(secs as nat),
{
    let hours: u64 = secs / 3600;
    let mins: u64 = (secs % 3600) / 60;
    if hours > 0 {
        let mut out = decimal(hours);
        out.append("h ");
        out.append(decimal(mins).as_str());
        out.append("m");
        out
    } else {
        let mut out = decimal(mins);
        out.append("m");
        out
    }
}

// -- volume and seek --

pub open spec fn volume_effects(asker: Asker, request: VolumeParse) -> Seq<EffectView> {
    match request {
        VolumeParse::SetTo(v) => if v > asker.max_volume {
            just(
                says_two(
                    Key::VolumeRange,
                    "max"@,
                    digits(asker.max_volume as nat),
                    "got"@,
                    digits(v as nat),
                ),
            )
        } else {
            seq![
                EffectView::SetVolume(v as u8),
                EffectView::Send(
                    CommandView::SetVolume { percent: v as u8, user_id: asker.user_id },
                ),
                says_one(Key::VolumeSet, "percent"@, digits(v as nat)),
            ]
        },
        VolumeParse::Show => just(
            says_two(
                Key::VolumeShow,
                "percent"@,
                digits(asker.volume as nat),
                "max"@,
                digits(asker.max_volume as nat),
            ),
        ),
    }
}

fn decide_volume(asker: &Asker, request: VolumeParse) -> (r: Vec<Effect>)
    ensures
        effect_views(r@) == volume_effects(*asker, request),
{
    match request {
        VolumeParse::SetTo(v) => {
            if v > asker.max_volume as u16 {
                one(
                    say_two(
                        Key::VolumeRange,
                        "max",
                        decimal(asker.max_volume as u64),
                        "got",
                        decimal(v as u64),
                    ),
                )
            } else {
                let capped: u8 = v as u8;
                three(
                    Effect::SetVolume(capped),
                    Effect::Send(
                        BotCommand::SetVolume { percent: capped, user_id: asker.user_id },
                    ),
                    say_one(Key::VolumeSet, "percent", decimal(capped as u64)),
                )
            }
        },
        VolumeParse::Show => one(
            say_two(
                Key::VolumeShow,
                "percent",
                decimal(asker.volume as u64),
                "max",
                decimal(asker.max_volume as u64),
            ),
        ),
    }
}

pub open spec fn seek_effects(asker: Asker, request: Option<int>) -> Seq<EffectView> {
    match request {
        Some(n) => seq![
            EffectView::Send(
                CommandView::Seek { offset_ms: (n * 1000) as i32, user_id: asker.user_id },
            ),
            if n >= 0 {
                says_one(Key::SeekForward, "seconds"@, digits(n as nat))
            } else {
                says_one(Key::SeekBackward, "seconds"@, digits((-n) as nat))
            },
        ],
        None => just(says(Key::SeekUsage)),
    }
}

fn decide_seek(asker: &Asker, request: SeekParse) -> (r: Vec<Effect>)
    requires
        request matches SeekParse::Seconds(n) ==> i32::MIN <= n * 1000 <= i32::MAX,
    ensures
        effect_views(r@) == seek_effects(
            *asker,
            match request {
                SeekParse::Seconds(n) => Some(n as int),
                SeekParse::Usage => None,
            },
        ),
{
    match request {
        SeekParse::Seconds(secs) => {
            let send = Effect::Send(
                BotCommand::Seek { offset_ms: secs * 1000, user_id: asker.user_id },
            );
            if secs >= 0 {
                two(send, say_one(Key::SeekForward, "seconds", decimal(secs as u64)))
            } else {
                two(
                    send,
                    say_one(Key::SeekBackward, "seconds", decimal((-(secs as i64)) as u64)),
                )
            }
        },
        SeekParse::Usage => one(say(Key::SeekUsage)),
    }
}

// -- playback, info and queue --

pub open spec fn play_effects(asker: Asker, status: PlaybackStatus, args: Seq<char>) -> Seq<
    EffectView,
> {
    if args.len() > 0 {
        seq![
            EffectView::Send(
                CommandView::SearchAndPlay {
                    query: args,
                    user_id: asker.user_id,
                    user_name: user_label(asker.user_id),
                },
            ),
            says(Key::Searching),
        ]
    } else {
        match status {
            PlaybackStatus::Loading => just(says(Key::LoadingTrack)),
            PlaybackStatus::Paused => just(
                EffectView::Send(CommandView::Play { user_id: asker.user_id }),
            ),
            PlaybackStatus::Playing => just(
                EffectView::Send(CommandView::Pause { user_id: asker.user_id }),
            ),
            PlaybackStatus::Idle => just(says(Key::NothingToPlay)),
        }
    }
}

fn decide_play(asker: &Asker, status: PlaybackStatus, args: &str) -> (r: Vec<Effect>)
    ensures
        effect_views(r@) == play_effects(*asker, status, args@),
{
    if !args.is_empty() {
        return two(
            Effect::Send(
                BotCommand::SearchAndPlay {
                    query: args.to_owned(),
                    user_id: asker.user_id,
                    user_name: label_of(asker.user_id),
                },
            ),
            say(Key::Searching),
        );
    }
    match status {
        PlaybackStatus::Loading => one(say(Key::LoadingTrack)),
        // No reply either way: the music stopping or starting says it faster
        // than a message can, and every other reply the bot sends carries
        // something the audio does not.
        PlaybackStatus::Paused => one(Effect::Send(BotCommand::Play { user_id: asker.user_id })),
        PlaybackStatus::Playing => one(Effect::Send(BotCommand::Pause { user_id: asker.user_id })),
        PlaybackStatus::Idle => one(say(Key::NothingToPlay)),
    }
}

pub open spec fn liked_effects(asker: Asker, active: Service) -> Seq<EffectView> {
    if active == Service::Spotify {
        seq![
            EffectView::Send(
                CommandView::SearchAndPlay {
                    query: "spotify:collection:liked"@,
                    user_id: asker.user_id,
                    user_name: user_label(asker.user_id),
                },
            ),
            says(Key::LoadingLiked),
        ]
    } else {
        seq![]
    }
}

fn decide_liked(asker: &Asker, active: Service) -> (r: Vec<Effect>)
    ensures
        effect_views(r@) == liked_effects(*asker, active),
{
    if active == Service::Spotify {
        two(
            Effect::Send(
                BotCommand::SearchAndPlay {
                    query: String::from_str("spotify:collection:liked"),
                    user_id: asker.user_id,
                    user_name: label_of(asker.user_id),
                },
            ),
            say(Key::LoadingLiked),
        )
    } else {
        no_effect()
    }
}

pub open spec fn current_effects(state: PlayerState) -> Seq<EffectView> {
    match state.queue@.current {
        Some(entry) => just(
            EffectView::Say(
                Key::CurrentTrack,
                seq![
                    ("track"@, entry.track@.display_name()),
                    ("index"@, digits(state.queue@.place().0)),
                    ("total"@, digits(state.queue@.place().1)),
                    ("position"@, clock(state.position_ms as nat / 1000)),
                    ("duration"@, entry.track@.duration_display()),
                    ("modes"@, modes_text(state.repeat, state.shuffle)),
                ],
            ),
        ),
        None => just(says(Key::NothingPlaying)),
    }
}

fn decide_current(state: &PlayerState) -> (r: Vec<Effect>)
    requires
        state.wf(),
    ensures
        effect_views(r@) == current_effects(*state),
{
    match state.current() {
        Some(entry) => {
            let secs: u32 = state.position_ms / 1000;
            let mut at = decimal((secs / 60) as u64);
            at.append(":");
            at.append(decimal2((secs % 60) as u64).as_str());
            let (index, total) = state.queue.position();
            let args: Vec<(&'static str, String)> = vec![
                ("track", entry.track.display_name()),
                ("index", decimal(index as u64)),
                ("total", decimal(total as u64)),
                ("position", at),
                ("duration", entry.track.duration_display()),
                ("modes", state.mode_display()),
            ];
            assert(arg_views(args@) =~= seq![
                ("track"@, entry.track@.display_name()),
                ("index"@, digits(state.queue@.place().0)),
                ("total"@, digits(state.queue@.place().1)),
                ("position"@, clock(state.position_ms as nat / 1000)),
                ("duration"@, entry.track@.duration_display()),
                ("modes"@, modes_text(state.repeat, state.shuffle)),
            ]);
            one(Effect::Say { key: Key::CurrentTrack, args })
        },
        None => one(say(Key::NothingPlaying)),
    }
}

pub open spec fn queue_effects(asker: Asker, state: PlayerState, args: Seq<char>) -> Seq<
    EffectView,
> {
    if "clear"@.is_prefix_of(args) {
        seq![
            EffectView::Send(CommandView::QueueClear { user_id: asker.user_id }),
            says(Key::QueueCleared),
        ]
    } else if "rm"@.is_prefix_of(args) {
        match bounded(trimmed(args.skip(2)), usize::MAX as int) {
            Some(n) => if n == 0 {
                just(says(Key::IndexStartsAtOne))
            } else if n <= state.queue@.coming().len() {
                seq![
                    EffectView::Send(
                        CommandView::QueueRemove { index: n as usize, user_id: asker.user_id },
                    ),
                    says_one(
                        Key::Removed,
                        "name"@,
                        state.queue@.coming()[n - 1].track@.display_name(),
                    ),
                ]
            } else {
                just(says_one(Key::NoTrackAtPosition, "position"@, digits(n)))
            },
            None => just(says(Key::QueueRmUsage)),
        }
    } else {
        just(EffectView::Reply(queue_text(state.queue@)))
    }
}

fn decide_queue(asker: &Asker, state: &PlayerState, args: &str) -> (r: Vec<Effect>)
    requires
        state.wf(),
    ensures
        effect_views(r@) == queue_effects(*asker, *state, args@),
{
    if starts_with(args, "clear") {
        return two(
            Effect::Send(BotCommand::QueueClear { user_id: asker.user_id }),
            say(Key::QueueCleared),
        );
    }
    proof {
        reveal_strlit("rm");
    }
    if let Some(rest) = strip_prefix(args, "rm") {
        return match parse_unsigned(trim(rest), usize::MAX as u64) {
            Some(number) => {
                let n: usize = number as usize;
                if n == 0 {
                    one(say(Key::IndexStartsAtOne))
                } else {
                    // `n` is the number shown by `queue`: 1 is the next track
                    // up, and the playing track has no number.
                    let upcoming = state.upcoming();
                    if n <= upcoming.len() {
                        let name = upcoming[n - 1].track.display_name();
                        two(
                            Effect::Send(
                                BotCommand::QueueRemove { index: n, user_id: asker.user_id },
                            ),
                            say_one(Key::Removed, "name", name),
                        )
                    } else {
                        one(say_one(Key::NoTrackAtPosition, "position", decimal(n as u64)))
                    }
                }
            },
            None => one(say(Key::QueueRmUsage)),
        };
    }
    one(Effect::Reply(state.queue_display()))
}

// -- modes --

pub open spec fn mode_effects(asker: Asker, state: PlayerState, args: Seq<char>) -> Seq<
    EffectView,
> {
    let word = trimmed(args);
    if word == "r"@ || word == "repeat"@ {
        seq![
            EffectView::Send(
                CommandView::SetMode { mode: PlaybackMode::RepeatTrack, user_id: asker.user_id },
            ),
            says(Key::ModeRepeatTrack),
        ]
    } else if word == "rq"@ || word == "repeat_queue"@ {
        seq![
            EffectView::Send(
                CommandView::SetMode { mode: PlaybackMode::RepeatQueue, user_id: asker.user_id },
            ),
            says(Key::ModeRepeatQueue),
        ]
    } else if word == "off"@ || word == "o"@ || word == "none"@ {
        seq![
            EffectView::Send(
                CommandView::SetMode { mode: PlaybackMode::Off, user_id: asker.user_id },
            ),
            says(Key::ModeOff),
        ]
    } else {
        just(says_one(Key::ModeUsage, "modes"@, modes_text(state.repeat, state.shuffle)))
    }
}

fn decide_mode(asker: &Asker, state: &PlayerState, args: &str) -> (r: Vec<Effect>)
    ensures
        effect_views(r@) == mode_effects(*asker, *state, args@),
{
    let word = trim(args);
    let user_id = asker.user_id;
    if same(word, "r") || same(word, "repeat") {
        two(
            Effect::Send(BotCommand::SetMode { mode: PlaybackMode::RepeatTrack, user_id }),
            say(Key::ModeRepeatTrack),
        )
    } else if same(word, "rq") || same(word, "repeat_queue") {
        two(
            Effect::Send(BotCommand::SetMode { mode: PlaybackMode::RepeatQueue, user_id }),
            say(Key::ModeRepeatQueue),
        )
    } else if same(word, "off") || same(word, "o") || same(word, "none") {
        two(
            Effect::Send(BotCommand::SetMode { mode: PlaybackMode::Off, user_id }),
            say(Key::ModeOff),
        )
    } else {
        one(say_one(Key::ModeUsage, "modes", state.mode_display()))
    }
}

pub open spec fn shuffle_effects(asker: Asker, state: PlayerState, args: Seq<char>) -> Seq<
    EffectView,
> {
    match shuffle_request(args, state.shuffle) {
        Some(enable) => seq![
            EffectView::Send(CommandView::SetShuffle { enable, user_id: asker.user_id }),
            says(
                if enable {
                    Key::ShuffleOn
                } else {
                    Key::ShuffleOff
                },
            ),
        ],
        None => just(says(Key::ShuffleUsage)),
    }
}

fn decide_shuffle(asker: &Asker, state: &PlayerState, args: &str) -> (r: Vec<Effect>)
    ensures
        effect_views(r@) == shuffle_effects(*asker, *state, args@),
{
    match parse_shuffle(args, state.shuffle) {
        Some(enable) => two(
            Effect::Send(BotCommand::SetShuffle { enable, user_id: asker.user_id }),
            say(
                if enable {
                    Key::ShuffleOn
                } else {
                    Key::ShuffleOff
                },
            ),
        ),
        None => one(say(Key::ShuffleUsage)),
    }
}

// -- search --

pub open spec fn search_effects(
    asker: Asker,
    langs: Map<Seq<char>, Map<Seq<char>, Seq<char>>>,
    results: Option<Vec<Track>>,
    args: Seq<char>,
) -> Seq<EffectView> {
    if args.len() > 0 {
        seq![
            EffectView::Send(CommandView::SearchOnly { query: args, user_id: asker.user_id }),
            says(Key::Searching),
        ]
    } else {
        match results {
            Some(tracks) => just(
                EffectView::Reply(
                    results_text(
                        tracks@,
                        message(langs, asker.language@, Key::SearchResultsHeader, seq![]),
                        message(langs, asker.language@, Key::SearchResultsFooter, seq![]),
                    ),
                ),
            ),
            None => just(says(Key::SearchUsage)),
        }
    }
}

fn decide_search(
    asker: &Asker,
    catalog: &Catalog,
    results: &Option<Vec<Track>>,
    args: &str,
) -> (r: Vec<Effect>)
    ensures
        effect_views(r@) == search_effects(*asker, catalog@, *results, args@),
{
    if !args.is_empty() {
        return two(
            Effect::Send(
                BotCommand::SearchOnly { query: args.to_owned(), user_id: asker.user_id },
            ),
            say(Key::Searching),
        );
    }
    // Re-display active search results if available
    match results {
        Some(tracks) => {
            let none: [(&str, String); 0] = [];
            assert(arg_views(none@) =~= Seq::<(Seq<char>, Seq<char>)>::empty());
            let header = catalog.t(asker.language.as_str(), Key::SearchResultsHeader, &none);
            let footer = catalog.t(asker.language.as_str(), Key::SearchResultsFooter, &none);
            one(
                Effect::Reply(
                    format_search_results(tracks.as_slice(), header.as_str(), footer.as_str()),
                ),
            )
        },
        None => one(say(Key::SearchUsage)),
    }
}

pub open spec fn pick_effects(asker: Asker, args: Seq<char>) -> Seq<EffectView> {
    match bounded(trimmed(args), usize::MAX as int) {
        Some(n) => if n > 0 {
            just(
                EffectView::Send(
                    CommandView::SearchPick {
                        user_id: asker.user_id,
                        pick: (n - 1) as usize,
                        user_name: user_label(asker.user_id),
                    },
                ),
            )
        } else {
            just(says(Key::PickTooLow))
        },
        None => just(says(Key::PickUsage)),
    }
}

fn decide_pick(asker: &Asker, args: &str) -> (r: Vec<Effect>)
    ensures
        effect_views(r@) == pick_effects(*asker, args@),
{
    match parse_unsigned(trim(args), usize::MAX as u64) {
        Some(n) => {
            if n > 0 {
                one(
                    Effect::Send(
                        BotCommand::SearchPick {
                            user_id: asker.user_id,
                            pick: (n - 1) as usize,
                            user_name: label_of(asker.user_id),
                        },
                    ),
                )
            } else {
                one(say(Key::PickTooLow))
            }
        },
        None => one(say(Key::PickUsage)),
    }
}

// -- radio, link, service --

pub open spec fn radio_effects(asker: Asker, state: PlayerState, args: Seq<char>) -> Seq<
    EffectView,
> {
    let word = lowercase(trimmed(args));
    if state.active_service != Service::Spotify {
        seq![]
    } else if "on"@.is_prefix_of(word) {
        if state.radio_enabled {
            just(says(Key::RadioAlreadyOn))
        } else {
            seq![
                EffectView::Send(
                    CommandView::RadioToggle { enable: true, user_id: asker.user_id },
                ),
                says(Key::RadioEnabled),
            ]
        }
    } else if "off"@.is_prefix_of(word) {
        if state.radio_enabled {
            seq![
                EffectView::Send(
                    CommandView::RadioToggle { enable: false, user_id: asker.user_id },
                ),
                says(Key::RadioDisabled),
            ]
        } else {
            just(says(Key::RadioAlreadyOff))
        }
    } else if state.radio_enabled {
        just(says(Key::RadioStatusOn))
    } else {
        just(says(Key::RadioStatusOff))
    }
}

fn decide_radio(asker: &Asker, state: &PlayerState, args: &str) -> (r: Vec<Effect>)
    ensures
        effect_views(r@) == radio_effects(*asker, *state, args@),
{
    if state.active_service != Service::Spotify {
        return no_effect();
    }
    let word = to_lower(trim(args));
    let user_id = asker.user_id;
    if starts_with(word.as_str(), "on") {
        if state.radio_enabled {
            one(say(Key::RadioAlreadyOn))
        } else {
            two(
                Effect::Send(BotCommand::RadioToggle { enable: true, user_id }),
                say(Key::RadioEnabled),
            )
        }
    } else if starts_with(word.as_str(), "off") {
        if !state.radio_enabled {
            one(say(Key::RadioAlreadyOff))
        } else {
            two(
                Effect::Send(BotCommand::RadioToggle { enable: false, user_id }),
                say(Key::RadioDisabled),
            )
        }
    } else if state.radio_enabled {
        one(say(Key::RadioStatusOn))
    } else {
        one(say(Key::RadioStatusOff))
    }
}

pub open spec fn link_effects(state: PlayerState) -> Seq<EffectView> {
    match state.queue@.current {
        Some(entry) => just(EffectView::Reply(entry.track@.web_url())),
        None => just(says(Key::NothingPlaying)),
    }
}

fn decide_link(state: &PlayerState) -> (r: Vec<Effect>)
    ensures
        effect_views(r@) == link_effects(*state),
{
    match state.current() {
        Some(entry) => one(Effect::Reply(entry.track.web_url())),
        None => one(say(Key::NothingPlaying)),
    }
}

pub open spec fn service_effects(asker: Asker, active: Service, wanted: Service) -> Seq<
    EffectView,
> {
    if active == wanted {
        just(says_one(Key::AlreadyOnService, "service"@, wanted.name_spec()))
    } else {
        seq![
            EffectView::Send(
                CommandView::SetService { service: wanted, user_id: asker.user_id },
            ),
            says_one(Key::SwitchedService, "service"@, wanted.name_spec()),
        ]
    }
}

fn decide_service(asker: &Asker, active: Service, wanted: Service) -> (r: Vec<Effect>)
    ensures
        effect_views(r@) == service_effects(*asker, active, wanted),
{
    if active == wanted {
        one(say_one(Key::AlreadyOnService, "service", wanted.name().to_owned()))
    } else {
        two(
            Effect::Send(BotCommand::SetService { service: wanted, user_id: asker.user_id }),
            say_one(Key::SwitchedService, "service", wanted.name().to_owned()),
        )
    }
}

// -- bot management --

pub open spec fn nick_effects(asker: Asker, args: Seq<char>) -> Seq<EffectView> {
    if args.len() > 0 {
        seq![
            EffectView::Send(CommandView::ChangeNick { name: args, user_id: asker.user_id }),
            says_one(Key::Nickname, "name"@, args),
        ]
    } else {
        seq![]
    }
}

fn decide_nick(asker: &Asker, args: &str) -> (r: Vec<Effect>)
    ensures
        effect_views(r@) == nick_effects(*asker, args@),
{
    if args.is_empty() {
        no_effect()
    } else {
        two(
            Effect::Send(
                BotCommand::ChangeNick { name: args.to_owned(), user_id: asker.user_id },
            ),
            say_one(Key::Nickname, "name", args.to_owned()),
        )
    }
}

pub open spec fn gender_effects(asker: Asker, args: Seq<char>) -> Seq<EffectView> {
    let word = lowercase(trimmed(args));
    if valid_gender(word) {
        seq![
            EffectView::Send(CommandView::SetGender { gender: word, user_id: asker.user_id }),
            says_one(Key::GenderSet, "gender"@, word),
        ]
    } else {
        just(says(Key::GenderUsage))
    }
}

fn decide_gender(asker: &Asker, args: &str) -> (r: Vec<Effect>)
    ensures
        effect_views(r@) == gender_effects(*asker, args@),
{
    let word = to_lower(trim(args));
    if is_valid_gender(word.as_str()) {
        two(
            Effect::Send(
                BotCommand::SetGender { gender: word.clone(), user_id: asker.user_id },
            ),
            say_one(Key::GenderSet, "gender", word),
        )
    } else {
        one(say(Key::GenderUsage))
    }
}

pub open spec fn stats_effects(asker: Asker, state: PlayerState) -> Seq<EffectView> {
    just(
        EffectView::Say(
            Key::Stats,
            seq![
                ("uptime"@, uptime_text(asker.uptime_secs as nat)),
                ("tracks"@, digits(state.tracks_played as nat)),
                ("queue"@, digits(state.queue@.coming().len())),
                ("volume"@, digits(asker.volume as nat)),
            ],
        ),
    )
}

fn decide_stats(asker: &Asker, state: &PlayerState) -> (r: Vec<Effect>)
    requires
        state.wf(),
    ensures
        effect_views(r@) == stats_effects(*asker, *state),
{
    let args: Vec<(&'static str, String)> = vec![
        ("uptime", show_uptime(asker.uptime_secs)),
        ("tracks", decimal(state.tracks_played as u64)),
        ("queue", decimal(state.upcoming_len() as u64)),
        ("volume", decimal(asker.volume as u64)),
    ];
    assert(arg_views(args@) =~= seq![
        ("uptime"@, uptime_text(asker.uptime_secs as nat)),
        ("tracks"@, digits(state.tracks_played as nat)),
        ("queue"@, digits(state.queue@.coming().len())),
        ("volume"@, digits(asker.volume as nat)),
    ]);
    one(Effect::Say { key: Key::Stats, args })
}

// -- language --

/// The codes of the languages that are loaded.
pub open spec fn codes_of(languages: Seq<(String, String)>) -> Seq<Seq<char>> {
    languages.map_values(|p: (String, String)| p.0@)
}

/// The name of a loaded language, or its code.
pub open spec fn name_of(languages: Seq<(String, String)>, code: Seq<char>) -> Seq<char>
    decreases languages.len(),
{
    if languages.len() == 0 {
        code
    } else if languages[0].0@ == code {
        languages[0].1@
    } else {
        name_of(languages.skip(1), code)
    }
}

/// One line for each loaded language.
pub open spec fn language_lines(languages: Seq<(String, String)>) -> Seq<Seq<char>> {
    languages.map_values(|p: (String, String)| "  "@ + p.0@ + " - "@ + p.1@)
}

pub open spec fn unknown_language(languages: Seq<(String, String)>, code: Seq<char>) -> Seq<char> {
    "Unknown language: "@ + code + ". Available: "@ + joined(codes_of(languages), ", "@)
}

fn list_codes(languages: &Vec<(String, String)>) -> (r: Vec<String>)
    ensures
        views(r@) == codes_of(languages@),
{
    let mut out: Vec<String> = Vec::new();
    let mut i: usize = 0;
    while i < languages.len()
        invariant
            i <= languages.len(),
            views(out@) =~= codes_of(languages@).take(i as int),
        decreases languages.len() - i,
    {
        let code = languages[i].0.clone();
        proof {
            lemma_views_push(out@, code);
        }
        out.push(code);
        i += 1;
    }
    assert(codes_of(languages@).take(i as int) =~= codes_of(languages@));
    out
}

fn list_languages(languages: &Vec<(String, String)>) -> (r: Vec<String>)
    ensures
        views(r@) == language_lines(languages@),
{
    let mut out: Vec<String> = Vec::new();
    let mut i: usize = 0;
    while i < languages.len()
        invariant
            i <= languages.len(),
            views(out@) =~= language_lines(languages@).take(i as int),
        decreases languages.len() - i,
    {
        let mut line = String::from_str("  ");
        line.append(languages[i].0.as_str());
        line.append(" - ");
        line.append(languages[i].1.as_str());
        proof {
            lemma_views_push(out@, line);
        }
        out.push(line);
        i += 1;
    }
    assert(language_lines(languages@).take(i as int) =~= language_lines(languages@));
    out
}

fn find_language(languages: &Vec<(String, String)>, code: &str) -> (r: Option<String>)
    ensures
        match r {
            Some(name) => codes_of(languages@).contains(code@) && name@ == name_of(
                languages@,
                code@,
            ),
            None => !codes_of(languages@).contains(code@),
        },
{
    let mut i: usize = 0;
    assert(languages@.skip(0) =~= languages@);
    while i < languages.len()
        invariant
            i <= languages.len(),
            name_of(languages@, code@) == name_of(languages@.skip(i as int), code@),
            forall|k: int| 0 <= k < i ==> #[trigger] codes_of(languages@)[k] != code@,
        decreases languages.len() - i,
    {
        assert(languages@.skip(i as int)[0] == languages@[i as int]);
        assert(languages@.skip(i as int).skip(1) =~= languages@.skip(i + 1));
        assert(codes_of(languages@)[i as int] == languages@[i as int].0@);
        if same(languages[i].0.as_str(), code) {
            return Some(languages[i].1.clone());
        }
        i += 1;
    }
    None
}

fn say_unknown_language(languages: &Vec<(String, String)>, code: &str) -> (r: Effect)
    ensures
        r@ == EffectView::Reply(unknown_language(languages@, code@)),
{
    let mut text = String::from_str("Unknown language: ");
    text.append(code);
    text.append(". Available: ");
    text.append(join(&list_codes(languages), ", ").as_str());
    Effect::Reply(text)
}

/// What `lang` answers. The language-control surface deliberately replies in
/// English (except the confirmation, which is in the newly picked language):
/// it is the recovery hatch for anyone stuck in a language they cannot read.
pub open spec fn lang_effects(
    asker: Asker,
    langs: Map<Seq<char>, Map<Seq<char>, Seq<char>>>,
    args: Seq<char>,
) -> Seq<EffectView> {
    let code = lowercase(trimmed(args));
    if code.len() == 0 {
        just(
            EffectView::Reply(
                "Available languages:\n"@ + joined(language_lines(asker.languages@), "\n"@)
                    + "\nYour language: "@ + asker.language@
                    + "\nUse: lang <code>, or lang clear to follow the server default"@,
            ),
        )
    } else if code == "clear"@ {
        seq![
            EffectView::ClearLanguage,
            EffectView::Reply(
                "Language preference cleared. You now follow the server default ("@
                    + asker.default_language@ + ")"@,
            ),
        ]
    } else if codes_of(asker.languages@).contains(code) {
        seq![
            EffectView::SetLanguage(code),
            EffectView::Reply(
                message(
                    langs,
                    code,
                    Key::LangSet,
                    seq![("language"@, name_of(asker.languages@, code))],
                ),
            ),
        ]
    } else {
        just(EffectView::Reply(unknown_language(asker.languages@, code)))
    }
}

fn decide_lang(asker: &Asker, catalog: &Catalog, args: &str) -> (r: Vec<Effect>)
    ensures
        effect_views(r@) == lang_effects(*asker, catalog@, args@),
{
    let code = to_lower(trim(args));
    if code.as_str().is_empty() {
        let mut text = String::from_str("Available languages:\n");
        text.append(join(&list_languages(&asker.languages), "\n").as_str());
        text.append("\nYour language: ");
        text.append(asker.language.as_str());
        text.append("\nUse: lang <code>, or lang clear to follow the server default");
        return one(Effect::Reply(text));
    }
    if same(code.as_str(), "clear") {
        let mut text = String::from_str(
            "Language preference cleared. You now follow the server default (",
        );
        text.append(asker.default_language.as_str());
        text.append(")");
        return two(Effect::ClearLanguage, Effect::Reply(text));
    }
    match find_language(&asker.languages, code.as_str()) {
        Some(name) => {
            let given = [("language", name)];
            assert(arg_views(given@) =~= seq![("language"@, name_of(asker.languages@, code@))]);
            let text = catalog.t(code.as_str(), Key::LangSet, &given);
            two(Effect::SetLanguage(code), Effect::Reply(text))
        },
        None => one(say_unknown_language(&asker.languages, code.as_str())),
    }
}

/// What `glang` does: set the server default language. Personal picks are not
/// touched.
pub open spec fn glang_effects(asker: Asker, args: Seq<char>) -> Seq<EffectView> {
    let code = lowercase(trimmed(args));
    if code.len() == 0 {
        just(
            EffectView::Reply(
                "Default language: "@ + asker.default_language@ + "\nUse: glang <code>"@,
            ),
        )
    } else if codes_of(asker.languages@).contains(code) {
        just(
            EffectView::Send(CommandView::SetDefaultLanguage { code, user_id: asker.user_id }),
        )
    } else {
        just(EffectView::Reply(unknown_language(asker.languages@, code)))
    }
}

fn decide_glang(asker: &Asker, args: &str) -> (r: Vec<Effect>)
    ensures
        effect_views(r@) == glang_effects(*asker, args@),
{
    let code = to_lower(trim(args));
    if code.as_str().is_empty() {
        let mut text = String::from_str("Default language: ");
        text.append(asker.default_language.as_str());
        text.append("\nUse: glang <code>");
        return one(Effect::Reply(text));
    }
    match find_language(&asker.languages, code.as_str()) {
        Some(_) => one(
            Effect::Send(BotCommand::SetDefaultLanguage { code, user_id: asker.user_id }),
        ),
        None => one(say_unknown_language(&asker.languages, code.as_str())),
    }
}

// -- help --

/// The help on a topic. `None` is silence.
pub open spec fn help_topic(topic: Seq<char>, is_admin: bool, active: Service) -> Option<Key> {
    if !is_admin && admin_command(topic) {
        Some(Key::HelpUnknown)
    } else if topic == "p"@ || topic == "play"@ {
        Some(Key::HelpPlay)
    } else if topic == "s"@ || topic == "stop"@ {
        Some(Key::HelpStop)
    } else if topic == "n"@ || topic == "next"@ {
        Some(Key::HelpNext)
    } else if topic == "o"@ || topic == "prev"@ {
        Some(Key::HelpPrev)
    } else if topic == "replay"@ || topic == "rp"@ {
        Some(Key::HelpReplay)
    } else if topic == "c"@ || topic == "current"@ {
        Some(Key::HelpCurrent)
    } else if topic == "queue"@ {
        Some(Key::HelpQueue)
    } else if topic == "mode"@ {
        Some(Key::HelpMode)
    } else if topic == "shuffle"@ {
        Some(Key::HelpShuffle)
    } else if topic == "v"@ || topic == "volume"@ {
        Some(Key::HelpVolume)
    } else if topic == "sf"@ || topic == "sb"@ || topic == "seek"@ {
        Some(Key::HelpSeek)
    } else if topic == "search"@ {
        Some(Key::HelpSearch)
    } else if topic == "radio"@ {
        if active == Service::Spotify {
            Some(Key::HelpRadio)
        } else {
            None
        }
    } else {
        Some(help_topic_rest(topic))
    }
}

pub open spec fn help_topic_rest(topic: Seq<char>) -> Key {
    if topic == "link"@ || topic == "url"@ {
        Key::HelpLink
    } else if topic == "stats"@ {
        Key::HelpStats
    } else if topic == "jc"@ {
        Key::HelpJc
    } else if topic == "lang"@ {
        Key::HelpLang
    } else if topic == "glang"@ {
        Key::HelpGlang
    } else if topic == "cn"@ {
        Key::HelpCn
    } else if topic == "gender"@ {
        Key::HelpGender
    } else if topic == "sp"@ || topic == "spotify"@ || topic == "yt"@ || topic == "youtube"@ {
        Key::HelpService
    } else if topic == "rs"@ || topic == "restart"@ {
        Key::HelpRestart
    } else if topic == "q"@ || topic == "quit"@ {
        Key::HelpQuit
    } else {
        Key::HelpUnknown
    }
}

fn rest_of_help(topic: &str) -> (r: Key)
    ensures
        r == help_topic_rest(topic@),
{
    if same(topic, "link") || same(topic, "url") {
        Key::HelpLink
    } else if same(topic, "stats") {
        Key::HelpStats
    } else if same(topic, "jc") {
        Key::HelpJc
    } else if same(topic, "lang") {
        Key::HelpLang
    } else if same(topic, "glang") {
        Key::HelpGlang
    } else if same(topic, "cn") {
        Key::HelpCn
    } else if same(topic, "gender") {
        Key::HelpGender
    } else if same(topic, "sp") || same(topic, "spotify") || same(topic, "yt") || same(
        topic,
        "youtube",
    ) {
        Key::HelpService
    } else if same(topic, "rs") || same(topic, "restart") {
        Key::HelpRestart
    } else if same(topic, "q") || same(topic, "quit") {
        Key::HelpQuit
    } else {
        Key::HelpUnknown
    }
}

/// The help on a topic.
pub fn help_key(topic: &str, is_admin: bool, active: Service) -> (r: Option<Key>)
    ensures
        r == help_topic(topic@, is_admin, active),
{
    // Hide gated topics from non-admins.
    if !is_admin && is_admin_command(topic) {
        Some(Key::HelpUnknown)
    } else if same(topic, "p") || same(topic, "play") {
        Some(Key::HelpPlay)
    } else if same(topic, "s") || same(topic, "stop") {
        Some(Key::HelpStop)
    } else if same(topic, "n") || same(topic, "next") {
        Some(Key::HelpNext)
    } else if same(topic, "o") || same(topic, "prev") {
        Some(Key::HelpPrev)
    } else if same(topic, "replay") || same(topic, "rp") {
        Some(Key::HelpReplay)
    } else if same(topic, "c") || same(topic, "current") {
        Some(Key::HelpCurrent)
    } else if same(topic, "queue") {
        Some(Key::HelpQueue)
    } else if same(topic, "mode") {
        Some(Key::HelpMode)
    } else if same(topic, "shuffle") {
        Some(Key::HelpShuffle)
    } else if same(topic, "v") || same(topic, "volume") {
        Some(Key::HelpVolume)
    } else if same(topic, "sf") || same(topic, "sb") || same(topic, "seek") {
        Some(Key::HelpSeek)
    } else if same(topic, "search") {
        Some(Key::HelpSearch)
    } else if same(topic, "radio") {
        if active == Service::Spotify {
            Some(Key::HelpRadio)
        } else {
            None
        }
    } else {
        Some(rest_of_help(topic))
    }
}

pub open spec fn help_effects(
    asker: Asker,
    langs: Map<Seq<char>, Map<Seq<char>, Seq<char>>>,
    active: Service,
    args: Seq<char>,
) -> Seq<EffectView> {
    if args.len() == 0 {
        just(
            EffectView::Reply(help_overview(langs, asker.language@, active, asker.is_admin)),
        )
    } else {
        match help_topic(lowercase(trimmed(args)), asker.is_admin, active) {
            Some(key) => just(says(key)),
            None => seq![],
        }
    }
}

fn decide_help(asker: &Asker, catalog: &Catalog, active: Service, args: &str) -> (r: Vec<Effect>)
    ensures
        effect_views(r@) == help_effects(*asker, catalog@, active, args@),
{
    if args.is_empty() {
        return one(
            Effect::Reply(help_text(catalog, asker.language.as_str(), active, asker.is_admin)),
        );
    }
    let topic = to_lower(trim(args));
    match help_key(topic.as_str(), asker.is_admin, active) {
        Some(key) => one(say(key)),
        None => no_effect(),
    }
}

// -- the command table --

/// What the commands around playback lead to; `None` for any other command.
pub open spec fn playback_effects(
    asker: Asker,
    state: PlayerState,
    cmd: Seq<char>,
    args: Seq<char>,
) -> Option<Seq<EffectView>> {
    let user_id = asker.user_id;
    if cmd == "p"@ || cmd == "play"@ {
        Some(play_effects(asker, state.status, args))
    } else if cmd == "s"@ || cmd == "stop"@ {
        Some(just(EffectView::Send(CommandView::Stop { user_id })))
    } else if cmd == "n"@ || cmd == "next"@ {
        Some(just(EffectView::Send(CommandView::Next { user_id, after_track: None })))
    } else if cmd == "o"@ || cmd == "prev"@ {
        Some(just(EffectView::Send(CommandView::Prev { user_id })))
    } else if cmd == "replay"@ || cmd == "rp"@ {
        Some(
            seq![
                EffectView::Send(CommandView::Seek { offset_ms: -86_400_000i32, user_id }),
                says(Key::RestartingTrack),
            ],
        )
    } else if cmd == "liked"@ || cmd == "fav"@ {
        Some(liked_effects(asker, state.active_service))
    } else if cmd == "c"@ || cmd == "current"@ {
        Some(current_effects(state))
    } else if cmd == "queue"@ {
        Some(queue_effects(asker, state, args))
    } else if cmd == "mode"@ {
        Some(mode_effects(asker, state, args))
    } else if cmd == "shuffle"@ {
        Some(shuffle_effects(asker, state, args))
    } else {
        None
    }
}

fn decide_playback(asker: &Asker, state: &PlayerState, cmd: &str, args: &str) -> (r: Option<
    Vec<Effect>,
>)
    requires
        state.wf(),
    ensures
        match playback_effects(*asker, *state, cmd@, args@) {
            Some(e) => r matches Some(v) && effect_views(v@) == e,
            None => r is None,
        },
{
    let user_id = asker.user_id;
    if same(cmd, "p") || same(cmd, "play") {
        Some(decide_play(asker, state.status, args))
    } else if same(cmd, "s") || same(cmd, "stop") {
        Some(one(Effect::Send(BotCommand::Stop { user_id })))
    } else if same(cmd, "n") || same(cmd, "next") {
        Some(one(Effect::Send(BotCommand::Next { user_id, after_track: None })))
    } else if same(cmd, "o") || same(cmd, "prev") {
        Some(one(Effect::Send(BotCommand::Prev { user_id })))
    } else if same(cmd, "replay") || same(cmd, "rp") {
        // Restart the current track from the start. Reuses Seek: a large
        // negative offset clamps to position 0 (works for both services).
        Some(
            two(
                Effect::Send(BotCommand::Seek { offset_ms: -86_400_000, user_id }),
                say(Key::RestartingTrack),
            ),
        )
    } else if same(cmd, "liked") || same(cmd, "fav") {
        Some(decide_liked(asker, state.active_service))
    } else if same(cmd, "c") || same(cmd, "current") {
        Some(decide_current(state))
    } else if same(cmd, "queue") {
        Some(decide_queue(asker, state, args))
    } else if same(cmd, "mode") {
        Some(decide_mode(asker, state, args))
    } else if same(cmd, "shuffle") {
        Some(decide_shuffle(asker, state, args))
    } else {
        None
    }
}

/// What the remaining commands lead to. An unknown command leads to nothing.
pub open spec fn other_effects(
    asker: Asker,
    langs: Map<Seq<char>, Map<Seq<char>, Seq<char>>>,
    state: PlayerState,
    results: Option<Vec<Track>>,
    cmd: Seq<char>,
    args: Seq<char>,
) -> Seq<EffectView> {
    let user_id = asker.user_id;
    if cmd == "search"@ {
        search_effects(asker, langs, results, args)
    } else if cmd == "pick"@ {
        pick_effects(asker, args)
    } else if cmd == "radio"@ {
        radio_effects(asker, state, args)
    } else if cmd == "link"@ || cmd == "url"@ {
        link_effects(state)
    } else if cmd == "sp"@ || cmd == "spotify"@ {
        service_effects(asker, state.active_service, Service::Spotify)
    } else if cmd == "yt"@ || cmd == "youtube"@ {
        service_effects(asker, state.active_service, Service::YouTube)
    } else if cmd == "jc"@ {
        if args.len() > 0 {
            just(EffectView::Send(CommandView::JoinChannel { path: args, user_id }))
        } else {
            seq![]
        }
    } else if cmd == "cn"@ {
        nick_effects(asker, args)
    } else if cmd == "gender"@ {
        gender_effects(asker, args)
    } else if cmd == "info"@ || cmd == "about"@ {
        just(says_one(Key::Info, "version"@, asker.version@))
    } else if cmd == "lang"@ {
        lang_effects(asker, langs, args)
    } else if cmd == "glang"@ {
        glang_effects(asker, args)
    } else if cmd == "stats"@ {
        stats_effects(asker, state)
    } else if cmd == "q"@ || cmd == "quit"@ {
        just(EffectView::Send(CommandView::Quit { user_id }))
    } else if cmd == "rs"@ || cmd == "restart"@ {
        just(EffectView::Send(CommandView::Restart { user_id }))
    } else if cmd == "h"@ || cmd == "help"@ {
        help_effects(asker, langs, state.active_service, args)
    } else {
        seq![]
    }
}

fn decide_other(
    asker: &Asker,
    catalog: &Catalog,
    state: &PlayerState,
    results: &Option<Vec<Track>>,
    cmd: &str,
    args: &str,
) -> (r: Vec<Effect>)
    requires
        state.wf(),
    ensures
        effect_views(r@) == other_effects(*asker, catalog@, *state, *results, cmd@, args@),
{
    let user_id = asker.user_id;
    if same(cmd, "search") {
        decide_search(asker, catalog, results, args)
    } else if same(cmd, "pick") {
        decide_pick(asker, args)
    } else if same(cmd, "radio") {
        decide_radio(asker, state, args)
    } else if same(cmd, "link") || same(cmd, "url") {
        decide_link(state)
    } else if same(cmd, "sp") || same(cmd, "spotify") {
        decide_service(asker, state.active_service, Service::Spotify)
    } else if same(cmd, "yt") || same(cmd, "youtube") {
        decide_service(asker, state.active_service, Service::YouTube)
    } else if same(cmd, "jc") {
        if args.is_empty() {
            no_effect()
        } else {
            one(Effect::Send(BotCommand::JoinChannel { path: args.to_owned(), user_id }))
        }
    } else if same(cmd, "cn") {
        decide_nick(asker, args)
    } else if same(cmd, "gender") {
        decide_gender(asker, args)
    } else if same(cmd, "info") || same(cmd, "about") {
        one(say_one(Key::Info, "version", asker.version.clone()))
    } else if same(cmd, "lang") {
        decide_lang(asker, catalog, args)
    } else if same(cmd, "glang") {
        decide_glang(asker, args)
    } else if same(cmd, "stats") {
        decide_stats(asker, state)
    } else if same(cmd, "q") || same(cmd, "quit") {
        one(Effect::Send(BotCommand::Quit { user_id }))
    } else if same(cmd, "rs") || same(cmd, "restart") {
        one(Effect::Send(BotCommand::Restart { user_id }))
    } else if same(cmd, "h") || same(cmd, "help") {
        decide_help(asker, catalog, state.active_service, args)
    } else {
        no_effect()
    }
}

/// Whether a command ends the bot.
pub open spec fn ends_bot(cmd: Seq<char>) -> bool {
    cmd == "q"@ || cmd == "quit"@ || cmd == "rs"@ || cmd == "restart"@
}

/// What a command leads to.
pub open spec fn command_effects(
    asker: Asker,
    langs: Map<Seq<char>, Map<Seq<char>, Seq<char>>>,
    state: PlayerState,
    results: Option<Vec<Track>>,
    cmd: Seq<char>,
    args: Seq<char>,
) -> Seq<EffectView> {
    if admin_command(cmd) && !asker.is_admin {
        seq![]
    } else {
        match volume_request(cmd, args) {
            Some(request) => volume_effects(asker, request),
            None => match seek_request(cmd, args) {
                Some(request) => seek_effects(asker, request),
                None => match playback_effects(asker, state, cmd, args) {
                    Some(effects) => effects,
                    None => other_effects(asker, langs, state, results, cmd, args),
                },
            },
        }
    }
}

/// Whether the bot goes on listening after a command.
pub open spec fn goes_on(asker: Asker, cmd: Seq<char>) -> bool {
    !(ends_bot(cmd) && asker.is_admin)
}

/// Whether a seek command stays within what a position in milliseconds can
/// express. Any other command does.
pub open spec fn seek_in_range(cmd: Seq<char>, args: Seq<char>) -> bool {
    seek_request(cmd, args) matches Some(Some(n)) ==> i32::MIN <= n * 1000 <= i32::MAX
}

proof fn lemma_ending_commands(cmd: Seq<char>, args: Seq<char>)
    requires
        ends_bot(cmd),
    ensures
        volume_request(cmd, args) is None,
        seek_request(cmd, args) is None,
{
    reveal_strlit("q");
    reveal_strlit("quit");
    reveal_strlit("rs");
    reveal_strlit("restart");
    reveal_strlit("v");
    reveal_strlit("volume");
    reveal_strlit("sf");
    reveal_strlit("sb");
    if "v"@.is_prefix_of(cmd) {
        assert(cmd.subrange(0, 1)[0] == "v"@[0]);
        assert(cmd[0] == 'v');
    }
    if "sf"@.is_prefix_of(cmd) {
        assert(cmd.subrange(0, 2)[0] == "sf"@[0]);
        assert(cmd[0] == 's');
    }
    if "sb"@.is_prefix_of(cmd) {
        assert(cmd.subrange(0, 2)[0] == "sb"@[0]);
        assert(cmd[0] == 's');
    }
    assert(cmd[0] == 'q' || cmd[0] == 'r');
    assert("v"@[0] == 'v');
    assert("volume"@[0] == 'v');
    assert("sf"@[0] == 's');
    assert("sb"@[0] == 's');
}

/// Decide what a command leads to, given the asker's search results as they
/// are now.
pub fn decide(
    asker: &Asker,
    catalog: &Catalog,
    state: &PlayerState,
    results: &Option<Vec<Track>>,
    cmd: &str,
    args: &str,
) -> (r: Decision)
    requires
        state.wf(),
        seek_in_range(cmd@, args@),
    ensures
        effect_views(r.effects@) == command_effects(
            *asker,
            catalog@,
            *state,
            *results,
            cmd@,
            args@,
        ),
        r.go_on == goes_on(*asker, cmd@),
{
    let go_on = !(asker.is_admin && (same(cmd, "q") || same(cmd, "quit") || same(cmd, "rs")
        || same(cmd, "restart")));
    // Admin gate: a non-admin gets a silent no-op, so the command's existence
    // is never revealed. Every other command falls through untouched.
    if is_admin_command(cmd) && !asker.is_admin {
        return Decision { effects: no_effect(), go_on };
    }
    if let Some(request) = parse_volume(cmd, args) {
        return Decision { effects: decide_volume(asker, request), go_on };
    }
    if let Some(request) = parse_seek(cmd, args) {
        return Decision { effects: decide_seek(asker, request), go_on };
    }
    if let Some(effects) = decide_playback(asker, state, cmd, args) {
        return Decision { effects, go_on };
    }
    Decision { effects: decide_other(asker, catalog, state, results, cmd, args), go_on }
}

/// What a cancelling word leads to, given whether there were results to forget.
pub open spec fn cancelling(removed: bool) -> Seq<EffectView> {
    if removed {
        just(says(Key::SearchCancelled))
    } else {
        seq![]
    }
}

/// Answer a cancelling word. Without results there is nothing to say.
pub fn cancel_effects(removed: bool) -> (r: Vec<Effect>)
    ensures
        effect_views(r@) == cancelling(removed),
{
    if removed {
        one(say(Key::SearchCancelled))
    } else {
        no_effect()
    }
}

/// The effects of a whole message, given the asker's search results and
/// whether there were any to cancel.
pub open spec fn message_effects(
    asker: Asker,
    langs: Map<Seq<char>, Map<Seq<char>, Seq<char>>>,
    state: PlayerState,
    results: Option<Vec<Track>>,
    cancelled: bool,
    text: Seq<char>,
) -> Seq<EffectView> {
    match classified(text) {
        InputView::Empty => seq![],
        InputView::Cancel => cancelling(cancelled),
        InputView::Number(n) => if n > 0 {
            just(
                EffectView::Send(
                    CommandView::SearchPick {
                        user_id: asker.user_id,
                        pick: (n - 1) as usize,
                        user_name: user_label(asker.user_id),
                    },
                ),
            )
        } else {
            seq![]
        },
        InputView::Command { name, args } => command_effects(
            asker,
            langs,
            state,
            results,
            name,
            args,
        ),
    }
}

/// Whether a message is one that `dispatch` can take: all are, but for seeks
/// beyond what a position can express.
pub open spec fn dispatchable(text: Seq<char>) -> bool {
    classified(text) matches InputView::Command { name, args } ==> seek_in_range(name, args)
}

/// Whether a message is one that `dispatch` can take.
pub fn can_dispatch(text: &str) -> (r: bool)
    ensures
        r == dispatchable(text@),
{
    match classify_input(text) {
        Input::Command { name, args } => {
            let cmd = name.as_str();
            proof {
                reveal_strlit("sf");
                reveal_strlit("sb");
            }
            let amount = match digits_after(cmd, "sf") {
                Some(d) => d,
                None => match digits_after(cmd, "sb") {
                    Some(d) => d,
                    None => if same(cmd, "sf") || same(cmd, "sb") {
                        args.as_str()
                    } else {
                        return true;
                    },
                },
            };
            if amount.is_empty() {
                return true;
            }
            match parse_signed(amount, i32::MAX as i64) {
                Some(n) => -2_147_483 <= n && n <= 2_147_483,
                None => true,
            }
        },
        _ => true,
    }
}

/// Whether search results and cancelled ones are those of which the store told:
/// it is asked once for a command, and once for a cancelling word.
pub open spec fn heard(
    old: TrackStore,
    new: TrackStore,
    user_id: i32,
    input: InputView,
    results: Option<Vec<Track>>,
    cancelled: bool,
) -> bool {
    match input {
        InputView::Command { .. } => new.answers() == old.answers().push(
            (user_key(user_id), list_view(results)),
        ),
        InputView::Cancel => {
            &&& new.answers().len() > 0
            &&& new.answers().drop_last() == old.answers()
            &&& new.answers().last().0 == user_key(user_id)
            &&& cancelled == (new.answers().last().1 is Some)
        },
        _ => new.answers() == old.answers(),
    }
}

/// Dispatch a text message as a command. `go_on` is false where the bot is to
/// stop listening.
///
/// Whether the asker still has search results is the store's to say; what is
/// answered is stated for each case.
pub fn dispatch(state: &mut PlayerState, catalog: &Catalog, asker: &Asker, text: &str) -> (r:
    Decision)
    requires
        old(state).wf(),
        dispatchable(text@),
    ensures
        final(state).wf(),
        *final(state) == (PlayerState {
            search_results: final(state).search_results,
            ..*old(state)
        }),
        final(state).search_results@ == (if classified(text@) is Cancel {
            old(state).search_results@.remove(user_key(asker.user_id))
        } else {
            old(state).search_results@
        }),
        r.go_on == (classified(text@) matches InputView::Command { name, .. } ==> goes_on(
            *asker,
            name,
        )),
        exists|results: Option<Vec<Track>>, cancelled: bool|
            {
                &&& #[trigger] message_effects(
                    *asker,
                    catalog@,
                    *old(state),
                    results,
                    cancelled,
                    text@,
                ) == effect_views(r.effects@)
                &&& heard(
                    old(state).search_results,
                    final(state).search_results,
                    asker.user_id,
                    classified(text@),
                    results,
                    cancelled,
                )
                &&& cancelled ==> old(state).search_results@.contains_key(user_key(asker.user_id))
                &&& results matches Some(v) ==> old(state).search_results@.contains_key(
                    user_key(asker.user_id),
                ) && track_views(v@) == old(state).search_results@[user_key(asker.user_id)]
            },
{
    match classify_input(text) {
        Input::Empty => {
            let effects = no_effect();
            assert(message_effects(*asker, catalog@, *old(state), None, false, text@)
                == effect_views(effects@));
            Decision { effects, go_on: true }
        },
        Input::Cancel => {
            let removed = state.remove_search_results(asker.user_id);
            let effects = cancel_effects(removed);
            assert(message_effects(*asker, catalog@, *old(state), None, removed, text@)
                == effect_views(effects@));
            Decision { effects, go_on: true }
        },
        Input::Number(n) => {
            let effects = if n > 0 {
                one(
                    Effect::Send(
                        BotCommand::SearchPick {
                            user_id: asker.user_id,
                            pick: n - 1,
                            user_name: label_of(asker.user_id),
                        },
                    ),
                )
            } else {
                no_effect()
            };
            assert(message_effects(*asker, catalog@, *old(state), None, false, text@)
                == effect_views(effects@));
            Decision { effects, go_on: true }
        },
        Input::Command { name, args } => {
            let results = state.ask_search_results(asker.user_id);
            let decision = decide(
                asker,
                catalog,
                &*state,
                &results,
                name.as_str(),
                args.as_str(),
            );
            assert(message_effects(*asker, catalog@, *old(state), results, false, text@)
                == effect_views(decision.effects@));
            decision
        },
    }
}

// ---- what holds of every message ----

/// Somebody who is no admin gets no answer to an admin command, and the bot
/// does nothing and goes on.
pub proof fn admin_commands_are_silent_for_others(
    asker: Asker,
    langs: Map<Seq<char>, Map<Seq<char>, Seq<char>>>,
    state: PlayerState,
    results: Option<Vec<Track>>,
    cmd: Seq<char>,
    args: Seq<char>,
)
    requires
        !asker.is_admin,
        admin_command(cmd),
    ensures
        command_effects(asker, langs, state, results, cmd, args).len() == 0,
        goes_on(asker, cmd),
{
}

/// The help on an admin command reads for others like that on a command that
/// does not exist.
pub proof fn admin_help_is_hidden_from_others(cmd: Seq<char>, active: Service)
    requires
        admin_command(cmd),
    ensures
        help_topic(cmd, false, active) == Some(Key::HelpUnknown),
{
}

/// An admin who quits or restarts sends exactly that command, and the bot
/// stops listening.
pub proof fn quitting_sends_one_command(
    asker: Asker,
    langs: Map<Seq<char>, Map<Seq<char>, Seq<char>>>,
    state: PlayerState,
    results: Option<Vec<Track>>,
    cmd: Seq<char>,
    args: Seq<char>,
)
    requires
        asker.is_admin,
        ends_bot(cmd),
    ensures
        !goes_on(asker, cmd),
        command_effects(asker, langs, state, results, cmd, args).len() == 1,
{
    lemma_ending_commands(cmd, args);
    lemma_ending_is_other(cmd);
    assert(playback_effects(asker, state, cmd, args) is None);
}

proof fn lemma_ending_is_other(cmd: Seq<char>)
    requires
        ends_bot(cmd),
    ensures
        cmd != "p"@ && cmd != "play"@ && cmd != "s"@ && cmd != "stop"@ && cmd != "n"@ && cmd
            != "next"@ && cmd != "o"@ && cmd != "prev"@ && cmd != "replay"@ && cmd != "rp"@ && cmd
            != "liked"@ && cmd != "fav"@ && cmd != "c"@ && cmd != "current"@ && cmd != "queue"@
            && cmd != "mode"@ && cmd != "shuffle"@ && cmd != "search"@ && cmd != "pick"@ && cmd
            != "radio"@ && cmd != "link"@ && cmd != "url"@ && cmd != "sp"@ && cmd != "spotify"@
            && cmd != "yt"@ && cmd != "youtube"@ && cmd != "jc"@ && cmd != "cn"@ && cmd
            != "gender"@ && cmd != "info"@ && cmd != "about"@ && cmd != "lang"@ && cmd != "glang"@
            && cmd != "stats"@,
{
    reveal_strlit("q");
    reveal_strlit("quit");
    reveal_strlit("rs");
    reveal_strlit("restart");
    reveal_strlit("p");
    reveal_strlit("play");
    reveal_strlit("s");
    reveal_strlit("stop");
    reveal_strlit("n");
    reveal_strlit("next");
    reveal_strlit("o");
    reveal_strlit("prev");
    reveal_strlit("replay");
    reveal_strlit("rp");
    reveal_strlit("liked");
    reveal_strlit("fav");
    reveal_strlit("c");
    reveal_strlit("current");
    reveal_strlit("queue");
    reveal_strlit("mode");
    reveal_strlit("shuffle");
    reveal_strlit("search");
    reveal_strlit("pick");
    reveal_strlit("radio");
    reveal_strlit("link");
    reveal_strlit("url");
    reveal_strlit("sp");
    reveal_strlit("spotify");
    reveal_strlit("yt");
    reveal_strlit("youtube");
    reveal_strlit("jc");
    reveal_strlit("cn");
    reveal_strlit("gender");
    reveal_strlit("info");
    reveal_strlit("about");
    reveal_strlit("lang");
    reveal_strlit("glang");
    reveal_strlit("stats");
    assert(cmd[0] == 'q' || cmd[0] == 'r');
    assert(cmd.len() == 1 || cmd.len() == 2 || cmd.len() == 4 || cmd.len() == 7);
    assert("queue"@.len() == 5);
    assert("radio"@.len() == 5);
    assert("replay"@.len() == 6);
    assert(cmd.len() == 2 ==> cmd[1] == 's');
    assert("rp"@[1] == 'p');
}

/// Whether none of some effects sets the volume.
pub open spec fn leaves_volume(effects: Seq<EffectView>) -> bool {
    forall|i: int| 0 <= i < effects.len() ==> !(#[trigger] effects[i] is SetVolume)
}

proof fn lemma_queue_leaves_volume(asker: Asker, state: PlayerState, args: Seq<char>)
    ensures
        leaves_volume(queue_effects(asker, state, args)),
        leaves_volume(mode_effects(asker, state, args)),
        leaves_volume(shuffle_effects(asker, state, args)),
        leaves_volume(current_effects(state)),
{
}

proof fn lemma_playback_leaves_volume(
    asker: Asker,
    state: PlayerState,
    cmd: Seq<char>,
    args: Seq<char>,
)
    ensures
        playback_effects(asker, state, cmd, args) matches Some(effects) ==> leaves_volume(effects),
{
    lemma_queue_leaves_volume(asker, state, args);
    assert(leaves_volume(play_effects(asker, state.status, args)));
    assert(leaves_volume(liked_effects(asker, state.active_service)));
}

proof fn lemma_other_leaves_volume(
    asker: Asker,
    langs: Map<Seq<char>, Map<Seq<char>, Seq<char>>>,
    state: PlayerState,
    results: Option<Vec<Track>>,
    cmd: Seq<char>,
    args: Seq<char>,
)
    ensures
        leaves_volume(other_effects(asker, langs, state, results, cmd, args)),
{
    assert(leaves_volume(search_effects(asker, langs, results, args)));
    assert(leaves_volume(pick_effects(asker, args)));
    assert(leaves_volume(radio_effects(asker, state, args)));
    assert(leaves_volume(link_effects(state)));
    assert(leaves_volume(service_effects(asker, state.active_service, Service::Spotify)));
    assert(leaves_volume(service_effects(asker, state.active_service, Service::YouTube)));
    assert(leaves_volume(nick_effects(asker, args)));
    assert(leaves_volume(gender_effects(asker, args)));
    assert(leaves_volume(lang_effects(asker, langs, args)));
    assert(leaves_volume(glang_effects(asker, args)));
    assert(leaves_volume(stats_effects(asker, state)));
    assert(leaves_volume(help_effects(asker, langs, state.active_service, args)));
}

/// Nobody can set the volume above the configured maximum.
pub proof fn the_volume_stays_within_its_maximum(
    asker: Asker,
    langs: Map<Seq<char>, Map<Seq<char>, Seq<char>>>,
    state: PlayerState,
    results: Option<Vec<Track>>,
    cmd: Seq<char>,
    args: Seq<char>,
    i: int,
)
    requires
        0 <= i < command_effects(asker, langs, state, results, cmd, args).len(),
        command_effects(asker, langs, state, results, cmd, args)[i] is SetVolume,
    ensures
        command_effects(asker, langs, state, results, cmd, args)[i]->SetVolume_0
            <= asker.max_volume,
{
    lemma_playback_leaves_volume(asker, state, cmd, args);
    lemma_other_leaves_volume(asker, langs, state, results, cmd, args);
    if let Some(request) = seek_request(cmd, args) {
        assert(leaves_volume(seek_effects(asker, request)));
    }
}

/// A message is its first word, in lower case, and the rest; the slash or
/// exclamation mark in front of a command changes nothing.
pub proof fn a_command_is_its_word_and_the_rest(word: Seq<char>, gap: char, rest: Seq<char>)
    requires
        word.len() > 0,
        rest.len() > 0,
        forall|k: int| 0 <= k < word.len() ==> !is_white(#[trigger] word[k]),
        word[0] != '/' && word[0] != '!',
        is_white(gap),
        !is_white(rest[0]),
        !is_white(rest.last()),
        !cancel_word(lowercase(word.push(gap) + rest)),
    ensures
        classified(word.push(gap) + rest) == (InputView::Command {
            name: lowercase(word),
            args: rest,
        }),
        classified(seq!['/'] + (word.push(gap) + rest)) == classified(word.push(gap) + rest),
        classified(seq!['!'] + (word.push(gap) + rest)) == classified(word.push(gap) + rest),
{
    let t = word.push(gap) + rest;
    let n = word.len() as int;
    assert(t[0] == word[0]);
    assert(!is_white(word[0]));
    assert(t.last() == rest.last());
    crate::text::nothing_to_trim(t);
    lemma_command_words(word, gap, rest);
    let a = seq!['/'] + t;
    let b = seq!['!'] + t;
    assert(a[0] == '/' && a.last() == t.last());
    assert(b[0] == '!' && b.last() == t.last());
    crate::text::nothing_to_trim(a);
    crate::text::nothing_to_trim(b);
    assert(a.skip(1) =~= t);
    assert(b.skip(1) =~= t);
}

proof fn lemma_command_words(word: Seq<char>, gap: char, rest: Seq<char>)
    requires
        word.len() > 0,
        rest.len() > 0,
        forall|k: int| 0 <= k < word.len() ==> !is_white(#[trigger] word[k]),
        is_white(gap),
        !is_white(rest[0]),
        !is_white(rest.last()),
        !cancel_word(lowercase(word.push(gap) + rest)),
    ensures
        classified_bare(word.push(gap) + rest) == (InputView::Command {
            name: lowercase(word),
            args: rest,
        }),
{
    let t = word.push(gap) + rest;
    let n = word.len() as int;
    lemma_not_a_number(word, gap, rest);
    assert forall|k: int| 0 <= k < n implies !is_white(#[trigger] t[k]) by {
        assert(t[k] == word[k]);
    }
    assert(t[n] == gap);
    lemma_word_length(t, n);
    assert(t.take(n) =~= word);
    assert(t.skip(n + 1) =~= rest);
    crate::text::nothing_to_trim(rest);
}

proof fn lemma_not_a_number(word: Seq<char>, gap: char, rest: Seq<char>)
    requires
        word.len() > 0,
        is_white(gap),
    ensures
        unsigned(word.push(gap) + rest) is None,
{
    let t = word.push(gap) + rest;
    let n = word.len() as int;
    assert(t[n] == gap);
    assert(!is_digit(gap));
    assert(!all_digits(t)) by {
        assert(!is_digit(t[n]));
    }
    assert(!all_digits(t.skip(1))) by {
        assert(t.skip(1)[n - 1] == gap);
        assert(!is_digit(t.skip(1)[n - 1]));
    }
}

/// A position is shown with all of its seconds: so many minutes and less than
/// a minute more.
pub proof fn a_position_shows_all_of_its_seconds(secs: nat) -> (shown: (nat, nat))
    ensures
        clock(secs) == digits(shown.0) + ":"@ + two_digits(shown.1),
        shown.0 * 60 + shown.1 == secs,
        shown.1 < 60,
{
    (secs / 60, secs % 60)
}

/// The time that the bot runs is shown in whole hours and minutes, and no more
/// than a minute is left out.
pub proof fn an_uptime_shows_all_of_its_minutes(secs: nat) -> (shown: (nat, nat))
    ensures
        shown.0 > 0 ==> uptime_text(secs) == digits(shown.0) + "h "@ + digits(shown.1) + "m"@,
        shown.0 == 0 ==> uptime_text(secs) == digits(shown.1) + "m"@,
        shown.1 < 60,
        shown.0 * 3600 + shown.1 * 60 <= secs < shown.0 * 3600 + shown.1 * 60 + 60,
{
    (secs / 3600, (secs % 3600) / 60)
}

/// Whether a text is a part of another.
pub open spec fn within(part: Seq<char>, whole: Seq<char>) -> bool {
    exists|i: int|
        0 <= i && i + part.len() <= whole.len() && #[trigger] whole.subrange(i, i + part.len())
            == part
}

/// The overview shows everybody how to play, those on Spotify what only
/// Spotify can do, and admins what only they can do; it is longer for them.
pub proof fn the_overview_shows_what_can_be_used(
    langs: Map<Seq<char>, Map<Seq<char>, Seq<char>>>,
    lang: Seq<char>,
    active: Service,
    is_admin: bool,
)
    ensures
        within(message(langs, lang, Key::HelpOverviewPlayback, Seq::empty()), help_overview(
            langs,
            lang,
            active,
            is_admin,
        )),
        active == Service::Spotify ==> within(
            message(langs, lang, Key::HelpOverviewSpotify, Seq::empty()),
            help_overview(langs, lang, active, is_admin),
        ),
        is_admin ==> within(
            message(langs, lang, Key::HelpOverviewAdmin, Seq::empty()),
            help_overview(langs, lang, active, is_admin),
        ),
        help_overview(langs, lang, active, true).len() == help_overview(
            langs,
            lang,
            active,
            false,
        ).len() + 1 + message(langs, lang, Key::HelpOverviewAdmin, Seq::empty()).len(),
{
    let none = Seq::<(Seq<char>, Seq<char>)>::empty();
    let a = message(langs, lang, Key::HelpOverviewPlayback, none);
    let spotify = message(langs, lang, Key::HelpOverviewSpotify, none);
    let b = if active == Service::Spotify {
        a.push('\n') + spotify
    } else {
        a
    };
    let rest = message(langs, lang, Key::HelpOverviewRest, none);
    let c = b.push('\n') + rest;
    let admin = message(langs, lang, Key::HelpOverviewAdmin, none);
    let whole = help_overview(langs, lang, active, is_admin);
    assert(whole.subrange(0, 0 + a.len() as int) =~= a);
    if active == Service::Spotify {
        let i = a.len() as int + 1;
        assert(whole.subrange(i, i + spotify.len()) =~= spotify);
    }
    if is_admin {
        let i = c.len() as int + 1;
        assert(whole.subrange(i, i + admin.len()) =~= admin);
    }
}

/// A message is split no more often than it has to be: no two neighbouring
/// chunks would fit into one.
pub proof fn neighbouring_chunks_do_not_fit_into_one(text: Seq<char>, max_len: nat, i: int)
    requires
        0 <= i,
        i + 1 < chunks(text, max_len).len(),
    ensures
        byte_count(chunks(text, max_len)[i]) + 1 + byte_count(chunks(text, max_len)[i + 1])
            > max_len,
{
    if text.len() > 0 && byte_count(text) > max_len {
        lemma_chunks_are_full(lines(text), max_len);
        let c = chunking(lines(text), max_len);
        assert(crowded(c.done, max_len, i) || i + 1 == c.done.len());
    }
}

/// Whether a chunk and the one after it do not fit into one.
pub open spec fn crowded(parts: Seq<Seq<char>>, max_len: nat, i: int) -> bool {
    byte_count(parts[i]) + 1 + byte_count(parts[i + 1]) > max_len
}

proof fn lemma_chunks_are_full(ls: Seq<Seq<char>>, max_len: nat)
    ensures
        ({
            let c = chunking(ls, max_len);
            &&& forall|i: int|
                0 <= i && i + 1 < c.done.len() ==> #[trigger] crowded(c.done, max_len, i)
            &&& c.done.len() > 0 ==> byte_count(c.done.last()) + 1 + byte_count(c.chunk) > max_len
        }),
    decreases ls.len(),
{
    if ls.len() > 0 {
        let p = ls.drop_last();
        let line = ls.last();
        lemma_chunks_are_full(p, max_len);
        let b = chunking(p, max_len);
        let c = chunking(ls, max_len);
        if b.chunk.len() == 0 {
            assert(byte_count(b.chunk) == 0) by {
                byte_count_adds_up(b.chunk, b.chunk);
                assert(b.chunk + b.chunk =~= b.chunk);
            }
        } else if byte_count(b.chunk) + 1 + byte_count(line) > max_len {
            assert forall|i: int| 0 <= i && i + 1 < c.done.len() implies #[trigger] crowded(
                c.done,
                max_len,
                i,
            ) by {
                if i + 1 < b.done.len() {
                    assert(crowded(b.done, max_len, i));
                    assert(c.done[i] == b.done[i] && c.done[i + 1] == b.done[i + 1]);
                } else {
                    assert(c.done[i] == b.done.last());
                    assert(c.done[i + 1] == b.chunk);
                }
            }
        } else {
            byte_count_adds_up(b.chunk.push('\n'), line);
            byte_count_adds_up(b.chunk, seq!['\n']);
            assert(b.chunk + seq!['\n'] =~= b.chunk.push('\n'));
        }
    }
}

/// The help on a command shows that command: its English text has the word that
/// was asked about, but for the words that are spelled out.
pub proof fn help_shows_the_command(topic: Seq<char>, active: Service)
    requires
        help_topic(topic, true, active) matches Some(key) && key != Key::HelpUnknown,
        topic != "volume"@ && topic != "seek"@ && topic != "spotify"@ && topic != "youtube"@,
    ensures
        within(topic, help_topic(topic, true, active)->Some_0.english_spec()),
{
    let text = help_topic(topic, true, active)->Some_0.english_spec();
    if topic == "p"@ {
        assert(within(topic, text)) by {
            reveal_strlit("p");
            reveal_strlit("p, play: pause or resume\np <query>: search and play");
            assert(text.subrange(0, 0int + topic.len()) =~= topic);
        }
    } else if topic == "play"@ {
        assert(within(topic, text)) by {
            reveal_strlit("play");
            reveal_strlit("p, play: pause or resume\np <query>: search and play");
            assert(text.subrange(3, 3int + topic.len()) =~= topic);
        }
    } else if topic == "s"@ {
        assert(within(topic, text)) by {
            reveal_strlit("s");
            reveal_strlit("s, stop: stop and clear the queue");
            assert(text.subrange(0, 0int + topic.len()) =~= topic);
        }
    } else if topic == "stop"@ {
        assert(within(topic, text)) by {
            reveal_strlit("stop");
            reveal_strlit("s, stop: stop and clear the queue");
            assert(text.subrange(3, 3int + topic.len()) =~= topic);
        }
    } else if topic == "n"@ {
        assert(within(topic, text)) by {
            reveal_strlit("n");
            reveal_strlit("n, next: skip to the next track");
            assert(text.subrange(0, 0int + topic.len()) =~= topic);
        }
    } else if topic == "next"@ {
        assert(within(topic, text)) by {
            reveal_strlit("next");
            reveal_strlit("n, next: skip to the next track");
            assert(text.subrange(3, 3int + topic.len()) =~= topic);
        }
    } else if topic == "o"@ {
        assert(within(topic, text)) by {
            reveal_strlit("o");
            reveal_strlit("o, prev: step back\nLate in a track this plays it again");
            assert(text.subrange(0, 0int + topic.len()) =~= topic);
        }
    } else if topic == "prev"@ {
        assert(within(topic, text)) by {
            reveal_strlit("prev");
            reveal_strlit("o, prev: step back\nLate in a track this plays it again");
            assert(text.subrange(3, 3int + topic.len()) =~= topic);
        }
    } else if topic == "replay"@ {
        assert(within(topic, text)) by {
            reveal_strlit("replay");
            reveal_strlit("rp, replay: play the track from the start");
            assert(text.subrange(4, 4int + topic.len()) =~= topic);
        }
    } else if topic == "rp"@ {
        assert(within(topic, text)) by {
            reveal_strlit("rp");
            reveal_strlit("rp, replay: play the track from the start");
            assert(text.subrange(0, 0int + topic.len()) =~= topic);
        }
    } else if topic == "c"@ {
        assert(within(topic, text)) by {
            reveal_strlit("c");
            reveal_strlit("c, current: what is playing");
            assert(text.subrange(0, 0int + topic.len()) =~= topic);
        }
    } else if topic == "current"@ {
        assert(within(topic, text)) by {
            reveal_strlit("current");
            reveal_strlit("c, current: what is playing");
            assert(text.subrange(3, 3int + topic.len()) =~= topic);
        }
    } else if topic == "queue"@ {
        assert(within(topic, text)) by {
            reveal_strlit("queue");
            reveal_strlit("queue: list what is coming\nqueue rm <number>: remove a track\nqueue clear: drop what is coming");
            assert(text.subrange(0, 0int + topic.len()) =~= topic);
        }
    } else if topic == "mode"@ {
        assert(within(topic, text)) by {
            reveal_strlit("mode");
            reveal_strlit("mode r: repeat the track\nmode rq: repeat the queue\nmode off: no repeat");
            assert(text.subrange(0, 0int + topic.len()) =~= topic);
        }
    } else if topic == "shuffle"@ {
        assert(within(topic, text)) by {
            reveal_strlit("shuffle");
            reveal_strlit("shuffle: turn shuffle on or off\nshuffle on, shuffle off: choose");
            assert(text.subrange(0, 0int + topic.len()) =~= topic);
        }
    } else if topic == "v"@ {
        assert(within(topic, text)) by {
            reveal_strlit("v");
            reveal_strlit("v: show the volume\nv <percent>: set the volume");
            assert(text.subrange(0, 0int + topic.len()) =~= topic);
        }
    } else if topic == "sf"@ {
        assert(within(topic, text)) by {
            reveal_strlit("sf");
            reveal_strlit("sf <seconds>: seek forward\nsb <seconds>: seek backward");
            assert(text.subrange(0, 0int + topic.len()) =~= topic);
        }
    } else if topic == "sb"@ {
        assert(within(topic, text)) by {
            reveal_strlit("sb");
            reveal_strlit("sf <seconds>: seek forward\nsb <seconds>: seek backward");
            assert(text.subrange(27, 27int + topic.len()) =~= topic);
        }
    } else if topic == "search"@ {
        assert(within(topic, text)) by {
            reveal_strlit("search");
            reveal_strlit("search <query>: list results\nsearch: list them again");
            assert(text.subrange(0, 0int + topic.len()) =~= topic);
        }
    } else if topic == "radio"@ {
        assert(within(topic, text)) by {
            reveal_strlit("radio");
            reveal_strlit("radio on, radio off: keep playing similar tracks\nradio: show whether it is on");
            assert(text.subrange(0, 0int + topic.len()) =~= topic);
        }
    } else if topic == "link"@ {
        assert(within(topic, text)) by {
            reveal_strlit("link");
            reveal_strlit("link, url: the link of the current track");
            assert(text.subrange(0, 0int + topic.len()) =~= topic);
        }
    } else if topic == "url"@ {
        assert(within(topic, text)) by {
            reveal_strlit("url");
            reveal_strlit("link, url: the link of the current track");
            assert(text.subrange(6, 6int + topic.len()) =~= topic);
        }
    } else if topic == "stats"@ {
        assert(within(topic, text)) by {
            reveal_strlit("stats");
            reveal_strlit("stats: uptime, tracks, queue and volume");
            assert(text.subrange(0, 0int + topic.len()) =~= topic);
        }
    } else if topic == "jc"@ {
        assert(within(topic, text)) by {
            reveal_strlit("jc");
            reveal_strlit("jc <path>: join a channel");
            assert(text.subrange(0, 0int + topic.len()) =~= topic);
        }
    } else if topic == "lang"@ {
        assert(within(topic, text)) by {
            reveal_strlit("lang");
            reveal_strlit("lang: list languages\nlang <code>: choose yours\nlang clear: follow the server default");
            assert(text.subrange(0, 0int + topic.len()) =~= topic);
        }
    } else if topic == "glang"@ {
        assert(within(topic, text)) by {
            reveal_strlit("glang");
            reveal_strlit("glang <code>: set the server default language");
            assert(text.subrange(0, 0int + topic.len()) =~= topic);
        }
    } else if topic == "cn"@ {
        assert(within(topic, text)) by {
            reveal_strlit("cn");
            reveal_strlit("cn <name>: change nickname");
            assert(text.subrange(0, 0int + topic.len()) =~= topic);
        }
    } else if topic == "gender"@ {
        assert(within(topic, text)) by {
            reveal_strlit("gender");
            reveal_strlit("gender <male|female|neutral>: set the bot gender");
            assert(text.subrange(0, 0int + topic.len()) =~= topic);
        }
    } else if topic == "sp"@ {
        assert(within(topic, text)) by {
            reveal_strlit("sp");
            reveal_strlit("sp: use Spotify\nyt: use YouTube");
            assert(text.subrange(0, 0int + topic.len()) =~= topic);
        }
    } else if topic == "yt"@ {
        assert(within(topic, text)) by {
            reveal_strlit("yt");
            reveal_strlit("sp: use Spotify\nyt: use YouTube");
            assert(text.subrange(16, 16int + topic.len()) =~= topic);
        }
    } else if topic == "rs"@ {
        assert(within(topic, text)) by {
            reveal_strlit("rs");
            reveal_strlit("rs, restart: restart the bot");
            assert(text.subrange(0, 0int + topic.len()) =~= topic);
        }
    } else if topic == "restart"@ {
        assert(within(topic, text)) by {
            reveal_strlit("restart");
            reveal_strlit("rs, restart: restart the bot");
            assert(text.subrange(4, 4int + topic.len()) =~= topic);
        }
    } else if topic == "q"@ {
        assert(within(topic, text)) by {
            reveal_strlit("q");
            reveal_strlit("q, quit: stop the bot");
            assert(text.subrange(0, 0int + topic.len()) =~= topic);
        }
    } else if topic == "quit"@ {
        assert(within(topic, text)) by {
            reveal_strlit("quit");
            reveal_strlit("q, quit: stop the bot");
            assert(text.subrange(3, 3int + topic.len()) =~= topic);
        }
    }
}

} // verus!
