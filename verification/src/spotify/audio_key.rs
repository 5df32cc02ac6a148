//! Noticing when Spotify refuses an audio key.
//!
//! The playback library does not report this as a player event. It logs the
//! failure, warns that it is "continuing without decryption", and streams the
//! encrypted bytes anyway. Those bytes reach the decoder as noise, so what
//! finally surfaces is a track that is unavailable, which blames the track for
//! an account or session problem.
//!
//! Watching that log for the failure lets the skip message say what actually
//! went wrong.
use vstd::prelude::*;

use crate::text::{contains, folded, occurs, to_ascii_lower};

verus! {

/// How long after a key failure a skipped track is still blamed on it, in
/// milliseconds. Long enough to cover the decode attempt that follows (about
/// 2s in practice), short enough that an unrelated skip later is not
/// mislabelled.
pub const BLAME_WINDOW_MS: u64 = 15_000;

/// Whether a time is recent enough to explain something happening later.
pub open spec fn recent(last: Option<u64>, now: u64, within: u64) -> bool {
    last matches Some(t) && t <= now && now - t <= within
}

/// Whether `last` is recent enough to explain something happening at `now`.
/// A time after `now` (two threads reading the clock) explains nothing.
pub fn is_recent(last: Option<u64>, now: u64, within: u64) -> (r: bool)
    ensures
        r == recent(last, now, within),
{
    match last {
        Some(t) => t <= now && now - t <= within,
        None => false,
    }
}

/// The last key failure of a list of bots; the first pair with an id counts.
pub open spec fn last_failure(failures: Seq<(u64, u64)>, bot: u64) -> Option<u64>
    decreases failures.len(),
{
    if failures.len() == 0 {
        None
    } else if failures[0].0 == bot {
        Some(failures[0].1)
    } else {
        last_failure(failures.skip(1), bot)
    }
}

/// Which bot the work at hand belongs to, and when each bot last hit a key
/// failure.
///
/// The tray runs every bot in one process, so a single shared record of "a key
/// failed recently" would let one bot's failure explain another bot's
/// unrelated skip. Zero means "not tagged": the single-bot command line.
#[derive(Debug)]
pub struct KeyFailures {
    current: u64,
    next_id: u64,
    failures: Vec<(u64, u64)>,
}

impl KeyFailures {
    /// The bot that the work at hand belongs to.
    pub closed spec fn current(self) -> u64 {
        self.current
    }

    /// The id that is handed out next.
    pub closed spec fn next_id(self) -> u64 {
        self.next_id
    }

    /// When a bot last hit a key failure.
    pub closed spec fn last(self, bot: u64) -> Option<u64> {
        last_failure(self.failures@, bot)
    }

    /// How many bots have hit a key failure.
    pub closed spec fn count(self) -> nat {
        self.failures@.len()
    }

    pub fn new() -> (r: Self)
        ensures
            r.current() == 0,
            r.next_id() == 1,
            forall|bot: u64| r.last(bot) is None,
            r.count() == 0,
    {
        KeyFailures { current: 0, next_id: 1, failures: Vec::new() }
    }

    /// Claim a fresh bot id, to be given to everything that bot runs on.
    pub fn next_bot_id(&mut self) -> (r: u64)
        requires
            0 < old(self).next_id() < u64::MAX,
        ensures
            r == old(self).next_id(),
            r > 0,
            final(self).next_id() == r + 1,
            final(self).current() == old(self).current(),
            forall|bot: u64| final(self).last(bot) == old(self).last(bot),
            final(self).count() == old(self).count(),
    {
        let id = self.next_id;
        self.next_id = id + 1;
        id
    }

    /// Tag the work at hand as belonging to `id`.
    pub fn set_current_bot(&mut self, id: u64)
        ensures
            final(self).current() == id,
            final(self).next_id() == old(self).next_id(),
            forall|bot: u64| final(self).last(bot) == old(self).last(bot),
            final(self).count() == old(self).count(),
    {
        self.current = id;
    }

    /// The bot that the work at hand belongs to, or 0 when untagged.
    pub fn current_bot(&self) -> (r: u64)
        ensures
            r == self.current(),
    {
        self.current
    }

    fn find(&self, bot: u64) -> (r: Option<usize>)
        ensures
            match r {
                Some(i) => i < self.failures@.len() && self.failures@[i as int].0 == bot
                    && self.last(bot) == Some(self.failures@[i as int].1) && forall|k: int|
                    0 <= k < i ==> (#[trigger] self.failures@[k]).0 != bot,
                None => self.last(bot) is None && forall|k: int|
                    0 <= k < self.failures@.len() ==> (#[trigger] self.failures@[k]).0 != bot,
            },
    {
        let mut i: usize = 0;
        assert(self.failures@.skip(0) =~= self.failures@);
        while i < self.failures.len()
            invariant
                i <= self.failures.len(),
                self.last(bot) == last_failure(self.failures@.skip(i as int), bot),
                forall|k: int| 0 <= k < i ==> (#[trigger] self.failures@[k]).0 != bot,
            decreases self.failures.len() - i,
        {
            assert(self.failures@.skip(i as int)[0] == self.failures@[i as int]);
            assert(self.failures@.skip(i as int).skip(1) =~= self.failures@.skip(i + 1));
            if self.failures[i].0 == bot {
                return Some(i);
            }
            i += 1;
        }
        None
    }

    /// Record that Spotify refused an audio key at `now`, against the bot that
    /// the work at hand belongs to.
    pub fn note_failure(&mut self, now: u64)
        ensures
            final(self).last(old(self).current()) == Some(now),
            forall|bot: u64|
                bot != old(self).current() ==> final(self).last(bot) == old(self).last(bot),
            final(self).current() == old(self).current(),
            final(self).next_id() == old(self).next_id(),
            final(self).count() == old(self).count() + (if old(self).last(
                old(self).current(),
            ) is Some {
                0nat
            } else {
                1nat
            }),
    {
        let bot = self.current;
        match self.find(bot) {
            Some(i) => {
                let ghost before = self.failures@;
                self.failures.set(i, (bot, now));
                proof {
                    lemma_updated(before, i as int, bot, now, bot);
                    assert forall|other: u64| other != bot implies self.last(other) == old(
                        self,
                    ).last(other) by {
                        lemma_updated(before, i as int, bot, now, other);
                    }
                }
            },
            None => {
                let ghost before = self.failures@;
                self.failures.push((bot, now));
                proof {
                    lemma_pushed(before, bot, now, bot);
                    assert forall|other: u64| other != bot implies self.last(other) == old(
                        self,
                    ).last(other) by {
                        lemma_pushed(before, bot, now, other);
                    }
                }
            },
        }
    }

    /// Whether this bot hit a key failure recently enough to explain a skip at
    /// `now`. Another bot's failure is not this bot's explanation.
    pub fn failed_recently(&self, now: u64) -> (r: bool)
        ensures
            r == recent(self.last(self.current()), now, BLAME_WINDOW_MS),
    {
        let last = match self.find(self.current) {
            Some(i) => Some(self.failures[i].1),
            None => None,
        };
        is_recent(last, now, BLAME_WINDOW_MS)
    }

    /// How many bots have hit a key failure.
    pub fn len(&self) -> (r: usize)
        ensures
            r == self.count(),
    {
        self.failures.len()
    }

    /// Forget every recorded failure and untag the work at hand.
    pub fn reset_for_test(&mut self)
        ensures
            final(self).current() == 0,
            final(self).next_id() == old(self).next_id(),
            forall|bot: u64| final(self).last(bot) is None,
            final(self).count() == 0,
    {
        self.failures.clear();
        self.current = 0;
    }
}

proof fn lemma_updated(failures: Seq<(u64, u64)>, i: int, bot: u64, now: u64, other: u64)
    requires
        0 <= i < failures.len(),
        failures[i].0 == bot,
        forall|k: int| 0 <= k < i ==> (#[trigger] failures[k]).0 != bot,
    ensures
        last_failure(failures.update(i, (bot, now)), other) == (if other == bot {
            Some(now)
        } else {
            last_failure(failures, other)
        }),
    decreases i,
{
    let new = failures.update(i, (bot, now));
    if i == 0 {
        assert(new.skip(1) =~= failures.skip(1));
    } else {
        assert(failures[0].0 != bot);
        assert(new.skip(1) =~= failures.skip(1).update(i - 1, (bot, now)));
        assert forall|k: int| 0 <= k < i - 1 implies (#[trigger] failures.skip(1)[k]).0 != bot by {
            assert(failures.skip(1)[k] == failures[k + 1]);
        }
        lemma_updated(failures.skip(1), i - 1, bot, now, other);
    }
}

proof fn lemma_pushed(failures: Seq<(u64, u64)>, bot: u64, now: u64, other: u64)
    requires
        forall|k: int| 0 <= k < failures.len() ==> (#[trigger] failures[k]).0 != bot,
    ensures
        last_failure(failures.push((bot, now)), other) == (if other == bot {
            Some(now)
        } else {
            last_failure(failures, other)
        }),
    decreases failures.len(),
{
    let new = failures.push((bot, now));
    if failures.len() == 0 {
        assert(new[0] == (bot, now));
        assert(new.skip(1) =~= failures);
    } else {
        assert(failures[0].0 != bot);
        assert(new.skip(1) =~= failures.skip(1).push((bot, now)));
        assert forall|k: int| 0 <= k < failures.len() - 1 implies (#[trigger] failures.skip(
            1,
        )[k]).0 != bot by {
            assert(failures.skip(1)[k] == failures[k + 1]);
        }
        lemma_pushed(failures.skip(1), bot, now, other);
    }
}

/// Whether a log line reports a refused audio key.
pub open spec fn key_failure_line(message: Seq<char>) -> bool {
    let m = folded(message);
    occurs(m, "error audio key"@) || occurs(m, "audio key error"@)
}

/// Whether a log line reports a refused audio key.
///
/// Matches the two shapes that occur: the raw `error audio key <n> <n>` from
/// the channel, and the `audio key error` inside the "continuing without
/// decryption" warning.
pub fn is_audio_key_failure(message: &str) -> (r: bool)
    ensures
        r == key_failure_line(message@),
{
    let m = to_ascii_lower(message);
    contains(m.as_str(), "error audio key") || contains(m.as_str(), "audio key error")
}

/// What to tell the user when a track is skipped.
pub fn skip_reason(after_key_failure: bool) -> (r: &'static str)
    ensures
        r@ == (if after_key_failure {
            "Spotify refused the audio key for this track, so it could not be played. This usually means the account is not premium, or it is streaming on another device."@
        } else {
            "Track unavailable, skipping."@
        }),
{
    if after_key_failure {
        // Deliberately lists both causes: from here the two are
        // indistinguishable, and naming only one sends people hunting wrong.
        "Spotify refused the audio key for this track, so it could not be played. This usually means the account is not premium, or it is streaming on another device."
    } else {
        "Track unavailable, skipping."
    }
}

/// A failure explains what happens within the window after it, and neither what
/// was before it nor what comes later.
pub proof fn a_failure_explains_what_follows_it(t: u64, now: u64, later: u64)
    requires
        now <= later,
    ensures
        recent(Some(t), now, BLAME_WINDOW_MS) ==> t <= now <= t + BLAME_WINDOW_MS,
        recent(Some(t), later, BLAME_WINDOW_MS) && t <= now ==> recent(
            Some(t),
            now,
            BLAME_WINDOW_MS,
        ),
        recent(Some(t), t, BLAME_WINDOW_MS),
        !recent(None, now, BLAME_WINDOW_MS),
{
}

/// A report is recognised whatever its case and whatever stands around it.
pub proof fn a_report_is_recognised_anywhere(before: Seq<char>, message: Seq<char>, after: Seq<char>)
    requires
        key_failure_line(message),
    ensures
        key_failure_line(before + message + after),
        key_failure_line(folded(message)),
{
    let all = before + message + after;
    let m = folded(message);
    let n = before.len() as int;
    let needle = if occurs(m, "error audio key"@) {
        "error audio key"@
    } else {
        "audio key error"@
    };
    let i = choose|i: int| crate::text::at(m, i, needle);
    assert(folded(all).subrange(n + i, n + i + needle.len()) =~= m.subrange(i, i + needle.len()));
    assert(crate::text::at(folded(all), n + i, needle));
    assert(folded(m) =~= m);
}

/// A failure is that of the bot it was noted for: no other bot's failure is
/// ever taken for it.
pub proof fn a_failure_belongs_to_its_bot(failures: Seq<(u64, u64)>, bot: u64)
    ensures
        match last_failure(failures, bot) {
            Some(t) => failures.contains((bot, t)),
            None => forall|i: int| 0 <= i < failures.len() ==> (#[trigger] failures[i]).0 != bot,
        },
    decreases failures.len(),
{
    if failures.len() > 0 {
        let rest = failures.skip(1);
        if failures[0].0 == bot {
            assert(failures[0] == (bot, failures[0].1));
        } else {
            a_failure_belongs_to_its_bot(rest, bot);
            match last_failure(rest, bot) {
                Some(t) => {
                    let i = choose|i: int| 0 <= i < rest.len() && rest[i] == (bot, t);
                    assert(failures[i + 1] == (bot, t));
                },
                None => {
                    assert forall|i: int| 0 <= i < failures.len() implies (
                    #[trigger] failures[i]).0 != bot by {
                        if i > 0 {
                            assert(failures[i] == rest[i - 1]);
                        }
                    }
                },
            }
        }
    }
}

} // verus!
