//! Session-recovery policy for the Spotify engine.
//!
//! A session is single-use: once its connection dies it can never be
//! reconnected. The only recovery is to build a brand-new session, and a
//! player from it.
//!
//! This module holds the *policy* for that recovery: the backoff schedule, the
//! attempt cap, and the single-flight guard.
use vstd::prelude::*;

verus! {

/// Delay before each recovery attempt, in seconds. Bounded and generously
/// spaced so a dead or rate-limiting Spotify is never hammered. The length of
/// this array is the hard attempt cap.
pub const RECOVERY_BACKOFF: [u64; 5] = [2, 5, 15, 45, 90];

/// Maximum number of rebuild attempts before giving up. After this the bot
/// stops trying automatically and waits for a manual/lazy re-trigger.
pub const MAX_ATTEMPTS: usize = 5;

/// Result of a recovery cycle.
#[derive(Debug, Clone, Copy, PartialEq, Eq, Structural)]
pub enum RecoveryOutcome {
    /// Session rebuilt and playback resumed.
    Recovered,
    /// All attempts exhausted; auto-recovery stops until a manual/lazy
    /// retrigger.
    GaveUp,
}

/// Seconds to wait before an attempt, counted from 0.
pub open spec fn backoff(attempt: int) -> Option<u64> {
    if attempt == 0 {
        Some(2u64)
    } else if attempt == 1 {
        Some(5u64)
    } else if attempt == 2 {
        Some(15u64)
    } else if attempt == 3 {
        Some(45u64)
    } else if attempt == 4 {
        Some(90u64)
    } else {
        None
    }
}

/// Delay in seconds to wait before attempt `attempt` (0-based), or `None` when
/// the attempt cap is exceeded (the caller should give up).
///
/// Attempt 0 is preceded by the first (short) delay rather than firing
/// instantly, so a transient blip gets a moment to settle before a full
/// rebuild.
pub fn delay_before_attempt(attempt: usize) -> (r: Option<u64>)
    ensures
        r == backoff(attempt as int),
{
    let schedule: [u64; 5] = RECOVERY_BACKOFF;
    if attempt < MAX_ATTEMPTS {
        Some(schedule[attempt])
    } else {
        None
    }
}

/// There are exactly as many attempts as the cap says, and each waits longer
/// than the one before it.
pub proof fn attempts_are_bounded_and_spaced(attempt: nat)
    ensures
        backoff(attempt as int) is Some <==> attempt < MAX_ATTEMPTS,
        backoff(attempt as int + 1) matches Some(later) ==> backoff(attempt as int) matches Some(
            earlier,
        ) && earlier < later,
{
}

/// Single-flight guard: ensures only one recovery cycle runs at a time even
/// when two observers detect the death at once.
#[derive(Debug)]
pub struct RecoveryGuard {
    active: bool,
}

impl Default for RecoveryGuard {
    fn default() -> (r: Self)
        ensures
            !r.busy(),
    {
        RecoveryGuard::new()
    }
}

impl RecoveryGuard {
    /// Whether a cycle is in progress.
    pub closed spec fn busy(self) -> bool {
        self.active
    }

    pub fn new() -> (r: Self)
        ensures
            !r.busy(),
    {
        RecoveryGuard { active: false }
    }

    /// Try to become the one running recovery. Returns `true` for exactly one
    /// caller until `finish` is called; other callers get `false` and should
    /// do nothing.
    pub fn try_begin(&mut self) -> (r: bool)
        ensures
            r == !old(self).busy(),
            final(self).busy(),
    {
        if self.active {
            false
        } else {
            self.active = true;
            true
        }
    }

    /// Whether a recovery cycle is currently in progress.
    pub fn is_active(&self) -> (r: bool)
        ensures
            r == self.busy(),
    {
        self.active
    }

    /// Release the guard so a future death can start a new cycle.
    pub fn finish(&mut self)
        ensures
            !final(self).busy(),
    {
        self.active = false;
    }
}

/// Resume seek target after a recovery: rewind slightly from where playback
/// died so the transition feels continuous rather than clipping forward.
pub const RESUME_REWIND_MS: u32 = 2000;

/// Where a track goes on that was interrupted here.
pub open spec fn resume_at(position_ms: u32) -> u32 {
    if position_ms >= RESUME_REWIND_MS {
        (position_ms - RESUME_REWIND_MS) as u32
    } else {
        0
    }
}

/// Compute the position to seek to when resuming the interrupted track.
pub fn resume_seek_ms(position_ms: u32) -> (r: u32)
    ensures
        r == resume_at(position_ms),
{
    position_ms.saturating_sub(RESUME_REWIND_MS)
}

/// A track goes on a little before where it was interrupted: never after it,
/// and never further back than the rewind; only from the beginning is it less.
pub proof fn a_track_goes_on_a_little_earlier(position_ms: u32, later_ms: u32)
    ensures
        resume_at(position_ms) <= position_ms,
        position_ms - resume_at(position_ms) <= RESUME_REWIND_MS,
        resume_at(position_ms) > 0 ==> position_ms - resume_at(position_ms) == RESUME_REWIND_MS,
        position_ms <= later_ms ==> resume_at(position_ms) <= resume_at(later_ms),
{
}

} // verus!
