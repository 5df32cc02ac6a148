//! Caching the facts the tray menu shows about Spotify and YouTube.
//!
//! Both answers come from the filesystem. Asking on every right click puts disk
//! reads on the message loop, which is the thread that must never wait for
//! anything. They change rarely, and almost always because of something the
//! tray itself did, so an action that changes them marks the cache stale. The
//! time limit is only a backstop for changes made outside the app.
use vstd::prelude::*;

use crate::gui_native::menu::MenuFacts;

verus! {

/// How long a reading is trusted without being marked stale, in milliseconds.
/// Covers changes made outside the app.
pub const MAX_AGE: u64 = 15_000;

/// Whether a reading has to be taken again: there is none, it was marked stale,
/// it is too old, or it is from the future.
pub open spec fn outdated(last_read: Option<u64>, now: u64, max_age: u64, marked: bool) -> bool {
    marked || match last_read {
        None => true,
        Some(t) => now < t || now - t >= max_age,
    }
}

/// Whether the facts must be read from disk again.
pub fn needs_refresh(last_read: Option<u64>, now: u64, max_age: u64, marked_stale: bool) -> (r:
    bool)
    ensures
        r == outdated(last_read, now, max_age, marked_stale),
{
    if marked_stale {
        return true;
    }
    match last_read {
        None => true,
        Some(t) => now < t || now - t >= max_age,
    }
}

/// The tray's cached view of those facts.
#[derive(Debug)]
pub struct FactsCache {
    last: Option<(u64, MenuFacts)>,
    stale: bool,
}

impl FactsCache {
    /// When the facts were read.
    pub closed spec fn read_at(self) -> Option<u64> {
        match self.last {
            Some((t, _)) => Some(t),
            None => None,
        }
    }

    /// The facts, where they have been read.
    pub closed spec fn facts(self) -> Option<MenuFacts> {
        match self.last {
            Some((_, f)) => Some(f),
            None => None,
        }
    }

    /// Whether the facts were marked as needing a re-read.
    pub closed spec fn marked(self) -> bool {
        self.stale
    }

    /// Whether the facts have to be read before they are shown.
    pub open spec fn due(self, now: u64) -> bool {
        outdated(self.read_at(), now, MAX_AGE, self.marked())
    }

    /// Starts stale so the first menu reads the real state.
    pub fn new() -> (r: Self)
        ensures
            r.marked(),
            r.facts() is None,
            r.read_at() is None,
    {
        FactsCache { last: None, stale: true }
    }

    /// Whether the cache is marked stale.
    pub fn staleness_flag(&self) -> (r: bool)
        ensures
            r == self.marked(),
    {
        self.stale
    }

    /// Mark the cached facts as needing a re-read.
    pub fn mark_stale(&mut self)
        ensures
            final(self).marked(),
            final(self).facts() == old(self).facts(),
            final(self).read_at() == old(self).read_at(),
    {
        self.stale = true;
    }

    /// The current facts, reading them through `fetch` only when needed.
    pub fn get(&mut self, now: u64, fetch: impl FnOnce() -> MenuFacts) -> (r: MenuFacts)
        requires
            fetch.requires(()),
        ensures
            old(self).due(now) ==> {
                &&& final(self).facts() matches Some(f) && fetch.ensures((), f) && r@ == f@
                &&& final(self).read_at() == Some(now)
                &&& !final(self).marked()
            },
            !old(self).due(now) ==> {
                &&& final(self).facts() == old(self).facts()
                &&& final(self).facts() matches Some(f) && r@ == f@
                &&& final(self).read_at() == old(self).read_at()
                &&& final(self).marked() == old(self).marked()
            },
    {
        if !self.stale {
            if let Some((t, facts)) = &self.last {
                if !needs_refresh(Some(*t), now, MAX_AGE, false) {
                    return facts.clone();
                }
            }
        }
        let facts = fetch();
        let copy = facts.clone();
        self.last = Some((now, facts));
        self.stale = false;
        copy
    }
}

impl Default for FactsCache {
    fn default() -> (r: Self)
        ensures
            r.marked(),
            r.facts() is None,
            r.read_at() is None,
    {
        FactsCache::new()
    }
}

/// Opening the menu again shortly after the facts were read does not read them
/// again; an action that changes them, however shortly after, does.
pub proof fn a_fresh_reading_is_reused(read_at: u64, now: u64)
    requires
        read_at <= now < read_at + MAX_AGE,
    ensures
        !outdated(Some(read_at), now, MAX_AGE, false),
        outdated(Some(read_at), now, MAX_AGE, true),
{
}

} // verus!
