//! Reporting and clearing the downloaded-audio caches: which folders they are,
//! which files go, and how a size is shown. Reading and deleting files is left
//! to the caller.
use vstd::prelude::*;
use vstd::multiset::Multiset;
use vstd::string::*;

use crate::error::{BotError, ErrorView};
use crate::paths::{
    components, extension_of, file_name, join_path, joined_path, name_of_path, path_comes_first,
    path_order_is_total, path_order_is_transitive, path_ordered, piece_views, split_extension,
    split_path, PathStyle, Piece, PieceView,
};
use crate::text::{
    decimal, decimal_wide, digits, lemma_views_push, same, views,
};

verus! {

// ---- the folders ----

/// Never cleared, wherever it turns up.
pub const PROTECTED: &'static str = "TEAMTALK_DLL";

/// Whether a path names the SDK at any level.
pub open spec fn protected(style: PathStyle, path: Seq<char>) -> bool {
    components(style, path).contains(PieceView::Name(PROTECTED@))
}

/// True if `path` names the SDK at any level.
pub fn is_protected(style: PathStyle, path: &str) -> (r: bool)
    ensures
        r == protected(style, path@),
{
    let pieces = split_path(style, path);
    let ghost all = piece_views(pieces@);
    let mut i: usize = 0;
    while i < pieces.len()
        invariant
            i <= pieces.len(),
            all == piece_views(pieces@),
            all == components(style, path@),
            forall|k: int| 0 <= k < i ==> #[trigger] all[k] != PieceView::Name(PROTECTED@),
        decreases pieces.len() - i,
    {
        assert(all[i as int] == pieces@[i as int]@);
        if let Piece::Name(name) = &pieces[i] {
            if same(name.as_str(), PROTECTED) {
                assert(all.contains(PieceView::Name(PROTECTED@)));
                return true;
            }
        }
        i += 1;
    }
    false
}

/// The folders under the cache that hold nothing but re-downloadable audio.
pub open spec fn audio_dirs(style: PathStyle, cache_dir: Seq<char>) -> Seq<Seq<char>> {
    seq![
        joined_path(style, joined_path(style, cache_dir, "spotify_cache"@), "audio"@),
        joined_path(style, cache_dir, "youtube"@),
    ]
}

/// Those of some paths that may be cleared.
pub open spec fn unprotected(style: PathStyle, paths: Seq<Seq<char>>) -> Seq<Seq<char>>
    decreases paths.len(),
{
    if paths.len() == 0 {
        seq![]
    } else if protected(style, paths.last()) {
        unprotected(style, paths.drop_last())
    } else {
        unprotected(style, paths.drop_last()).push(paths.last())
    }
}

/// The caches that may be cleared, whether or not they exist.
pub fn clearable_dirs(style: PathStyle, cache_dir: &str) -> (r: Vec<String>)
    ensures
        views(r@) == unprotected(style, audio_dirs(style, cache_dir@)),
{
    let all = vec![
        join_path(style, join_path(style, cache_dir, "spotify_cache").as_str(), "audio"),
        join_path(style, cache_dir, "youtube"),
    ];
    assert(views(all@) =~= audio_dirs(style, cache_dir@));
    let mut out: Vec<String> = Vec::new();
    let mut i: usize = 0;
    assert(views(out@) =~= unprotected(style, views(all@).take(0)));
    while i < all.len()
        invariant
            i <= all.len(),
            views(out@) == unprotected(style, views(all@).take(i as int)),
        decreases all.len() - i,
    {
        assert(views(all@).take(i + 1).drop_last() =~= views(all@).take(i as int));
        assert(views(all@)[i as int] == all@[i as int]@);
        if !is_protected(style, all[i].as_str()) {
            let path = all[i].clone();
            proof {
                lemma_views_push(out@, path);
            }
            out.push(path);
        }
        i += 1;
    }
    assert(views(all@).take(i as int) =~= views(all@));
    out
}

/// The SDK is never one of the folders that are cleared.
pub proof fn the_sdk_is_never_cleared(style: PathStyle, paths: Seq<Seq<char>>)
    ensures
        forall|i: int|
            0 <= i < unprotected(style, paths).len() ==> !protected(
                style,
                #[trigger] unprotected(style, paths)[i],
            ),
    decreases paths.len(),
{
    if paths.len() > 0 {
        the_sdk_is_never_cleared(style, paths.drop_last());
        let before = unprotected(style, paths.drop_last());
        assert forall|i: int| 0 <= i < unprotected(style, paths).len() implies !protected(
            style,
            #[trigger] unprotected(style, paths)[i],
        ) by {
            if i < before.len() {
                assert(unprotected(style, paths)[i] == before[i]);
            }
        }
    }
}

/// How large some folders are together.
pub open spec fn all_sizes(sizes: Seq<u64>) -> nat
    decreases sizes.len(),
{
    if sizes.len() == 0 {
        0
    } else {
        all_sizes(sizes.drop_last()) + sizes.last() as nat
    }
}

proof fn lemma_all_sizes_grow(sizes: Seq<u64>, i: int)
    requires
        0 <= i <= sizes.len(),
    ensures
        all_sizes(sizes.take(i)) <= all_sizes(sizes),
    decreases sizes.len() - i,
{
    if i < sizes.len() {
        assert(sizes.take(i + 1).drop_last() =~= sizes.take(i));
        lemma_all_sizes_grow(sizes, i + 1);
    } else {
        assert(sizes.take(i) =~= sizes);
    }
}

/// Bytes held by the caches, from the size of each.
pub fn size_bytes(sizes: &Vec<u64>) -> (r: u64)
    requires
        all_sizes(sizes@) <= u64::MAX,
    ensures
        r == all_sizes(sizes@),
{
    let mut sum: u64 = 0;
    let mut i: usize = 0;
    while i < sizes.len()
        invariant
            i <= sizes.len(),
            all_sizes(sizes@) <= u64::MAX,
            sum == all_sizes(sizes@.take(i as int)),
        decreases sizes.len() - i,
    {
        proof {
            assert(sizes@.take(i + 1).drop_last() =~= sizes@.take(i as int));
            lemma_all_sizes_grow(sizes@, i + 1);
        }
        sum += sizes[i];
        i += 1;
    }
    assert(sizes@.take(i as int) =~= sizes@);
    sum
}

/// What became of emptying one of the caches.
#[derive(Debug)]
pub struct Cleared {
    pub dir: String,
    /// What it held before.
    pub size: u64,
    pub error: Option<String>,
}

/// The first error among some attempts.
pub open spec fn first_error(done: Seq<Cleared>) -> Option<Seq<char>>
    decreases done.len(),
{
    if done.len() == 0 {
        None
    } else {
        match done[0].error {
            Some(e) => Some(done[0].dir@ + ": "@ + e@),
            None => first_error(done.skip(1)),
        }
    }
}

/// The sizes of some attempts.
pub open spec fn sizes_of(done: Seq<Cleared>) -> Seq<u64> {
    done.map_values(|c: Cleared| c.size)
}

/// What came of deleting the cached audio: how many bytes were freed, or the
/// first error.
pub fn clear(done: &Vec<Cleared>) -> (r: Result<u64, BotError>)
    requires
        all_sizes(sizes_of(done@)) <= u64::MAX,
    ensures
        match r {
            Ok(freed) => first_error(done@) is None && freed == all_sizes(sizes_of(done@)),
            Err(e) => first_error(done@) matches Some(text) && e@ == ErrorView::Config(
                "Could not clear the cache ("@ + text + ")"@,
            ),
        },
{
    let mut sizes: Vec<u64> = Vec::new();
    let mut i: usize = 0;
    assert(done@.skip(0) =~= done@);
    while i < done.len()
        invariant
            i <= done.len(),
            sizes@ =~= sizes_of(done@).take(i as int),
            first_error(done@) == first_error(done@.skip(i as int)),
        decreases done.len() - i,
    {
        assert(done@.skip(i as int).skip(1) =~= done@.skip(i + 1));
        if let Some(e) = &done[i].error {
            let mut text = String::from_str("Could not clear the cache (");
            let mut first = done[i].dir.clone();
            first.append(": ");
            first.append(e.as_str());
            text.append(first.as_str());
            text.append(")");
            return Err(BotError::Config(text));
        }
        sizes.push(done[i].size);
        i += 1;
    }
    assert(sizes@ =~= sizes_of(done@));
    Ok(size_bytes(&sizes))
}

// ---- what goes ----

/// One cached file, as eviction sees it. `last_used` counts nanoseconds.
#[derive(Debug, Clone, PartialEq, Eq)]
pub struct Entry {
    pub path: String,
    pub size: u64,
    pub last_used: u64,
}

pub struct EntryView {
    pub path: Seq<char>,
    pub size: u64,
    pub last_used: u64,
}

impl View for Entry {
    type V = EntryView;

    open spec fn view(&self) -> EntryView {
        EntryView { path: self.path@, size: self.size, last_used: self.last_used }
    }
}

pub open spec fn entry_views(v: Seq<Entry>) -> Seq<EntryView> {
    v.map_values(|e: Entry| e@)
}

fn copy_entry(e: &Entry) -> (r: Entry)
    ensures
        r@ == e@,
{
    Entry { path: e.path.clone(), size: e.size, last_used: e.last_used }
}

/// Whether a path is that of a download that is not complete.
pub open spec fn partial(style: PathStyle, path: Seq<char>) -> bool {
    match name_of_path(style, path) {
        Some(name) => extension_of(name) == Some("part"@),
        None => false,
    }
}

/// True for the temporary file a download writes before it is complete.
pub fn is_partial(style: PathStyle, path: &str) -> (r: bool)
    ensures
        r == partial(style, path@),
{
    match file_name(style, path) {
        Some(name) => match split_extension(name.as_str()).1 {
            Some(extension) => same(extension.as_str(), "part"),
            None => false,
        },
        None => false,
    }
}

/// A file of the cache as an entry. A download in progress is not one: evicting
/// it would truncate the track being played right now. A file whose time cannot
/// be read counts as never used.
pub fn cache_entry(
    style: PathStyle,
    path: String,
    size: u64,
    last_used: Option<u64>,
) -> (r: Option<Entry>)
    ensures
        match r {
            Some(e) => !partial(style, path@) && e@ == (EntryView {
                path: path@,
                size,
                last_used: match last_used {
                    Some(t) => t,
                    None => 0,
                },
            }),
            None => partial(style, path@),
        },
{
    if is_partial(style, path.as_str()) {
        return None;
    }
    let last_used: u64 = match last_used {
        Some(t) => t,
        None => 0,
    };
    Some(Entry { path, size, last_used })
}

/// Least recently used first; files used at the same time in the order of
/// their paths.
pub open spec fn goes_first(style: PathStyle, a: EntryView, b: EntryView) -> bool {
    a.last_used < b.last_used || (a.last_used == b.last_used && path_ordered(style, a.path, b.path))
}

pub open spec fn least_recent_first(style: PathStyle, s: Seq<EntryView>) -> bool {
    forall|i: int, j: int|
        0 <= i < j < s.len() ==> goes_first(style, #[trigger] s[i], #[trigger] s[j])
}

/// Whether `s` is `all`, the least recently used first.
pub open spec fn sorted_as(style: PathStyle, all: Seq<EntryView>, s: Seq<EntryView>) -> bool {
    least_recent_first(style, s) && s.to_multiset() == all.to_multiset()
}

proof fn lemma_goes_first_total(style: PathStyle, a: EntryView, b: EntryView)
    ensures
        goes_first(style, a, b) || goes_first(style, b, a),
{
    path_order_is_total(components(style, a.path), components(style, b.path));
}

proof fn lemma_goes_first_transitive(style: PathStyle, a: EntryView, b: EntryView, c: EntryView)
    requires
        goes_first(style, a, b),
        goes_first(style, b, c),
    ensures
        goes_first(style, a, c),
{
    if a.last_used == b.last_used && b.last_used == c.last_used {
        path_order_is_transitive(
            components(style, a.path),
            components(style, b.path),
            components(style, c.path),
        );
    }
}

fn is_first(style: PathStyle, a: &Entry, b: &Entry) -> (r: bool)
    ensures
        r == goes_first(style, a@, b@),
{
    a.last_used < b.last_used || (a.last_used == b.last_used && path_comes_first(
        style,
        a.path.as_str(),
        b.path.as_str(),
    ))
}

/// Put `e` where it belongs in a list that is in order.
fn insert_entry(style: PathStyle, v: &mut Vec<Entry>, e: Entry)
    requires
        least_recent_first(style, entry_views(old(v)@)),
    ensures
        least_recent_first(style, entry_views(final(v)@)),
        entry_views(final(v)@).to_multiset() == entry_views(old(v)@).to_multiset().insert(e@),
        final(v)@.len() == old(v)@.len() + 1,
{
    let mut i: usize = v.len();
    while i > 0 && !is_first(style, &v[i - 1], &e)
        invariant
            i <= v.len(),
            forall|k: int| i <= k < v.len() ==> goes_first(style, e@, #[trigger] entry_views(v@)[k]),
        decreases i,
    {
        proof {
            assert(entry_views(v@)[i - 1] == v@[i - 1]@);
            lemma_goes_first_total(style, v@[i - 1]@, e@);
        }
        i -= 1;
    }
    let ghost w = entry_views(v@);
    let ghost n = e@;
    let ghost at = i as int;
    assert(at > 0 ==> goes_first(style, w[at - 1], n)) by {
        if at > 0 {
            assert(w[at - 1] == v@[at - 1]@);
        }
    }
    v.insert(i, e);
    proof {
        let t = entry_views(v@);
        assert(t =~= w.insert(at, n));
        assert(t.remove(at) =~= w);
        vstd::seq_lib::to_multiset_remove(t, at);
        t.to_multiset_ensures();
        assert(t.contains(n)) by {
            assert(t[at] == n);
        }
        assert(t.to_multiset() =~= w.to_multiset().insert(n));
        assert forall|a: int, b: int| 0 <= a < b < t.len() implies goes_first(
            style,
            #[trigger] t[a],
            #[trigger] t[b],
        ) by {
            if b == at {
                assert(t[a] == w[a]);
                if a < at - 1 {
                    assert(goes_first(style, w[a], w[at - 1]));
                    lemma_goes_first_transitive(style, w[a], w[at - 1], n);
                }
            } else if a == at {
                assert(t[b] == w[b - 1]);
            } else {
                let x = if a < at {
                    a
                } else {
                    a - 1
                };
                let y = if b < at {
                    b
                } else {
                    b - 1
                };
                assert(goes_first(style, w[x], w[y]));
            }
        }
    }
}

fn sort_entries(style: PathStyle, v: &Vec<Entry>) -> (r: Vec<Entry>)
    ensures
        sorted_as(style, entry_views(v@), entry_views(r@)),
{
    let ghost all = entry_views(v@);
    let mut out: Vec<Entry> = Vec::new();
    let mut i: usize = 0;
    assert(entry_views(out@) =~= all.take(0));
    while i < v.len()
        invariant
            i <= v.len(),
            all == entry_views(v@),
            least_recent_first(style, entry_views(out@)),
            entry_views(out@).to_multiset() == all.take(i as int).to_multiset(),
        decreases v.len() - i,
    {
        proof {
            assert(all.take(i + 1) =~= all.take(i as int).push(all[i as int]));
            vstd::seq_lib::to_multiset_build(all.take(i as int), all[i as int]);
        }
        insert_entry(style, &mut out, copy_entry(&v[i]));
        i += 1;
    }
    assert(all.take(i as int) =~= all);
    out
}

/// Nanoseconds in a second.
pub const SECOND_NS: u64 = 1_000_000_000;

/// Whether nobody used a file for longer than `keep` seconds. One that was
/// used in the future is not old.
pub open spec fn stale(e: EntryView, keep: u64, now: u64) -> bool {
    now - e.last_used > keep * SECOND_NS
}

/// Those entries that are stale, or those that are not.
pub open spec fn with_staleness(s: Seq<EntryView>, wanted: bool, keep: u64, now: u64) -> Seq<
    EntryView,
>
    decreases s.len(),
{
    if s.len() == 0 {
        seq![]
    } else if stale(s.last(), keep, now) == wanted {
        with_staleness(s.drop_last(), wanted, keep, now).push(s.last())
    } else {
        with_staleness(s.drop_last(), wanted, keep, now)
    }
}

/// How large some files are together.
pub open spec fn total(s: Seq<EntryView>) -> nat
    decreases s.len(),
{
    if s.len() == 0 {
        0
    } else {
        s[0].size as nat + total(s.skip(1))
    }
}

/// How many of the first files have to go until the rest fits.
pub open spec fn too_many(s: Seq<EntryView>, limit: u64) -> nat
    decreases s.len(),
{
    if s.len() == 0 || total(s) <= limit {
        0
    } else {
        1 + too_many(s.skip(1), limit)
    }
}

/// The files that go, of files in order: those that are stale, then the first
/// of the others until the rest fits.
pub open spec fn evicted(s: Seq<EntryView>, limit: Option<u64>, keep: u64, now: u64) -> Seq<
    EntryView,
> {
    let kept = with_staleness(s, false, keep, now);
    with_staleness(s, true, keep, now) + (match limit {
        Some(l) => kept.take(too_many(kept, l) as int),
        None => seq![],
    })
}

/// The files that stay.
pub open spec fn staying(s: Seq<EntryView>, limit: Option<u64>, keep: u64, now: u64) -> Seq<
    EntryView,
> {
    let kept = with_staleness(s, false, keep, now);
    match limit {
        Some(l) => kept.skip(too_many(kept, l) as int),
        None => kept,
    }
}

proof fn lemma_too_many(s: Seq<EntryView>, limit: u64)
    ensures
        too_many(s, limit) <= s.len(),
        total(s.skip(too_many(s, limit) as int)) <= limit,
        forall|i: int| 0 <= i < too_many(s, limit) ==> total(#[trigger] s.skip(i)) > limit,
    decreases s.len(),
{
    if s.len() > 0 && total(s) > limit {
        lemma_too_many(s.skip(1), limit);
        let n = too_many(s, limit) as int;
        assert(s.skip(1).skip(n - 1) =~= s.skip(n));
        assert forall|i: int| 0 <= i < n implies total(#[trigger] s.skip(i)) > limit by {
            if i == 0 {
                assert(s.skip(0) =~= s);
            } else {
                assert(s.skip(1).skip(i - 1) =~= s.skip(i));
            }
        }
    } else {
        assert(s.skip(0) =~= s);
    }
}

fn stale_entries(s: &Vec<Entry>, wanted: bool, keep: u64, now: u64) -> (r: Vec<Entry>)
    ensures
        entry_views(r@) == with_staleness(entry_views(s@), wanted, keep, now),
{
    let ghost all = entry_views(s@);
    let mut out: Vec<Entry> = Vec::new();
    let mut i: usize = 0;
    assert(entry_views(out@) =~= with_staleness(all.take(0), wanted, keep, now));
    while i < s.len()
        invariant
            i <= s.len(),
            all == entry_views(s@),
            entry_views(out@) == with_staleness(all.take(i as int), wanted, keep, now),
        decreases s.len() - i,
    {
        assert(all.take(i + 1).drop_last() =~= all.take(i as int));
        assert(all[i as int] == s@[i as int]@);
        assert(keep * SECOND_NS <= u64::MAX * SECOND_NS) by (nonlinear_arith)
            requires
                keep <= u64::MAX,
                SECOND_NS == 1_000_000_000,
        ;
        let is_stale = now > s[i].last_used && (now - s[i].last_used) as u128 > keep as u128
            * SECOND_NS as u128;
        assert(keep * SECOND_NS >= 0) by (nonlinear_arith)
            requires
                keep >= 0,
                SECOND_NS >= 0,
        ;
        if is_stale == wanted {
            let ghost before = out@;
            let e = copy_entry(&s[i]);
            out.push(e);
            assert(entry_views(out@) =~= entry_views(before).push(e@));
        }
        i += 1;
    }
    assert(all.take(i as int) =~= all);
    out
}

proof fn lemma_total_bound(s: Seq<EntryView>)
    ensures
        total(s) <= s.len() * u64::MAX,
    decreases s.len(),
{
    if s.len() > 0 {
        lemma_total_bound(s.skip(1));
        assert(s.len() * u64::MAX == (s.len() - 1) * u64::MAX + u64::MAX) by (nonlinear_arith);
    }
}

fn total_size(s: &Vec<Entry>) -> (r: u128)
    ensures
        r == total(entry_views(s@)),
{
    let ghost all = entry_views(s@);
    let mut sum: u128 = 0;
    let mut i: usize = s.len();
    assert(all.skip(i as int) =~= Seq::<EntryView>::empty());
    while i > 0
        invariant
            i <= s.len(),
            all == entry_views(s@),
            sum == total(all.skip(i as int)),
        decreases i,
    {
        proof {
            assert(all.skip(i - 1).skip(1) =~= all.skip(i as int));
            assert(all.skip(i - 1)[0] == s@[i - 1]@);
            lemma_total_bound(all.skip(i - 1));
            assert(all.skip(i - 1).len() * u64::MAX <= usize::MAX * u64::MAX) by (nonlinear_arith)
                requires
                    all.skip(i - 1).len() <= usize::MAX,
            ;
        }
        i -= 1;
        sum = sum + s[i].size as u128;
    }
    assert(all.skip(0) =~= all);
    sum
}

/// Choose what to delete: anything unused for `keep` seconds, then least
/// recently used until the total fits `limit`. `now` counts nanoseconds.
pub fn plan_eviction(
    style: PathStyle,
    entries: Vec<Entry>,
    limit: Option<u64>,
    keep: u64,
    now: u64,
) -> (r: Vec<Entry>)
    ensures
        exists|s: Seq<EntryView>| #[trigger]
            sorted_as(style, entry_views(entries@), s) && entry_views(r@) == evicted(
                s,
                limit,
                keep,
                now,
            ),
{
    let sorted = sort_entries(style, &entries);
    let ghost s = entry_views(sorted@);
    let mut doomed = stale_entries(&sorted, true, keep, now);
    let ghost old_ones = entry_views(doomed@);
    let limit: u64 = match limit {
        Some(limit) => limit,
        None => {
            assert(entry_views(doomed@) =~= evicted(s, limit, keep, now));
            assert(sorted_as(style, entry_views(entries@), s));
            return doomed;
        },
    };
    let kept = stale_entries(&sorted, false, keep, now);
    let ghost k = entry_views(kept@);
    let mut left: u128 = total_size(&kept);
    let mut i: usize = 0;
    assert(k.skip(0) =~= k);
    assert(entry_views(doomed@) =~= old_ones + k.take(0));
    while left > limit as u128 && i < kept.len()
        invariant
            i <= kept.len(),
            k == entry_views(kept@),
            left == total(k.skip(i as int)),
            too_many(k, limit) == i + too_many(k.skip(i as int), limit),
            entry_views(doomed@) =~= old_ones + k.take(i as int),
        decreases kept.len() - i,
    {
        assert(k.skip(i as int).skip(1) =~= k.skip(i + 1));
        assert(k.skip(i as int)[0] == kept@[i as int]@);
        left = left - kept[i].size as u128;
        let ghost before = doomed@;
        let e = copy_entry(&kept[i]);
        doomed.push(e);
        assert(entry_views(doomed@) =~= entry_views(before).push(e@));
        i += 1;
    }
    proof {
        assert(too_many(k.skip(i as int), limit) == 0);
        assert(entry_views(doomed@) =~= evicted(s, Some(limit), keep, now));
        assert(sorted_as(style, entry_views(entries@), s));
    }
    doomed
}

/// What stays after a sweep fits the limit.
pub proof fn what_stays_fits(s: Seq<EntryView>, limit: u64, keep: u64, now: u64)
    ensures
        total(staying(s, Some(limit), keep, now)) <= limit,
{
    lemma_too_many(with_staleness(s, false, keep, now), limit);
}

proof fn lemma_with_staleness(s: Seq<EntryView>, wanted: bool, keep: u64, now: u64)
    ensures
        forall|i: int|
            0 <= i < with_staleness(s, wanted, keep, now).len() ==> stale(
                #[trigger] with_staleness(s, wanted, keep, now)[i],
                keep,
                now,
            ) == wanted,
        forall|e: EntryView| #[trigger]
            with_staleness(s, wanted, keep, now).contains(e) ==> s.contains(e),
    decreases s.len(),
{
    if s.len() > 0 {
        lemma_with_staleness(s.drop_last(), wanted, keep, now);
        let w = with_staleness(s, wanted, keep, now);
        assert forall|i: int| 0 <= i < w.len() implies stale(#[trigger] w[i], keep, now)
            == wanted by {
            let before = with_staleness(s.drop_last(), wanted, keep, now);
            if i < before.len() {
                assert(w[i] == before[i]);
            }
        }
        assert forall|e: EntryView| #[trigger]
            with_staleness(s, wanted, keep, now).contains(e) implies s.contains(e) by {
            let k = choose|k: int| 0 <= k < w.len() && w[k] == e;
            let before = with_staleness(s.drop_last(), wanted, keep, now);
            if k < before.len() {
                assert(before[k] == e);
                assert(before.contains(e));
                let j = choose|j: int| 0 <= j < s.drop_last().len() && s.drop_last()[j] == e;
                assert(s[j] == e);
            } else {
                assert(s[s.len() - 1] == e);
            }
        }
    }
}

/// A track nobody used for longer than the age never stays; a track that was
/// used lately goes only to make room.
pub proof fn nothing_stale_stays(s: Seq<EntryView>, limit: Option<u64>, keep: u64, now: u64)
    ensures
        forall|i: int|
            0 <= i < staying(s, limit, keep, now).len() ==> !stale(
                #[trigger] staying(s, limit, keep, now)[i],
                keep,
                now,
            ),
{
    let kept = with_staleness(s, false, keep, now);
    lemma_with_staleness(s, false, keep, now);
    if let Some(l) = limit {
        lemma_too_many(kept, l);
        assert forall|i: int| 0 <= i < staying(s, limit, keep, now).len() implies !stale(
            #[trigger] staying(s, limit, keep, now)[i],
            keep,
            now,
        ) by {
            assert(staying(s, limit, keep, now)[i] == kept[i + too_many(kept, l)]);
        }
    }
}

proof fn lemma_staleness_splits(s: Seq<EntryView>, keep: u64, now: u64)
    ensures
        with_staleness(s, true, keep, now).to_multiset().add(
            with_staleness(s, false, keep, now).to_multiset(),
        ) =~= s.to_multiset(),
    decreases s.len(),
{
    let t = with_staleness(s, true, keep, now);
    let f = with_staleness(s, false, keep, now);
    if s.len() > 0 {
        lemma_staleness_splits(s.drop_last(), keep, now);
        let t0 = with_staleness(s.drop_last(), true, keep, now);
        let f0 = with_staleness(s.drop_last(), false, keep, now);
        vstd::seq_lib::to_multiset_build(s.drop_last(), s.last());
        assert(s.drop_last().push(s.last()) =~= s);
        vstd::seq_lib::to_multiset_build(t0, s.last());
        vstd::seq_lib::to_multiset_build(f0, s.last());
    } else {
        s.to_multiset_ensures();
        t.to_multiset_ensures();
        f.to_multiset_ensures();
        assert(s.to_multiset() =~= Multiset::empty());
    }
}

/// Every file goes or stays, and none is counted twice.
pub proof fn every_file_goes_once_or_stays(
    s: Seq<EntryView>,
    limit: Option<u64>,
    keep: u64,
    now: u64,
)
    ensures
        evicted(s, limit, keep, now).to_multiset().add(staying(s, limit, keep, now).to_multiset())
            =~= s.to_multiset(),
{
    lemma_staleness_splits(s, keep, now);
    let t = with_staleness(s, true, keep, now);
    let kept = with_staleness(s, false, keep, now);
    match limit {
        Some(l) => {
            lemma_too_many(kept, l);
            let n = too_many(kept, l) as int;
            assert(kept.take(n) + kept.skip(n) =~= kept);
            vstd::seq_lib::lemma_multiset_commutative(kept.take(n), kept.skip(n));
            vstd::seq_lib::lemma_multiset_commutative(t, kept.take(n));
        },
        None => {
            assert(evicted(s, limit, keep, now) =~= t);
        },
    }
}

/// It stops deleting as soon as the rest fits: with one file less deleted, it
/// would not fit.
pub proof fn it_deletes_no_more_than_needed(s: Seq<EntryView>, limit: u64, keep: u64, now: u64)
    ensures
        ({
            let kept = with_staleness(s, false, keep, now);
            too_many(kept, limit) > 0 ==> total(kept.skip(too_many(kept, limit) - 1)) > limit
        }),
{
    lemma_too_many(with_staleness(s, false, keep, now), limit);
}

proof fn lemma_staleness_keeps_order(
    style: PathStyle,
    s: Seq<EntryView>,
    wanted: bool,
    keep: u64,
    now: u64,
)
    requires
        least_recent_first(style, s),
    ensures
        least_recent_first(style, with_staleness(s, wanted, keep, now)),
    decreases s.len(),
{
    if s.len() > 0 {
        let before = with_staleness(s.drop_last(), wanted, keep, now);
        let w = with_staleness(s, wanted, keep, now);
        assert(least_recent_first(style, s.drop_last())) by {
            assert forall|i: int, j: int| 0 <= i < j < s.drop_last().len() implies goes_first(
                style,
                #[trigger] s.drop_last()[i],
                #[trigger] s.drop_last()[j],
            ) by {
                assert(goes_first(style, s[i], s[j]));
            }
        }
        lemma_staleness_keeps_order(style, s.drop_last(), wanted, keep, now);
        lemma_with_staleness(s.drop_last(), wanted, keep, now);
        assert forall|i: int, j: int| 0 <= i < j < w.len() implies goes_first(
            style,
            #[trigger] w[i],
            #[trigger] w[j],
        ) by {
            if j < before.len() {
                assert(goes_first(style, before[i], before[j]));
            } else {
                assert(before.contains(before[i]));
                let k = choose|k: int| 0 <= k < s.drop_last().len() && s.drop_last()[k] == before[i];
                assert(goes_first(style, s[k], s[s.len() - 1]));
            }
        }
    }
}

/// What goes to make room was used no later than anything that stays, whichever
/// service it came from.
pub proof fn the_least_recently_used_goes_first(
    style: PathStyle,
    s: Seq<EntryView>,
    limit: u64,
    keep: u64,
    now: u64,
    gone: int,
    stays: int,
)
    requires
        least_recent_first(style, s),
        0 <= gone < too_many(with_staleness(s, false, keep, now), limit),
        0 <= stays < staying(s, Some(limit), keep, now).len(),
    ensures
        goes_first(
            style,
            with_staleness(s, false, keep, now)[gone],
            staying(s, Some(limit), keep, now)[stays],
        ),
{
    let kept = with_staleness(s, false, keep, now);
    lemma_staleness_keeps_order(style, s, false, keep, now);
    lemma_too_many(kept, limit);
    assert(staying(s, Some(limit), keep, now)[stays] == kept[stays + too_many(kept, limit)]);
}

// ---- what was swept ----

/// What a sweep did.
#[derive(Debug, Clone, Copy, PartialEq, Eq, Structural)]
pub struct Swept {
    pub removed: usize,
    pub freed: u64,
}

impl Default for Swept {
    fn default() -> (r: Self)
        ensures
            r == (Swept { removed: 0, freed: 0 }),
    {
        Swept { removed: 0, freed: 0 }
    }
}

impl Swept {
    /// One more file was removed.
    pub fn add(self, size: u64) -> (r: Self)
        requires
            self.removed < usize::MAX,
            self.freed + size <= u64::MAX,
        ensures
            r.removed == self.removed + 1,
            r.freed == self.freed + size,
    {
        Swept { removed: self.removed + 1, freed: self.freed + size }
    }

    /// What the log says of a sweep, where it removed anything.
    pub fn report(self) -> (r: Option<String>)
        ensures
            match r {
                Some(text) => self.removed > 0 && text@ == "Cache: removed "@ + digits(
                    self.removed as nat,
                ) + " file(s), freed "@ + size_text(self.freed),
                None => self.removed == 0,
            },
    {
        if self.removed == 0 {
            return None;
        }
        let mut text = String::from_str("Cache: removed ");
        text.append(decimal(self.removed as u64).as_str());
        text.append(" file(s), freed ");
        text.append(human_size(self.freed).as_str());
        Some(text)
    }
}

// ---- sizes ----

pub const KB: u64 = 1024;

pub const MB: u64 = 1_048_576;

pub const GB: u64 = 1_073_741_824;

/// A fraction as a whole number: the nearest, of two that are as near the even
/// one.
pub open spec fn rounded(n: nat, d: nat) -> nat {
    let q = n / d;
    let rest = n % d;
    if 2 * rest > d || (2 * rest == d && q % 2 == 1) {
        q + 1
    } else {
        q
    }
}

fn round(n: u128, d: u64) -> (r: u128)
    requires
        d > 0,
        n <= 0xffff_ffff_ffff_ffff_ffff,
    ensures
        r == rounded(n as nat, d as nat),
{
    let q: u128 = n / d as u128;
    let rest: u128 = n % d as u128;
    assert(q <= n) by (nonlinear_arith)
        requires
            q == n / d as u128,
            d > 0,
    ;
    if 2 * rest > d as u128 || (2 * rest == d as u128 && q % 2 == 1) {
        q + 1
    } else {
        q
    }
}

/// Above this, a count is shown to sixteen digits or so.
pub const EXACT: u64 = 9_007_199_254_740_992;

/// The step in which a large count is shown.
pub open spec fn step(n: nat) -> nat
    decreases n,
{
    if n < EXACT {
        1
    } else {
        2 * step(n / 2)
    }
}

/// A count to the precision in which it is shown.
pub open spec fn shown(n: nat) -> nat {
    rounded(n, step(n)) * step(n)
}

proof fn lemma_step(n: nat)
    requires
        n <= u64::MAX,
    ensures
        1 <= step(n) <= 2048,
        n < EXACT ==> step(n) == 1,
{
    reveal_with_fuel(step, 13);
}

fn find_step(n: u64) -> (r: u64)
    ensures
        r == step(n as nat),
        1 <= r <= 2048,
{
    let mut k: u64 = n;
    let mut s: u64 = 1;
    proof {
        lemma_step(n as nat);
    }
    while k >= EXACT
        invariant
            1 <= s,
            s * step(k as nat) == step(n as nat),
            step(n as nat) <= 2048,
        decreases k,
    {
        proof {
            lemma_step((k / 2) as nat);
            let t = step((k / 2) as nat);
            assert(s * (2 * t) == (2 * s) * t) by (nonlinear_arith);
            assert(2 * s <= 2048) by (nonlinear_arith)
                requires
                    (2 * s) * t <= 2048,
                    t >= 1,
            ;
        }
        k = k / 2;
        s = 2 * s;
    }
    assert(s * 1 == s);
    s
}

/// A byte count the way a person reads it.
pub open spec fn size_text(bytes: u64) -> Seq<char> {
    if bytes >= GB {
        let tenths = rounded(shown(bytes as nat) * 10, GB as nat);
        digits(tenths / 10) + "."@ + digits(tenths % 10) + " GB"@
    } else if bytes >= MB {
        digits(rounded(bytes as nat, MB as nat)) + " MB"@
    } else if bytes >= KB {
        digits(rounded(bytes as nat, KB as nat)) + " KB"@
    } else {
        digits(bytes as nat) + " bytes"@
    }
}

/// Render a byte count the way a person reads it.
pub fn human_size(bytes: u64) -> (r: String)
    ensures
        r@ == size_text(bytes),
{
    if bytes >= GB {
        let s: u64 = find_step(bytes);
        let whole: u128 = round(bytes as u128, s);
        proof {
            assert(whole <= 0x1_0000_0000_0000_0000) by (nonlinear_arith)
                requires
                    whole == rounded(bytes as nat, s as nat),
                    s >= 1,
                    bytes <= 0xffff_ffff_ffff_ffff,
                    whole <= bytes as nat / s as nat + 1,
            ;
            assert(whole * s <= 0x1_0000_0000_0000_0000 * 2048) by (nonlinear_arith)
                requires
                    whole <= 0x1_0000_0000_0000_0000,
                    s <= 2048,
            ;
        }
        let near: u128 = whole * s as u128;
        let tenths: u128 = round(near * 10, GB);
        let mut out = decimal_wide(tenths / 10);
        out.append(".");
        out.append(decimal_wide(tenths % 10).as_str());
        out.append(" GB");
        out
    } else if bytes >= MB {
        let mut out = decimal_wide(round(bytes as u128, MB));
        out.append(" MB");
        out
    } else if bytes >= KB {
        let mut out = decimal_wide(round(bytes as u128, KB));
        out.append(" KB");
        out
    } else {
        let mut out = decimal(bytes);
        out.append(" bytes");
        out
    }
}

/// Clearing reports a failure if and only if one of the attempts failed, and
/// then the one that failed first: which folder it was, and why.
pub proof fn the_first_failure_is_reported(done: Seq<Cleared>)
    ensures
        match first_error(done) {
            Some(text) => exists|i: int|
                0 <= i < done.len() && (#[trigger] done[i]).error is Some && done[i].dir@.is_prefix_of(
                    text,
                ) && done[i].error->0@.is_suffix_of(text) && forall|k: int|
                    0 <= k < i ==> (#[trigger] done[k]).error is None,
            None => forall|i: int| 0 <= i < done.len() ==> (#[trigger] done[i]).error is None,
        },
    decreases done.len(),
{
    if done.len() > 0 {
        let rest = done.skip(1);
        if let Some(e) = done[0].error {
            let text = done[0].dir@ + ": "@ + e@;
            assert(done[0].dir@ =~= text.take(done[0].dir@.len() as int));
            assert(e@ =~= text.subrange(text.len() - e@.len(), text.len() as int));
        } else {
            the_first_failure_is_reported(rest);
            if let Some(text) = first_error(done) {
                let i = choose|i: int|
                    0 <= i < rest.len() && (#[trigger] rest[i]).error is Some
                        && rest[i].dir@.is_prefix_of(text) && rest[i].error->0@.is_suffix_of(text)
                        && forall|k: int| 0 <= k < i ==> (#[trigger] rest[k]).error is None;
                assert(done[i + 1] == rest[i]);
                assert forall|k: int| 0 <= k < i + 1 implies (#[trigger] done[k]).error is None by {
                    if k > 0 {
                        assert(done[k] == rest[k - 1]);
                    }
                }
            } else {
                assert forall|k: int| 0 <= k < done.len() implies (
                #[trigger] done[k]).error is None by {
                    if k > 0 {
                        assert(done[k] == rest[k - 1]);
                    }
                }
            }
        }
    }
}

/// What is freed counts every folder.
pub proof fn every_folder_counts(a: Seq<u64>, b: Seq<u64>, size: u64)
    ensures
        all_sizes(a + b) == all_sizes(a) + all_sizes(b),
        all_sizes(seq![size]) == size,
        all_sizes(Seq::empty()) == 0,
    decreases b.len(),
{
    if b.len() > 0 {
        every_folder_counts(a, b.drop_last(), size);
        assert((a + b).drop_last() =~= a + b.drop_last());
    } else {
        assert(a + b =~= a);
    }
    assert(all_sizes(seq![size]) == size) by {
        reveal_with_fuel(all_sizes, 2);
        assert(seq![size].drop_last() =~= Seq::<u64>::empty());
        assert(seq![size].last() == size);
    }
}

/// A rounded number is as near as can be: no more than half a unit away.
pub proof fn rounding_goes_to_the_nearest(n: nat, d: nat)
    requires
        d > 0,
    ensures
        2 * (rounded(n, d) * d - n) <= d,
        2 * (n - rounded(n, d) * d) <= d,
{
    let q = n / d;
    vstd::arithmetic::div_mod::lemma_fundamental_div_mod(n as int, d as int);
    vstd::arithmetic::div_mod::lemma_mod_bound(n as int, d as int);
    assert(d * q == q * d && (q + 1) * d == q * d + d) by (nonlinear_arith);
}

/// A size that was shown names the unit it is counted in, and a size of less
/// than a unit is counted in a smaller one.
pub proof fn a_size_is_shown_in_its_unit(bytes: u64)
    ensures
        " GB"@.is_suffix_of(size_text(bytes)) <==> bytes >= GB,
        " MB"@.is_suffix_of(size_text(bytes)) <==> MB <= bytes < GB,
        " KB"@.is_suffix_of(size_text(bytes)) <==> KB <= bytes < MB,
        " bytes"@.is_suffix_of(size_text(bytes)) <==> bytes < KB,
{
    reveal_strlit(" GB");
    reveal_strlit(" MB");
    reveal_strlit(" KB");
    reveal_strlit(" bytes");
    let t = size_text(bytes);
    let n = t.len() as int;
    if bytes >= GB {
        assert(" GB"@ =~= t.subrange(n - 3, n));
    } else if bytes >= MB {
        assert(" MB"@ =~= t.subrange(n - 3, n));
    } else if bytes >= KB {
        assert(" KB"@ =~= t.subrange(n - 3, n));
    } else {
        assert(" bytes"@ =~= t.subrange(n - 6, n));
        assert(t[n - 1] == 's');
    }
    if " GB"@.is_suffix_of(t) {
        assert(t[n - 2] == " GB"@[1]) by {
            assert(t.subrange(n - 3, n)[1] == t[n - 2]);
        }
    }
    if " MB"@.is_suffix_of(t) {
        assert(t[n - 2] == " MB"@[1]) by {
            assert(t.subrange(n - 3, n)[1] == t[n - 2]);
        }
    }
    if " KB"@.is_suffix_of(t) {
        assert(t[n - 2] == " KB"@[1]) by {
            assert(t.subrange(n - 3, n)[1] == t[n - 2]);
        }
    }
    if " bytes"@.is_suffix_of(t) {
        assert(t[n - 1] == " bytes"@[5]) by {
            assert(t.subrange(n - 6, n)[5] == t[n - 1]);
        }
    }
}

/// The number in front of the unit is the size, to the nearest unit; a size in
/// gigabytes is shown to the nearest tenth of what is counted.
pub proof fn a_size_is_shown_to_the_nearest(bytes: u64) -> (n: nat)
    ensures
        bytes < KB ==> n == bytes && digits(n) + " bytes"@ == size_text(bytes),
        KB <= bytes < MB ==> digits(n) + " KB"@ == size_text(bytes) && 2 * (n * KB - bytes) <= KB && 2
            * (bytes - n * KB) <= KB,
        MB <= bytes < GB ==> digits(n) + " MB"@ == size_text(bytes) && 2 * (n * MB - bytes) <= MB && 2
            * (bytes - n * MB) <= MB,
        bytes >= GB ==> digits(n / 10) + "."@ + digits(n % 10) + " GB"@ == size_text(bytes),
        GB <= bytes < EXACT ==> 2 * (n * GB - 10 * bytes) <= GB && 2 * (10 * bytes - n * GB) <= GB,
{
    if bytes >= GB {
        let tenths = rounded(shown(bytes as nat) * 10, GB as nat);
        rounding_goes_to_the_nearest(shown(bytes as nat) * 10, GB as nat);
        if bytes < EXACT {
            lemma_step(bytes as nat);
            assert(rounded(bytes as nat, 1) == bytes) by {
                assert(bytes as nat / 1 == bytes && bytes as nat % 1 == 0);
            }
            assert(shown(bytes as nat) == bytes) by {
                assert(step(bytes as nat) == 1);
                assert(rounded(bytes as nat, 1) * 1 == bytes) by (nonlinear_arith)
                    requires
                        rounded(bytes as nat, 1) == bytes,
                ;
            }
        }
        tenths
    } else if bytes >= MB {
        rounding_goes_to_the_nearest(bytes as nat, MB as nat);
        rounded(bytes as nat, MB as nat)
    } else if bytes >= KB {
        rounding_goes_to_the_nearest(bytes as nat, KB as nat);
        rounded(bytes as nat, KB as nat)
    } else {
        bytes as nat
    }
}

/// Sorted files stand in the order of their last use, the one that was not
/// used for longest in front.
pub proof fn sorting_goes_by_the_last_use(style: PathStyle, all: Seq<EntryView>, s: Seq<EntryView>)
    requires
        sorted_as(style, all, s),
    ensures
        forall|i: int, j: int|
            0 <= i < j < s.len() ==> (#[trigger] s[i]).last_used <= (#[trigger] s[j]).last_used,
        s.len() == all.len(),
        forall|e: EntryView| s.contains(e) <==> #[trigger] all.contains(e),
{
    assert forall|i: int, j: int| 0 <= i < j < s.len() implies (#[trigger] s[i]).last_used <= (
    #[trigger] s[j]).last_used by {
        assert(goes_first(style, s[i], s[j]));
    }
    s.to_multiset_ensures();
    all.to_multiset_ensures();
    assert forall|e: EntryView| s.contains(e) <==> #[trigger] all.contains(e) by {
        assert(s.contains(e) <==> s.to_multiset().count(e) > 0);
        assert(all.contains(e) <==> all.to_multiset().count(e) > 0);
    }
}

/// A file is stale once more than the seconds it is kept for have passed since
/// it was last used, and not before.
pub proof fn a_file_goes_stale_by_the_second(e: EntryView, keep: u64, later: nat)
    requires
        e.last_used + later * 1_000_000_000 <= u64::MAX,
    ensures
        stale(e, keep, (e.last_used + later * 1_000_000_000) as u64) <==> later > keep,
{
    assert(later * 1_000_000_000 > keep * 1_000_000_000 <==> later > keep);
}

} // verus!
