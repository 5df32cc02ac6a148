//! Tray tooltip text.
//!
//! The shell keeps a tooltip in a buffer of 128 UTF-16 code units, the last of
//! which ends the text. Overlong text is cut here rather than left to the
//! shell, which would truncate mid-character.
use vstd::prelude::*;
use vstd::string::*;

use crate::gui::manager::{BotStatus, StatusView};
use crate::text::{chars_of, decimal, digits, join, joined, lemma_views_push, slice_string, views};

verus! {

/// Room for a tooltip, in UTF-16 code units.
pub const MAX_TIP_UTF16: usize = 127;

/// The mark of a text that was cut.
pub const ELLIPSIS: char = '\u{2026}';

/// How many UTF-16 code units a character takes.
pub open spec fn units(c: char) -> nat {
    if (c as u32) >= 0x1_0000 {
        2
    } else {
        1
    }
}

/// How many UTF-16 code units a text takes.
pub open spec fn utf16_len(s: Seq<char>) -> nat
    decreases s.len(),
{
    if s.len() == 0 {
        0
    } else {
        utf16_len(s.drop_last()) + units(s.last())
    }
}

fn width(c: char) -> (r: usize)
    ensures
        r == units(c),
{
    if c as u32 >= 0x1_0000 {
        2
    } else {
        1
    }
}

/// How many characters of a text fit, one after the other.
pub open spec fn fitting(s: Seq<char>, budget: nat, n: nat) -> nat
    decreases s.len() - n,
{
    if n < s.len() && utf16_len(s.take(n as int + 1)) <= budget {
        fitting(s, budget, n + 1)
    } else {
        n
    }
}

/// A text that takes no more than `max` code units: as it is, or cut between
/// two characters and marked.
pub open spec fn shortened(text: Seq<char>, max: nat) -> Seq<char> {
    if utf16_len(text) <= max {
        text
    } else if max == 0 {
        ""@
    } else {
        text.take(fitting(text, (max - 1) as nat, 0) as int).push(ELLIPSIS)
    }
}

proof fn lemma_utf16_len_grows(s: Seq<char>, i: int)
    requires
        0 <= i <= s.len(),
    ensures
        utf16_len(s.take(i)) <= utf16_len(s),
        utf16_len(s.take(i)) <= 2 * i,
    decreases s.len() - i,
{
    if i < s.len() {
        assert(s.take(i + 1).drop_last() =~= s.take(i));
        lemma_utf16_len_grows(s, i + 1);
    } else {
        assert(s.take(i) =~= s);
    }
    lemma_two_each(s.take(i));
}

proof fn lemma_two_each(s: Seq<char>)
    ensures
        utf16_len(s) <= 2 * s.len(),
    decreases s.len(),
{
    if s.len() > 0 {
        lemma_two_each(s.drop_last());
    }
}

/// Whether a text takes at most `max` code units.
fn fits(v: &Vec<char>, max: usize) -> (r: bool)
    ensures
        r == (utf16_len(v@) <= max),
{
    let mut left: usize = max;
    let mut i: usize = 0;
    while i < v.len()
        invariant
            i <= v.len(),
            left <= max,
            utf16_len(v@.take(i as int)) == max - left,
        decreases v.len() - i,
    {
        proof {
            assert(v@.take(i + 1).drop_last() =~= v@.take(i as int));
            lemma_utf16_len_grows(v@, i + 1);
        }
        let w = width(v[i]);
        if w > left {
            return false;
        }
        left = left - w;
        i += 1;
    }
    assert(v@.take(i as int) =~= v@);
    true
}

/// Shorten `text` to at most `max` UTF-16 code units, marking the cut with an
/// ellipsis. Never splits a surrogate pair: a character that would straddle the
/// limit is dropped whole.
pub fn truncate_utf16(text: &str, max: usize) -> (r: String)
    ensures
        r@ == shortened(text@, max as nat),
{
    let v = chars_of(text);
    if fits(&v, max) {
        return text.to_owned();
    }
    if max == 0 {
        return String::from_str("");
    }
    let budget: usize = max - 1;
    let mut used: usize = 0;
    let mut i: usize = 0;
    while i < v.len() && width(v[i]) <= budget - used
        invariant
            i <= v.len(),
            used <= budget,
            used == utf16_len(v@.take(i as int)),
            fitting(v@, budget as nat, 0) == fitting(v@, budget as nat, i as nat),
        decreases v.len() - i,
    {
        assert(v@.take(i + 1).drop_last() =~= v@.take(i as int));
        used = used + width(v[i]);
        i += 1;
    }
    assert(i < v.len() ==> v@.take(i + 1).drop_last() =~= v@.take(i as int));
    let mut out = slice_string(&v, 0, i);
    assert(v@.subrange(0, i as int) =~= v@.take(i as int));
    out.push(ELLIPSIS);
    out
}

proof fn lemma_fitting(s: Seq<char>, budget: nat, n: nat)
    requires
        n <= s.len(),
        utf16_len(s.take(n as int)) <= budget,
    ensures
        n <= fitting(s, budget, n) <= s.len(),
        utf16_len(s.take(fitting(s, budget, n) as int)) <= budget,
    decreases s.len() - n,
{
    if n < s.len() && utf16_len(s.take(n as int + 1)) <= budget {
        lemma_fitting(s, budget, n + 1);
    }
}

/// A shortened text fits.
pub proof fn a_tooltip_fits_the_buffer(text: Seq<char>, max: nat)
    ensures
        utf16_len(shortened(text, max)) <= max,
{
    if utf16_len(text) > max && max > 0 {
        assert(text.take(0) =~= Seq::<char>::empty());
        lemma_fitting(text, (max - 1) as nat, 0);
        let cut = text.take(fitting(text, (max - 1) as nat, 0) as int);
        assert(cut.push(ELLIPSIS).drop_last() =~= cut);
    } else if max == 0 {
        reveal_strlit("");
    }
}

// ---- the summary ----

/// How a status counts.
#[derive(Debug, Clone, Copy, PartialEq, Eq, Structural)]
pub enum Group {
    Connected,
    Playing,
    Starting,
    Failed,
    Stopped,
}

/// Whether a status belongs to a group. A bot that plays is connected too.
pub open spec fn belongs(status: StatusView, group: Group) -> bool {
    match group {
        Group::Connected => status is Connected || status is Playing,
        Group::Playing => status is Playing,
        Group::Starting => status is Starting || status is Connecting || status is Authenticating,
        Group::Failed => status is Error || status is Disconnected,
        Group::Stopped => status is Stopped,
    }
}

fn in_group(status: &BotStatus, group: Group) -> (r: bool)
    ensures
        r == belongs(status@, group),
{
    match group {
        Group::Connected => matches!(status, BotStatus::Connected | BotStatus::Playing(_)),
        Group::Playing => matches!(status, BotStatus::Playing(_)),
        Group::Starting => matches!(
            status,
            BotStatus::Starting | BotStatus::Connecting | BotStatus::Authenticating
        ),
        Group::Failed => matches!(status, BotStatus::Error(_) | BotStatus::Disconnected),
        Group::Stopped => matches!(status, BotStatus::Stopped),
    }
}

/// A bot and how it is.
pub type NamedStatus = (String, BotStatus);

/// How many bots belong to a group.
pub open spec fn count(statuses: Seq<NamedStatus>, group: Group) -> nat
    decreases statuses.len(),
{
    if statuses.len() == 0 {
        0
    } else {
        count(statuses.drop_last(), group) + if belongs(statuses.last().1@, group) {
            1nat
        } else {
            0nat
        }
    }
}

fn count_group(statuses: &[NamedStatus], group: Group) -> (r: usize)
    ensures
        r == count(statuses@, group),
{
    let mut n: usize = 0;
    let mut i: usize = 0;
    while i < statuses.len()
        invariant
            i <= statuses@.len(),
            statuses.len() == statuses@.len(),
            n <= i,
            n == count(statuses@.take(i as int), group),
        decreases statuses@.len() - i,
    {
        assert(statuses@.take(i + 1).drop_last() =~= statuses@.take(i as int));
        if in_group(&statuses[i].1, group) {
            n += 1;
        }
        i += 1;
    }
    assert(statuses@.take(i as int) =~= statuses@);
    n
}

/// A list with how many bots are in a group, where there are any.
pub open spec fn with_count(list: Seq<Seq<char>>, n: nat, label: Seq<char>) -> Seq<Seq<char>> {
    if n > 0 {
        list.push(digits(n) + label)
    } else {
        list
    }
}

/// The groups that have a bot in them, in a fixed order so that the text does
/// not reshuffle as bots change state.
pub open spec fn summary(statuses: Seq<NamedStatus>) -> Seq<Seq<char>> {
    with_count(
        with_count(
            with_count(
                with_count(
                    with_count(seq![], count(statuses, Group::Connected), " connected"@),
                    count(statuses, Group::Playing),
                    " playing"@,
                ),
                count(statuses, Group::Starting),
                " starting"@,
            ),
            count(statuses, Group::Failed),
            " failed"@,
        ),
        count(statuses, Group::Stopped),
        " stopped"@,
    )
}

fn add_count(list: &mut Vec<String>, n: usize, label: &str)
    ensures
        views(final(list)@) == with_count(views(old(list)@), n as nat, label@),
{
    if n > 0 {
        let mut part = decimal(n as u64);
        part.append(label);
        proof {
            lemma_views_push(list@, part);
        }
        list.push(part);
    }
}

/// The tooltip before it is cut: one bot by its name, several by how many are
/// how.
pub open spec fn tooltip_text(statuses: Seq<NamedStatus>) -> Seq<char> {
    if statuses.len() == 0 {
        "TT Spotify - no bots configured"@
    } else if statuses.len() == 1 {
        "TT Spotify - "@ + statuses[0].0@ + ": "@ + statuses[0].1@.text()
    } else {
        "TT Spotify - "@ + joined(summary(statuses), ", "@)
    }
}

/// The untruncated tooltip text.
pub fn compose_tooltip(statuses: &[NamedStatus]) -> (r: String)
    ensures
        r@ == tooltip_text(statuses@),
{
    if statuses.len() == 0 {
        return String::from_str("TT Spotify - no bots configured");
    }
    let mut out = String::from_str("TT Spotify - ");
    if statuses.len() == 1 {
        out.append(statuses[0].0.as_str());
        out.append(": ");
        out.append(statuses[0].1.text().as_str());
        return out;
    }
    let mut parts: Vec<String> = Vec::new();
    assert(views(parts@) =~= seq![]);
    add_count(&mut parts, count_group(statuses, Group::Connected), " connected");
    add_count(&mut parts, count_group(statuses, Group::Playing), " playing");
    add_count(&mut parts, count_group(statuses, Group::Starting), " starting");
    add_count(&mut parts, count_group(statuses, Group::Failed), " failed");
    add_count(&mut parts, count_group(statuses, Group::Stopped), " stopped");
    out.append(join(&parts, ", ").as_str());
    out
}

/// Tray tooltip describing every configured bot.
pub fn build_tooltip(statuses: &[NamedStatus]) -> (r: String)
    ensures
        r@ == shortened(tooltip_text(statuses@), MAX_TIP_UTF16 as nat),
{
    truncate_utf16(compose_tooltip(statuses).as_str(), MAX_TIP_UTF16)
}

/// Every bot is counted somewhere: once, and once more where it plays.
pub proof fn every_status_is_counted(statuses: Seq<NamedStatus>)
    ensures
        count(statuses, Group::Connected) + count(statuses, Group::Starting) + count(
            statuses,
            Group::Failed,
        ) + count(statuses, Group::Stopped) == statuses.len(),
        count(statuses, Group::Playing) <= count(statuses, Group::Connected),
    decreases statuses.len(),
{
    if statuses.len() > 0 {
        every_status_is_counted(statuses.drop_last());
    }
}

/// A text that fits is shown whole. One that does not is cut to as many of its
/// first characters as leave room for the mark, and marked.
pub proof fn a_cut_tooltip_keeps_all_that_fits(text: Seq<char>, max: nat)
    requires
        max > 0,
    ensures
        utf16_len(text) <= max ==> shortened(text, max) == text,
        utf16_len(text) > max ==> {
            let kept = shortened(text, max).drop_last();
            &&& shortened(text, max).last() == ELLIPSIS
            &&& kept.is_prefix_of(text)
            &&& kept.len() < text.len()
            &&& utf16_len(kept) < max
            &&& utf16_len(text.take(kept.len() as int + 1)) >= max
        },
{
    if utf16_len(text) > max {
        let budget = (max - 1) as nat;
        assert(text.take(0) =~= Seq::<char>::empty());
        lemma_fitting(text, budget, 0);
        lemma_fitting_is_all(text, budget, 0);
        let n = fitting(text, budget, 0) as int;
        assert(shortened(text, max).drop_last() =~= text.take(n));
        if n == text.len() {
            assert(text.take(n) =~= text);
        }
    }
}

proof fn lemma_fitting_is_all(s: Seq<char>, budget: nat, n: nat)
    requires
        n <= s.len(),
    ensures
        n <= fitting(s, budget, n) <= s.len(),
        fitting(s, budget, n) < s.len() ==> utf16_len(
            s.take(fitting(s, budget, n) as int + 1),
        ) > budget,
    decreases s.len() - n,
{
    if n < s.len() && utf16_len(s.take(n as int + 1)) <= budget {
        lemma_fitting_is_all(s, budget, n + 1);
    }
}

/// The name of a bot that is alone is shown, and so is how it is.
pub proof fn a_lone_bot_is_shown_by_name(statuses: Seq<NamedStatus>)
    requires
        statuses.len() == 1,
    ensures
        exists|i: int|
            0 <= i && i + statuses[0].0@.len() <= tooltip_text(statuses).len()
                && #[trigger] tooltip_text(statuses).subrange(i, i + statuses[0].0@.len())
                == statuses[0].0@,
        statuses[0].1@.text().is_suffix_of(tooltip_text(statuses)),
{
    let t = tooltip_text(statuses);
    let name = statuses[0].0@;
    let how = statuses[0].1@.text();
    let i = "TT Spotify - "@.len() as int;
    assert(t.subrange(i, i + name.len()) =~= name);
    assert(how =~= t.subrange(t.len() - how.len(), t.len() as int));
}

/// Where there are several bots, each group is counted if and only if a bot is
/// in it.
pub proof fn groups_without_a_bot_are_left_out(statuses: Seq<NamedStatus>, group: Group)
    ensures
        count(statuses, group) > 0 <==> exists|i: int|
            0 <= i < statuses.len() && belongs((#[trigger] statuses[i]).1@, group),
        summary(statuses).contains(
            digits(count(statuses, group)) + (match group {
                Group::Connected => " connected"@,
                Group::Playing => " playing"@,
                Group::Starting => " starting"@,
                Group::Failed => " failed"@,
                Group::Stopped => " stopped"@,
            }),
        ) || count(statuses, group) == 0,
        summary(statuses).len() <= 5,
{
    lemma_counted(statuses, group);
    let a = with_count(seq![], count(statuses, Group::Connected), " connected"@);
    let b = with_count(a, count(statuses, Group::Playing), " playing"@);
    let c = with_count(b, count(statuses, Group::Starting), " starting"@);
    let d = with_count(c, count(statuses, Group::Failed), " failed"@);
    let e = with_count(d, count(statuses, Group::Stopped), " stopped"@);
    assert(e == summary(statuses));
    if count(statuses, group) > 0 {
        match group {
            Group::Connected => {
                assert(e[a.len() - 1] == a.last());
            },
            Group::Playing => {
                assert(e[b.len() - 1] == b.last());
            },
            Group::Starting => {
                assert(e[c.len() - 1] == c.last());
            },
            Group::Failed => {
                assert(e[d.len() - 1] == d.last());
            },
            Group::Stopped => {
                assert(e[e.len() - 1] == e.last());
            },
        }
    }
}

proof fn lemma_counted(statuses: Seq<NamedStatus>, group: Group)
    ensures
        count(statuses, group) > 0 <==> exists|i: int|
            0 <= i < statuses.len() && belongs((#[trigger] statuses[i]).1@, group),
    decreases statuses.len(),
{
    if statuses.len() > 0 {
        let rest = statuses.drop_last();
        lemma_counted(rest, group);
        if count(rest, group) > 0 {
            let i = choose|i: int| 0 <= i < rest.len() && belongs((#[trigger] rest[i]).1@, group);
            assert(statuses[i] == rest[i]);
        }
        if belongs(statuses.last().1@, group) {
            assert(belongs(statuses[statuses.len() - 1].1@, group));
        }
        assert forall|i: int|
            0 <= i < statuses.len() && belongs((#[trigger] statuses[i]).1@, group) && i
                < statuses.len() - 1 implies count(rest, group) > 0 by {
            assert(rest[i] == statuses[i]);
        }
    }
}

} // verus!
