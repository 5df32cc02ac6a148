//! What the tray does about what the shell and the user ask of it.
use vstd::prelude::*;
use vstd::string::*;

use crate::text::{
    all_digits, chars_of, lines, only_digits, slice_string, split_lines, split_words, strip_prefix,
    views, words,
};

verus! {

pub const WM_CONTEXTMENU: u16 = 0x007b;

pub const NIN_SELECT: u16 = 0x0400;

pub const NIN_KEYSELECT: u16 = 0x0401;

/// A message from the shell about the icon.
#[derive(Debug, Clone, Copy, PartialEq, Eq, Structural)]
pub struct IconMessage {
    pub notification: u16,
    pub x: i32,
    pub y: i32,
}

/// Sixteen bits as a signed number.
pub open spec fn as_signed(word: int) -> int {
    if word < 0x8000 {
        word
    } else {
        word - 0x1_0000
    }
}

fn signed(word: u64) -> (r: i32)
    requires
        word < 0x1_0000,
    ensures
        r == as_signed(word as int),
{
    if word < 0x8000 {
        word as i32
    } else {
        word as i32 - 0x1_0000
    }
}

/// Read a message about the icon: the low word of `lparam` is the notification,
/// and `wparam` carries the screen position the shell wants a menu at. Taking
/// the position from the shell rather than the cursor is what makes keyboard
/// invocation land in the right place.
pub fn icon_message(lparam: u64, wparam: u64) -> (r: IconMessage)
    ensures
        r.notification == lparam % 0x1_0000,
        r.x == as_signed((wparam % 0x1_0000) as int),
        r.y == as_signed(((wparam / 0x1_0000) % 0x1_0000) as int),
{
    IconMessage {
        notification: (lparam % 0x1_0000) as u16,
        x: signed(wparam % 0x1_0000),
        y: signed((wparam / 0x1_0000) % 0x1_0000),
    }
}

/// Whether a notification opens the menu: a right click does, and so do a left
/// click and the keyboard, because there is no main window to show.
pub fn opens_menu(notification: u16) -> (r: bool)
    ensures
        r == (notification == WM_CONTEXTMENU || notification == NIN_SELECT || notification
            == NIN_KEYSELECT),
{
    notification == WM_CONTEXTMENU || notification == NIN_SELECT || notification == NIN_KEYSELECT
}

/// Whether to look for an update before the bots start: only when there is
/// something to hold back and the user wants it.
pub fn checks_for_update(has_configs: bool, wanted: bool) -> (r: bool)
    ensures
        r == (has_configs && wanted),
{
    has_configs && wanted
}

/// Whether the bots start at once: with an update check in flight they wait for
/// its answer.
pub fn starts_at_once(has_configs: bool, checking: bool) -> (r: bool)
    ensures
        r == (!has_configs || !checking),
{
    !has_configs || !checking
}

/// What starting the bots comes to.
#[derive(Debug, Clone, Copy, PartialEq, Eq, Structural)]
pub enum Startup {
    /// The tray is closing: start nothing.
    Nothing,
    /// No bot is configured: offer to create one.
    Offer,
    /// Start all of them.
    Start,
}

pub fn startup(exiting: bool, bots: usize) -> (r: Startup)
    ensures
        r == (if exiting {
            Startup::Nothing
        } else if bots == 0 {
            Startup::Offer
        } else {
            Startup::Start
        }),
{
    if exiting {
        Startup::Nothing
    } else if bots == 0 {
        Startup::Offer
    } else {
        Startup::Start
    }
}

/// How much of the release notes is announced.
pub const SHOWN_NOTES: usize = 600;

/// What the tray says of an update that it found.
pub open spec fn announcement_text(tag: Seq<char>, version: Seq<char>, notes: Seq<char>) -> Seq<
    char,
> {
    "A new version ("@ + tag + ") is available. You have v"@ + version + ".\n\n"@ + (if notes.len()
        > SHOWN_NOTES {
        notes.take(SHOWN_NOTES as int)
    } else {
        notes
    })
}

pub fn announcement(tag: &str, version: &str, notes: &str) -> (r: String)
    ensures
        r@ == announcement_text(tag@, version@, notes@),
{
    let mut out = String::from_str("A new version (");
    out.append(tag);
    out.append(") is available. You have v");
    out.append(version);
    out.append(".\n\n");
    let v = chars_of(notes);
    if v.len() > SHOWN_NOTES {
        assert(v@.subrange(0, SHOWN_NOTES as int) =~= v@.take(SHOWN_NOTES as int));
        out.append(slice_string(&v, 0, SHOWN_NOTES).as_str());
    } else {
        out.append(notes);
    }
    out
}

/// What "view logs" opens.
#[derive(Debug)]
pub enum LogTarget {
    /// The newest log, by its place in the list of the folder's files.
    File(usize),
    Folder,
    /// There is nothing to open: say this.
    Nothing(String),
}

/// What "view logs" opens: an instance's newest log, or its folder when it has
/// none yet. `files` are the folder's files, where there is a folder.
pub fn log_target(name: &str, files: Option<&Vec<String>>) -> (r: LogTarget)
    ensures
        match files {
            None => r matches LogTarget::Nothing(text) && text@ == name@
                + " has not written any logs yet."@,
            Some(list) => match r {
                LogTarget::File(i) => i < list@.len() && forall|k: int|
                    0 <= k < list@.len() ==> crate::text::ordered(
                        #[trigger] views(list@)[k],
                        list@[i as int]@,
                    ),
                LogTarget::Folder => list@.len() == 0,
                LogTarget::Nothing(_) => false,
            },
        },
{
    match files {
        Some(list) => match crate::logging::newest_log_file(Some(list)) {
            Some(i) => LogTarget::File(i),
            None => LogTarget::Folder,
        },
        None => {
            let mut out = name.to_owned();
            out.append(" has not written any logs yet.");
            LogTarget::Nothing(out)
        },
    }
}

// ---- resource ids ----

/// The constant that a line of the resource script defines, and its value as
/// it is written there.
pub open spec fn definition_of(line: Seq<char>) -> Option<(Seq<char>, Seq<char>)> {
    if "#define "@.is_prefix_of(line) {
        let parts = words(line.skip("#define "@.len() as int));
        if parts.len() >= 2 && all_digits(parts[1]) {
            Some((parts[0], parts[1]))
        } else {
            None
        }
    } else {
        None
    }
}

/// Read a definition out of a line of the resource script, where it is one of
/// a number.
pub fn definition(line: &str) -> (r: Option<(String, String)>)
    ensures
        match r {
            Some((name, value)) => definition_of(line@) == Some((name@, value@)),
            None => definition_of(line@) is None,
        },
{
    let rest = match strip_prefix(line, "#define ") {
        Some(rest) => rest,
        None => {
            return None;
        },
    };
    let parts = split_words(rest);
    if parts.len() < 2 {
        return None;
    }
    assert(views(parts@)[0] == parts@[0]@);
    assert(views(parts@)[1] == parts@[1]@);
    if !only_digits(parts[1].as_str()) {
        return None;
    }
    Some((parts[0].clone(), parts[1].clone()))
}

/// The constant for a definition.
pub open spec fn constant_text(definition: (Seq<char>, Seq<char>)) -> Seq<char> {
    "pub const "@ + definition.0 + ": u16 = "@ + definition.1 + ";\n"@
}

/// The constants that some lines define, in their order.
pub open spec fn constants(ls: Seq<Seq<char>>) -> Seq<char>
    decreases ls.len(),
{
    if ls.len() == 0 {
        seq![]
    } else {
        match definition_of(ls.last()) {
            Some(d) => constants(ls.drop_last()) + constant_text(d),
            None => constants(ls.drop_last()),
        }
    }
}

/// The constants that the resource script defines, as a source file, so that
/// the ids of dialogs and controls exist in exactly one place.
pub fn resource_ids(rc: &str) -> (r: String)
    ensures
        r@ == "// Generated from assets/tray.rc by build.rs. Do not edit.\n"@ + constants(lines(rc@)),
{
    let ls = split_lines(rc);
    let mut out = String::from_str("// Generated from assets/tray.rc by build.rs. Do not edit.\n");
    let ghost head = out@;
    let mut i: usize = 0;
    assert(out@ =~= head + constants(views(ls@).take(0)));
    while i < ls.len()
        invariant
            i <= ls.len(),
            out@ == head + constants(views(ls@).take(i as int)),
        decreases ls.len() - i,
    {
        let ghost before = out@;
        assert(views(ls@).take(i + 1).drop_last() =~= views(ls@).take(i as int));
        assert(views(ls@)[i as int] == ls@[i as int]@);
        if let Some((name, value)) = definition(ls[i].as_str()) {
            out.append("pub const ");
            out.append(name.as_str());
            out.append(": u16 = ");
            out.append(value.as_str());
            out.append(";\n");
            assert(out@ =~= before + constant_text((name@, value@)));
        }
        i += 1;
        assert(out@ =~= head + constants(views(ls@).take(i as int)));
    }
    assert(views(ls@).take(i as int) =~= views(ls@));
    out
}

// ---- what holds of the tray ----

/// A position keeps its sign: the number differs from the bits by a whole turn
/// at most, and lies between the two limits.
pub proof fn positions_keep_their_sign(word: int)
    requires
        0 <= word < 0x1_0000,
    ensures
        -0x8000 <= as_signed(word) < 0x8000,
        as_signed(word) == word || as_signed(word) + 0x1_0000 == word,
{
}

/// What is announced begins with both versions, and ends with the notes as far
/// as they are shown.
pub proof fn an_announcement_shows_the_notes(tag: Seq<char>, version: Seq<char>, notes: Seq<char>)
    ensures
        notes.len() <= SHOWN_NOTES ==> notes.is_suffix_of(announcement_text(tag, version, notes)),
        notes.len() > SHOWN_NOTES ==> notes.take(SHOWN_NOTES as int).is_suffix_of(
            announcement_text(tag, version, notes),
        ),
        crate::text::occurs(announcement_text(tag, version, notes), tag),
        crate::text::occurs(announcement_text(tag, version, notes), version),
{
    let all = announcement_text(tag, version, notes);
    let end = if notes.len() > SHOWN_NOTES {
        notes.take(SHOWN_NOTES as int)
    } else {
        notes
    };
    assert(all.subrange(all.len() - end.len(), all.len() as int) =~= end);
    reveal_strlit("A new version (");
    reveal_strlit(") is available. You have v");
    let n = "A new version ("@.len() as int;
    assert(all.subrange(n, n + tag.len()) =~= tag);
    assert(crate::text::at(all, n, tag));
    let m = n + tag.len() + ") is available. You have v"@.len();
    assert(all.subrange(m, m + version.len()) =~= version);
    assert(crate::text::at(all, m, version));
}

} // verus!
