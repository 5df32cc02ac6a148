//! Where everything the bot owns lives, and the one-time move into that layout.
//!
//! Everything sits under a single root, so the whole installation can be copied
//! to another machine. Inside it, files are grouped by who owns them and what
//! happens if they are deleted:
//!
//! - `config/`: bot configs and `cookies.txt`. Yours to edit.
//! - `lang/`: the English template plus any translations you add.
//! - `state/`: small things the bot must remember.
//! - `auth/`: cached service credentials. Secret: never share this folder.
//! - `cache/`: anything the bot can fetch again. Always safe to delete.
//! - `logs/`: one file per instance per day.
//!
//! Reading directories and renaming files is left to the caller; what goes
//! where is decided here. Paths are texts, written in the style of the system.
use vstd::prelude::*;
use vstd::string::*;

use crate::text::{
    chars_of, comes_first, decimal, decimal_round_trip, digits, is_digit, lemma_digits,
    lemma_split_not_empty, lower_char, lower_char_spec, nothing_to_trim, ordered,
    ordered_antisymmetric, ordered_total, ordered_transitive, parse_unsigned, same, slice_string,
    split, split_at_all, strip_suffix, trim, trimmed, unsigned, views,
};

verus! {

/// How paths are written. Unix has `/` between the components of a path;
/// Windows takes `\` as well, writes that one itself, and can name a drive in
/// front. Network and verbatim paths of Windows have no rule of their own here:
/// they are read like other paths that begin with a separator.
#[derive(Debug, Clone, Copy, PartialEq, Eq, Structural)]
pub enum PathStyle {
    Unix,
    Windows,
}

pub open spec fn is_separator(style: PathStyle, c: char) -> bool {
    c == '/' || (style == PathStyle::Windows && c == '\\')
}

fn separates(style: PathStyle, c: char) -> (r: bool)
    ensures
        r == is_separator(style, c),
{
    c == '/' || (style == PathStyle::Windows && c == '\\')
}

/// How many characters name a drive in front of a path.
pub open spec fn drive_len(style: PathStyle, path: Seq<char>) -> int {
    if style == PathStyle::Windows && path.len() >= 2 && is_letter(path[0]) && path[1] == ':' {
        2
    } else {
        0
    }
}

pub open spec fn is_letter(c: char) -> bool {
    ('a' <= c && c <= 'z') || ('A' <= c && c <= 'Z')
}

fn drive_end(style: PathStyle, v: &Vec<char>) -> (r: usize)
    ensures
        r == drive_len(style, v@),
        r <= v.len(),
{
    if style == PathStyle::Windows && v.len() >= 2 && (('a' <= v[0] && v[0] <= 'z') || ('A' <= v[0]
        && v[0] <= 'Z')) && v[1] == ':' {
        2
    } else {
        0
    }
}

/// Whether a path begins at a root, on a drive or without one.
pub open spec fn rooted(style: PathStyle, path: Seq<char>) -> bool {
    path.len() > drive_len(style, path) && is_separator(style, path[drive_len(style, path)])
}

/// How many characters name the drive and the root of a path.
pub open spec fn root_len(style: PathStyle, path: Seq<char>) -> int {
    if rooted(style, path) {
        drive_len(style, path) + 1
    } else {
        drive_len(style, path)
    }
}

fn root_end(style: PathStyle, v: &Vec<char>) -> (r: usize)
    ensures
        r == root_len(style, v@),
        r <= v.len(),
{
    let drive: usize = drive_end(style, v);
    if drive < v.len() && separates(style, v[drive]) {
        drive + 1
    } else {
        drive
    }
}

/// The character that is put between two components.
pub open spec fn separator(style: PathStyle) -> char {
    match style {
        PathStyle::Unix => '/',
        PathStyle::Windows => '\\',
    }
}

/// A path with one more component. A component with a drive replaces the path,
/// one that begins at the root replaces all but the drive, and an empty path is
/// replaced as well.
pub open spec fn joined_path(style: PathStyle, base: Seq<char>, name: Seq<char>) -> Seq<char> {
    let drive = drive_len(style, base);
    if drive_len(style, name) > 0 {
        name
    } else if rooted(style, name) {
        base.take(drive) + name
    } else if base.len() == drive || is_separator(style, base.last()) {
        base + name
    } else {
        base.push(separator(style)) + name
    }
}

pub fn join_path(style: PathStyle, base: &str, name: &str) -> (r: String)
    ensures
        r@ == joined_path(style, base@, name@),
{
    let b = chars_of(base);
    let n = chars_of(name);
    if drive_end(style, &n) > 0 {
        return name.to_owned();
    }
    let drive: usize = drive_end(style, &b);
    if root_end(style, &n) > 0 {
        assert(b@.subrange(0, drive as int) =~= b@.take(drive as int));
        let mut out = slice_string(&b, 0, drive);
        out.append(name);
        return out;
    }
    let mut out = base.to_owned();
    if b.len() > drive && !separates(style, b[b.len() - 1]) {
        match style {
            PathStyle::Unix => out.push('/'),
            PathStyle::Windows => out.push('\\'),
        }
    }
    out.append(name);
    out
}

/// What a path is made of.
#[derive(Debug)]
pub enum Piece {
    /// A drive, by its small letter.
    Drive(char),
    Root,
    /// The current folder, in front of a path.
    Here,
    /// The folder above.
    Up,
    Name(String),
}

pub enum PieceView {
    Drive(char),
    Root,
    Here,
    Up,
    Name(Seq<char>),
}

impl View for Piece {
    type V = PieceView;

    open spec fn view(&self) -> PieceView {
        match *self {
            Piece::Drive(letter) => PieceView::Drive(letter),
            Piece::Root => PieceView::Root,
            Piece::Here => PieceView::Here,
            Piece::Up => PieceView::Up,
            Piece::Name(name) => PieceView::Name(name@),
        }
    }
}

pub open spec fn piece_views(v: Seq<Piece>) -> Seq<PieceView> {
    v.map_values(|p: Piece| p@)
}

proof fn lemma_piece_views_push(v: Seq<Piece>, p: Piece)
    ensures
        piece_views(v.push(p)) == piece_views(v).push(p@),
{
    assert(piece_views(v.push(p)) =~= piece_views(v).push(p@));
}

/// `s` with `/` for every separator.
pub open spec fn slashed(style: PathStyle, s: Seq<char>) -> Seq<char> {
    s.map_values(
        |c: char|
            if is_separator(style, c) {
                '/'
            } else {
                c
            },
    )
}

/// The texts between the separators of a path, behind its drive and root.
pub open spec fn texts_between(style: PathStyle, path: Seq<char>) -> Seq<Seq<char>> {
    split(slashed(style, path.skip(root_len(style, path))), "/"@)
}

/// The pieces that some texts stand for: an empty one or `.` stands for none.
pub open spec fn pieces_of(texts: Seq<Seq<char>>) -> Seq<PieceView>
    decreases texts.len(),
{
    if texts.len() == 0 {
        seq![]
    } else if texts.last().len() == 0 || texts.last() == "."@ {
        pieces_of(texts.drop_last())
    } else if texts.last() == ".."@ {
        pieces_of(texts.drop_last()).push(PieceView::Up)
    } else {
        pieces_of(texts.drop_last()).push(PieceView::Name(texts.last()))
    }
}

/// The drive and the root of a path, or the current folder where the path
/// begins with it.
pub open spec fn beginning(style: PathStyle, path: Seq<char>) -> Seq<PieceView> {
    let drive = if drive_len(style, path) > 0 {
        seq![PieceView::Drive(lower_char_spec(path[0]))]
    } else {
        seq![]
    };
    if rooted(style, path) {
        drive.push(PieceView::Root)
    } else if texts_between(style, path)[0] == "."@ {
        drive.push(PieceView::Here)
    } else {
        drive
    }
}

/// What a path is made of. Repeated separators, one at the end, and a `.`
/// anywhere but in front add nothing.
pub open spec fn components(style: PathStyle, path: Seq<char>) -> Seq<PieceView> {
    beginning(style, path) + pieces_of(texts_between(style, path))
}

fn slash(style: PathStyle, v: &Vec<char>, from: usize) -> (r: String)
    requires
        from <= v.len(),
    ensures
        r@ == slashed(style, v@.skip(from as int)),
{
    let ghost all = slashed(style, v@.skip(from as int));
    let mut out = String::from_str("");
    proof {
        reveal_strlit("");
    }
    let mut i: usize = from;
    assert(out@ =~= all.take(0));
    while i < v.len()
        invariant
            from <= i <= v.len(),
            all == slashed(style, v@.skip(from as int)),
            out@ =~= all.take(i - from),
        decreases v.len() - i,
    {
        assert(all[i - from] == if is_separator(style, v@[i as int]) {
            '/'
        } else {
            v@[i as int]
        });
        assert(all.take(i - from + 1) =~= all.take(i - from).push(all[i - from]));
        if separates(style, v[i]) {
            out.push('/');
        } else {
            out.push(v[i]);
        }
        i += 1;
    }
    assert(all.take(i - from) =~= all);
    out
}

/// Take a path apart.
pub fn split_path(style: PathStyle, path: &str) -> (r: Vec<Piece>)
    ensures
        piece_views(r@) == components(style, path@),
{
    proof {
        reveal_strlit("/");
    }
    let v = chars_of(path);
    let drive: usize = drive_end(style, &v);
    let root: usize = root_end(style, &v);
    let texts = split_at_all(slash(style, &v, root).as_str(), "/");
    let ghost all = views(texts@);
    let ghost first = beginning(style, path@);
    proof {
        assert(all == texts_between(style, path@));
        lemma_split_not_empty(slashed(style, path@.skip(root_len(style, path@))), "/"@);
    }
    let mut out: Vec<Piece> = Vec::new();
    assert(piece_views(out@) =~= Seq::<PieceView>::empty());
    if drive > 0 {
        let piece = Piece::Drive(lower_char(v[0]));
        proof {
            lemma_piece_views_push(out@, piece);
        }
        out.push(piece);
        assert(piece_views(out@) =~= seq![PieceView::Drive(lower_char_spec(path@[0]))]);
    }
    if root > drive {
        proof {
            lemma_piece_views_push(out@, Piece::Root);
        }
        out.push(Piece::Root);
    } else if same(texts[0].as_str(), ".") {
        proof {
            assert(all[0] == texts@[0]@);
            lemma_piece_views_push(out@, Piece::Here);
        }
        out.push(Piece::Here);
    } else {
        assert(all[0] == texts@[0]@);
    }
    assert(piece_views(out@) =~= first);
    let mut i: usize = 0;
    assert(first + pieces_of(all.take(0)) =~= first);
    while i < texts.len()
        invariant
            i <= texts.len(),
            all == views(texts@),
            piece_views(out@) =~= first + pieces_of(all.take(i as int)),
        decreases texts.len() - i,
    {
        let ghost before = pieces_of(all.take(i as int));
        proof {
            assert(all.take(i + 1).drop_last() =~= all.take(i as int));
            assert(all.take(i + 1).last() == texts@[i as int]@);
        }
        let text = texts[i].as_str();
        if same(text, "..") {
            proof {
                reveal_strlit("..");
                reveal_strlit(".");
                lemma_piece_views_push(out@, Piece::Up);
            }
            out.push(Piece::Up);
            assert(first + before.push(PieceView::Up) =~= (first + before).push(PieceView::Up));
        } else if !(text.is_empty() || same(text, ".")) {
            let piece = Piece::Name(text.to_owned());
            proof {
                lemma_piece_views_push(out@, piece);
            }
            out.push(piece);
            assert(first + before.push(piece@) =~= (first + before).push(piece@));
        }
        i += 1;
    }
    assert(all.take(i as int) =~= all);
    out
}

/// The name of the file or directory that a path leads to, unless it ends by
/// going up.
pub open spec fn name_of_path(style: PathStyle, path: Seq<char>) -> Option<Seq<char>> {
    let pieces = components(style, path);
    if pieces.len() > 0 && pieces.last() is Name {
        Some(pieces.last()->Name_0)
    } else {
        None
    }
}

pub fn file_name(style: PathStyle, path: &str) -> (r: Option<String>)
    ensures
        match r {
            Some(name) => name_of_path(style, path@) == Some(name@),
            None => name_of_path(style, path@) is None,
        },
{
    let mut pieces = split_path(style, path);
    let ghost all = pieces@;
    match pieces.pop() {
        Some(piece) => {
            assert(piece_views(all)[all.len() - 1] == piece@);
            match piece {
                Piece::Name(name) => Some(name),
                _ => None,
            }
        },
        None => None,
    }
}

/// Where the last dot of a name stands.
pub open spec fn last_dot(name: Seq<char>) -> Option<int>
    decreases name.len(),
{
    if name.len() == 0 {
        None
    } else if name.last() == '.' {
        Some(name.len() - 1)
    } else {
        last_dot(name.drop_last())
    }
}

/// A file name up to its last dot. A dot in front marks a hidden file and no
/// extension.
pub open spec fn stem_of(name: Seq<char>) -> Seq<char> {
    match last_dot(name) {
        Some(i) => if i > 0 {
            name.take(i)
        } else {
            name
        },
        None => name,
    }
}

/// What follows the last dot of a file name.
pub open spec fn extension_of(name: Seq<char>) -> Option<Seq<char>> {
    match last_dot(name) {
        Some(i) => if i > 0 {
            Some(name.skip(i + 1))
        } else {
            None
        },
        None => None,
    }
}

fn find_last_dot(v: &Vec<char>) -> (r: Option<usize>)
    ensures
        match r {
            Some(i) => last_dot(v@) == Some(i as int) && i < v.len(),
            None => last_dot(v@) is None,
        },
{
    let mut n: usize = v.len();
    assert(v@.take(n as int) =~= v@);
    while n > 0
        invariant
            n <= v.len(),
            last_dot(v@) == last_dot(v@.take(n as int)),
        decreases n,
    {
        assert(v@.take(n as int).drop_last() =~= v@.take(n - 1));
        if v[n - 1] == '.' {
            return Some(n - 1);
        }
        n -= 1;
    }
    None
}

/// A file name without its extension, and the extension.
pub fn split_extension(name: &str) -> (r: (String, Option<String>))
    ensures
        r.0@ == stem_of(name@),
        match r.1 {
            Some(extension) => extension_of(name@) == Some(extension@),
            None => extension_of(name@) is None,
        },
{
    let v = chars_of(name);
    match find_last_dot(&v) {
        Some(i) => if i > 0 {
            assert(v@.subrange(0, i as int) =~= v@.take(i as int));
            assert(v@.subrange(i + 1, v@.len() as int) =~= v@.skip(i + 1));
            (slice_string(&v, 0, i), Some(slice_string(&v, i + 1, v.len())))
        } else {
            (name.to_owned(), None)
        },
        None => (name.to_owned(), None),
    }
}

/// The name that a path leads to, without its extension.
pub open spec fn stem_of_path(style: PathStyle, path: Seq<char>) -> Option<Seq<char>> {
    match name_of_path(style, path) {
        Some(name) => Some(stem_of(name)),
        None => None,
    }
}

pub fn file_stem(style: PathStyle, path: &str) -> (r: Option<String>)
    ensures
        match r {
            Some(stem) => stem_of_path(style, path@) == Some(stem@),
            None => stem_of_path(style, path@) is None,
        },
{
    match file_name(style, path) {
        Some(name) => Some(split_extension(name.as_str()).0),
        None => None,
    }
}

/// Where the kinds of pieces stand in the order of paths.
pub open spec fn rank(p: PieceView) -> int {
    match p {
        PieceView::Drive(_) => 0,
        PieceView::Root => 1,
        PieceView::Here => 2,
        PieceView::Up => 3,
        PieceView::Name(_) => 4,
    }
}

/// Whether one piece comes before another or is the same: by their kinds,
/// drives by their letters and names as texts.
pub open spec fn piece_ordered(a: PieceView, b: PieceView) -> bool {
    if rank(a) != rank(b) {
        rank(a) < rank(b)
    } else {
        match (a, b) {
            (PieceView::Drive(x), PieceView::Drive(y)) => x <= y,
            (PieceView::Name(x), PieceView::Name(y)) => ordered(x, y),
            _ => true,
        }
    }
}

proof fn lemma_piece_order(a: PieceView, b: PieceView, c: PieceView)
    ensures
        piece_ordered(a, b) || piece_ordered(b, a),
        piece_ordered(a, b) && piece_ordered(b, a) ==> a == b,
        piece_ordered(a, b) && piece_ordered(b, c) ==> piece_ordered(a, c),
{
    if let (PieceView::Name(x), PieceView::Name(y)) = (a, b) {
        ordered_total(x, y);
        if ordered(x, y) && ordered(y, x) {
            ordered_antisymmetric(x, y);
        }
        if let PieceView::Name(z) = c {
            if ordered(x, y) && ordered(y, z) {
                ordered_transitive(x, y, z);
            }
        }
    }
}

/// The order of paths: by the first piece in which they differ, and a path
/// before those below it.
pub open spec fn pieces_ordered(a: Seq<PieceView>, b: Seq<PieceView>) -> bool
    decreases a.len(),
{
    if a.len() == 0 {
        true
    } else if b.len() == 0 {
        false
    } else if a[0] == b[0] {
        pieces_ordered(a.skip(1), b.skip(1))
    } else {
        piece_ordered(a[0], b[0])
    }
}

pub open spec fn path_ordered(style: PathStyle, a: Seq<char>, b: Seq<char>) -> bool {
    pieces_ordered(components(style, a), components(style, b))
}

/// Of two paths, one comes before the other or they are the same.
pub proof fn path_order_is_total(a: Seq<PieceView>, b: Seq<PieceView>)
    ensures
        pieces_ordered(a, b) || pieces_ordered(b, a),
    decreases a.len(),
{
    if a.len() > 0 && b.len() > 0 {
        if a[0] == b[0] {
            path_order_is_total(a.skip(1), b.skip(1));
        } else {
            lemma_piece_order(a[0], b[0], a[0]);
        }
    }
}

pub proof fn path_order_is_transitive(
    a: Seq<PieceView>,
    b: Seq<PieceView>,
    c: Seq<PieceView>,
)
    requires
        pieces_ordered(a, b),
        pieces_ordered(b, c),
    ensures
        pieces_ordered(a, c),
    decreases a.len(),
{
    if a.len() > 0 {
        if a[0] == b[0] && b[0] == c[0] {
            path_order_is_transitive(a.skip(1), b.skip(1), c.skip(1));
        } else if a[0] != b[0] && b[0] != c[0] {
            lemma_piece_order(a[0], b[0], c[0]);
            lemma_piece_order(b[0], a[0], c[0]);
        }
    }
}

fn same_piece(a: &Piece, b: &Piece) -> (r: bool)
    ensures
        r == (a@ == b@),
{
    match (a, b) {
        (Piece::Drive(x), Piece::Drive(y)) => *x == *y,
        (Piece::Root, Piece::Root) => true,
        (Piece::Here, Piece::Here) => true,
        (Piece::Up, Piece::Up) => true,
        (Piece::Name(x), Piece::Name(y)) => same(x.as_str(), y.as_str()),
        _ => false,
    }
}

fn rank_of(p: &Piece) -> (r: u8)
    ensures
        r == rank(p@),
{
    match p {
        Piece::Drive(_) => 0,
        Piece::Root => 1,
        Piece::Here => 2,
        Piece::Up => 3,
        Piece::Name(_) => 4,
    }
}

fn piece_comes_first(a: &Piece, b: &Piece) -> (r: bool)
    ensures
        r == piece_ordered(a@, b@),
{
    if rank_of(a) != rank_of(b) {
        return rank_of(a) < rank_of(b);
    }
    match (a, b) {
        (Piece::Drive(x), Piece::Drive(y)) => *x <= *y,
        (Piece::Name(x), Piece::Name(y)) => comes_first(x.as_str(), y.as_str()),
        _ => true,
    }
}

/// Whether one path comes before another or is the same.
pub fn path_comes_first(style: PathStyle, a: &str, b: &str) -> (r: bool)
    ensures
        r == path_ordered(style, a@, b@),
{
    let x = split_path(style, a);
    let y = split_path(style, b);
    let ghost p = piece_views(x@);
    let ghost q = piece_views(y@);
    let mut i: usize = 0;
    assert(p.skip(0) =~= p);
    assert(q.skip(0) =~= q);
    while i < x.len()
        invariant
            i <= x.len(),
            i <= y.len(),
            p == piece_views(x@),
            q == piece_views(y@),
            path_ordered(style, a@, b@) == pieces_ordered(p.skip(i as int), q.skip(i as int)),
        decreases x.len() - i,
    {
        if i >= y.len() {
            return false;
        }
        assert(p.skip(i as int).skip(1) =~= p.skip(i + 1));
        assert(q.skip(i as int).skip(1) =~= q.skip(i + 1));
        assert(p.skip(i as int)[0] == x@[i as int]@);
        assert(q.skip(i as int)[0] == y@[i as int]@);
        if !same_piece(&x[i], &y[i]) {
            return piece_comes_first(&x[i], &y[i]);
        }
        i += 1;
    }
    true
}

// ---- the folders ----

/// Bot configs and `cookies.txt`.
pub fn configs_dir(style: PathStyle, root: &str) -> (r: String)
    ensures
        r@ == joined_path(style, root@, "config"@),
{
    join_path(style, root, "config")
}

/// The config file for a bot name: the one place the `<name>.json` shape is
/// spelled out.
pub fn config_file(style: PathStyle, root: &str, name: &str) -> (r: String)
    ensures
        r@ == joined_path(style, joined_path(style, root@, "config"@), name@ + ".json"@),
{
    let mut file = name.to_owned();
    file.append(".json");
    join_path(style, configs_dir(style, root).as_str(), file.as_str())
}

/// Language template and user translations.
pub fn lang_dir(style: PathStyle, root: &str) -> (r: String)
    ensures
        r@ == joined_path(style, root@, "lang"@),
{
    lang_dir_in(style, root)
}

/// Small persistent things the bot owns.
pub fn state_dir(style: PathStyle, root: &str) -> (r: String)
    ensures
        r@ == joined_path(style, root@, "state"@),
{
    state_dir_in(style, root)
}

/// `state/` under an explicit root.
pub fn state_dir_in(style: PathStyle, root: &str) -> (r: String)
    ensures
        r@ == joined_path(style, root@, "state"@),
{
    join_path(style, root, "state")
}

/// `lang/` under an explicit root.
pub fn lang_dir_in(style: PathStyle, root: &str) -> (r: String)
    ensures
        r@ == joined_path(style, root@, "lang"@),
{
    join_path(style, root, "lang")
}

/// Cached service credentials.
pub fn auth_dir(style: PathStyle, root: &str) -> (r: String)
    ensures
        r@ == joined_path(style, root@, "auth"@),
{
    join_path(style, root, "auth")
}

/// Anything that can be fetched again.
pub fn cache_dir(style: PathStyle, root: &str) -> (r: String)
    ensures
        r@ == joined_path(style, root@, "cache"@),
{
    join_path(style, root, "cache")
}

pub fn logs_dir(style: PathStyle, root: &str) -> (r: String)
    ensures
        r@ == joined_path(style, root@, "logs"@),
{
    join_path(style, root, "logs")
}

/// The standard folders, so a fresh install has the same shape as a migrated
/// one and every writer can assume its folder exists.
pub fn standard_dirs(style: PathStyle, root: &str) -> (r: Vec<String>)
    ensures
        views(r@) == seq![
            joined_path(style, root@, "config"@),
            joined_path(style, root@, "lang"@),
            joined_path(style, root@, "state"@),
            joined_path(style, root@, "auth"@),
            joined_path(style, root@, "cache"@),
            joined_path(style, root@, "logs"@),
        ],
{
    let out = vec![
        configs_dir(style, root),
        lang_dir(style, root),
        state_dir(style, root),
        auth_dir(style, root),
        cache_dir(style, root),
        logs_dir(style, root),
    ];
    assert(views(out@) =~= seq![
        joined_path(style, root@, "config"@),
        joined_path(style, root@, "lang"@),
        joined_path(style, root@, "state"@),
        joined_path(style, root@, "auth"@),
        joined_path(style, root@, "cache"@),
        joined_path(style, root@, "logs"@),
    ]);
    out
}

// ---- writing a file at once ----

/// The name under which a file is written before it takes the place of the
/// file called `name`.
pub open spec fn temp_name_of(name: Seq<char>, pid: nat, count: nat) -> Seq<char> {
    name + "."@ + digits(pid) + "."@ + digits(count) + ".tmp"@
}

/// Where to write a file before it takes the place of the one called `name`:
/// in the same directory, under a name with the process and a count of its
/// writes, so that two writers of the same file never share it.
pub fn temp_name(name: &str, pid: u32, count: u64) -> (r: String)
    ensures
        r@ == temp_name_of(name@, pid as nat, count as nat),
{
    let mut out = name.to_owned();
    out.append(".");
    out.append(decimal(pid as u64).as_str());
    out.append(".");
    out.append(decimal(count).as_str());
    out.append(".tmp");
    out
}

/// Two writers, or two writes of one, never use the same temporary file.
pub proof fn writers_never_share_a_temporary_file(
    name: Seq<char>,
    pid: nat,
    count: nat,
    other_pid: nat,
    other_count: nat,
)
    requires
        temp_name_of(name, pid, count) == temp_name_of(name, other_pid, other_count),
    ensures
        pid == other_pid,
        count == other_count,
{
    reveal_strlit(".");
    reveal_strlit(".tmp");
    let a = temp_name_of(name, pid, count);
    let p = digits(pid);
    let c = digits(count);
    let p2 = digits(other_pid);
    let c2 = digits(other_count);
    lemma_digits(pid);
    lemma_digits(count);
    lemma_digits(other_pid);
    lemma_digits(other_count);
    let n = name.len() as int;
    assert(a[n + 1 + p.len()] == '.');
    assert(temp_name_of(name, other_pid, other_count)[n + 1 + p2.len()] == '.');
    if p.len() < p2.len() {
        assert(temp_name_of(name, other_pid, other_count)[n + 1 + p.len()] == p2[p.len() as int]);
    }
    if p2.len() < p.len() {
        assert(a[n + 1 + p2.len()] == p[p2.len() as int]);
    }
    assert(p.len() == p2.len());
    assert(a.subrange(n + 1, n + 1 + p.len()) =~= p);
    assert(temp_name_of(name, other_pid, other_count).subrange(n + 1, n + 1 + p.len()) =~= p2);
    let m = n + 2 + p.len();
    assert(a.len() == m + c.len() + 4);
    assert(temp_name_of(name, other_pid, other_count).len() == m + c2.len() + 4);
    assert(a.subrange(m, m + c.len()) =~= c);
    assert(temp_name_of(name, other_pid, other_count).subrange(m, m + c.len()) =~= c2);
    decimal_round_trip(pid);
    decimal_round_trip(other_pid);
    decimal_round_trip(count);
    decimal_round_trip(other_count);
}

/// A temporary file is never taken for a bot's config.
pub proof fn a_temporary_file_is_no_config(name: Seq<char>, pid: nat, count: nat)
    ensures
        crate::config::config_name_of(temp_name_of(name, pid, count)) is None,
{
    reveal_strlit(".tmp");
    reveal_strlit(".json");
    let t = temp_name_of(name, pid, count);
    assert(t.last() == 'p');
    if ".json"@.is_suffix_of(t) {
        assert(t.subrange(t.len() - 5, t.len() as int).last() == ".json"@.last());
    }
}

// ---- the folder guide ----

/// Short plain-text guide for the data folder, so someone opening it can tell
/// what is safe to touch without reading the manual.
pub const FOLDER_README: &'static str = "This folder holds everything TTSpotify keeps.

config/   Your bot configs and cookies.txt. Edit these.
lang/     Translations. en.lang is the template to copy for a new language.
state/    Small things the bot remembers (language choices, settings).
auth/     Saved service logins. Secret - never share this folder.
cache/    Downloads and caches. Safe to delete at any time; they come back.
logs/     One file per bot per day.

If something misbehaves, deleting cache/ is safe and often enough.
When sending logs for a bug report, send logs/ only - not the whole folder,
because auth/ contains your saved logins.
";

// ---- the move into the current layout ----

/// Layout the current version expects. Bumped when files move again.
pub const LAYOUT_VERSION: u32 = 2;

/// The file that records the layout a root was last migrated to.
pub const VERSION_MARKER: &'static str = ".layout-version";

/// The layout that the text of the marker file stands for; 0 where there is
/// none or it cannot be read.
pub open spec fn version_in(marker: Option<Seq<char>>) -> nat {
    match marker {
        Some(text) => match unsigned(trimmed(text)) {
            Some(version) => if version <= u32::MAX {
                version
            } else {
                0
            },
            None => 0,
        },
        None => 0,
    }
}

/// The view of an optional text.
pub open spec fn text_of(s: Option<&str>) -> Option<Seq<char>> {
    match s {
        Some(t) => Some(t@),
        None => None,
    }
}

pub fn read_layout_version(marker: Option<&str>) -> (r: u32)
    ensures
        r == version_in(text_of(marker)),
{
    match marker {
        Some(text) => match parse_unsigned(trim(text), u32::MAX as u64) {
            Some(version) => version as u32,
            None => 0,
        },
        None => 0,
    }
}

/// What is to be done about a root.
#[derive(Debug, Clone, Copy, PartialEq, Eq, Structural)]
pub enum Sorting {
    /// There is no root: nothing to do.
    Missing,
    /// The root is in the current layout: leave it alone.
    Current,
    /// The files have to be sorted.
    Needed,
}

pub open spec fn sorting_of(there: bool, marker: Option<Seq<char>>) -> Sorting {
    if !there {
        Sorting::Missing
    } else if version_in(marker) >= LAYOUT_VERSION {
        Sorting::Current
    } else {
        Sorting::Needed
    }
}

pub fn sorting(there: bool, marker: Option<&str>) -> (r: Sorting)
    ensures
        r == sorting_of(there, text_of(marker)),
{
    if !there {
        Sorting::Missing
    } else if read_layout_version(marker) >= LAYOUT_VERSION {
        Sorting::Current
    } else {
        Sorting::Needed
    }
}

/// A file or folder to move: where it is, the folder it belongs in, and where
/// it will be.
#[derive(Debug)]
pub struct Relocation {
    pub from: String,
    pub folder: String,
    pub to: String,
}

pub struct RelocationView {
    pub from: Seq<char>,
    pub folder: Seq<char>,
    pub to: Seq<char>,
}

impl View for Relocation {
    type V = RelocationView;

    open spec fn view(&self) -> RelocationView {
        RelocationView { from: self.from@, folder: self.folder@, to: self.to@ }
    }
}

/// The move of `name` from one folder into another.
pub open spec fn relocated(
    style: PathStyle,
    from: Seq<char>,
    folder: Seq<char>,
    name: Seq<char>,
) -> RelocationView {
    RelocationView {
        from: joined_path(style, from, name),
        folder,
        to: joined_path(style, folder, name),
    }
}

fn relocation(style: PathStyle, from: &str, folder: String, name: &str) -> (r: Relocation)
    ensures
        r@ == relocated(style, from@, folder@, name@),
{
    Relocation {
        from: join_path(style, from, name),
        to: join_path(style, folder.as_str(), name),
        folder,
    }
}

/// Where the files whose names are known belong.
pub open spec fn known_relocations(style: PathStyle, root: Seq<char>) -> Seq<RelocationView> {
    seq![
        relocated(style, root, joined_path(style, root, "state"@), "lang_prefs.json"@),
        relocated(style, root, joined_path(style, root, "state"@), "settings.json"@),
        relocated(style, root, joined_path(style, root, "auth"@), "credentials.json"@),
        relocated(style, root, joined_path(style, root, "cache"@), "rustypipe_cache.json"@),
        relocated(style, root, joined_path(style, root, "cache"@), "spotify_cache"@),
        relocated(style, root, joined_path(style, root, "cache"@), "TEAMTALK_DLL"@),
        relocated(style, root, joined_path(style, root, "config"@), "cookies.txt"@),
    ]
}

pub open spec fn relocation_views(v: Seq<Relocation>) -> Seq<RelocationView> {
    v.map_values(|m: Relocation| m@)
}

/// The moves of the files whose names are known, to be made where the file is
/// there.
pub fn known_files(style: PathStyle, root: &str) -> (r: Vec<Relocation>)
    ensures
        relocation_views(r@) == known_relocations(style, root@),
{
    let out = vec![
        relocation(style, root, state_dir(style, root), "lang_prefs.json"),
        relocation(style, root, state_dir(style, root), "settings.json"),
        relocation(style, root, auth_dir(style, root), "credentials.json"),
        relocation(style, root, cache_dir(style, root), "rustypipe_cache.json"),
        relocation(style, root, cache_dir(style, root), "spotify_cache"),
        relocation(style, root, cache_dir(style, root), "TEAMTALK_DLL"),
        relocation(style, root, configs_dir(style, root), "cookies.txt"),
    ];
    assert(relocation_views(out@) =~= known_relocations(style, root@));
    out
}

/// Files that are never bot configs, wherever they sit.
pub open spec fn never_config(stem: Seq<char>) -> bool {
    stem == "credentials"@ || stem == "cookies"@ || stem == "sessions"@ || stem == "settings"@
        || stem == "lang_prefs"@
}

/// Whether a loose file of the root goes into the folder for configs.
/// `is_config` is the verdict on what the file holds.
pub open spec fn goes_to_configs(name: Seq<char>, is_config: bool) -> bool {
    extension_of(name) == Some("json"@) && !never_config(stem_of(name)) && is_config
}

/// The move of a loose file of the root into the folder for configs, where it
/// belongs there. A stray file the bot does not recognise stays put.
pub fn loose_config(
    style: PathStyle,
    root: &str,
    name: &str,
    is_config: bool,
) -> (r: Option<Relocation>)
    ensures
        match r {
            Some(m) => goes_to_configs(name@, is_config) && m@ == relocated(
                style,
                root@,
                joined_path(style, root@, "config"@),
                name@,
            ),
            None => !goes_to_configs(name@, is_config),
        },
{
    let (stem, extension) = split_extension(name);
    let stem = stem.as_str();
    let json = match extension {
        Some(extension) => same(extension.as_str(), "json"),
        None => false,
    };
    if json && !(same(stem, "credentials") || same(stem, "cookies") || same(stem, "sessions")
        || same(stem, "settings") || same(stem, "lang_prefs")) && is_config {
        Some(relocation(style, root, configs_dir(style, root), name))
    } else {
        None
    }
}

/// A day as it is written in the name of a log: `2026-08-08`.
pub open spec fn is_day(s: Seq<char>) -> bool {
    &&& s.len() == 10
    &&& forall|i: int|
        0 <= i < 10 ==> if i == 4 || i == 7 {
            #[trigger] s[i] == '-'
        } else {
            is_digit(s[i])
        }
}

/// The day and the instance in the name of a log that lies beside those of
/// other instances: `2026-08-08.myserver.log`.
pub open spec fn day_and_instance(name: Seq<char>) -> Option<(Seq<char>, Seq<char>)> {
    if ".log"@.is_suffix_of(name) && is_day(name.take(10)) && name.len() > 15 && name[10] == '.' {
        Some((name.take(10), name.subrange(11, name.len() - 4)))
    } else {
        None
    }
}

fn looks_like_a_day(v: &Vec<char>) -> (r: bool)
    requires
        v.len() >= 10,
    ensures
        r == is_day(v@.take(10)),
{
    let mut i: usize = 0;
    while i < 10
        invariant
            i <= 10 <= v.len(),
            forall|k: int|
                0 <= k < i ==> if k == 4 || k == 7 {
                    #[trigger] v@.take(10)[k] == '-'
                } else {
                    is_digit(v@.take(10)[k])
                },
        decreases 10 - i,
    {
        let fits = if i == 4 || i == 7 {
            v[i] == '-'
        } else {
            is_digit(v[i])
        };
        assert(v@.take(10)[i as int] == v@[i as int]);
        if !fits {
            return false;
        }
        i += 1;
    }
    true
}

/// Split `2026-08-08.myserver.log` into the day and the instance. `None` for
/// anything not shaped like one of our log files.
pub fn split_dated_log_name(name: &str) -> (r: Option<(String, String)>)
    ensures
        match r {
            Some((day, instance)) => day_and_instance(name@) == Some((day@, instance@)),
            None => day_and_instance(name@) is None,
        },
{
    proof {
        reveal_strlit(".log");
    }
    let v = chars_of(name);
    match strip_suffix(name, ".log") {
        Some(_) => if v.len() > 15 && v[10] == '.' && looks_like_a_day(&v) {
            assert(v@.subrange(0, 10) =~= v@.take(10));
            Some((slice_string(&v, 0, 10), slice_string(&v, 11, v.len() - 4)))
        } else {
            None
        },
        None => None,
    }
}

/// Where a log that lies beside those of other instances goes: into a folder
/// per instance.
pub open spec fn log_relocated(
    style: PathStyle,
    logs: Seq<char>,
    name: Seq<char>,
) -> Option<RelocationView> {
    match day_and_instance(name) {
        Some((day, instance)) => Some(
            RelocationView {
                from: joined_path(style, logs, name),
                folder: joined_path(style, logs, instance),
                to: joined_path(style, joined_path(style, logs, instance), day + ".log"@),
            },
        ),
        None => None,
    }
}

/// The move of a log that lies beside those of other instances. Anything that
/// is not one of our logs stays.
pub fn loose_log(style: PathStyle, logs_dir: &str, name: &str) -> (r: Option<Relocation>)
    ensures
        match r {
            Some(m) => log_relocated(style, logs_dir@, name@) == Some(m@),
            None => log_relocated(style, logs_dir@, name@) is None,
        },
{
    match split_dated_log_name(name) {
        Some((day, instance)) => {
            let folder = join_path(style, logs_dir, instance.as_str());
            let mut file = day;
            file.append(".log");
            Some(
                Relocation {
                    from: join_path(style, logs_dir, name),
                    to: join_path(style, folder.as_str(), file.as_str()),
                    folder,
                },
            )
        },
        None => None,
    }
}

/// No two logs are given the same name in the same folder.
pub proof fn sorted_logs_stay_apart(one: Seq<char>, other: Seq<char>)
    requires
        day_and_instance(one) is Some,
        day_and_instance(one) == day_and_instance(other),
    ensures
        one == other,
{
    reveal_strlit(".log");
    let n = one.len() as int;
    assert(n == other.len()) by {
        assert(one.subrange(11, n - 4).len() == n - 15);
        assert(other.subrange(11, other.len() - 4).len() == other.len() - 15);
    }
    assert forall|i: int| 0 <= i < n implies one[i] == other[i] by {
        if i < 10 {
            assert(one.take(10)[i] == other.take(10)[i]);
        } else if i > 10 && i < n - 4 {
            assert(one.subrange(11, n - 4)[i - 11] == other.subrange(11, n - 4)[i - 11]);
        } else if i >= n - 4 {
            assert(one.subrange(n - 4, n)[i - n + 4] == ".log"@[i - n + 4]);
            assert(other.subrange(n - 4, n)[i - n + 4] == ".log"@[i - n + 4]);
        }
    }
    assert(one =~= other);
}

/// What to do about a relocation.
#[derive(Debug, Clone, Copy, PartialEq, Eq, Structural)]
pub enum Step {
    Leave,
    Move,
}

/// Only what is there is moved, and never over something else.
pub open spec fn step_of(there: bool, occupied: bool) -> Step {
    if there && !occupied {
        Step::Move
    } else {
        Step::Leave
    }
}

impl Relocation {
    /// What to do, given whether something is at the old place and whether
    /// something is at the new one.
    pub fn step(&self, there: bool, occupied: bool) -> (r: Step)
        ensures
            r == step_of(there, occupied),
    {
        if there && !occupied {
            Step::Move
        } else {
            Step::Leave
        }
    }
}

/// One relocation the migration performed or could not perform.
#[derive(Debug)]
pub enum Moved {
    Done { from: String, to: String },
    Failed { from: String, reason: String },
}

pub enum MovedView {
    Done { from: Seq<char>, to: Seq<char> },
    Failed { from: Seq<char>, reason: Seq<char> },
}

impl View for Moved {
    type V = MovedView;

    open spec fn view(&self) -> MovedView {
        match *self {
            Moved::Done { from, to } => MovedView::Done { from: from@, to: to@ },
            Moved::Failed { from, reason } => MovedView::Failed { from: from@, reason: reason@ },
        }
    }
}

pub open spec fn moved_views(v: Seq<Moved>) -> Seq<MovedView> {
    v.map_values(|m: Moved| m@)
}

/// What became of an attempt to move something.
#[derive(Debug)]
pub enum Attempt {
    /// Left alone: it was not there, or something of that name stands where it
    /// would go.
    Left,
    /// The folder could not be made, or the file not be renamed.
    Refused(String),
    Renamed,
}

/// What a migration did.
#[derive(Debug)]
pub struct Migration {
    pub moves: Vec<Moved>,
    /// True when the root was already in the current layout.
    pub skipped: bool,
}

impl Default for Migration {
    fn default() -> (r: Self)
        ensures
            r.moves@.len() == 0,
            !r.skipped,
    {
        Migration { moves: Vec::new(), skipped: false }
    }
}

/// The failures among some moves, in their order.
pub open spec fn failed_moves(moves: Seq<Moved>) -> Seq<Moved>
    decreases moves.len(),
{
    if moves.len() == 0 {
        seq![]
    } else if moves.last() is Failed {
        failed_moves(moves.drop_last()).push(moves.last())
    } else {
        failed_moves(moves.drop_last())
    }
}

/// Whether no move failed.
pub open spec fn all_done(moves: Seq<MovedView>) -> bool {
    forall|i: int| 0 <= i < moves.len() ==> #[trigger] moves[i] is Done
}

proof fn lemma_all_done(moves: Seq<Moved>)
    ensures
        failed_moves(moves).len() == 0 <==> all_done(moved_views(moves)),
    decreases moves.len(),
{
    if moves.len() > 0 {
        let rest = moves.drop_last();
        let all = moved_views(moves);
        lemma_all_done(rest);
        assert(all[moves.len() - 1] == moves.last()@);
        assert(moved_views(rest) =~= all.drop_last());
        if all_done(all) {
            assert forall|i: int| 0 <= i < rest.len() implies #[trigger] moved_views(rest)[i] is Done by {
                assert(all[i] is Done);
            }
        }
        if failed_moves(moves).len() == 0 {
            assert forall|i: int| 0 <= i < all.len() implies #[trigger] all[i] is Done by {
                if i < rest.len() {
                    assert(moved_views(rest)[i] is Done);
                }
            }
        }
    }
}

/// What an attempt adds to the moves.
pub open spec fn noted_move(mv: RelocationView, attempt: Attempt) -> Seq<MovedView> {
    match attempt {
        Attempt::Left => seq![],
        Attempt::Refused(reason) => seq![
            (MovedView::Failed { from: mv.from, reason: reason@ }),
        ],
        Attempt::Renamed => seq![(MovedView::Done { from: mv.from, to: mv.to })],
    }
}

impl Migration {
    /// Begin with a root, given whether it is there and what its marker file
    /// holds. Also tells whether its files have to be sorted.
    pub fn begin(there: bool, marker: Option<&str>) -> (r: (Self, bool))
        ensures
            r.0.moves@.len() == 0,
            r.0.skipped == (sorting_of(there, text_of(marker)) == Sorting::Current),
            r.1 == (sorting_of(there, text_of(marker)) == Sorting::Needed),
    {
        let sorting = sorting(there, marker);
        (
            Migration { moves: Vec::new(), skipped: sorting == Sorting::Current },
            sorting == Sorting::Needed,
        )
    }

    /// The moves that could not be made.
    pub fn failures(&self) -> (r: Vec<&Moved>)
        ensures
            r@.len() == failed_moves(self.moves@).len(),
            forall|i: int|
                0 <= i < r@.len() ==> *(#[trigger] r@[i]) == failed_moves(self.moves@)[i],
    {
        let mut out: Vec<&Moved> = Vec::new();
        let mut i: usize = 0;
        while i < self.moves.len()
            invariant
                i <= self.moves.len(),
                out@.len() == failed_moves(self.moves@.take(i as int)).len(),
                forall|k: int|
                    0 <= k < out@.len() ==> *(#[trigger] out@[k]) == failed_moves(
                        self.moves@.take(i as int),
                    )[k],
            decreases self.moves.len() - i,
        {
            assert(self.moves@.take(i + 1).drop_last() =~= self.moves@.take(i as int));
            match &self.moves[i] {
                Moved::Failed { .. } => out.push(&self.moves[i]),
                Moved::Done { .. } => {},
            }
            i += 1;
        }
        assert(self.moves@.take(i as int) =~= self.moves@);
        out
    }

    /// How many moves were made.
    pub fn succeeded(&self) -> (r: usize)
        ensures
            r == self.moves@.len() - failed_moves(self.moves@).len(),
    {
        let mut n: usize = 0;
        let mut i: usize = 0;
        while i < self.moves.len()
            invariant
                i <= self.moves.len(),
                n <= i,
                n == i - failed_moves(self.moves@.take(i as int)).len(),
            decreases self.moves.len() - i,
        {
            assert(self.moves@.take(i + 1).drop_last() =~= self.moves@.take(i as int));
            match &self.moves[i] {
                Moved::Done { .. } => n += 1,
                Moved::Failed { .. } => {},
            }
            i += 1;
        }
        assert(self.moves@.take(i as int) =~= self.moves@);
        n
    }

    /// Take down what became of a move.
    pub fn note(&mut self, relocation: Relocation, attempt: Attempt)
        ensures
            moved_views(final(self).moves@) == moved_views(old(self).moves@) + noted_move(
                relocation@,
                attempt,
            ),
            final(self).skipped == old(self).skipped,
    {
        let ghost before = self.moves@;
        match attempt {
            Attempt::Left => {},
            Attempt::Refused(reason) => self.moves.push(
                Moved::Failed { from: relocation.from, reason },
            ),
            Attempt::Renamed => self.moves.push(
                Moved::Done { from: relocation.from, to: relocation.to },
            ),
        }
        assert(moved_views(self.moves@) =~= moved_views(before) + noted_move(relocation@, attempt));
    }

    /// What to write into the marker file: the layout, once everything landed.
    /// A partial move must be retried next start rather than silently
    /// forgotten.
    pub fn marker(&self) -> (r: Option<String>)
        ensures
            match r {
                Some(text) => failed_moves(self.moves@).len() == 0 && text@ == digits(
                    LAYOUT_VERSION as nat,
                ),
                None => failed_moves(self.moves@).len() > 0,
            },
            r is Some <==> all_done(moved_views(self.moves@)),
    {
        proof {
            lemma_all_done(self.moves@);
        }
        if self.failures().len() == 0 {
            Some(decimal(LAYOUT_VERSION as u64))
        } else {
            None
        }
    }
}

// ---- what sorting keeps ----

/// Files by their paths.
pub type Files = Map<Seq<char>, Seq<u8>>;

/// Whether a file is what a path leads to, or lies in the folder that it leads
/// to.
pub open spec fn covers(style: PathStyle, path: Seq<char>, file: Seq<char>) -> bool {
    &&& path.len() <= file.len()
    &&& file.take(path.len() as int) == path
    &&& path.len() < file.len() ==> is_separator(style, file[path.len() as int])
}

/// Whether there is anything at a path.
pub open spec fn held(style: PathStyle, files: Files, path: Seq<char>) -> bool {
    exists|file: Seq<char>| files.contains_key(file) && #[trigger] covers(style, path, file)
}

/// Where a file is once `from` has become `to`.
pub open spec fn carried(from: Seq<char>, to: Seq<char>, file: Seq<char>) -> Seq<char> {
    to + file.skip(from.len() as int)
}

/// Whether a path is that of a file which came along when `from` became `to`.
pub open spec fn arrived(
    style: PathStyle,
    files: Files,
    from: Seq<char>,
    to: Seq<char>,
    file: Seq<char>,
) -> bool {
    &&& covers(style, to, file)
    &&& covers(style, from, carried(to, from, file))
    &&& files.contains_key(carried(to, from, file))
}

/// The files once `from` has become `to`.
pub open spec fn renamed(style: PathStyle, files: Files, from: Seq<char>, to: Seq<char>) -> Files {
    Map::new(
        |file: Seq<char>|
            arrived(style, files, from, to, file) || (files.contains_key(file) && !covers(
                style,
                from,
                file,
            )),
        |file: Seq<char>|
            if arrived(style, files, from, to, file) {
                files[carried(to, from, file)]
            } else {
                files[file]
            },
    )
}

/// A relocation that was dealt with: what was found at its two ends, and what
/// became of it.
pub struct StepTaken {
    pub mv: RelocationView,
    pub there: bool,
    pub occupied: bool,
    pub attempt: Attempt,
}

/// Whether a step goes by the files: what is occupied was seen, and only what
/// is to be moved was tried.
pub open spec fn step_fits(style: PathStyle, files: Files, t: StepTaken) -> bool {
    &&& held(style, files, t.mv.to) ==> t.occupied
    &&& t.attempt is Left <==> step_of(t.there, t.occupied) == Step::Leave
}

/// The files after some steps.
pub open spec fn after_steps(style: PathStyle, files: Files, steps: Seq<StepTaken>) -> Files
    decreases steps.len(),
{
    if steps.len() == 0 {
        files
    } else {
        let before = after_steps(style, files, steps.drop_last());
        if steps.last().attempt is Renamed {
            renamed(style, before, steps.last().mv.from, steps.last().mv.to)
        } else {
            before
        }
    }
}

/// Whether each of some steps goes by the files as those before it left them.
pub open spec fn steps_fit(style: PathStyle, files: Files, steps: Seq<StepTaken>) -> bool
    decreases steps.len(),
{
    steps.len() > 0 ==> {
        &&& steps_fit(style, files, steps.drop_last())
        &&& step_fits(style, after_steps(style, files, steps.drop_last()), steps.last())
    }
}

/// Where a file is after some steps.
pub open spec fn place_after(style: PathStyle, file: Seq<char>, steps: Seq<StepTaken>) -> Seq<char>
    decreases steps.len(),
{
    if steps.len() == 0 {
        file
    } else {
        let place = place_after(style, file, steps.drop_last());
        let last = steps.last();
        if last.attempt is Renamed && covers(style, last.mv.from, place) {
            carried(last.mv.from, last.mv.to, place)
        } else {
            place
        }
    }
}

/// Whether a noted move took a file from below its old path to this place below
/// its new one.
pub open spec fn brought(style: PathStyle, m: MovedView, place: Seq<char>) -> bool {
    m matches MovedView::Done { from, to } && covers(style, to, place) && covers(
        style,
        from,
        carried(to, from, place),
    )
}

/// What is noted of some steps.
pub open spec fn moves_of(steps: Seq<StepTaken>) -> Seq<MovedView>
    decreases steps.len(),
{
    if steps.len() == 0 {
        seq![]
    } else {
        moves_of(steps.drop_last()) + noted_move(steps.last().mv, steps.last().attempt)
    }
}

/// A file that comes along goes below the new path, and nothing else does.
proof fn lemma_carried(
    style: PathStyle,
    files: Files,
    from: Seq<char>,
    to: Seq<char>,
    file: Seq<char>,
)
    requires
        covers(style, from, file),
        files.contains_key(file),
    ensures
        covers(style, to, carried(from, to, file)),
        carried(to, from, carried(from, to, file)) == file,
        arrived(style, files, from, to, carried(from, to, file)),
{
    let there = carried(from, to, file);
    assert(there.take(to.len() as int) =~= to);
    assert(there.skip(to.len() as int) =~= file.skip(from.len() as int));
    assert(carried(to, from, there) =~= file) by {
        assert(file =~= file.take(from.len() as int) + file.skip(from.len() as int));
    }
}

/// Sorting deletes nothing and overwrites nothing: every file is still there
/// with what it held, at its old place or where a noted move took it, and no
/// two files end up at one place.
pub proof fn sorting_loses_nothing(
    style: PathStyle,
    files: Files,
    steps: Seq<StepTaken>,
    file: Seq<char>,
)
    requires
        steps_fit(style, files, steps),
        files.contains_key(file),
    ensures
        after_steps(style, files, steps).contains_key(place_after(style, file, steps)),
        after_steps(style, files, steps)[place_after(style, file, steps)] == files[file],
        place_after(style, file, steps) == file || exists|i: int|
            0 <= i < moves_of(steps).len() && brought(
                style,
                #[trigger] moves_of(steps)[i],
                place_after(style, file, steps),
            ),
        forall|other: Seq<char>|
            files.contains_key(other) && other != file ==> #[trigger] place_after(
                style,
                other,
                steps,
            ) != place_after(style, file, steps),
    decreases steps.len(),
{
    if steps.len() > 0 {
        let first = steps.drop_last();
        let last = steps.last();
        let before = after_steps(style, files, first);
        let place = place_after(style, file, first);
        let from = last.mv.from;
        let to = last.mv.to;
        let moves = moves_of(steps);
        let earlier = moves_of(first);
        sorting_loses_nothing(style, files, first, file);
        if place != file {
            let i = choose|i: int|
                0 <= i < earlier.len() && brought(style, #[trigger] earlier[i], place);
            assert(moves[i] == earlier[i]);
        }
        if last.attempt is Renamed {
            assert(!held(style, before, to));
            if covers(style, from, place) {
                lemma_carried(style, before, from, to, place);
                assert(moves[moves.len() - 1] == MovedView::Done { from, to });
                assert(brought(style, moves[moves.len() - 1], carried(from, to, place)));
            } else {
                assert(!arrived(style, before, from, to, place)) by {
                    assert(before.contains_key(place));
                }
            }
        }
        assert forall|other: Seq<char>|
            files.contains_key(other) && other != file implies #[trigger] place_after(
            style,
            other,
            steps,
        ) != place_after(style, file, steps) by {
            let theirs = place_after(style, other, first);
            assert(theirs != place);
            sorting_loses_nothing(style, files, first, other);
            if last.attempt is Renamed {
                if covers(style, from, place) {
                    lemma_carried(style, before, from, to, place);
                }
                if covers(style, from, theirs) {
                    lemma_carried(style, before, from, to, theirs);
                }
            }
        }
    }
}

/// What is moved goes to a free place.
pub proof fn a_move_goes_to_a_free_place(
    style: PathStyle,
    files: Files,
    steps: Seq<StepTaken>,
    i: int,
)
    requires
        steps_fit(style, files, steps),
        0 <= i < steps.len(),
        steps[i].attempt is Renamed,
    ensures
        !held(style, after_steps(style, files, steps.take(i)), steps[i].mv.to),
        steps[i].there,
    decreases steps.len(),
{
    if i < steps.len() - 1 {
        a_move_goes_to_a_free_place(style, files, steps.drop_last(), i);
        assert(steps.drop_last().take(i) =~= steps.take(i));
    } else {
        assert(steps.take(i) =~= steps.drop_last());
    }
}

/// A root once it has been dealt with.
pub struct Sorted {
    pub skipped: bool,
    pub moves: Seq<MovedView>,
    pub files: Files,
    /// What the marker file holds.
    pub marker: Option<Seq<char>>,
}

/// What becomes of a root, its files but for the marker, and its marker, given
/// the steps that are taken where it has to be sorted.
pub open spec fn sorted_root(
    style: PathStyle,
    there: bool,
    marker: Option<Seq<char>>,
    files: Files,
    steps: Seq<StepTaken>,
) -> Sorted {
    match sorting_of(there, marker) {
        Sorting::Missing => Sorted { skipped: false, moves: seq![], files, marker },
        Sorting::Current => Sorted { skipped: true, moves: seq![], files, marker },
        Sorting::Needed => Sorted {
            skipped: false,
            moves: moves_of(steps),
            files: after_steps(style, files, steps),
            marker: if all_done(moves_of(steps)) {
                Some(digits(LAYOUT_VERSION as nat))
            } else {
                marker
            },
        },
    }
}

/// A root is skipped exactly where its marker says that it is in the current
/// layout, and then nothing is moved. Whatever happens, every file is still
/// there with what it held, at its old place or below where a noted move went.
pub proof fn sorting_a_root_keeps_every_file(
    style: PathStyle,
    marker: Option<Seq<char>>,
    files: Files,
    steps: Seq<StepTaken>,
    file: Seq<char>,
) -> (place: Seq<char>)
    requires
        steps_fit(style, files, steps),
        files.contains_key(file),
    ensures
        ({
            let sorted = sorted_root(style, true, marker, files, steps);
            &&& sorted.skipped <==> version_in(marker) >= LAYOUT_VERSION
            &&& sorted.skipped ==> sorted.moves.len() == 0 && sorted.files == files
            &&& sorted.files.contains_key(place)
            &&& sorted.files[place] == files[file]
            &&& place == file || exists|i: int|
                0 <= i < sorted.moves.len() && brought(style, #[trigger] sorted.moves[i], place)
        }),
{
    let sorted = sorted_root(style, true, marker, files, steps);
    if sorting_of(true, marker) == Sorting::Needed {
        sorting_loses_nothing(style, files, steps, file);
        let place = place_after(style, file, steps);
        if place != file {
            let i = choose|i: int|
                0 <= i < moves_of(steps).len() && brought(style, #[trigger] moves_of(steps)[i], place);
            assert(sorted.moves[i] == moves_of(steps)[i]);
        }
        place
    } else {
        file
    }
}

/// Once a root has been sorted without a failure, a second run does nothing.
pub proof fn a_second_run_does_nothing(
    style: PathStyle,
    marker: Option<Seq<char>>,
    files: Files,
    steps: Seq<StepTaken>,
    again: Seq<StepTaken>,
)
    requires
        all_done(sorted_root(style, true, marker, files, steps).moves),
    ensures
        ({
            let first = sorted_root(style, true, marker, files, steps);
            let second = sorted_root(style, true, first.marker, first.files, again);
            &&& second.skipped
            &&& second.moves.len() == 0
            &&& second.files == first.files
        }),
{
    decimal_round_trip(LAYOUT_VERSION as nat);
    lemma_digits(LAYOUT_VERSION as nat);
    nothing_to_trim(digits(LAYOUT_VERSION as nat));
}

/// A line for the log.
#[derive(Debug)]
pub enum LogLine {
    Info(String),
    Warning(String),
}

pub enum LogLineView {
    Info(Seq<char>),
    Warning(Seq<char>),
}

impl View for LogLine {
    type V = LogLineView;

    open spec fn view(&self) -> LogLineView {
        match *self {
            LogLine::Info(text) => LogLineView::Info(text@),
            LogLine::Warning(text) => LogLineView::Warning(text@),
        }
    }
}

pub open spec fn log_line_views(v: Seq<LogLine>) -> Seq<LogLineView> {
    v.map_values(|l: LogLine| l@)
}

/// `path` without the separators at its end and the `.` between them, but for
/// its first `keep` characters.
pub open spec fn cut_separators(style: PathStyle, path: Seq<char>, keep: int) -> Seq<char>
    decreases path.len(),
{
    let n = path.len();
    if n <= keep || n == 0 {
        path
    } else if is_separator(style, path.last()) {
        cut_separators(style, path.drop_last(), keep)
    } else if path.last() == '.' && n >= 2 && is_separator(style, path[n - 2]) {
        cut_separators(style, path.drop_last(), keep)
    } else {
        path
    }
}

/// `path` without the text behind its last separator, but for its first
/// `keep` characters.
pub open spec fn cut_text(style: PathStyle, path: Seq<char>, keep: int) -> Seq<char>
    decreases path.len(),
{
    if path.len() <= keep || path.len() == 0 || is_separator(style, path.last()) {
        path
    } else {
        cut_text(style, path.drop_last(), keep)
    }
}

/// The path of the folder that a path leads into: the path without its last
/// piece, or the whole of it where nothing follows its root.
pub open spec fn folder_of(style: PathStyle, path: Seq<char>) -> Seq<char> {
    let keep = root_len(style, path);
    cut_separators(
        style,
        cut_text(style, cut_separators(style, path, keep), keep),
        keep,
    )
}

fn without_separators(style: PathStyle, v: &Vec<char>, end: usize, keep: usize) -> (r: usize)
    requires
        end <= v.len(),
    ensures
        r <= end,
        v@.take(r as int) == cut_separators(style, v@.take(end as int), keep as int),
{
    let mut n: usize = end;
    while n > keep
        invariant
            n <= end <= v.len(),
            cut_separators(style, v@.take(n as int), keep as int) == cut_separators(
                style,
                v@.take(end as int),
                keep as int,
            ),
        decreases n,
    {
        let ghost s = v@.take(n as int);
        assert(s.drop_last() =~= v@.take(n - 1));
        assert(s.last() == v@[n - 1]);
        if !(separates(style, v[n - 1]) || (v[n - 1] == '.' && n >= 2 && separates(
            style,
            v[n - 2],
        ))) {
            return n;
        }
        n -= 1;
    }
    n
}

fn without_text(style: PathStyle, v: &Vec<char>, end: usize, keep: usize) -> (r: usize)
    requires
        end <= v.len(),
    ensures
        r <= end,
        v@.take(r as int) == cut_text(style, v@.take(end as int), keep as int),
{
    let mut n: usize = end;
    while n > keep
        invariant
            n <= end <= v.len(),
            cut_text(style, v@.take(n as int), keep as int) == cut_text(
                style,
                v@.take(end as int),
                keep as int,
            ),
        decreases n,
    {
        let ghost s = v@.take(n as int);
        assert(s.drop_last() =~= v@.take(n - 1));
        assert(s.last() == v@[n - 1]);
        if separates(style, v[n - 1]) {
            return n;
        }
        n -= 1;
    }
    n
}

/// The folder that a file is in, given the file's path.
pub fn folder(style: PathStyle, path: &str) -> (r: String)
    ensures
        r@ == folder_of(style, path@),
{
    let v = chars_of(path);
    let keep: usize = root_end(style, &v);
    assert(v@.take(v@.len() as int) =~= v@);
    let a: usize = without_separators(style, &v, v.len(), keep);
    let b: usize = without_text(style, &v, a, keep);
    let c: usize = without_separators(style, &v, b, keep);
    assert(v@.subrange(0, c as int) =~= v@.take(c as int));
    slice_string(&v, 0, c)
}

/// The line for one move.
pub open spec fn move_line(style: PathStyle, m: MovedView) -> LogLineView {
    match m {
        MovedView::Done { from, to } => LogLineView::Info(
            "Moved "@ + (match name_of_path(style, from) {
                Some(name) => name,
                None => ""@,
            }) + " into "@ + folder_of(style, to),
        ),
        MovedView::Failed { from, reason } => LogLineView::Warning(
            "Could not move "@ + from + " into the new layout: "@ + reason,
        ),
    }
}

/// The lines for some moves.
pub open spec fn move_lines(style: PathStyle, moves: Seq<MovedView>) -> Seq<LogLineView> {
    moves.map_values(|m: MovedView| move_line(style, m))
}

/// The last line of the report.
pub open spec fn sorted_line(count: nat) -> LogLineView {
    LogLineView::Info(
        "Data folder reorganised: "@ + digits(count)
            + " item(s) moved into config/, state/, auth/ and cache/"@,
    )
}

/// What the log says of a migration.
pub open spec fn migration_lines(style: PathStyle, m: Migration) -> Seq<LogLineView> {
    if m.skipped || m.moves@.len() == 0 {
        seq![]
    } else {
        move_lines(style, moved_views(m.moves@)).push(
            sorted_line((m.moves@.len() - failed_moves(m.moves@).len()) as nat),
        )
    }
}

fn line_of_move(style: PathStyle, m: &Moved) -> (r: LogLine)
    ensures
        r@ == move_line(style, m@),
{
    match m {
        Moved::Done { from, to } => {
            let mut text = String::from_str("Moved ");
            match file_name(style, from.as_str()) {
                Some(name) => text.append(name.as_str()),
                None => text.append(""),
            }
            text.append(" into ");
            text.append(folder(style, to.as_str()).as_str());
            LogLine::Info(text)
        },
        Moved::Failed { from, reason } => {
            let mut text = String::from_str("Could not move ");
            text.append(from.as_str());
            text.append(" into the new layout: ");
            text.append(reason.as_str());
            LogLine::Warning(text)
        },
    }
}

/// What the log says of a migration. Successful moves are worth one line so a
/// user can see where their files went; failures are warnings, because the bot
/// carries on reading the old location for whatever did not move.
pub fn log_migration(style: PathStyle, migration: &Migration) -> (r: Vec<LogLine>)
    ensures
        log_line_views(r@) == migration_lines(style, *migration),
{
    let mut out: Vec<LogLine> = Vec::new();
    if migration.skipped || migration.moves.len() == 0 {
        assert(log_line_views(out@) =~= seq![]);
        return out;
    }
    let ghost all = move_lines(style, moved_views(migration.moves@));
    let mut i: usize = 0;
    while i < migration.moves.len()
        invariant
            i <= migration.moves.len(),
            all == move_lines(style, moved_views(migration.moves@)),
            log_line_views(out@) =~= all.take(i as int),
        decreases migration.moves.len() - i,
    {
        let ghost before = out@;
        let line = line_of_move(style, &migration.moves[i]);
        assert(all[i as int] == line@);
        out.push(line);
        assert(log_line_views(out@) =~= log_line_views(before).push(line@));
        i += 1;
    }
    let mut text = String::from_str("Data folder reorganised: ");
    text.append(decimal(migration.succeeded() as u64).as_str());
    text.append(" item(s) moved into config/, state/, auth/ and cache/");
    let ghost before = out@;
    out.push(LogLine::Info(text));
    assert(all.take(i as int) =~= all);
    assert(log_line_views(out@) =~= log_line_views(before).push(LogLineView::Info(text@)));
    out
}

/// A file name is its stem and its extension, with a dot between them.
pub proof fn a_name_is_its_stem_and_extension(name: Seq<char>)
    ensures
        match extension_of(name) {
            Some(extension) => name == stem_of(name).push('.') + extension && !extension.contains('.')
                && stem_of(name).len() > 0,
            None => stem_of(name) == name && forall|i: int|
                0 < i < name.len() ==> #[trigger] name[i] != '.',
        },
{
    lemma_last_dot(name);
    if let Some(i) = last_dot(name) {
        if i > 0 {
            assert(name =~= name.take(i).push('.') + name.skip(i + 1));
            let extension = name.skip(i + 1);
            if extension.contains('.') {
                let k = choose|k: int| 0 <= k < extension.len() && extension[k] == '.';
                assert(name[i + 1 + k] == '.');
            }
        }
    }
}

proof fn lemma_last_dot(name: Seq<char>)
    ensures
        match last_dot(name) {
            Some(i) => 0 <= i < name.len() && name[i] == '.' && forall|k: int|
                i < k < name.len() ==> #[trigger] name[k] != '.',
            None => forall|k: int| 0 <= k < name.len() ==> #[trigger] name[k] != '.',
        },
    decreases name.len(),
{
    if name.len() > 0 && name.last() != '.' {
        let rest = name.drop_last();
        lemma_last_dot(rest);
        assert forall|k: int| 0 <= k < rest.len() implies #[trigger] name[k] == rest[k] by {}
    }
}

/// A stem and an extension without a dot make a name that is taken apart into
/// them again.
pub proof fn an_extension_is_read_back(stem: Seq<char>, extension: Seq<char>)
    requires
        stem.len() > 0,
        !extension.contains('.'),
    ensures
        stem_of(stem.push('.') + extension) == stem,
        extension_of(stem.push('.') + extension) == Some(extension),
{
    let name = stem.push('.') + extension;
    lemma_last_dot(name);
    let n = stem.len() as int;
    assert(name[n] == '.');
    assert forall|k: int| n < k < name.len() implies #[trigger] name[k] != '.' by {
        assert(name[k] == extension[k - n - 1]);
        assert(extension.contains(extension[k - n - 1]));
    }
    assert(last_dot(name) == Some(n));
    assert(name.take(n) =~= stem);
    assert(name.skip(n + 1) =~= extension);
}

/// The name of a log is taken apart into the day and the instance that it was
/// made of, and the log goes into the folder of that instance.
pub proof fn a_log_goes_to_its_instance(
    style: PathStyle,
    logs: Seq<char>,
    day: Seq<char>,
    instance: Seq<char>,
)
    requires
        is_day(day),
        instance.len() > 0,
    ensures
        day_and_instance(day.push('.') + instance + ".log"@) == Some((day, instance)),
        log_relocated(style, logs, day.push('.') + instance + ".log"@) matches Some(m) && m.folder
            == joined_path(style, logs, instance) && m.to == joined_path(
            style,
            m.folder,
            day + ".log"@,
        ),
{
    reveal_strlit(".log");
    let name = day.push('.') + instance + ".log"@;
    let n = name.len() as int;
    assert(name.take(10) =~= day);
    assert(name.subrange(11, n - 4) =~= instance);
    assert(".log"@ =~= name.subrange(n - 4, n));
}

/// Whether a text is a plain name: not empty, with no separator in it, no way
/// up or to here, and no drive in front.
pub open spec fn is_plain(style: PathStyle, name: Seq<char>) -> bool {
    &&& name.len() > 0
    &&& forall|i: int| 0 <= i < name.len() ==> !is_separator(style, #[trigger] name[i])
    &&& name != "."@
    &&& name != ".."@
    &&& drive_len(style, name) == 0
}

/// A file with a plain name is found in the folder it was put into: the path
/// begins with that of the folder and ends with the name, with nothing or one
/// separator between them.
pub proof fn a_file_is_put_into_its_folder(style: PathStyle, base: Seq<char>, name: Seq<char>)
    requires
        is_plain(style, name),
    ensures
        base.is_prefix_of(joined_path(style, base, name)),
        name.is_suffix_of(joined_path(style, base, name)),
        joined_path(style, base, name).len() <= base.len() + 1 + name.len(),
        forall|other: Seq<char>|
            is_plain(style, other) && #[trigger] joined_path(style, base, other) == joined_path(
                style,
                base,
                name,
            ) ==> other == name,
{
    let path = joined_path(style, base, name);
    assert(!is_separator(style, name[0]));
    assert(!rooted(style, name));
    assert(base =~= path.take(base.len() as int));
    assert(name =~= path.subrange(path.len() - name.len(), path.len() as int));
    assert forall|other: Seq<char>|
        is_plain(style, other) && #[trigger] joined_path(style, base, other) == path implies other
        == name by {
        assert(!is_separator(style, other[0]));
        assert(!rooted(style, other));
        let there = joined_path(style, base, other);
        let from = path.len() - name.len();
        assert(there.len() - other.len() == from);
        assert(there.skip(from) =~= other);
        assert(path.skip(from) =~= name);
    }
}

/// A path that begins at the root of a Unix system is itself, wherever it is
/// taken from.
pub proof fn a_rooted_path_stands_alone(base: Seq<char>, path: Seq<char>)
    requires
        path.len() > 0,
        path[0] == '/',
    ensures
        joined_path(PathStyle::Unix, base, path) == path,
{
    assert(base.take(0) + path =~= path);
}

/// The folder of a file with a plain name is the one that it was put into.
pub proof fn the_folder_is_found_again(style: PathStyle, base: Seq<char>, name: Seq<char>)
    requires
        is_plain(style, name),
        base.len() > root_len(style, base),
        !is_separator(style, base.last()),
        base.last() != '.',
    ensures
        folder_of(style, joined_path(style, base, name)) == base,
{
    let path = joined_path(style, base, name);
    let n = base.len() as int;
    let sep = separator(style);
    assert(!is_separator(style, name[0]));
    assert(!rooted(style, name));
    assert(is_separator(style, sep));
    assert(base.len() > drive_len(style, base));
    assert(path == base.push(sep) + name);
    assert(path[0] == base[0]);
    assert(n > 1 ==> path[1] == base[1]);
    assert(n == 1 ==> path[1] == sep);
    assert(drive_len(style, path) == drive_len(style, base));
    let drive = drive_len(style, base);
    assert(path[drive] == base[drive]);
    let keep = root_len(style, base);
    assert(root_len(style, path) == keep);
    assert(path.last() == name.last());
    assert(!is_separator(style, name[name.len() - 1]));
    if path.last() == '.' && is_separator(style, path[path.len() - 2]) {
        if name.len() >= 2 {
            assert(path[path.len() - 2] == name[name.len() - 2]);
        } else {
            reveal_strlit(".");
            assert(name =~= "."@);
        }
    }
    assert(cut_separators(style, path, keep) == path);
    lemma_cut_text(style, base.push(sep), name, keep);
    assert(base.push(sep).drop_last() =~= base);
    assert(cut_separators(style, base, keep) == base);
    assert(cut_separators(style, base.push(sep), keep) == base);
}

proof fn lemma_cut_text(style: PathStyle, front: Seq<char>, name: Seq<char>, keep: int)
    requires
        front.len() > 0,
        front.len() >= keep,
        is_separator(style, front.last()),
        forall|i: int| 0 <= i < name.len() ==> !is_separator(style, #[trigger] name[i]),
    ensures
        cut_text(style, front + name, keep) == front,
    decreases name.len(),
{
    let path = front + name;
    if name.len() == 0 {
        assert(path =~= front);
    } else {
        assert(path.last() == name[name.len() - 1]);
        assert(path.drop_last() =~= front + name.drop_last());
        lemma_cut_text(style, front, name.drop_last(), keep);
    }
}

/// A file of logins or of settings is never taken for the config of a bot,
/// whatever it holds, and a file that is no config stays where it is.
pub proof fn a_config_is_told_by_name_and_content(stem: Seq<char>, is_config: bool)
    requires
        stem.len() > 0,
    ensures
        goes_to_configs(stem.push('.') + "json"@, is_config) <==> is_config && stem
            != "credentials"@ && stem != "cookies"@ && stem != "sessions"@ && stem != "settings"@
            && stem != "lang_prefs"@,
        !stem.contains('.') ==> !goes_to_configs(stem, is_config),
{
    reveal_strlit("json");
    assert(!"json"@.contains('.'));
    an_extension_is_read_back(stem, "json"@);
    lemma_last_dot(stem);
    if !stem.contains('.') {
        if let Some(i) = last_dot(stem) {
            assert(stem.contains(stem[i]));
        }
    }
}

/// A file whose name is known goes into its folder under the name it has, and
/// every one of them is taken from the root.
pub proof fn known_files_keep_their_names(style: PathStyle, root: Seq<char>, i: int)
    requires
        0 <= i < known_relocations(style, root).len(),
    ensures
        exists|name: Seq<char>|
            known_relocations(style, root)[i].from == #[trigger] joined_path(style, root, name)
                && known_relocations(style, root)[i].to == joined_path(
                style,
                known_relocations(style, root)[i].folder,
                name,
            ),
{
    let all = known_relocations(style, root);
    let name = if i == 0 {
        "lang_prefs.json"@
    } else if i == 1 {
        "settings.json"@
    } else if i == 2 {
        "credentials.json"@
    } else if i == 3 {
        "rustypipe_cache.json"@
    } else if i == 4 {
        "spotify_cache"@
    } else if i == 5 {
        "TEAMTALK_DLL"@
    } else {
        "cookies.txt"@
    };
    assert(all[i].from == joined_path(style, root, name));
}

/// The log names what was moved and says why something was not; it tells the
/// two apart.
pub proof fn the_log_tells_of_every_move(style: PathStyle, m: MovedView)
    ensures
        match m {
            MovedView::Done { from, to } => move_line(style, m) matches LogLineView::Info(text)
                && folder_of(style, to).is_suffix_of(text),
            MovedView::Failed { from, reason } => move_line(style, m) matches LogLineView::Warning(
                text,
            ) && reason.is_suffix_of(text),
        },
{
    match move_line(style, m) {
        LogLineView::Info(text) => {
            if let MovedView::Done { from, to } = m {
                let f = folder_of(style, to);
                assert(f =~= text.subrange(text.len() - f.len(), text.len() as int));
            }
        },
        LogLineView::Warning(text) => {
            if let MovedView::Failed { from, reason } = m {
                assert(reason =~= text.subrange(text.len() - reason.len(), text.len() as int));
            }
        },
    }
}

/// Between a folder and a file stands the separator of the system, once.
pub proof fn one_separator_of_the_system(base: Seq<char>, name: Seq<char>)
    requires
        base.len() > 0,
    ensures
        is_plain(PathStyle::Unix, name) ==> joined_path(PathStyle::Unix, base, name) == (
        if base.last() == '/' {
            base
        } else {
            base.push('/')
        }) + name,
        is_plain(PathStyle::Windows, name) && base.len() > 2 ==> joined_path(
            PathStyle::Windows,
            base,
            name,
        ) == (if base.last() == '/' || base.last() == '\\' {
            base
        } else {
            base.push('\\')
        }) + name,
{
    if is_plain(PathStyle::Unix, name) {
        assert(!is_separator(PathStyle::Unix, name[0]));
    }
    if is_plain(PathStyle::Windows, name) {
        assert(!is_separator(PathStyle::Windows, name[0]));
    }
}

} // verus!
