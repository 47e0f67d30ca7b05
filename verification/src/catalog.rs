//! Which files belong to the catalogue, and how it follows the changes of the disk.
use vstd::prelude::*;
use vstd::utf8::{decode_utf8, encode_utf8, is_ascii_chars, valid_utf8};
use vstd::utf8::{encode_utf8_decode_utf8, encode_utf8_valid_utf8};

use crate::filename::{law_plus_name_made, plus_name, plus_name_ok};
use crate::filename::{law_plus_name_told, parse_plus_filename, plus_file_name, plus_stem, PlusName};
use crate::files::{insert_sql, insert_values, law_statement_says, row_has, FileRow, Statement};
use crate::path::{is_absolute, is_under, join, joined, law_join_adds_name, law_join_stays_under};
use crate::path::{law_absolute_begins_with_root, law_behind_stays_under, law_dots_alone};
use crate::path::{file_stem_of, law_piece_adds_part};
use crate::path::{law_name_is_one_part, law_stem_and_extension, law_under_under, plain_name};
use crate::path::{lemma_tidy_differ, part_text, part_views, parts, parts_of_pieces, parts_text};
use crate::path::{path_parts, path_under, tidy_path, PartView, PathPart};
use crate::table::Table;
use crate::text::{ascii_small, ascii_small_text, all_digits, chars_of, digits_only, finishes_with, index_from, lemma_index_from};
use crate::text::{lower_text, lowered, opt_text, split_on, texts};

verus! {

// ===================== Kinds =====================
/// The two kinds of files.
#[derive(Clone, Copy, Debug, PartialEq, Eq, Structural)]
pub enum MediaKind {
    /// Pictures.
    Pixiv,
    /// Videos.
    Plus,
}

impl MediaKind {
    /// The name of the kind in the catalogue.
    pub open spec fn label(self) -> Seq<char> {
        match self {
            MediaKind::Pixiv => "pixiv"@,
            MediaKind::Plus => "plus"@,
        }
    }

    /// The name of the kind in the catalogue.
    pub fn name(self) -> (r: &'static str)
        ensures
            r@ == self.label(),
    {
        match self {
            MediaKind::Pixiv => "pixiv",
            MediaKind::Plus => "plus",
        }
    }

    /// A name in small letters is one of the kind, by its end.
    pub open spec fn takes_small(self, lower: Seq<char>) -> bool {
        match self {
            MediaKind::Pixiv => {
                ||| ".jpg"@.is_suffix_of(lower)
                ||| ".jpeg"@.is_suffix_of(lower)
                ||| ".png"@.is_suffix_of(lower)
                ||| ".gif"@.is_suffix_of(lower)
                ||| ".webp"@.is_suffix_of(lower)
            },
            MediaKind::Plus => ".mp4"@.is_suffix_of(lower),
        }
    }

    /// A file of this name is of the kind, by the end of the name in small letters.
    pub open spec fn takes(self, filename: Seq<char>) -> bool {
        self.takes_small(lowered(filename))
    }

    /// Tells whether a name in small letters is one of the kind.
    pub fn accepts_small(self, lower: &str) -> (r: bool)
        ensures
            r == self.takes_small(lower@),
    {
        match self {
            MediaKind::Pixiv => finishes_with(lower, ".jpg") || finishes_with(lower, ".jpeg")
                || finishes_with(lower, ".png") || finishes_with(lower, ".gif") || finishes_with(
                lower,
                ".webp",
            ),
            MediaKind::Plus => finishes_with(lower, ".mp4"),
        }
    }

    /// Tells whether a file of this name is of the kind.
    pub fn accepts(self, filename: &str) -> (r: bool)
        ensures
            r == self.takes(filename@),
    {
        let lower: String = lower_text(filename);
        self.accepts_small(lower.as_str())
    }
}

// ===================== Rows =====================
/// What the name of a file tells of its author and its title: nothing for pictures.
pub open spec fn told_by(kind: MediaKind, filename: Seq<char>) -> Option<PlusName> {
    match kind {
        MediaKind::Pixiv => None,
        MediaKind::Plus => plus_file_name(filename),
    }
}

/// The row is that of the file of this kind, directory and name.
pub open spec fn is_row_of(
    row: FileRow,
    kind: MediaKind,
    dir: Seq<char>,
    filename: Seq<char>,
) -> bool {
    let told = told_by(kind, filename);
    &&& row.id is None
    &&& opt_text(row.kind) == Some(kind.label())
    &&& opt_text(row.dir) == Some(dir)
    &&& opt_text(row.filename) == Some(filename)
    &&& opt_text(row.authorName) == (match told {
        Some(t) => Some(t.author),
        None => None,
    })
    &&& opt_text(row.authorId) == (match told {
        Some(t) => Some(t.id),
        None => None,
    })
    &&& opt_text(row.title) == (match told {
        Some(t) => Some(t.title),
        None => None,
    })
}

/// The values that are put into the catalogue for the file of this kind, directory and
/// name.
pub open spec fn row_values(
    kind: MediaKind,
    dir: Seq<char>,
    filename: Seq<char>,
) -> Seq<Option<Seq<char>>> {
    match told_by(kind, filename) {
        Some(t) => seq![
            Some(kind.label()),
            Some(dir),
            Some(filename),
            Some(t.author),
            Some(t.id),
            Some(t.title),
        ],
        None => seq![Some(kind.label()), Some(dir), Some(filename), None, None, None],
    }
}

/// A file has the same values in the catalogue whether it was found by scanning the disk
/// or by following a change.
pub proof fn law_row_values(row: FileRow, kind: MediaKind, dir: Seq<char>, filename: Seq<char>)
    requires
        is_row_of(row, kind, dir, filename),
    ensures
        insert_values(row) == row_values(kind, dir, filename),
{
}

/// The row of the file of this kind, directory and name.
pub fn row_of(kind: MediaKind, dir: &str, filename: &str) -> (r: FileRow)
    ensures
        is_row_of(r, kind, dir@, filename@),
{
    let told: Option<(String, String, String)> = match kind {
        MediaKind::Pixiv => None,
        MediaKind::Plus => parse_plus_filename(filename),
    };
    let (author, id, title): (Option<String>, Option<String>, Option<String>) = match told {
        Some((a, i, t)) => (Some(a), Some(i), Some(t)),
        None => (None, None, None),
    };
    FileRow {
        id: None,
        kind: Some(kind.name().to_owned()),
        dir: Some(dir.to_owned()),
        filename: Some(filename.to_owned()),
        authorName: author,
        authorId: id,
        title,
    }
}

/// The file belongs to the catalogue: its directory is a number, and its name is one
/// of the kind.
pub open spec fn belongs(kind: MediaKind, dir: Seq<char>, filename: Seq<char>) -> bool {
    all_digits(dir) && kind.takes(filename)
}

/// Tells whether files of the directory can belong to the catalogue.
pub fn is_media_dir(dir: &str) -> (r: bool)
    ensures
        r == all_digits(dir@),
{
    digits_only(dir)
}

/// The row of a file that was found on the disk, where it belongs to the catalogue.
pub fn scan_file(kind: MediaKind, dir: &str, filename: &str) -> (r: Option<FileRow>)
    ensures
        r is Some <==> belongs(kind, dir@, filename@),
        r matches Some(row) ==> is_row_of(row, kind, dir@, filename@),
{
    if is_media_dir(dir) && kind.accepts(filename) {
        Some(row_of(kind, dir, filename))
    } else {
        None
    }
}

/// Those of the names whose files belong to the catalogue, in order.
pub open spec fn belonging(
    kind: MediaKind,
    dir: Seq<char>,
    filenames: Seq<Seq<char>>,
) -> Seq<Seq<char>> {
    filenames.filter(|name: Seq<char>| belongs(kind, dir, name))
}

/// The rows are those of the files of these names, in order.
pub open spec fn are_rows_of(
    rows: Seq<FileRow>,
    kind: MediaKind,
    dir: Seq<char>,
    filenames: Seq<Seq<char>>,
) -> bool {
    &&& rows.len() == filenames.len()
    &&& forall|i: int|
        0 <= i < rows.len() ==> is_row_of(#[trigger] rows[i], kind, dir, filenames[i])
}

/// The rows of the files of a directory that belong to the catalogue, in order.
pub fn scan_dir(kind: MediaKind, dir: &str, filenames: &Vec<String>) -> (r: Vec<FileRow>)
    ensures
        are_rows_of(r@, kind, dir@, belonging(kind, dir@, texts(filenames@))),
{
    let mut rows: Vec<FileRow> = Vec::new();
    let ghost all = texts(filenames@);
    let mut i: usize = 0;
    proof {
        reveal(Seq::filter);
        assert(belonging(kind, dir@, all.take(0)) =~= seq![]);
    }
    while i < filenames.len()
        invariant
            i <= filenames@.len(),
            all == texts(filenames@),
            are_rows_of(rows@, kind, dir@, belonging(kind, dir@, all.take(i as int))),
        decreases filenames@.len() - i,
    {
        proof {
            reveal(Seq::filter);
            assert(all.take(i + 1).drop_last() =~= all.take(i as int));
            assert(all.take(i + 1).last() == filenames@[i as int]@);
        }
        match scan_file(kind, dir, filenames[i].as_str()) {
            Some(row) => {
                rows.push(row);
            },
            None => {},
        }
        i = i + 1;
    }
    assert(all.take(all.len() as int) =~= all);
    rows
}

/// A catalogue of so many files has to be filled.
pub open spec fn is_unfilled(count: int) -> bool {
    count <= 0
}

/// Tells whether the disk has to be scanned: the catalogue has no files yet.
pub fn needs_scan(count: i64) -> (r: bool)
    ensures
        r == is_unfilled(count as int),
{
    count <= 0
}

// ===================== Watching =====================
/// One second, in nanoseconds.
pub const SECOND_NANOS: u128 = 1_000_000_000;

/// What happened to a path.
#[derive(Clone, Copy, Debug, PartialEq, Eq, Structural)]
pub enum Change {
    Create,
    Modify,
    /// Anything else.
    Other,
}

/// A file that changed.
#[derive(Clone, Debug)]
pub struct ChangedFile {
    pub kind: MediaKind,
    pub dir: String,
    pub filename: String,
}

/// Follows the changes below a directory of files of one kind. It remembers for each
/// path when a change of it was last followed. Times are nanoseconds on a clock that
/// does not go back.
pub struct FileWatcher {
    kind: MediaKind,
    root: Vec<u8>,
    last_event: Table<u128>,
}

/// The bytes as characters, one for each.
pub open spec fn byte_chars(bytes: Seq<u8>) -> Seq<char> {
    bytes.map_values(|b: u8| b as char)
}

/// The bytes as characters, one for each.
fn chars_for(bytes: &Vec<u8>) -> (r: String)
    ensures
        r@ == byte_chars(bytes@),
{
    let mut out: String = String::new();
    let mut i: usize = 0;
    while i < bytes.len()
        invariant
            i <= bytes@.len(),
            out@ == byte_chars(bytes@.take(i as int)),
        decreases bytes@.len() - i,
    {
        out.push(bytes[i] as char);
        assert(out@ =~= byte_chars(bytes@.take(i + 1)));
        i = i + 1;
    }
    assert(bytes@.take(bytes@.len() as int) =~= bytes@);
    out
}

/// The parts of a path that is given by its bytes. Two paths are the same where their
/// parts are.
pub open spec fn byte_parts(path: Seq<u8>) -> Seq<PartView> {
    path_parts(byte_chars(path))
}

/// The characters as bytes, one for each.
pub open spec fn char_bytes(s: Seq<char>) -> Seq<u8> {
    s.map_values(|c: char| c as u8)
}

/// The characters as bytes, one for each.
fn bytes_for(s: &str) -> (r: Vec<u8>)
    ensures
        r@ == char_bytes(s@),
{
    let x: Vec<char> = chars_of(s);
    let mut out: Vec<u8> = Vec::new();
    let mut i: usize = 0;
    while i < x.len()
        invariant
            i <= x@.len(),
            out@ == char_bytes(x@.take(i as int)),
        decreases x@.len() - i,
    {
        out.push(x[i] as u8);
        assert(out@ =~= char_bytes(x@.take(i + 1)));
        i = i + 1;
    }
    assert(x@.take(x@.len() as int) =~= x@);
    out
}

/// The name of a part of a path.
pub open spec fn part_name(part: PartView) -> Seq<char> {
    match part {
        PartView::Root => seq!['/'],
        _ => part_text(part),
    }
}

/// The bytes of the names of the parts of a path behind those of `root`, in order; none
/// where the path does not lie below `root`.
pub open spec fn names_below(path: Seq<u8>, root: Seq<u8>) -> Option<Seq<Seq<u8>>> {
    if byte_parts(root).is_prefix_of(byte_parts(path)) {
        Some(
            byte_parts(path).skip(byte_parts(root).len() as int).map_values(
                |part: PartView| char_bytes(part_name(part)),
            ),
        )
    } else {
        None
    }
}

/// What the names are.
pub open spec fn name_views(names: Seq<Vec<u8>>) -> Seq<Seq<u8>> {
    names.map_values(|name: Vec<u8>| name@)
}

/// Each character stands for a byte.
spec fn stands_for_bytes(s: Seq<char>) -> bool {
    forall|i: int| 0 <= i < s.len() ==> (#[trigger] s[i]) as int <= 255
}

/// Pieces of characters that stand for bytes are such characters.
proof fn lemma_pieces_of_bytes(s: Seq<char>, c: char, i: int)
    requires
        stands_for_bytes(s),
        0 <= i < split_on(s, c).len(),
    ensures
        stands_for_bytes(split_on(s, c)[i]),
    decreases s.len(),
{
    let k = index_from(s, c, 0);
    lemma_index_from(s, c, 0);
    if k < s.len() && i > 0 {
        lemma_pieces_of_bytes(s.subrange(k + 1, s.len() as int), c, i - 1);
    }
}

/// Parts that pieces of such characters make have such names.
proof fn lemma_parts_of_bytes(cut: Seq<Seq<char>>, i: int)
    requires
        forall|k: int| 0 <= k < cut.len() ==> stands_for_bytes(#[trigger] cut[k]),
        0 <= i < parts_of_pieces(cut).len(),
    ensures
        stands_for_bytes(part_name(parts_of_pieces(cut)[i])),
    decreases cut.len(),
{
    if cut.len() > 0 {
        let init = cut.drop_last();
        if i < parts_of_pieces(init).len() {
            assert forall|k: int| 0 <= k < init.len() implies stands_for_bytes(
                #[trigger] init[k],
            ) by {
                assert(init[k] == cut[k]);
            }
            lemma_parts_of_bytes(init, i);
        } else {
            assert(stands_for_bytes(cut[cut.len() - 1]));
        }
    }
}

/// A character that stands for a byte is the one of that byte.
proof fn lemma_byte_char(c: char)
    requires
        c as int <= 255,
    ensures
        c as u8 as char == c,
{
}

/// The bytes of the name of a part of a path are that name: none is lost.
proof fn lemma_name_bytes(path: Seq<u8>, i: int)
    requires
        0 <= i < byte_parts(path).len(),
    ensures
        byte_chars(char_bytes(part_name(byte_parts(path)[i]))) == part_name(byte_parts(path)[i]),
{
    let text = byte_chars(path);
    let cut = split_on(text, '/');
    assert forall|k: int| 0 <= k < cut.len() implies stands_for_bytes(#[trigger] cut[k]) by {
        lemma_pieces_of_bytes(text, '/', k);
    }
    let head = if is_absolute(text) {
        1int
    } else {
        0
    };
    if i >= head {
        lemma_parts_of_bytes(cut, i - head);
    }
    let name = part_name(byte_parts(path)[i]);
    assert(stands_for_bytes(name));
    assert forall|k: int| 0 <= k < name.len() implies byte_chars(char_bytes(name))[k]
        == name[k] by {
        lemma_byte_char(name[k]);
    }
    assert(byte_chars(char_bytes(name)) =~= name);
}

/// The name of a part of a path, in bytes.
fn name_of_part(part: &PathPart) -> (r: Vec<u8>)
    ensures
        r@ == char_bytes(part_name(part@)),
{
    let mut text: String = String::new();
    match part {
        PathPart::Root => {
            text.push('/');
        },
        PathPart::Current => {
            text.push('.');
        },
        PathPart::Parent => {
            text.push('.');
            text.push('.');
        },
        PathPart::Normal(name) => {
            text.append(name.as_str());
        },
    }
    assert(text@ =~= part_name(part@));
    bytes_for(text.as_str())
}

/// The names of the parts of a path behind those of `root`, in order; none where the path
/// does not lie below `root`.
pub fn parts_below(path: &Vec<u8>, root: &Vec<u8>) -> (r: Option<Vec<Vec<u8>>>)
    ensures
        r is Some <==> byte_parts(root@).is_prefix_of(byte_parts(path@)),
        r matches Some(names) ==> {
            let n = byte_parts(root@).len();
            &&& names@.len() == byte_parts(path@).len() - n
            &&& forall|i: int|
                0 <= i < names@.len() ==> byte_chars(#[trigger] names@[i]@) == part_name(
                    byte_parts(path@)[n + i],
                )
        },
        match r {
            Some(names) => names_below(path@, root@) == Some(name_views(names@)),
            None => names_below(path@, root@) is None,
        },
{
    let text: String = chars_for(path);
    let base: String = chars_for(root);
    if !is_under(text.as_str(), base.as_str()) {
        return None;
    }
    let all: Vec<PathPart> = parts(text.as_str());
    let front: Vec<PathPart> = parts(base.as_str());
    let n: usize = front.len();
    let ghost views = byte_parts(path@);
    assert(part_views(all@) == views);
    assert(part_views(front@) == byte_parts(root@));
    let mut names: Vec<Vec<u8>> = Vec::new();
    let mut i: usize = n;
    while i < all.len()
        invariant
            n <= i <= all@.len(),
            views == byte_parts(path@),
            part_views(all@) == views,
            names@.len() == i - n,
            forall|k: int|
                0 <= k < names@.len() ==> (#[trigger] names@[k])@ == char_bytes(
                    part_name(views[n + k]),
                ),
        decreases all@.len() - i,
    {
        assert(part_views(all@)[i as int] == all@[i as int]@);
        names.push(name_of_part(&all[i]));
        i = i + 1;
    }
    proof {
        assert(name_views(names@) =~= names_below(path@, root@)->0);
        assert forall|k: int| 0 <= k < names@.len() implies byte_chars(#[trigger] names@[k]@)
            == part_name(views[n + k]) by {
            lemma_name_bytes(path@, n + k);
        }
    }
    Some(names)
}

/// The text of a name that is given by its bytes; nothing where they are no UTF-8.
pub open spec fn name_text(name: Seq<u8>) -> Seq<char> {
    if valid_utf8(name) {
        decode_utf8(name)
    } else {
        seq![]
    }
}

/// `String::from_utf8`: the text that the bytes are in UTF-8; `None` where they are none.
#[verifier::external_body]
fn utf8_text(bytes: Vec<u8>) -> (r: Option<String>)
    ensures
        r is Some <==> valid_utf8(bytes@),
        r matches Some(s) ==> s@ == decode_utf8(bytes@),
{
    String::from_utf8(bytes).ok()
}

/// The text of a name that is given by its bytes.
pub fn text_of_name(name: Vec<u8>) -> (r: String)
    ensures
        r@ == name_text(name@),
{
    match utf8_text(name) {
        Some(text) => text,
        None => String::new(),
    }
}

/// A change at `now` is followed: the last that was followed is a second ago.
pub open spec fn is_due(last: Option<u128>, now: u128) -> bool {
    match last {
        Some(t) => now - t >= SECOND_NANOS,
        None => true,
    }
}

/// The directory and the name of the file that a path below `root` leads to: its first two
/// names. None where the path does not lie below `root`, or has fewer.
pub open spec fn file_below(path: Seq<u8>, root: Seq<u8>) -> Option<(Seq<char>, Seq<char>)> {
    match names_below(path, root) {
        Some(names) => if names.len() >= 2 {
            Some((name_text(names[0]), name_text(names[1])))
        } else {
            None
        },
        None => None,
    }
}

/// The directory and the name of the file that a path below `root` leads to.
fn find_file_below(path: &Vec<u8>, root: &Vec<u8>) -> (r: Option<(String, String)>)
    ensures
        match r {
            Some((dir, filename)) => file_below(path@, root@) == Some((dir@, filename@)),
            None => file_below(path@, root@) is None,
        },
{
    match parts_below(path, root) {
        Some(names) => {
            if names.len() < 2 {
                return None;
            }
            let ghost views = name_views(names@);
            let mut names: Vec<Vec<u8>> = names;
            let filename: Vec<u8> = names.swap_remove(1);
            let dir: Vec<u8> = names.swap_remove(0);
            assert(views[0] == dir@ && views[1] == filename@);
            Some((text_of_name(dir), text_of_name(filename)))
        },
        None => None,
    }
}

/// The change and the path below `root` are those of a file that belongs to the
/// catalogue.
pub open spec fn is_watched(
    kind: MediaKind,
    root: Seq<u8>,
    change: Change,
    path: Seq<u8>,
) -> bool {
    &&& change == Change::Create || change == Change::Modify
    &&& file_below(path, root) matches Some((dir, filename)) && belongs(kind, dir, filename)
}

impl FileWatcher {
    /// The kind of the files.
    pub closed spec fn kind(self) -> MediaKind {
        self.kind
    }

    /// The directory, in bytes.
    pub closed spec fn root(self) -> Seq<u8> {
        self.root@
    }

    /// When a change of the path of these parts was last followed.
    pub closed spec fn last_followed(self, path: Seq<PartView>) -> Option<u128> {
        let name = parts_text(path);
        if self.last_event@.contains_key(name) {
            Some(self.last_event@[name])
        } else {
            None
        }
    }

    /// The table of the paths is in order.
    pub closed spec fn wf(self) -> bool {
        self.last_event.wf()
    }

    /// The watcher becomes `after` by a change of `path` at `now`, and `r` is the file to
    /// look at.
    pub open spec fn follows(
        self,
        after: FileWatcher,
        change: Change,
        path: Seq<u8>,
        now: u128,
        r: Option<ChangedFile>,
    ) -> bool {
        &&& after.wf()
        &&& after.kind() == self.kind()
        &&& after.root() == self.root()
        &&& r is Some <==> is_watched(self.kind(), self.root(), change, path) && is_due(
            self.last_followed(byte_parts(path)),
            now,
        )
        &&& r matches Some(f) ==> {
            &&& f.kind == self.kind()
            &&& file_below(path, self.root()) == Some((f.dir@, f.filename@))
        }
        &&& after.last_followed(byte_parts(path)) == (if r is Some {
            Some(now)
        } else {
            self.last_followed(byte_parts(path))
        })
        &&& forall|other: Seq<u8>|
            byte_parts(other) != byte_parts(path) ==> after.last_followed(
                #[trigger] byte_parts(other),
            ) == self.last_followed(byte_parts(other))
    }

    /// The watcher is one of this kind and directory, and has followed nothing yet.
    pub open spec fn is_fresh(self, kind: MediaKind, root: Seq<u8>) -> bool {
        &&& self.wf()
        &&& self.kind() == kind
        &&& self.root() == root
        &&& forall|path: Seq<PartView>| #[trigger] self.last_followed(path) is None
    }

    /// A watcher that has followed nothing yet.
    pub fn new(kind: MediaKind, root: Vec<u8>) -> (r: FileWatcher)
        ensures
            r.is_fresh(kind, root@),
    {
        FileWatcher { kind, root, last_event: Table::new() }
    }

    /// The file to look at where the change of `path` at `now` is one to follow.
    pub fn follow(&mut self, change: Change, path: &Vec<u8>, now: u128) -> (r: Option<ChangedFile>)
        requires
            old(self).wf(),
        ensures
            old(self).follows(*final(self), change, path@, now, r),
    {
        if change == Change::Other {
            return None;
        }
        let (dir, filename): (String, String) = match find_file_below(path, &self.root) {
            Some(file) => file,
            None => {
                return None;
            },
        };
        if !is_media_dir(dir.as_str()) || !self.kind.accepts(filename.as_str()) {
            return None;
        }
        let text: String = chars_for(path);
        let name: String = tidy_path(text.as_str());
        let due: bool = match self.last_event.get(name.as_str()) {
            Some(last) => now >= *last && now - *last >= SECOND_NANOS,
            None => true,
        };
        if !due {
            return None;
        }
        self.last_event.insert(name, now);
        proof {
            assert forall|other: Seq<u8>| byte_parts(other) != byte_parts(path@) implies
                self.last_followed(#[trigger] byte_parts(other)) == old(self).last_followed(
                byte_parts(other),
            ) by {
                lemma_tidy_differ(byte_chars(other), byte_chars(path@));
            }
        }
        Some(ChangedFile { kind: self.kind, dir, filename })
    }
}

/// Where the file of this directory and name is, below the directory `root` of its kind.
pub open spec fn place_below(root: Seq<char>, dir: Seq<char>, filename: Seq<char>) -> Seq<char> {
    joined(joined(root, dir), filename)
}

impl ChangedFile {
    /// Where the file is, below the directory `root` of its kind.
    pub fn path_below(&self, root: &str) -> (r: String)
        ensures
            r@ == joined(joined(root@, self.dir@), self.filename@),
            r@ == place_below(root@, self.dir@, self.filename@),
    {
        let dir: String = join(root, self.dir.as_str());
        join(dir.as_str(), self.filename.as_str())
    }

    /// The row of the file.
    pub fn row(&self) -> (r: FileRow)
        ensures
            is_row_of(r, self.kind, self.dir@, self.filename@),
    {
        row_of(self.kind, self.dir.as_str(), self.filename.as_str())
    }

    /// The statement brings the catalogue up to date.
    pub open spec fn is_settled_by(
        self,
        exists: bool,
        r: Statement,
    ) -> bool {
        &&& !exists ==> r.says(
            "DELETE FROM files WHERE type=? AND dir=? AND filename=?"@,
            seq![Some(self.kind.label()), Some(self.dir@), Some(self.filename@)],
        )
        &&& exists ==> r.says(insert_sql(), row_values(self.kind, self.dir@, self.filename@))
    }

    /// What brings the catalogue up to date: the file is added where it is there, and
    /// taken out where it is gone.
    pub fn settle(&self, exists: bool) -> (r: Statement)
        ensures
            self.is_settled_by(exists, r),
    {
        if exists {
            let row: FileRow = self.row();
            proof {
                law_row_values(row, self.kind, self.dir@, self.filename@);
            }
            Statement::insert_file(&row)
        } else {
            Statement::delete_file(self.kind.name(), self.dir.as_str(), self.filename.as_str())
        }
    }
}

// ===================== Laws =====================
/// A change of a path that comes less than a second after one that was followed is not
/// followed, however many `/` stand between the parts of the path.
pub proof fn law_quick_change_waits(
    first: FileWatcher,
    second: FileWatcher,
    third: FileWatcher,
    paths: (Seq<u8>, Seq<u8>),
    then: u128,
    now: u128,
    changes: (Change, Change),
    files: (Option<ChangedFile>, Option<ChangedFile>),
)
    requires
        first.follows(second, changes.0, paths.0, then, files.0),
        second.follows(third, changes.1, paths.1, now, files.1),
        byte_parts(paths.0) == byte_parts(paths.1),
        files.0 is Some,
        now - then < SECOND_NANOS,
    ensures
        files.1 is None,
{
}

/// Files of the catalogue lie below the directory of their kind.
pub proof fn law_catalogue_path_stays(
    kind: MediaKind,
    root: Seq<char>,
    dir: Seq<char>,
    filename: Seq<char>,
)
    requires
        belongs(kind, dir, filename),
        !is_absolute(filename),
    ensures
        path_under(joined(joined(root, dir), filename), root),
{
    law_join_stays_under(root, dir);
    law_join_stays_under(joined(root, dir), filename);
    law_under_under(joined(joined(root, dir), filename), joined(root, dir), root);
}

/// A video that was scanned as `author_id_title`, with an extension, has just these in the
/// columns of its row.
pub proof fn law_scanned_video_columns(
    row: FileRow,
    dir: Seq<char>,
    author: Seq<char>,
    id: Seq<char>,
    title: Seq<char>,
    ext: Seq<char>,
)
    requires
        !author.contains('_') && !id.contains('_'),
        !author.contains('/') && !id.contains('/') && !title.contains('/'),
        ext.len() > 0 && !ext.contains('/') && !ext.contains('.'),
        is_row_of(
            row,
            MediaKind::Plus,
            dir,
            author + seq!['_'] + id + seq!['_'] + title + seq!['.'] + ext,
        ),
    ensures
        row.authorName matches Some(a) && a@ == author,
        row.authorId matches Some(i) && i@ == id,
        row.title matches Some(t) && t@ == title,
        row.kind matches Some(k) && k@ == "plus"@,
        row.dir matches Some(d) && d@ == dir,
        row.filename matches Some(f) && f@ == author + seq!['_'] + id + seq!['_'] + title + seq![
            '.',
        ] + ext,
{
    let name = PlusName { author, id, title };
    let stem = author + seq!['_'] + id + seq!['_'] + title;
    assert(plus_stem(name) =~= stem);
    if stem.contains('/') {
        let k = choose|k: int| 0 <= k < stem.len() && stem[k] == '/';
        let a = author.len() as int;
        let b = a + 1 + id.len();
        if k < a {
            assert(author[k] == '/');
            assert(author.contains('/'));
        } else if a < k < b {
            assert(id[k - a - 1] == '/');
            assert(id.contains('/'));
        } else if k > b {
            assert(title[k - b - 1] == '/');
            assert(title.contains('/'));
        }
    }
    law_stem_and_extension(stem, ext);
    law_plus_name_told(name);
}

/// A picture that was scanned has its kind, its directory and its name in its row, and no
/// author.
pub proof fn law_scanned_picture_columns(row: FileRow, dir: Seq<char>, filename: Seq<char>)
    requires
        is_row_of(row, MediaKind::Pixiv, dir, filename),
    ensures
        row.kind matches Some(k) && k@ == "pixiv"@,
        row.dir matches Some(d) && d@ == dir,
        row.filename matches Some(f) && f@ == filename,
        row.authorName is None && row.authorId is None && row.title is None && row.id is None,
{
}

/// A name ends in a dot and `end` exactly where `end` is what stands behind its last dot.
proof fn lemma_ending(stem: Seq<char>, ext: Seq<char>, end: Seq<char>)
    requires
        !ext.contains('.'),
        !end.contains('.'),
    ensures
        (seq!['.'] + end).is_suffix_of(stem + seq!['.'] + ext) <==> ext == end,
{
    let name = stem + seq!['.'] + ext;
    let tail = seq!['.'] + end;
    let n = name.len() as int;
    let m = tail.len() as int;
    if tail.is_suffix_of(name) {
        assert(name.subrange(n - m, n) == tail);
        assert(name[n - m] == tail[0]);
        if end.len() < ext.len() {
            assert(ext[n - m - stem.len() - 1] == '.');
            assert(ext.contains('.'));
        } else if end.len() > ext.len() {
            let k = stem.len() - (n - m);
            assert(name[stem.len() as int] == '.');
            assert(name.subrange(n - m, n)[k] == '.');
            assert(tail[k] == '.');
            assert(end[k - 1] == '.');
            assert(end.contains('.'));
        }
        assert(ext =~= end) by {
            assert forall|k: int| 0 <= k < ext.len() implies ext[k] == end[k] by {
                assert(name.subrange(n - m, n)[k + 1] == tail[k + 1]);
            }
        }
    }
    if ext == end {
        assert(name.subrange(n - m, n) =~= tail);
    }
}

/// The extensions of pictures are `jpg`, `jpeg`, `png`, `gif` and `webp`, that of videos is
/// `mp4`, in any case of their letters.
pub proof fn law_kind_is_told_by_extension(stem: Seq<char>, ext: Seq<char>)
    requires
        is_ascii_chars(stem + seq!['.'] + ext),
        !ext.contains('.'),
    ensures
        MediaKind::Plus.takes(stem + seq!['.'] + ext) <==> ascii_small_text(ext) == "mp4"@,
        MediaKind::Pixiv.takes(stem + seq!['.'] + ext) <==> {
            ||| ascii_small_text(ext) == "jpg"@
            ||| ascii_small_text(ext) == "jpeg"@
            ||| ascii_small_text(ext) == "png"@
            ||| ascii_small_text(ext) == "gif"@
            ||| ascii_small_text(ext) == "webp"@
        },
{
    let name = stem + seq!['.'] + ext;
    let a = ascii_small_text(stem);
    let b = ascii_small_text(ext);
    assert(ascii_small_text(name) =~= a + seq!['.'] + b);
    if b.contains('.') {
        let k = choose|k: int| 0 <= k < b.len() && b[k] == '.';
        lemma_small_dot(ext[k]);
        assert(ext[k] == '.');
        assert(ext.contains('.'));
    }
    reveal_strlit("jpg");
    reveal_strlit("jpeg");
    reveal_strlit("png");
    reveal_strlit("gif");
    reveal_strlit("webp");
    reveal_strlit("mp4");
    reveal_strlit(".jpg");
    reveal_strlit(".jpeg");
    reveal_strlit(".png");
    reveal_strlit(".gif");
    reveal_strlit(".webp");
    reveal_strlit(".mp4");
    assert(".jpg"@ =~= seq!['.'] + "jpg"@);
    assert(".jpeg"@ =~= seq!['.'] + "jpeg"@);
    assert(".png"@ =~= seq!['.'] + "png"@);
    assert(".gif"@ =~= seq!['.'] + "gif"@);
    assert(".webp"@ =~= seq!['.'] + "webp"@);
    assert(".mp4"@ =~= seq!['.'] + "mp4"@);
    lemma_ending(a, b, "jpg"@);
    lemma_ending(a, b, "jpeg"@);
    lemma_ending(a, b, "png"@);
    lemma_ending(a, b, "gif"@);
    lemma_ending(a, b, "webp"@);
    lemma_ending(a, b, "mp4"@);
}

/// Only a dot is a dot in small letters.
proof fn lemma_small_dot(c: char)
    ensures
        ascii_small(c) == '.' ==> c == '.',
{
}

/// The files of a directory of digits that are of the kind are scanned, each once for each
/// time that it was listed and in order, and no others.
pub proof fn law_scan_finds_all(
    rows: Seq<FileRow>,
    kind: MediaKind,
    dir: Seq<char>,
    filenames: Seq<Seq<char>>,
    name: Seq<char>,
)
    requires
        are_rows_of(rows, kind, dir, belonging(kind, dir, filenames)),
    ensures
        filenames.contains(name) && all_digits(dir) && kind.takes(name) <==> exists|i: int|
            0 <= i < rows.len() && (#[trigger] rows[i]).filename is Some
                && rows[i].filename->0@ == name,
{
    let taken = belonging(kind, dir, filenames);
    let pred = |n: Seq<char>| belongs(kind, dir, n);
    if filenames.contains(name) && all_digits(dir) && kind.takes(name) {
        let j = choose|j: int| 0 <= j < filenames.len() && filenames[j] == name;
        filenames.lemma_filter_contains(pred, j);
        assert(taken.contains(name));
        let i = choose|i: int| 0 <= i < taken.len() && taken[i] == name;
        assert(is_row_of(rows[i], kind, dir, taken[i]));
    }
    if exists|i: int|
        0 <= i < rows.len() && (#[trigger] rows[i]).filename is Some && rows[i].filename->0@
            == name {
        let i = choose|i: int|
            0 <= i < rows.len() && (#[trigger] rows[i]).filename is Some && rows[i].filename->0@
                == name;
        assert(is_row_of(rows[i], kind, dir, taken[i]));
        assert(taken[i] == name);
        filenames.lemma_filter_pred(pred, i);
        assert(taken.contains(taken[i]));
        filenames.lemma_filter_contains_rev(pred, name);
    }
}

/// Scanning more files adds their rows behind those of the others.
pub proof fn law_scan_goes_in_order(
    kind: MediaKind,
    dir: Seq<char>,
    filenames: Seq<Seq<char>>,
    name: Seq<char>,
)
    ensures
        belonging(kind, dir, filenames.push(name)) == (if all_digits(dir) && kind.takes(name) {
            belonging(kind, dir, filenames).push(name)
        } else {
            belonging(kind, dir, filenames)
        }),
{
    reveal(Seq::filter);
    assert(filenames.push(name).drop_last() =~= filenames);
}

/// A path that is a directory and a name behind the root leads to just these.
pub proof fn law_path_leads_to_file(root: Seq<u8>, dir: Seq<u8>, name: Seq<u8>)
    requires
        root.len() > 0 && root.last() != 47,
        plain_name(byte_chars(dir)),
        plain_name(byte_chars(name)),
        valid_utf8(dir) && valid_utf8(name),
    ensures
        file_below(root + seq![47u8] + dir + seq![47u8] + name, root) == Some(
            (decode_utf8(dir), decode_utf8(name)),
        ),
{
    let path = root + seq![47u8] + dir + seq![47u8] + name;
    let r = byte_chars(root);
    let d = byte_chars(dir);
    let n = byte_chars(name);
    law_name_is_one_part(d);
    law_name_is_one_part(n);
    assert(r.last() == root.last() as char);
    assert(47u8 as char == '/');
    assert(root.last() as char != '/') by {
        lemma_byte_is_slash(root.last());
    }
    assert(joined(r, d) =~= r + seq!['/'] + d);
    assert(d.last() != '/') by {
        assert(d.contains(d[d.len() - 1]));
    }
    assert(joined(joined(r, d), n) =~= r + seq!['/'] + d + seq!['/'] + n);
    assert(byte_chars(path) =~= joined(joined(r, d), n));
    law_join_adds_name(r, d);
    law_join_adds_name(joined(r, d), n);
    let k = byte_parts(root).len() as int;
    let all = byte_parts(path);
    assert(all =~= byte_parts(root).push(PartView::Normal(d)).push(PartView::Normal(n)));
    assert(all.subrange(0, k) =~= byte_parts(root));
    lemma_bytes_back(dir);
    lemma_bytes_back(name);
    let names = names_below(path, root)->0;
    assert(names =~= seq![char_bytes(d), char_bytes(n)]);
}

/// A path that goes on behind the directory and the name leads to just these too, whatever
/// stands there.
pub proof fn law_longer_path_leads_to_file(
    root: Seq<u8>,
    dir: Seq<u8>,
    name: Seq<u8>,
    more: Seq<u8>,
)
    requires
        root.len() > 0 && root.last() != 47,
        plain_name(byte_chars(dir)),
        plain_name(byte_chars(name)),
        valid_utf8(dir) && valid_utf8(name),
    ensures
        file_below(root + seq![47u8] + dir + seq![47u8] + name + seq![47u8] + more, root) == Some(
            (decode_utf8(dir), decode_utf8(name)),
        ),
{
    let front = root + seq![47u8] + dir + seq![47u8] + name;
    let path = front + seq![47u8] + more;
    let f = byte_chars(front);
    let m = byte_chars(more);
    law_path_leads_to_file(root, dir, name);
    assert(47u8 as char == '/');
    assert(byte_chars(path) =~= f + seq!['/'] + m);
    law_behind_stays_under(f, m);
    let names = names_below(front, root)->0;
    let k = byte_parts(root).len() as int;
    let n = byte_parts(front).len() as int;
    let short = byte_parts(front);
    let long = byte_parts(path);
    assert(long.subrange(0, n) =~= short);
    assert forall|i: int| 0 <= i < n implies long[i] == short[i] by {
        assert(long.subrange(0, n)[i] == short[i]);
    }
    assert forall|i: int| 0 <= i < k implies long[i] == byte_parts(root)[i] by {
        assert(short.subrange(0, k)[i] == byte_parts(root)[i]);
    }
    assert(long.subrange(0, k) =~= byte_parts(root));
    let all = names_below(path, root)->0;
    assert(all[0] == names[0] && all[1] == names[1]);
}

/// A path that is one name behind the root, or the root itself, leads to no file.
pub proof fn law_short_path_leads_nowhere(root: Seq<u8>, name: Seq<u8>)
    requires
        root.len() > 0,
        !byte_chars(name).contains('/'),
    ensures
        file_below(root, root) is None,
        file_below(root + seq![47u8] + name, root) is None,
{
    let r = byte_chars(root);
    let n = byte_chars(name);
    assert(47u8 as char == '/');
    assert(byte_chars(root + seq![47u8] + name) =~= r + seq!['/'] + n);
    law_piece_adds_part(r, n);
}

/// What stands behind a path of the root is told by its names: a step up by two dots, any
/// other name by its bytes, and the root of the disk by a slash.
pub proof fn law_names_below_are_told(root: Seq<u8>, name: Seq<u8>)
    requires
        root.len() > 0,
        !byte_chars(name).contains('/'),
        name.len() > 0 && name != seq![46u8],
    ensures
        names_below(root + seq![47u8] + name, root) == Some(seq![name]),
        root[0] == 47 ==> (names_below(root, seq![]) matches Some(names) && names.len() > 0
            && names[0] == seq![47u8]),
{
    let r = byte_chars(root);
    let n = byte_chars(name);
    let path = root + seq![47u8] + name;
    assert(47u8 as char == '/' && '/' as u8 == 47);
    assert(46u8 as char == '.' && '.' as u8 == 46);
    assert(byte_chars(path) =~= r + seq!['/'] + n);
    assert(n != seq!['.']) by {
        if n == seq!['.'] {
            lemma_bytes_back(name);
            assert(char_bytes(seq!['.']) =~= seq![46u8]);
        }
    }
    law_piece_adds_part(r, n);
    lemma_bytes_back(name);
    let k = byte_parts(root).len() as int;
    assert(byte_parts(path).subrange(0, k) =~= byte_parts(root));
    assert(names_below(path, root)->0 =~= seq![name]);
    if root[0] == 47 {
        assert(byte_chars(seq![]) =~= seq![]);
        law_dots_alone();
        assert(byte_parts(root).subrange(0, 0) =~= byte_parts(seq![]));
        law_absolute_begins_with_root(r);
        assert(char_bytes(seq!['/']) =~= seq![47u8]);
        assert(names_below(root, seq![])->0[0] =~= seq![47u8]);
    }
}

/// A byte that is a slash as a character is the byte of the slash.
proof fn lemma_byte_is_slash(b: u8)
    ensures
        b as char == '/' ==> b == 47,
{
}

/// Bytes as characters, as bytes again, are the bytes.
proof fn lemma_bytes_back(bytes: Seq<u8>)
    ensures
        char_bytes(byte_chars(bytes)) == bytes,
{
    assert forall|k: int| 0 <= k < bytes.len() implies char_bytes(byte_chars(bytes))[k]
        == bytes[k] by {
        lemma_byte_back(bytes[k]);
    }
    assert(char_bytes(byte_chars(bytes)) =~= bytes);
}

/// A byte as a character, as a byte again, is the byte.
proof fn lemma_byte_back(b: u8)
    ensures
        b as char as u8 == b,
{
}

/// A file of the catalogue that is created or changed is followed where no change of its path
/// was followed in the last second, and only there.
pub proof fn law_changes_are_followed(
    before: FileWatcher,
    after: FileWatcher,
    change: Change,
    dir: Seq<u8>,
    name: Seq<u8>,
    now: u128,
    r: Option<ChangedFile>,
)
    requires
        before.root().len() > 0 && before.root().last() != 47,
        plain_name(byte_chars(dir)),
        plain_name(byte_chars(name)),
        valid_utf8(dir) && valid_utf8(name),
        before.follows(
            after,
            change,
            before.root() + seq![47u8] + dir + seq![47u8] + name,
            now,
            r,
        ),
    ensures
        ({
            let path = before.root() + seq![47u8] + dir + seq![47u8] + name;
            &&& r is Some <==> {
                &&& change == Change::Create || change == Change::Modify
                &&& all_digits(decode_utf8(dir))
                &&& before.kind().takes(decode_utf8(name))
                &&& before.last_followed(byte_parts(path)) matches Some(t) ==> now - t
                    >= 1_000_000_000
            }
            &&& r matches Some(f) ==> {
                &&& f.dir@ == decode_utf8(dir)
                &&& f.filename@ == decode_utf8(name)
                &&& f.kind == before.kind()
                &&& after.last_followed(byte_parts(path)) == Some(now)
            }
            &&& r is None ==> after.last_followed(byte_parts(path)) == before.last_followed(
                byte_parts(path),
            )
        }),
{
    law_path_leads_to_file(before.root(), dir, name);
}

/// A path that does not lie below the root is not followed.
pub proof fn law_paths_elsewhere_are_not_followed(
    before: FileWatcher,
    after: FileWatcher,
    change: Change,
    path: Seq<u8>,
    now: u128,
    r: Option<ChangedFile>,
)
    requires
        before.follows(after, change, path, now, r),
        !byte_parts(before.root()).is_prefix_of(byte_parts(path)),
    ensures
        r is None,
{
}

/// A file that is gone is taken out, and no other: the statement is about the rows of its
/// kind, its directory and its name. One that is there is added with the values of its row.
pub proof fn law_catalogue_is_settled(
    file: ChangedFile,
    exists: bool,
    r: Statement,
    row: FileRow,
    added: FileRow,
    i: int,
)
    requires
        file.is_settled_by(exists, r),
        is_row_of(added, file.kind, file.dir@, file.filename@),
    ensures
        !exists ==> {
            &&& r.params@.len() == 3
            &&& row_has(row, r.params@[0], r.params@[1], r.params@[2]) <==> {
                &&& row.kind matches Some(k) && k@ == (match file.kind {
                    MediaKind::Pixiv => "pixiv"@,
                    MediaKind::Plus => "plus"@,
                })
                &&& row.dir matches Some(d) && d@ == file.dir@
                &&& row.filename matches Some(f) && f@ == file.filename@
            }
        },
        exists ==> {
            &&& r.params@.len() == 6
            &&& 0 <= i < 6 ==> opt_text(r.params@[i]) == insert_values(added)[i]
        },
{
    if exists {
        law_row_values(added, file.kind, file.dir@, file.filename@);
        law_statement_says(r, insert_sql(), row_values(file.kind, file.dir@, file.filename@), i);
    } else {
        let params = seq![Some(file.kind.label()), Some(file.dir@), Some(file.filename@)];
        let sql = "DELETE FROM files WHERE type=? AND dir=? AND filename=?"@;
        law_statement_says(r, sql, params, 0);
        law_statement_says(r, sql, params, 1);
        law_statement_says(r, sql, params, 2);
    }
}

/// A name that is UTF-8 is its text; one that is not is empty.
pub proof fn law_text_of_name(name: Seq<u8>, text: Seq<char>)
    ensures
        name_text(encode_utf8(text)) == text,
        !valid_utf8(name) ==> name_text(name).len() == 0,
{
    encode_utf8_valid_utf8(text);
    encode_utf8_decode_utf8(text);
}

/// The disk is scanned where the catalogue holds no row, and only there.
pub proof fn law_empty_catalogue_is_filled(rows: Seq<FileRow>)
    ensures
        is_unfilled(rows.len() as int) <==> forall|row: FileRow| !rows.contains(row),
{
    if rows.len() > 0 {
        assert(rows.contains(rows[0]));
    }
}

/// A new watcher follows the first change of every file of the catalogue below its directory.
pub proof fn law_fresh_watcher_follows(
    before: FileWatcher,
    after: FileWatcher,
    kind: MediaKind,
    root: Seq<u8>,
    change: Change,
    path: Seq<u8>,
    now: u128,
    r: Option<ChangedFile>,
)
    requires
        before.is_fresh(kind, root),
        before.follows(after, change, path, now, r),
        change != Change::Other,
        file_below(path, root) matches Some((dir, filename)) && belongs(kind, dir, filename),
    ensures
        r matches Some(f) && f.kind == kind && Some((f.dir@, f.filename@)) == file_below(path, root),
{
}

/// Whatever the name of a video is, what stands before its extension tells its author, id and
/// title where it is made of them, and nothing where it is not.
pub proof fn law_stem_tells_video(row: FileRow, dir: Seq<char>, filename: Seq<char>, name: PlusName)
    requires
        is_row_of(row, MediaKind::Plus, dir, filename),
    ensures
        plus_name_ok(name) && file_stem_of(filename) == Some(plus_stem(name)) ==> {
            &&& opt_text(row.authorName) == Some(name.author)
            &&& opt_text(row.authorId) == Some(name.id)
            &&& opt_text(row.title) == Some(name.title)
        },
        !(exists|told: PlusName|
            plus_name_ok(told) && file_stem_of(filename) == Some(#[trigger] plus_stem(told))) ==> {
            &&& row.authorName is None
            &&& row.authorId is None
            &&& row.title is None
        },
        opt_text(row.kind) == Some("plus"@),
        opt_text(row.dir) == Some(dir),
        opt_text(row.filename) == Some(filename),
        row.id is None,
{
    if plus_name_ok(name) && file_stem_of(filename) == Some(plus_stem(name)) {
        law_plus_name_told(name);
    }
    if let Some(stem) = file_stem_of(filename) {
        if let Some(told) = plus_name(stem) {
            law_plus_name_made(stem);
            assert(plus_name_ok(told) && file_stem_of(filename) == Some(plus_stem(told)));
        }
    }
}

/// A name is of a kind where it ends, in small letters, in one of the extensions of the kind,
/// whatever stands before.
pub proof fn law_kind_is_told_by_end(name: Seq<char>, front: Seq<char>, end: Seq<char>)
    ensures
        lowered(name) == front + end && end == ".mp4"@ ==> MediaKind::Plus.takes(name),
        lowered(name) == front + end && (end == ".jpg"@ || end == ".jpeg"@ || end == ".png"@ || end
            == ".gif"@ || end == ".webp"@) ==> MediaKind::Pixiv.takes(name),
        MediaKind::Plus.takes(name) ==> lowered(name) == lowered(name).take(
            lowered(name).len() - ".mp4"@.len(),
        ) + ".mp4"@,
        MediaKind::Pixiv.takes(name) ==> {
            let low = lowered(name);
            ||| low == low.take(low.len() - ".jpg"@.len()) + ".jpg"@
            ||| low == low.take(low.len() - ".jpeg"@.len()) + ".jpeg"@
            ||| low == low.take(low.len() - ".png"@.len()) + ".png"@
            ||| low == low.take(low.len() - ".gif"@.len()) + ".gif"@
            ||| low == low.take(low.len() - ".webp"@.len()) + ".webp"@
        },
{
    let low = lowered(name);
    lemma_ends_in(low, front, end);
    lemma_ends_in(low, front, ".mp4"@);
    lemma_ends_in(low, front, ".jpg"@);
    lemma_ends_in(low, front, ".jpeg"@);
    lemma_ends_in(low, front, ".png"@);
    lemma_ends_in(low, front, ".gif"@);
    lemma_ends_in(low, front, ".webp"@);
}

/// A text ends in another where it is some text and the other behind it.
proof fn lemma_ends_in(s: Seq<char>, front: Seq<char>, end: Seq<char>)
    ensures
        end.is_suffix_of(s) ==> s == s.take(s.len() - end.len()) + end,
        s == front + end ==> end.is_suffix_of(s),
{
    if end.is_suffix_of(s) {
        assert(s =~= s.take(s.len() - end.len()) + end);
    }
    if s == front + end {
        assert(s.subrange(s.len() - end.len(), s.len() as int) =~= end);
    }
}

} // verus!
