//! Paths as text, with `/` between their parts.
use vstd::prelude::*;

use crate::text::{chars_of, find_last_char, pieces, same_text, text_between};
use crate::text::{index_from, last_index_before, lemma_index_from, lemma_index_from_is};
use crate::text::{lemma_last_index_is, opt_text, split_on, texts};

verus! {

// ===================== Parts =====================
/// One part of a path.
pub enum PathPart {
    /// The `/` that an absolute path begins with.
    Root,
    /// The `.` that a relative path begins with.
    Current,
    /// A `..`.
    Parent,
    /// Any other name.
    Normal(String),
}

/// What a part of a path is.
pub enum PartView {
    Root,
    Current,
    Parent,
    Normal(Seq<char>),
}

impl View for PathPart {
    type V = PartView;

    open spec fn view(&self) -> PartView {
        match self {
            PathPart::Root => PartView::Root,
            PathPart::Current => PartView::Current,
            PathPart::Parent => PartView::Parent,
            PathPart::Normal(name) => PartView::Normal(name@),
        }
    }
}

/// What the parts are.
pub open spec fn part_views(parts: Seq<PathPart>) -> Seq<PartView> {
    parts.map_values(|p: PathPart| p@)
}

/// The part that a piece between two `/` makes: none where it is empty, nor where it
/// is a `.` that the path does not begin with.
pub open spec fn part_of(piece: Seq<char>, first: bool) -> Seq<PartView> {
    if piece.len() == 0 {
        seq![]
    } else if piece == seq!['.'] {
        if first {
            seq![PartView::Current]
        } else {
            seq![]
        }
    } else if piece == seq!['.', '.'] {
        seq![PartView::Parent]
    } else {
        seq![PartView::Normal(piece)]
    }
}

/// The parts that the pieces make, one after the other.
pub open spec fn parts_of_pieces(pieces: Seq<Seq<char>>) -> Seq<PartView>
    decreases pieces.len(),
{
    if pieces.len() == 0 {
        seq![]
    } else {
        parts_of_pieces(pieces.drop_last()) + part_of(pieces.last(), pieces.len() == 1)
    }
}

/// The path begins with a `/`.
pub open spec fn is_absolute(path: Seq<char>) -> bool {
    path.len() > 0 && path[0] == '/'
}

/// The parts of a path. Repeated and final `/` make none.
pub open spec fn path_parts(path: Seq<char>) -> Seq<PartView> {
    (if is_absolute(path) {
        seq![PartView::Root]
    } else {
        seq![]
    }) + parts_of_pieces(split_on(path, '/'))
}

/// `path` is `base`, or lies below it: its parts begin with the parts of `base`.
pub open spec fn path_under(path: Seq<char>, base: Seq<char>) -> bool {
    path_parts(base).is_prefix_of(path_parts(path))
}

/// Tells whether the path begins with a `/`.
pub fn absolute(path: &str) -> (r: bool)
    ensures
        r == is_absolute(path@),
{
    let x: Vec<char> = chars_of(path);
    x.len() > 0 && x[0] == '/'
}

/// Tells whether the piece is `.` (one dot) or `..` (two dots).
fn dots(piece: &str, count: usize) -> (r: bool)
    requires
        1 <= count <= 2,
    ensures
        count == 1 ==> r == (piece@ == seq!['.']),
        count == 2 ==> r == (piece@ == seq!['.', '.']),
{
    let x: Vec<char> = chars_of(piece);
    if count == 1 {
        let r: bool = x.len() == 1 && x[0] == '.';
        proof {
            if r {
                assert(piece@ =~= seq!['.']);
            }
        }
        r
    } else {
        let r: bool = x.len() == 2 && x[0] == '.' && x[1] == '.';
        proof {
            if r {
                assert(piece@ =~= seq!['.', '.']);
            }
        }
        r
    }
}

/// The parts of a path.
pub fn parts(path: &str) -> (r: Vec<PathPart>)
    ensures
        part_views(r@) == path_parts(path@),
{
    let cut: Vec<String> = pieces(path, '/');
    let mut out: Vec<PathPart> = Vec::new();
    if absolute(path) {
        out.push(PathPart::Root);
    }
    let ghost head = part_views(out@);
    let ghost all = split_on(path@, '/');
    proof {
        assert(head =~= (if is_absolute(path@) {
            seq![PartView::Root]
        } else {
            seq![]
        }));
        assert(head + parts_of_pieces(all.take(0)) =~= head);
    }
    let mut i: usize = 0;
    while i < cut.len()
        invariant
            i <= cut@.len(),
            texts(cut@) == all,
            part_views(out@) == head + parts_of_pieces(all.take(i as int)),
        decreases cut@.len() - i,
    {
        let ghost before = out@;
        proof {
            assert(cut@[i as int]@ == all[i as int]);
            assert(all.take(i + 1).drop_last() =~= all.take(i as int));
            assert(all.take(i + 1).last() == all[i as int]);
        }
        let piece: &str = cut[i].as_str();
        if piece.is_empty() {
        } else if dots(piece, 1) {
            if i == 0 {
                out.push(PathPart::Current);
            }
        } else if dots(piece, 2) {
            out.push(PathPart::Parent);
        } else {
            out.push(PathPart::Normal(piece.to_owned()));
        }
        proof {
            assert(part_views(out@) =~= part_views(before) + part_of(all[i as int], i == 0));
        }
        i = i + 1;
    }
    proof {
        assert(all.take(all.len() as int) =~= all);
    }
    out
}

/// Tells whether two parts are the same.
fn same_part(a: &PathPart, b: &PathPart) -> (r: bool)
    ensures
        r == (a@ == b@),
{
    match (a, b) {
        (PathPart::Root, PathPart::Root) => true,
        (PathPart::Current, PathPart::Current) => true,
        (PathPart::Parent, PathPart::Parent) => true,
        (PathPart::Normal(x), PathPart::Normal(y)) => same_text(x.as_str(), y.as_str()),
        _ => false,
    }
}

/// Tells whether `path` is `base`, or lies below it.
pub fn is_under(path: &str, base: &str) -> (r: bool)
    ensures
        r == path_under(path@, base@),
{
    let p: Vec<PathPart> = parts(path);
    let b: Vec<PathPart> = parts(base);
    let ghost pv = part_views(p@);
    let ghost bv = part_views(b@);
    if b.len() > p.len() {
        return false;
    }
    let mut i: usize = 0;
    while i < b.len()
        invariant
            i <= b@.len() <= p@.len(),
            pv == part_views(p@),
            bv == part_views(b@),
            pv == path_parts(path@),
            bv == path_parts(base@),
            forall|k: int| 0 <= k < i ==> pv[k] == bv[k],
        decreases b@.len() - i,
    {
        if !same_part(&p[i], &b[i]) {
            assert(pv.subrange(0, bv.len() as int)[i as int] != bv[i as int]);
            return false;
        }
        i = i + 1;
    }
    assert(pv.subrange(0, bv.len() as int) =~= bv);
    true
}

// ===================== Names =====================
/// The name that a path ends in; none where it ends in `..`, or has no name at all.
pub open spec fn file_name_of(path: Seq<char>) -> Option<Seq<char>> {
    let p = path_parts(path);
    if p.len() > 0 {
        match p.last() {
            PartView::Normal(name) => Some(name),
            _ => None,
        }
    } else {
        None
    }
}

/// The name that a path ends in, without its extension: up to the last dot, unless
/// that is the dot the name begins with.
pub open spec fn file_stem_of(path: Seq<char>) -> Option<Seq<char>> {
    match file_name_of(path) {
        Some(name) => {
            let dot = last_index_before(name, '.', name.len() as int);
            if dot > 0 {
                Some(name.subrange(0, dot))
            } else {
                Some(name)
            }
        },
        None => None,
    }
}

/// What stands behind the last dot of the name that a path ends in, unless that is
/// the dot the name begins with.
pub open spec fn extension_of(path: Seq<char>) -> Option<Seq<char>> {
    match file_name_of(path) {
        Some(name) => {
            let dot = last_index_before(name, '.', name.len() as int);
            if dot > 0 {
                Some(name.subrange(dot + 1, name.len() as int))
            } else {
                None
            }
        },
        None => None,
    }
}

/// The name of a path of one piece is the path, where there is a name, and its stem is
/// what it begins with.
pub proof fn lemma_name_alone(path: Seq<char>)
    requires
        !path.contains('/'),
    ensures
        file_name_of(path) matches Some(name) ==> name == path,
        file_stem_of(path) matches Some(stem) ==> stem.is_prefix_of(path),
{
    lemma_index_from(path, '/', 0);
    let i = index_from(path, '/', 0);
    if i < path.len() {
        assert(path.contains(path[i]));
    }
    if path.len() > 0 {
        assert(path.contains(path[0]));
    }
    let cut = split_on(path, '/');
    assert(cut =~= seq![path]);
    assert(cut.drop_last() =~= seq![]);
    assert(parts_of_pieces(cut.drop_last()) =~= seq![]);
    assert(path_parts(path) =~= part_of(path, true));
    if file_name_of(path) is Some {
        assert(file_name_of(path) == Some(path));
        let n = path.len() as int;
        assert(path.subrange(0, n) =~= path);
        lemma_last_index_before(path, '.', n);
        let dot = last_index_before(path, '.', n);
        if dot > 0 {
            assert(path.subrange(0, dot) =~= path.subrange(0, dot).subrange(0, dot));
        }
    }
}

/// `last_index_before` lies before `end`.
proof fn lemma_last_index_before(s: Seq<char>, c: char, end: int)
    requires
        0 <= end <= s.len(),
    ensures
        -1 <= last_index_before(s, c, end) < end,
    decreases end,
{
    if end > 0 && s[end - 1] != c {
        lemma_last_index_before(s, c, end - 1);
    }
}

/// The name that a path ends in.
pub fn file_name(path: &str) -> (r: Option<String>)
    ensures
        opt_text(r) == file_name_of(path@),
{
    let mut p: Vec<PathPart> = parts(path);
    let ghost views = part_views(p@);
    match p.pop() {
        Some(last) => {
            proof {
                assert(views.last() == last@);
            }
            match last {
                PathPart::Normal(name) => Some(name),
                _ => None,
            }
        },
        None => None,
    }
}

/// The name that a path ends in, without its extension.
pub fn file_stem(path: &str) -> (r: Option<String>)
    ensures
        opt_text(r) == file_stem_of(path@),
{
    match file_name(path) {
        Some(name) => {
            let x: Vec<char> = chars_of(name.as_str());
            match find_last_char(&x, '.', x.len()) {
                Some(dot) => {
                    if dot > 0 {
                        Some(text_between(&x, 0, dot))
                    } else {
                        Some(name)
                    }
                },
                None => Some(name),
            }
        },
        None => None,
    }
}

/// What stands behind the last dot of the name that a path ends in.
pub fn extension(path: &str) -> (r: Option<String>)
    ensures
        opt_text(r) == extension_of(path@),
{
    match file_name(path) {
        Some(name) => {
            let x: Vec<char> = chars_of(name.as_str());
            match find_last_char(&x, '.', x.len()) {
                Some(dot) => {
                    if dot > 0 {
                        Some(text_between(&x, dot + 1, x.len()))
                    } else {
                        None
                    }
                },
                None => None,
            }
        },
        None => None,
    }
}

// ===================== Joining =====================
/// `part` below `base`; `part` alone where it is absolute.
pub open spec fn joined(base: Seq<char>, part: Seq<char>) -> Seq<char> {
    if is_absolute(part) {
        part
    } else if base.len() > 0 && base.last() != '/' {
        base + seq!['/'] + part
    } else {
        base + part
    }
}

/// `part` below `base`.
pub fn join(base: &str, part: &str) -> (r: String)
    ensures
        r@ == joined(base@, part@),
{
    if absolute(part) {
        return part.to_owned();
    }
    let x: Vec<char> = chars_of(base);
    let mut out: String = base.to_owned();
    if x.len() > 0 && x[x.len() - 1] != '/' {
        out.push('/');
        proof {
            assert(out@ =~= base@ + seq!['/']);
        }
    }
    out.append(part);
    out
}

/// Cutting two texts with a separator between them cuts each of them.
proof fn lemma_split_around(a: Seq<char>, b: Seq<char>, c: char)
    ensures
        split_on(a + seq![c] + b, c) == split_on(a, c) + split_on(b, c),
    decreases a.len(),
{
    let s = a + seq![c] + b;
    let i = index_from(a, c, 0);
    lemma_index_from(a, c, 0);
    assert forall|k: int| 0 <= k < i implies s[k] != c by {
        assert(s[k] == a[k]);
    }
    lemma_index_from_is(s, c, 0, i);
    if i < a.len() {
        let rest = a.subrange(i + 1, a.len() as int);
        lemma_split_around(rest, b, c);
        assert(s.subrange(i + 1, s.len() as int) =~= rest + seq![c] + b);
        assert(s.subrange(0, i) =~= a.subrange(0, i));
        assert(split_on(s, c) =~= split_on(a, c) + split_on(b, c));
    } else {
        assert(s.subrange(i + 1, s.len() as int) =~= b);
        assert(s.subrange(0, i) =~= a);
        assert(split_on(s, c) =~= split_on(a, c) + split_on(b, c));
    }
}

/// The parts of the first pieces come first.
proof fn lemma_parts_prefix(x: Seq<Seq<char>>, y: Seq<Seq<char>>)
    ensures
        parts_of_pieces(x).is_prefix_of(parts_of_pieces(x + y)),
    decreases y.len(),
{
    if y.len() == 0 {
        assert(x + y =~= x);
        let p = parts_of_pieces(x);
        assert(p.subrange(0, p.len() as int) =~= p);
    } else {
        lemma_parts_prefix(x, y.drop_last());
        assert((x + y).drop_last() =~= x + y.drop_last());
        let p = parts_of_pieces(x);
        let q = parts_of_pieces(x + y.drop_last());
        let r = parts_of_pieces(x + y);
        assert(q.subrange(0, p.len() as int) =~= p);
        assert(r.subrange(0, p.len() as int) =~= q.subrange(0, p.len() as int));
    }
}

/// A path joined below `base` stays below it, unless the joined part is absolute.
pub proof fn law_join_stays_under(base: Seq<char>, part: Seq<char>)
    requires
        !is_absolute(part),
    ensures
        path_under(joined(base, part), base),
{
    let whole = joined(base, part);
    if base.len() == 0 {
        assert(split_on(base, '/') =~= seq![base]);
        reveal_with_fuel(parts_of_pieces, 2);
        assert(path_parts(base) =~= seq![]);
        assert(path_parts(whole).subrange(0, 0) =~= seq![]);
    } else {
        let stem = if base.last() != '/' {
            base
        } else {
            base.drop_last()
        };
        assert(whole =~= stem + seq!['/'] + part);
        lemma_split_around(stem, part, '/');
        lemma_parts_prefix(split_on(stem, '/'), split_on(part, '/'));
        if base.last() == '/' {
            let none = Seq::<char>::empty();
            assert(base =~= stem + seq!['/'] + none);
            lemma_split_around(stem, none, '/');
            assert(split_on(none, '/') =~= seq![none]);
            let ps = split_on(stem, '/') + seq![none];
            assert(ps.drop_last() =~= split_on(stem, '/'));
            assert(ps.last() =~= none);
            assert(parts_of_pieces(ps) =~= parts_of_pieces(split_on(stem, '/')));
        }
        let p = parts_of_pieces(split_on(stem, '/'));
        let q = parts_of_pieces(split_on(whole, '/'));
        assert(q.subrange(0, p.len() as int) =~= p);
        assert(is_absolute(whole) == is_absolute(base)) by {
            assert(whole[0] == base[0]);
        }
        let head: Seq<PartView> = if is_absolute(base) {
            seq![PartView::Root]
        } else {
            seq![]
        };
        assert(path_parts(base) =~= head + p);
        assert(path_parts(whole) =~= head + q);
        assert((head + q).subrange(0, (head + p).len() as int) =~= head + p) by {
            assert forall|k: int| 0 <= k < (head + p).len() implies (head + q)[k] == (head + p)[k] by {
                if k >= head.len() {
                    assert(q.subrange(0, p.len() as int)[k - head.len()] == p[k - head.len()]);
                }
            }
        }
    }
}

/// Being below is handed down: what lies below a path that lies below `base` lies
/// below `base`.
pub proof fn law_under_under(path: Seq<char>, middle: Seq<char>, base: Seq<char>)
    requires
        path_under(path, middle),
        path_under(middle, base),
    ensures
        path_under(path, base),
{
    let p = path_parts(path);
    let m = path_parts(middle);
    let b = path_parts(base);
    assert forall|k: int| 0 <= k < b.len() implies p[k] == b[k] by {
        assert(p.subrange(0, m.len() as int)[k] == m[k]);
        assert(m.subrange(0, b.len() as int)[k] == b[k]);
    }
    assert(p.subrange(0, b.len() as int) =~= b);
}

// ===================== Paths as keys =====================
/// How a part of a path is written.
pub open spec fn part_text(part: PartView) -> Seq<char> {
    match part {
        PartView::Root => seq![],
        PartView::Current => seq!['.'],
        PartView::Parent => seq!['.', '.'],
        PartView::Normal(name) => name,
    }
}

/// The parts of a path, each with a `/` behind it.
pub open spec fn parts_text(parts: Seq<PartView>) -> Seq<char>
    decreases parts.len(),
{
    if parts.len() == 0 {
        seq![]
    } else {
        parts_text(parts.drop_last()) + part_text(parts.last()) + seq!['/']
    }
}

/// The path with one `/` behind each of its parts.
pub fn tidy_path(path: &str) -> (r: String)
    ensures
        r@ == parts_text(path_parts(path@)),
{
    let all: Vec<PathPart> = parts(path);
    let ghost views = part_views(all@);
    let mut out: String = String::new();
    assert(out@ =~= parts_text(views.take(0)));
    let mut i: usize = 0;
    while i < all.len()
        invariant
            i <= all@.len(),
            views == part_views(all@),
            out@ == parts_text(views.take(i as int)),
        decreases all@.len() - i,
    {
        let ghost before = out@;
        match &all[i] {
            PathPart::Root => {},
            PathPart::Current => {
                out.push('.');
            },
            PathPart::Parent => {
                out.push('.');
                out.push('.');
            },
            PathPart::Normal(name) => {
                out.append(name.as_str());
            },
        }
        assert(out@ =~= before + part_text(views[i as int]));
        out.push('/');
        proof {
            assert(views.take(i + 1).drop_last() =~= views.take(i as int));
            assert(out@ =~= parts_text(views.take(i + 1)));
        }
        i = i + 1;
    }
    assert(views.take(views.len() as int) =~= views);
    out
}

/// A part as paths have them: a name is not empty, holds no `/`, and is neither `.` nor
/// `..`.
spec fn part_ok(part: PartView) -> bool {
    part matches PartView::Normal(name) ==> {
        &&& name.len() > 0
        &&& !name.contains('/')
        &&& name != seq!['.']
        &&& name != seq!['.', '.']
    }
}

/// A piece between separators holds none.
proof fn lemma_split_pieces(s: Seq<char>, c: char, i: int)
    requires
        0 <= i < split_on(s, c).len(),
    ensures
        !split_on(s, c)[i].contains(c),
    decreases s.len(),
{
    let k = index_from(s, c, 0);
    lemma_index_from(s, c, 0);
    let first = s.subrange(0, k);
    if i == 0 {
        if k == s.len() {
            assert(first =~= s);
        }
        if first.contains(c) {
            let j = choose|j: int| 0 <= j < first.len() && first[j] == c;
            assert(s[j] == c);
        }
    } else {
        lemma_split_pieces(s.subrange(k + 1, s.len() as int), c, i - 1);
    }
}

/// Pieces that hold no `/` make parts as paths have them.
proof fn lemma_parts_ok(cut: Seq<Seq<char>>, i: int)
    requires
        forall|k: int| 0 <= k < cut.len() ==> !(#[trigger] cut[k]).contains('/'),
        0 <= i < parts_of_pieces(cut).len(),
    ensures
        part_ok(parts_of_pieces(cut)[i]),
    decreases cut.len(),
{
    if cut.len() > 0 {
        let init = cut.drop_last();
        if i < parts_of_pieces(init).len() {
            assert forall|k: int| 0 <= k < init.len() implies !(#[trigger] init[k]).contains(
                '/',
            ) by {
                assert(init[k] == cut[k]);
            }
            lemma_parts_ok(init, i);
        } else {
            assert(!cut[cut.len() - 1].contains('/'));
        }
    }
}

/// The parts of a path are as paths have them.
proof fn lemma_path_parts_ok(path: Seq<char>, i: int)
    requires
        0 <= i < path_parts(path).len(),
    ensures
        part_ok(path_parts(path)[i]),
{
    let cut = split_on(path, '/');
    assert forall|k: int| 0 <= k < cut.len() implies !(#[trigger] cut[k]).contains('/') by {
        lemma_split_pieces(path, '/', k);
    }
    let head = if is_absolute(path) {
        1int
    } else {
        0
    };
    if i >= head {
        lemma_parts_ok(cut, i - head);
    }
}

/// A part holds no `/`, and two that are written the same are the same.
proof fn lemma_part_text(a: PartView, b: PartView)
    requires
        part_ok(a),
        part_ok(b),
    ensures
        !part_text(a).contains('/'),
        part_text(a) == part_text(b) ==> a == b,
{
    let dot = seq!['.'];
    let dots = seq!['.', '.'];
    assert(dot.len() == 1 && dots.len() == 2);
}

/// Parts that are written the same are the same.
proof fn lemma_parts_text_same(a: Seq<PartView>, b: Seq<PartView>)
    requires
        forall|i: int| 0 <= i < a.len() ==> part_ok(#[trigger] a[i]),
        forall|i: int| 0 <= i < b.len() ==> part_ok(#[trigger] b[i]),
        parts_text(a) == parts_text(b),
    ensures
        a == b,
    decreases a.len(),
{
    if a.len() == 0 || b.len() == 0 {
        assert(a =~= b);
    } else {
        let x = parts_text(a.drop_last());
        let y = parts_text(b.drop_last());
        let t = part_text(a.last());
        let u = part_text(b.last());
        let whole = parts_text(a);
        assert(part_ok(a[a.len() - 1]) && part_ok(b[b.len() - 1]));
        lemma_part_text(a.last(), b.last());
        lemma_part_text(b.last(), a.last());
        assert(whole == x + t + seq!['/']);
        assert(whole == y + u + seq!['/']);
        if x.len() > y.len() {
            assert(x.last() == '/');
            assert(whole[x.len() - 1] == '/');
            assert(u[x.len() - 1 - y.len()] == '/');
        }
        if y.len() > x.len() {
            assert(y.last() == '/');
            assert(whole[y.len() - 1] == '/');
            assert(t[y.len() - 1 - x.len()] == '/');
        }
        assert(x =~= whole.subrange(0, x.len() as int));
        assert(y =~= whole.subrange(0, x.len() as int));
        assert(t =~= whole.subrange(x.len() as int, whole.len() - 1));
        assert(u =~= whole.subrange(x.len() as int, whole.len() - 1));
        assert forall|i: int| 0 <= i < a.drop_last().len() implies part_ok(
            #[trigger] a.drop_last()[i],
        ) by {
            assert(a.drop_last()[i] == a[i]);
        }
        assert forall|i: int| 0 <= i < b.drop_last().len() implies part_ok(
            #[trigger] b.drop_last()[i],
        ) by {
            assert(b.drop_last()[i] == b[i]);
        }
        lemma_parts_text_same(a.drop_last(), b.drop_last());
        assert(a =~= a.drop_last().push(a.last()));
        assert(b =~= b.drop_last().push(b.last()));
    }
}

/// Paths of different parts are written differently.
pub proof fn lemma_tidy_differ(a: Seq<char>, b: Seq<char>)
    requires
        path_parts(a) != path_parts(b),
    ensures
        parts_text(path_parts(a)) != parts_text(path_parts(b)),
{
    assert forall|i: int| 0 <= i < path_parts(a).len() implies part_ok(
        #[trigger] path_parts(a)[i],
    ) by {
        lemma_path_parts_ok(a, i);
    }
    assert forall|i: int| 0 <= i < path_parts(b).len() implies part_ok(
        #[trigger] path_parts(b)[i],
    ) by {
        lemma_path_parts_ok(b, i);
    }
    if parts_text(path_parts(a)) == parts_text(path_parts(b)) {
        lemma_parts_text_same(path_parts(a), path_parts(b));
    }
}

// ===================== Laws =====================
/// The text is the name of a file: not empty, without `/`, and neither `.` nor `..`.
pub open spec fn plain_name(name: Seq<char>) -> bool {
    &&& name.len() > 0
    &&& !name.contains('/')
    &&& name != seq!['.']
    &&& name != seq!['.', '.']
}

/// A name alone is a path of one part.
pub proof fn law_name_is_one_part(name: Seq<char>)
    requires
        plain_name(name),
    ensures
        path_parts(name) == seq![PartView::Normal(name)],
        file_name_of(name) == Some(name),
        !is_absolute(name),
{
    lemma_name_alone(name);
    assert(name.contains(name[0]));
    lemma_split_alone(name);
    let cut = split_on(name, '/');
    assert(cut.drop_last() =~= seq![]);
    assert(parts_of_pieces(cut.drop_last()) =~= seq![]);
    assert(path_parts(name) =~= seq![PartView::Normal(name)]);
}

/// A text without `/` is one piece.
proof fn lemma_split_alone(name: Seq<char>)
    requires
        !name.contains('/'),
    ensures
        split_on(name, '/') == seq![name],
{
    lemma_index_from(name, '/', 0);
    let i = index_from(name, '/', 0);
    if i < name.len() {
        assert(name.contains(name[i]));
    }
}

/// Joining a name to a path adds one part, the name, behind those of the path.
pub proof fn law_join_adds_name(base: Seq<char>, name: Seq<char>)
    requires
        plain_name(name),
    ensures
        path_parts(joined(base, name)) == path_parts(base).push(PartView::Normal(name)),
{
    let whole = joined(base, name);
    law_name_is_one_part(name);
    lemma_split_alone(name);
    if base.len() == 0 {
        assert(whole =~= name);
        assert(split_on(base, '/') =~= seq![base]);
        reveal_with_fuel(parts_of_pieces, 2);
        assert(path_parts(base) =~= seq![]);
        assert(path_parts(whole) =~= seq![PartView::Normal(name)]);
    } else {
        let stem = if base.last() != '/' {
            base
        } else {
            base.drop_last()
        };
        assert(whole =~= stem + seq!['/'] + name);
        lemma_split_around(stem, name, '/');
        let front = split_on(stem, '/');
        let p = parts_of_pieces(front);
        if base.last() == '/' {
            let none = Seq::<char>::empty();
            assert(base =~= stem + seq!['/'] + none);
            lemma_split_around(stem, none, '/');
            assert(split_on(none, '/') =~= seq![none]);
            let ps = front + seq![none];
            assert(ps.drop_last() =~= front);
            assert(ps.last() =~= none);
            assert(parts_of_pieces(ps) =~= p);
        }
        let all = front + seq![name];
        assert(front.len() > 0);
        assert(all.drop_last() =~= front);
        assert(all.last() == name);
        assert(parts_of_pieces(all) =~= p + seq![PartView::Normal(name)]);
        assert(is_absolute(whole) == is_absolute(base)) by {
            assert(whole[0] == base[0]);
        }
        assert(path_parts(whole) =~= path_parts(base).push(PartView::Normal(name)));
    }
}

/// A `/` behind a path adds no part, nor does `/.`; `/..` adds a step up, and `/` with any
/// other name adds the name.
pub proof fn law_piece_adds_part(path: Seq<char>, piece: Seq<char>)
    requires
        path.len() > 0,
        !piece.contains('/'),
    ensures
        ({
            let longer = path_parts(path + seq!['/'] + piece);
            if piece.len() == 0 || piece == seq!['.'] {
                longer == path_parts(path)
            } else if piece == seq!['.', '.'] {
                longer == path_parts(path).push(PartView::Parent)
            } else {
                longer == path_parts(path).push(PartView::Normal(piece))
            }
        }),
{
    let whole = path + seq!['/'] + piece;
    lemma_split_alone(piece);
    lemma_split_around(path, piece, '/');
    let front = split_on(path, '/');
    let all = front + seq![piece];
    assert(front.len() > 0);
    assert(all.drop_last() =~= front);
    assert(all.last() == piece);
    assert(whole[0] == path[0]);
    let added = part_of(piece, false);
    assert(parts_of_pieces(all) =~= parts_of_pieces(front) + added);
    assert(path_parts(whole) =~= path_parts(path) + added);
}

/// What stands behind a path and a `/` lies below the path.
pub proof fn law_behind_stays_under(path: Seq<char>, more: Seq<char>)
    requires
        path.len() > 0,
    ensures
        path_under(path + seq!['/'] + more, path),
{
    let whole = path + seq!['/'] + more;
    lemma_split_around(path, more, '/');
    lemma_parts_prefix(split_on(path, '/'), split_on(more, '/'));
    assert(whole[0] == path[0]);
    let p = path_parts(path);
    let q = path_parts(whole);
    assert(q.subrange(0, p.len() as int) =~= p);
}

/// Pieces behind others make the parts that they make alone, unless they begin with a dot.
proof fn lemma_parts_behind(x: Seq<Seq<char>>, y: Seq<Seq<char>>)
    requires
        x.len() > 0,
        y.len() > 0 ==> y[0] != seq!['.'],
    ensures
        parts_of_pieces(x + y) == parts_of_pieces(x) + parts_of_pieces(y),
    decreases y.len(),
{
    if y.len() == 0 {
        assert(x + y =~= x);
        assert(parts_of_pieces(x) + parts_of_pieces(y) =~= parts_of_pieces(x));
    } else {
        let rest = y.drop_last();
        if rest.len() > 0 {
            assert(rest[0] == y[0]);
        }
        lemma_parts_behind(x, rest);
        assert((x + y).drop_last() =~= x + rest);
        assert((x + y).last() == y.last());
        if y.len() == 1 {
            assert(y.last() == y[0]);
        }
        assert(part_of(y.last(), false) == part_of(y.last(), y.len() == 1));
        assert(parts_of_pieces(x + y) =~= parts_of_pieces(x) + parts_of_pieces(y));
    }
}

/// Joining a path to another adds its parts behind those of the other, unless it is absolute:
/// then it takes the place of the other.
pub proof fn law_join_adds_parts(base: Seq<char>, part: Seq<char>)
    requires
        split_on(part, '/')[0] != seq!['.'],
    ensures
        is_absolute(part) ==> joined(base, part) == part,
        !is_absolute(part) ==> path_parts(joined(base, part)) == path_parts(base) + path_parts(
            part,
        ),
{
    let whole = joined(base, part);
    if !is_absolute(part) {
        lemma_split_is_some(part);
        if base.len() == 0 {
            assert(whole =~= part);
            law_dots_alone();
            assert(base =~= seq![]);
            assert(path_parts(base) + path_parts(part) =~= path_parts(part));
        } else {
            let stem = if base.last() != '/' {
                base
            } else {
                base.drop_last()
            };
            assert(whole =~= stem + seq!['/'] + part);
            lemma_split_around(stem, part, '/');
            let front = split_on(stem, '/');
            let behind = split_on(part, '/');
            if base.last() == '/' {
                let none = Seq::<char>::empty();
                assert(base =~= stem + seq!['/'] + none);
                lemma_split_around(stem, none, '/');
                assert(split_on(none, '/') =~= seq![none]);
                let ps = front + seq![none];
                assert(ps.drop_last() =~= front);
                assert(ps.last() =~= none);
                assert(parts_of_pieces(ps) =~= parts_of_pieces(front));
            }
            lemma_split_is_some(stem);
            lemma_parts_behind(front, behind);
            assert(whole[0] == base[0]);
            assert(path_parts(whole) =~= path_parts(base) + path_parts(part));
        }
    }
}

/// A text has at least one piece.
proof fn lemma_split_is_some(s: Seq<char>)
    ensures
        split_on(s, '/').len() > 0,
{
}

/// The name that a path ends in is the one behind its last slash, and its stem and its
/// extension are those of that name.
pub proof fn law_name_stands_at_the_end(path: Seq<char>, name: Seq<char>)
    requires
        path.len() > 0,
        plain_name(name),
    ensures
        file_name_of(path + seq!['/'] + name) == Some(name),
        file_stem_of(path + seq!['/'] + name) == file_stem_of(name),
        extension_of(path + seq!['/'] + name) == extension_of(name),
        file_name_of(path + seq!['/', '.', '.']) is None,
        file_stem_of(path + seq!['/', '.', '.']) is None,
        extension_of(path + seq!['/', '.', '.']) is None,
{
    let up = seq!['.', '.'];
    law_piece_adds_part(path, name);
    law_name_is_one_part(name);
    assert(path + seq!['/', '.', '.'] =~= path + seq!['/'] + up);
    if up.contains('/') {
        let k = choose|k: int| 0 <= k < up.len() && up[k] == '/';
        assert(up[k] == '.');
    }
    law_piece_adds_part(path, up);
}

/// A path of one `.` is the directory itself, one of `..` a step up.
pub proof fn law_dots_alone()
    ensures
        path_parts(seq!['.']) == seq![PartView::Current],
        path_parts(seq!['.', '.']) == seq![PartView::Parent],
        path_parts(seq![]) == Seq::<PartView>::empty(),
{
    lemma_split_alone(seq!['.']);
    lemma_split_alone(seq!['.', '.']);
    lemma_split_alone(seq![]);
    reveal_with_fuel(parts_of_pieces, 2);
    assert(seq!['.'] != seq!['.', '.']) by {
        assert(seq!['.'].len() != seq!['.', '.'].len());
    }
    assert(path_parts(seq!['.']) =~= seq![PartView::Current]);
    assert(path_parts(seq!['.', '.']) =~= seq![PartView::Parent]);
    assert(path_parts(seq![]) =~= Seq::<PartView>::empty());
}

/// An absolute path begins with the root.
pub proof fn law_absolute_begins_with_root(path: Seq<char>)
    ensures
        is_absolute(path) <==> path.len() > 0 && path[0] == '/',
        is_absolute(path) <==> path_parts(path).len() > 0 && path_parts(path)[0] == PartView::Root,
{
    if !is_absolute(path) && path_parts(path).len() > 0 {
        lemma_no_root(split_on(path, '/'), 0);
    }
}

/// Pieces make no root.
proof fn lemma_no_root(cut: Seq<Seq<char>>, i: int)
    requires
        0 <= i < parts_of_pieces(cut).len(),
    ensures
        parts_of_pieces(cut)[i] != PartView::Root,
    decreases cut.len(),
{
    if cut.len() > 0 && i < parts_of_pieces(cut.drop_last()).len() {
        lemma_no_root(cut.drop_last(), i);
    }
}

/// A name that is made of a stem, a dot and an extension has just this stem and this
/// extension, where the extension holds no dot.
pub proof fn law_stem_and_extension(stem: Seq<char>, ext: Seq<char>)
    requires
        stem.len() > 0,
        !stem.contains('/'),
        ext.len() > 0,
        !ext.contains('/'),
        !ext.contains('.'),
    ensures
        plain_name(stem + seq!['.'] + ext),
        file_stem_of(stem + seq!['.'] + ext) == Some(stem),
        extension_of(stem + seq!['.'] + ext) == Some(ext),
{
    let name = stem + seq!['.'] + ext;
    let n = name.len() as int;
    let at = stem.len() as int;
    if name.contains('/') {
        let k = choose|k: int| 0 <= k < name.len() && name[k] == '/';
        if k < at {
            assert(stem[k] == '/');
            assert(stem.contains('/'));
        } else if k > at {
            assert(ext[k - at - 1] == '/');
            assert(ext.contains('/'));
        }
    }
    assert(name.len() >= 3);
    law_name_is_one_part(name);
    assert forall|k: int| at < k < n implies name[k] != '.' by {
        assert(name[k] == ext[k - at - 1]);
        assert(ext.contains(ext[k - at - 1]));
    }
    lemma_last_index_is(name, '.', n, at);
    assert(name.subrange(0, at) =~= stem);
    assert(name.subrange(at + 1, n) =~= ext);
}

/// A name without a dot, or with one only in front, has no extension and is its own stem.
pub proof fn law_name_without_extension(name: Seq<char>)
    requires
        plain_name(name),
        forall|k: int| 0 < k < name.len() ==> #[trigger] name[k] != '.',
    ensures
        file_stem_of(name) == Some(name),
        extension_of(name) is None,
{
    law_name_is_one_part(name);
    let n = name.len() as int;
    lemma_last_index_before(name, '.', n);
    lemma_last_index_holds(name, '.', n);
}

/// Where `last_index_before` names a place, the character stands there.
proof fn lemma_last_index_holds(s: Seq<char>, c: char, end: int)
    requires
        0 <= end <= s.len(),
    ensures
        last_index_before(s, c, end) >= 0 ==> s[last_index_before(s, c, end)] == c,
    decreases end,
{
    if end > 0 && s[end - 1] != c {
        lemma_last_index_holds(s, c, end - 1);
    }
}

} // verus!
