//! The rows of the file table and the statements that read and change it.
use serde_json::Value;
use vstd::prelude::*;

use crate::json::{json_content, json_null, json_object, json_set, json_signed, json_text, JsonView};
use crate::like::{escape_search_term, escaped};
use crate::text::{chars_of, copy_opt, find_char, find_pair, parse_signed, text_between};
use crate::text::{decimal_text, index_from, is_digit, law_signed_round_trip, lemma_decimal_text};
use crate::text::{lemma_index_from_is, lemma_pair_from, lemma_pair_from_is, opt_text, pair_from};
use crate::text::{all_digits, signed_number, texts};

verus! {

// ===================== Rows =====================
/// A row of the file table, as far as it was asked for.
#[allow(non_snake_case)]
#[derive(Clone, Debug)]
pub struct FileRow {
    pub id: Option<i64>,
    pub kind: Option<String>,
    pub dir: Option<String>,
    pub filename: Option<String>,
    pub authorName: Option<String>,
    pub authorId: Option<String>,
    pub title: Option<String>,
}

/// The database could not answer.
#[derive(Clone, Copy, Debug)]
pub struct DbFailure;

/// What an optional string is in JSON.
pub open spec fn opt_json(s: Option<String>) -> JsonView {
    match s {
        Some(t) => JsonView::Text(t@),
        None => JsonView::Null,
    }
}

/// What an optional string is in JSON.
pub fn json_opt(s: &Option<String>) -> (r: Value)
    ensures
        json_content(r) == opt_json(*s),
{
    match s {
        Some(t) => json_text(t.as_str()),
        None => json_null(),
    }
}

impl FileRow {
    /// A copy of the row.
    pub fn copy(&self) -> (r: FileRow)
        ensures
            r == *self,
    {
        FileRow {
            id: self.id,
            kind: copy_opt(&self.kind),
            dir: copy_opt(&self.dir),
            filename: copy_opt(&self.filename),
            authorName: copy_opt(&self.authorName),
            authorId: copy_opt(&self.authorId),
            title: copy_opt(&self.title),
        }
    }

    /// The row has this directory, and nothing else.
    pub open spec fn has_only_dir(self, dir: Option<String>) -> bool {
        self == (FileRow {
            id: None,
            kind: None,
            dir,
            filename: None,
            authorName: None,
            authorId: None,
            title: None,
        })
    }

    /// A row of which only the directory was asked for.
    pub fn of_dir(dir: Option<String>) -> (r: FileRow)
        ensures
            r.has_only_dir(dir),
    {
        FileRow {
            id: None,
            kind: None,
            dir,
            filename: None,
            authorName: None,
            authorId: None,
            title: None,
        }
    }

    /// The row has this name and this id of an author, and nothing else.
    pub open spec fn has_only_author(self, name: Option<String>, id: Option<String>) -> bool {
        self == (FileRow {
            id: None,
            kind: None,
            dir: None,
            filename: None,
            authorName: name,
            authorId: id,
            title: None,
        })
    }

    /// A row of which only the author was asked for.
    pub fn of_author(name: Option<String>, id: Option<String>) -> (r: FileRow)
        ensures
            r.has_only_author(name, id),
    {
        FileRow {
            id: None,
            kind: None,
            dir: None,
            filename: None,
            authorName: name,
            authorId: id,
            title: None,
        }
    }

    /// The row in JSON: all its columns, null where there is nothing.
    pub open spec fn json_view(self) -> JsonView {
        JsonView::Object(
            Map::empty().insert(
                "id"@,
                match self.id {
                    Some(n) => JsonView::Number(n as int),
                    None => JsonView::Null,
                },
            ).insert("type"@, opt_json(self.kind)).insert("dir"@, opt_json(self.dir)).insert(
                "filename"@,
                opt_json(self.filename),
            ).insert("authorName"@, opt_json(self.authorName)).insert(
                "authorId"@,
                opt_json(self.authorId),
            ).insert("title"@, opt_json(self.title)),
        )
    }

    /// The row in JSON.
    pub fn to_json(&self) -> (r: Value)
        ensures
            json_content(r) == self.json_view(),
    {
        let mut out: Value = json_object();
        let id: Value = match self.id {
            Some(n) => json_signed(n),
            None => json_null(),
        };
        json_set(&mut out, "id", id);
        json_set(&mut out, "type", json_opt(&self.kind));
        json_set(&mut out, "dir", json_opt(&self.dir));
        json_set(&mut out, "filename", json_opt(&self.filename));
        json_set(&mut out, "authorName", json_opt(&self.authorName));
        json_set(&mut out, "authorId", json_opt(&self.authorId));
        json_set(&mut out, "title", json_opt(&self.title));
        out
    }
}

// ===================== Statements =====================
/// A statement of SQL and the values for its question marks, in order.
#[derive(Clone, Debug)]
pub struct Statement {
    pub sql: &'static str,
    pub params: Vec<Option<String>>,
}

/// What the values of a statement are.
pub open spec fn param_views(params: Seq<Option<String>>) -> Seq<Option<Seq<char>>> {
    params.map_values(|p: Option<String>| opt_text(p))
}

/// `%term%`: the pattern of everything that contains the term.
pub open spec fn containing_pattern(term: Seq<char>) -> Seq<char> {
    seq!['%'] + term + seq!['%']
}

/// `prefix%`: the pattern of everything that begins with the prefix.
pub open spec fn beginning_pattern(prefix: Seq<char>) -> Seq<char> {
    prefix + seq!['%']
}

/// The pattern of everything that contains the term.
fn pattern_containing(term: &str) -> (r: String)
    ensures
        r@ == containing_pattern(term@),
{
    let mut out: String = String::new();
    out.push('%');
    out.append(term);
    out.push('%');
    assert(out@ =~= containing_pattern(term@));
    out
}

/// The pattern of everything that begins with the prefix.
fn pattern_beginning(prefix: &str) -> (r: String)
    ensures
        r@ == beginning_pattern(prefix@),
{
    let mut out: String = prefix.to_owned();
    out.push('%');
    assert(out@ =~= beginning_pattern(prefix@));
    out
}

/// The text that adds a file, unless there is one of the same kind, directory and name.
pub open spec fn insert_sql() -> Seq<char> {
    "INSERT OR IGNORE INTO files (type, dir, filename, authorName, authorId, title) VALUES (?1, ?2, ?3, ?4, ?5, ?6)"@
}

/// The values of a row that are put into the catalogue.
pub open spec fn insert_values(row: FileRow) -> Seq<Option<Seq<char>>> {
    seq![
        opt_text(row.kind),
        opt_text(row.dir),
        opt_text(row.filename),
        opt_text(row.authorName),
        opt_text(row.authorId),
        opt_text(row.title),
    ]
}

impl Statement {
    /// The statement is this text with these values.
    pub open spec fn says(self, sql: Seq<char>, params: Seq<Option<Seq<char>>>) -> bool {
        &&& self.sql@ == sql
        &&& param_views(self.params@) == params
    }

    /// A statement without values.
    fn plain(sql: &'static str) -> (r: Statement)
        ensures
            r.says(sql@, seq![]),
    {
        let r: Statement = Statement { sql, params: Vec::new() };
        assert(param_views(r.params@) =~= seq![]);
        r
    }

    /// A statement with one value.
    fn with_one(sql: &'static str, a: String) -> (r: Statement)
        ensures
            r.says(sql@, seq![Some(a@)]),
    {
        let mut params: Vec<Option<String>> = Vec::new();
        params.push(Some(a));
        assert(param_views(params@) =~= seq![Some(a@)]);
        Statement { sql, params }
    }

    /// A statement with two values.
    fn with_two(sql: &'static str, a: String, b: String) -> (r: Statement)
        ensures
            r.says(sql@, seq![Some(a@), Some(b@)]),
    {
        let mut params: Vec<Option<String>> = Vec::new();
        params.push(Some(a));
        params.push(Some(b));
        assert(param_views(params@) =~= seq![Some(a@), Some(b@)]);
        Statement { sql, params }
    }

    /// How many files there are.
    pub fn count_files() -> (r: Statement)
        ensures
            r.says("SELECT COUNT(*) as c FROM files"@, seq![]),
    {
        Statement::plain("SELECT COUNT(*) as c FROM files")
    }

    /// Any picture.
    pub fn get_random_pixiv() -> (r: Statement)
        ensures
            r.says("SELECT * FROM files WHERE type='pixiv' ORDER BY RANDOM() LIMIT 1"@, seq![]),
    {
        Statement::plain("SELECT * FROM files WHERE type='pixiv' ORDER BY RANDOM() LIMIT 1")
    }

    /// Any video.
    pub fn get_random_plus() -> (r: Statement)
        ensures
            r.says("SELECT * FROM files WHERE type='plus' ORDER BY RANDOM() LIMIT 1"@, seq![]),
    {
        Statement::plain("SELECT * FROM files WHERE type='plus' ORDER BY RANDOM() LIMIT 1")
    }

    /// The directory of the file of this kind and name.
    pub fn find_file(kind: &str, filename: &str) -> (r: Statement)
        ensures
            r.says(
                "SELECT dir FROM files WHERE type=? AND filename=?"@,
                seq![Some(kind@), Some(filename@)],
            ),
    {
        Statement::with_two(
            "SELECT dir FROM files WHERE type=? AND filename=?",
            kind.to_owned(),
            filename.to_owned(),
        )
    }

    /// A picture whose name contains the term.
    pub fn search_pixiv(term: &str) -> (r: Statement)
        ensures
            r.says(
                "SELECT * FROM files WHERE type='pixiv' AND filename LIKE ? ESCAPE '\\' LIMIT 1"@,
                seq![Some(containing_pattern(escaped(term@)))],
            ),
    {
        let literal: String = escape_search_term(term);
        Statement::with_one(
            "SELECT * FROM files WHERE type='pixiv' AND filename LIKE ? ESCAPE '\\' LIMIT 1",
            pattern_containing(literal.as_str()),
        )
    }

    /// The names of the pictures of a directory that begin with the prefix.
    pub fn get_pixiv_pages(dir: &str, prefix: &str) -> (r: Statement)
        ensures
            r.says(
                "SELECT filename FROM files WHERE type='pixiv' AND dir=? AND filename LIKE ?"@,
                seq![Some(dir@), Some(beginning_pattern(prefix@))],
            ),
    {
        Statement::with_two(
            "SELECT filename FROM files WHERE type='pixiv' AND dir=? AND filename LIKE ?",
            dir.to_owned(),
            pattern_beginning(prefix),
        )
    }

    /// The videos of the authors whose name or id contains the term.
    pub fn search_plus(term: &str) -> (r: Statement)
        ensures
            r.says(
                "SELECT * FROM files WHERE type='plus' AND (authorName LIKE ? OR authorId LIKE ?)"@,
                seq![Some(containing_pattern(term@)), Some(containing_pattern(term@))],
            ),
    {
        Statement::with_two(
            "SELECT * FROM files WHERE type='plus' AND (authorName LIKE ? OR authorId LIKE ?)",
            pattern_containing(term),
            pattern_containing(term),
        )
    }

    /// All authors of videos.
    pub fn get_all_authors() -> (r: Statement)
        ensures
            r.says("SELECT DISTINCT authorName, authorId FROM files WHERE type='plus'"@, seq![]),
    {
        Statement::plain("SELECT DISTINCT authorName, authorId FROM files WHERE type='plus'")
    }

    /// Adds the file, unless there is one of the same kind, directory and name.
    pub fn insert_file(row: &FileRow) -> (r: Statement)
        ensures
            r.says(insert_sql(), insert_values(*row)),
    {
        let mut params: Vec<Option<String>> = Vec::new();
        params.push(copy_opt(&row.kind));
        params.push(copy_opt(&row.dir));
        params.push(copy_opt(&row.filename));
        params.push(copy_opt(&row.authorName));
        params.push(copy_opt(&row.authorId));
        params.push(copy_opt(&row.title));
        assert(param_views(params@) =~= insert_values(*row));
        Statement {
            sql:
                "INSERT OR IGNORE INTO files (type, dir, filename, authorName, authorId, title) VALUES (?1, ?2, ?3, ?4, ?5, ?6)",
            params,
        }
    }

    /// Takes out the file of this kind, directory and name.
    pub fn delete_file(kind: &str, dir: &str, filename: &str) -> (r: Statement)
        ensures
            r.says(
                "DELETE FROM files WHERE type=? AND dir=? AND filename=?"@,
                seq![Some(kind@), Some(dir@), Some(filename@)],
            ),
    {
        let mut params: Vec<Option<String>> = Vec::new();
        params.push(Some(kind.to_owned()));
        params.push(Some(dir.to_owned()));
        params.push(Some(filename.to_owned()));
        assert(param_views(params@) =~= seq![Some(kind@), Some(dir@), Some(filename@)]);
        Statement { sql: "DELETE FROM files WHERE type=? AND dir=? AND filename=?", params }
    }
}

// ===================== Pages =====================
/// The number of the page that a name tells: what stands behind its first `_p`, up to
/// the next `_p` and the first dot, where that is a number; else 0.
pub open spec fn page_number(name: Seq<char>) -> int {
    let i = pair_from(name, '_', 'p', 0);
    if i < name.len() {
        let piece = name.subrange(i + 2, pair_from(name, '_', 'p', i + 2));
        match signed_number(piece.subrange(0, index_from(piece, '.', 0))) {
            Some(n) => n,
            None => 0,
        }
    } else {
        0
    }
}

/// The number of the page that a name tells.
pub fn page_of(name: &str) -> (r: i32)
    ensures
        r as int == page_number(name@),
{
    let x: Vec<char> = chars_of(name);
    let i: usize = find_pair(&x, '_', 'p', 0);
    proof {
        lemma_pair_from(x@, '_', 'p', 0);
    }
    if i >= x.len() {
        return 0;
    }
    let to: usize = find_pair(&x, '_', 'p', i + 2);
    let piece: String = text_between(&x, i + 2, to);
    let y: Vec<char> = chars_of(piece.as_str());
    let dot: usize = find_char(&y, '.', 0);
    let digits: String = text_between(&y, 0, dot);
    match parse_signed(digits.as_str()) {
        Some(n) => n,
        None => 0,
    }
}

/// The first place from `from` on whose name tells a page above `n`.
pub open spec fn first_above(names: Seq<Seq<char>>, n: int, from: int) -> int
    decreases names.len() - from,
{
    if from >= names.len() {
        names.len() as int
    } else if page_number(names[from]) > n {
        from
    } else {
        first_above(names, n, from + 1)
    }
}

/// The names by the pages that they tell; those that tell the same page stay in order.
pub open spec fn page_order(names: Seq<Seq<char>>) -> Seq<Seq<char>>
    decreases names.len(),
{
    if names.len() == 0 {
        names
    } else {
        let rest = page_order(names.drop_last());
        rest.insert(first_above(rest, page_number(names.last()), 0), names.last())
    }
}

/// The names tell pages that do not fall.
pub open spec fn pages_ascend(names: Seq<Seq<char>>) -> bool {
    forall|i: int, j: int|
        0 <= i <= j < names.len() ==> page_number(#[trigger] names[i]) <= page_number(
            #[trigger] names[j],
        )
}

/// Those of the names that tell the page `n`.
pub open spec fn with_page(names: Seq<Seq<char>>, n: int) -> Seq<Seq<char>> {
    names.filter(|s: Seq<char>| page_number(s) == n)
}

/// `first_above` lies where it says.
proof fn lemma_first_above(names: Seq<Seq<char>>, n: int, from: int)
    requires
        0 <= from <= names.len(),
    ensures
        from <= first_above(names, n, from) <= names.len(),
        first_above(names, n, from) < names.len() ==> page_number(names[first_above(names, n, from)])
            > n,
        forall|k: int|
            from <= k < first_above(names, n, from) ==> page_number(#[trigger] names[k]) <= n,
    decreases names.len() - from,
{
    if from < names.len() && page_number(names[from]) <= n {
        lemma_first_above(names, n, from + 1);
    }
}

/// The names, by the pages that they tell.
pub fn order_pages(files: &Vec<String>) -> (r: Vec<String>)
    ensures
        texts(r@) == page_order(texts(files@)),
{
    let mut out: Vec<String> = Vec::new();
    let mut numbers: Vec<i32> = Vec::new();
    let ghost all = texts(files@);
    assert(texts(out@) =~= page_order(all.take(0)));
    let mut i: usize = 0;
    while i < files.len()
        invariant
            i <= files@.len(),
            all == texts(files@),
            texts(out@) == page_order(all.take(i as int)),
            numbers@.len() == out@.len(),
            forall|k: int|
                0 <= k < out@.len() ==> #[trigger] numbers@[k] == page_number(texts(out@)[k]),
        decreases files@.len() - i,
    {
        let name: String = files[i].clone();
        let n: i32 = page_of(name.as_str());
        let ghost before = texts(out@);
        let ghost old_numbers = numbers@;
        let mut at: usize = 0;
        while at < out.len() && numbers[at] <= n
            invariant
                at <= out@.len(),
                before == texts(out@),
                numbers@ == old_numbers,
                numbers@.len() == out@.len(),
                forall|k: int|
                    0 <= k < out@.len() ==> #[trigger] numbers@[k] == page_number(before[k]),
                first_above(before, n as int, 0) == first_above(before, n as int, at as int),
            decreases out@.len() - at,
        {
            at = at + 1;
        }
        let ghost view = name@;
        out.insert(at, name);
        numbers.insert(at, n);
        proof {
            assert(all[i as int] == view);
            assert(all.take(i + 1).drop_last() =~= all.take(i as int));
            assert(all.take(i + 1).last() == view);
            assert(texts(out@) =~= before.insert(at as int, view));
            assert forall|k: int| 0 <= k < out@.len() implies #[trigger] numbers@[k] == page_number(
                texts(out@)[k],
            ) by {
                if k < at {
                    assert(numbers@[k] == old_numbers[k]);
                } else if k > at {
                    assert(numbers@[k] == old_numbers[k - 1]);
                }
            }
        }
        i = i + 1;
    }
    assert(all.take(all.len() as int) =~= all);
    out
}

/// The pages of the ordered names do not fall.
pub proof fn law_pages_ascend(names: Seq<Seq<char>>)
    ensures
        pages_ascend(page_order(names)),
    decreases names.len(),
{
    if names.len() > 0 {
        let rest = page_order(names.drop_last());
        let n = page_number(names.last());
        law_pages_ascend(names.drop_last());
        lemma_first_above(rest, n, 0);
        let at = first_above(rest, n, 0);
        let out = rest.insert(at, names.last());
        assert forall|i: int, j: int| 0 <= i <= j < out.len() implies page_number(#[trigger] out[i])
            <= page_number(#[trigger] out[j]) by {
            let a = if i < at { i } else { i - 1 };
            let b = if j < at { j } else { j - 1 };
            if i != at {
                assert(out[i] == rest[a]);
            }
            if j != at {
                assert(out[j] == rest[b]);
            }
            if i == at && j > at {
                assert(page_number(rest[at]) <= page_number(rest[b]));
            } else if i != at && j != at {
                assert(page_number(rest[a]) <= page_number(rest[b]));
            }
        }
    }
}

/// Ordering keeps the number of the names.
pub proof fn law_page_order_keeps_number(names: Seq<Seq<char>>)
    ensures
        page_order(names).len() == names.len(),
    decreases names.len(),
{
    if names.len() > 0 {
        law_page_order_keeps_number(names.drop_last());
        lemma_first_above(page_order(names.drop_last()), page_number(names.last()), 0);
    }
}

/// Filtering goes through a cut.
proof fn lemma_filter_add(a: Seq<Seq<char>>, b: Seq<Seq<char>>, n: int)
    ensures
        with_page(a + b, n) == with_page(a, n) + with_page(b, n),
    decreases b.len(),
{
    reveal(Seq::filter);
    if b.len() == 0 {
        assert(a + b =~= a);
        assert(with_page(b, n) =~= seq![]);
        assert(with_page(a, n) + with_page(b, n) =~= with_page(a, n));
    } else {
        lemma_filter_add(a, b.drop_last(), n);
        assert((a + b).drop_last() =~= a + b.drop_last());
        assert(with_page(a + b, n) =~= with_page(a, n) + with_page(b, n));
    }
}

/// Where no name tells the page, none is left.
proof fn lemma_filter_none(a: Seq<Seq<char>>, n: int)
    requires
        forall|k: int| 0 <= k < a.len() ==> page_number(#[trigger] a[k]) != n,
    ensures
        with_page(a, n) == Seq::<Seq<char>>::empty(),
    decreases a.len(),
{
    reveal(Seq::filter);
    if a.len() > 0 {
        assert forall|k: int| 0 <= k < a.drop_last().len() implies page_number(
            #[trigger] a.drop_last()[k],
        ) != n by {
            assert(a.drop_last()[k] == a[k]);
        }
        lemma_filter_none(a.drop_last(), n);
        assert(page_number(a[a.len() - 1]) != n);
    }
}

/// Filtering takes the last name or leaves it.
proof fn lemma_filter_last(a: Seq<Seq<char>>, n: int)
    requires
        a.len() > 0,
    ensures
        with_page(a, n) == with_page(a.drop_last(), n) + (if page_number(a.last()) == n {
            seq![a.last()]
        } else {
            seq![]
        }),
{
    reveal(Seq::filter);
    assert(with_page(a, n) =~= with_page(a.drop_last(), n) + (if page_number(a.last()) == n {
        seq![a.last()]
    } else {
        seq![]
    }));
}

/// Ordering keeps every name, and those that tell the same page stay in order.
pub proof fn law_page_order_stable(names: Seq<Seq<char>>, n: int)
    ensures
        with_page(page_order(names), n) == with_page(names, n),
    decreases names.len(),
{
    if names.len() > 0 {
        let last = names.last();
        let one = seq![last];
        let rest = page_order(names.drop_last());
        law_page_order_stable(names.drop_last(), n);
        law_pages_ascend(names.drop_last());
        lemma_first_above(rest, page_number(last), 0);
        let at = first_above(rest, page_number(last), 0);
        let a = rest.take(at);
        let b = rest.skip(at);
        let out = rest.insert(at, last);
        assert(out =~= a + (one + b));
        assert(rest =~= a + b);
        lemma_filter_add(a, one + b, n);
        lemma_filter_add(one, b, n);
        lemma_filter_add(a, b, n);
        lemma_filter_last(one, n);
        lemma_filter_none(one.drop_last(), n);
        lemma_filter_last(names, n);
        if page_number(last) == n {
            assert forall|k: int| 0 <= k < b.len() implies page_number(#[trigger] b[k]) != n by {
                assert(b[k] == rest[at + k]);
                assert(page_number(rest[at]) <= page_number(rest[at + k]));
            }
            lemma_filter_none(b, n);
        }
        assert(with_page(out, n) =~= with_page(names, n));
    }
}

/// The name of the page `n` of a work: its title and id, `_p`, the number, and an extension.
pub open spec fn page_name(base: Seq<char>, id: Seq<char>, n: nat, ext: Seq<char>) -> Seq<char> {
    base + seq!['_'] + id + seq!['_', 'p'] + decimal_text(n) + seq!['.'] + ext
}

/// The text holds no `_p`.
pub open spec fn holds_no_mark(s: Seq<char>) -> bool {
    forall|i: int| 0 <= i && i + 1 < s.len() ==> !(#[trigger] s[i] == '_' && s[i + 1] == 'p')
}

/// The name of a page tells the number that is written in it, for a title without `_p`.
pub proof fn law_page_number_is_written(base: Seq<char>, id: Seq<char>, n: nat, ext: Seq<char>)
    requires
        holds_no_mark(base),
        id.len() > 0,
        all_digits(id),
        n <= 0x7fff_ffff,
    ensures
        page_number(
            base + seq!['_'] + id + seq!['_', 'p'] + decimal_text(n) + seq!['.'] + ext,
        ) == n,
{
    let digits = decimal_text(n);
    let name = base + seq!['_'] + id + seq!['_', 'p'] + digits + seq!['.'] + ext;
    let b = base.len() as int;
    let at = b + 1 + id.len();
    let from = at + 2;
    let dot = from + digits.len();
    lemma_decimal_text(n);
    law_signed_round_trip(n);
    assert(name[at] == '_' && name[at + 1] == 'p');
    assert forall|k: int| 0 <= k < at implies !(#[trigger] name[k] == '_' && name[k + 1] == 'p') by {
        if k + 1 < b {
            assert(base[k] == name[k] && base[k + 1] == name[k + 1]);
        } else if k + 1 == b {
            assert(name[k + 1] == '_');
        } else if k == b {
            assert(name[k + 1] == id[0]);
            assert(is_digit(id[0]));
        } else {
            assert(name[k] == id[k - b - 1]);
            assert(is_digit(id[k - b - 1]));
        }
    }
    lemma_pair_from_is(name, '_', 'p', 0, at);
    let to = pair_from(name, '_', 'p', from);
    lemma_pair_from(name, '_', 'p', from);
    assert forall|k: int| from <= k < dot implies is_digit(#[trigger] name[k]) by {
        assert(name[k] == digits[k - from]);
        assert(is_digit(digits[k - from]));
    }
    assert(name[dot] == '.');
    if to <= dot {
        assert(name[to] == '_');
        assert(false);
    }
    let piece = name.subrange(from, to);
    assert forall|k: int| 0 <= k < digits.len() implies piece[k] != '.' by {
        assert(piece[k] == name[from + k]);
        assert(is_digit(name[from + k]));
    }
    assert(piece[digits.len() as int] == name[dot]);
    lemma_index_from_is(piece, '.', 0, digits.len() as int);
    assert(piece.subrange(0, digits.len() as int) =~= digits);
}

/// What stands behind the first `_p` of a name, up to a dot or another `_p`, is what tells the
/// page: the number that it is, or 0 where it is none.
pub proof fn law_page_stands_behind_mark(front: Seq<char>, piece: Seq<char>, tail: Seq<char>)
    requires
        holds_no_mark(front),
        holds_no_mark(piece),
        !piece.contains('.'),
        tail.len() == 0 || tail[0] == '.' || tail.len() >= 2 && tail[0] == '_' && tail[1] == 'p',
    ensures
        page_number(front + seq!['_', 'p'] + piece + tail) == (match signed_number(piece) {
            Some(n) => n,
            None => 0,
        }),
{
    let name = front + seq!['_', 'p'] + piece + tail;
    let at = front.len() as int;
    let from = at + 2;
    let end = from + piece.len();
    assert(name[at] == '_' && name[at + 1] == 'p');
    assert forall|k: int| 0 <= k < at implies !(#[trigger] name[k] == '_' && name[k + 1] == 'p') by {
        if k + 1 < at {
            assert(front[k] == name[k] && front[k + 1] == name[k + 1]);
        }
    }
    lemma_pair_from_is(name, '_', 'p', 0, at);
    let to = pair_from(name, '_', 'p', from);
    lemma_pair_from(name, '_', 'p', from);
    assert forall|k: int| from <= k < end implies name[k] == piece[k - from] by {}
    if to < end {
        assert(name[to] == '_' && name[to + 1] == 'p');
        assert(piece[to - from] == '_');
        if to + 1 < end {
            assert(piece[to + 1 - from] == 'p');
        } else {
            assert(name[end] == tail[0]);
        }
        assert(false);
    }
    let cut = name.subrange(from, to);
    let n = piece.len() as int;
    assert forall|k: int| 0 <= k < n implies cut[k] != '.' by {
        assert(cut[k] == piece[k]);
        assert(piece.contains(piece[k]));
    }
    if tail.len() > 0 && tail[0] == '.' {
        assert(name[end] == '.');
        assert(to > end);
        assert(cut[n] == '.');
    } else {
        if tail.len() > 0 {
            assert(name[end] == '_' && name[end + 1] == 'p');
        }
        assert(to == end);
    }
    lemma_index_from_is(cut, '.', 0, n);
    assert(cut.subrange(0, n) =~= piece);
}

/// A name without `_p` tells the page 0.
pub proof fn law_unmarked_name_is_first(name: Seq<char>)
    requires
        holds_no_mark(name),
    ensures
        page_number(name) == 0,
{
    lemma_pair_from(name, '_', 'p', 0);
}

/// Of two pages of works without `_p` in their titles, the one with the smaller number comes
/// first: the numbers that are written in the ordered names do not fall.
pub proof fn law_pages_stand_by_written_number(
    names: Seq<Seq<char>>,
    i: int,
    j: int,
    bases: (Seq<char>, Seq<char>),
    ids: (Seq<char>, Seq<char>),
    numbers: (nat, nat),
    exts: (Seq<char>, Seq<char>),
)
    requires
        0 <= i < j < page_order(names).len(),
        page_order(names)[i] == page_name(bases.0, ids.0, numbers.0, exts.0),
        page_order(names)[j] == page_name(bases.1, ids.1, numbers.1, exts.1),
        holds_no_mark(bases.0) && holds_no_mark(bases.1),
        ids.0.len() > 0 && ids.1.len() > 0,
        all_digits(ids.0) && all_digits(ids.1),
        numbers.0 <= 0x7fff_ffff && numbers.1 <= 0x7fff_ffff,
    ensures
        numbers.0 <= numbers.1,
{
    law_pages_ascend(names);
    law_page_number_is_written(bases.0, ids.0, numbers.0, exts.0);
    law_page_number_is_written(bases.1, ids.1, numbers.1, exts.1);
    assert(page_number(page_order(names)[i]) <= page_number(page_order(names)[j]));
}

/// A row in JSON holds each column under its name, and nothing else.
pub proof fn law_row_is_told(row: FileRow, key: Seq<char>)
    ensures
        row.json_view() matches JsonView::Object(o) && {
            &&& row.id matches Some(n) ==> o.contains_pair("id"@, JsonView::Number(n as int))
            &&& row.id is None ==> o.contains_pair("id"@, JsonView::Null)
            &&& o.contains_pair("type"@, opt_json(row.kind))
            &&& o.contains_pair("dir"@, opt_json(row.dir))
            &&& o.contains_pair("filename"@, opt_json(row.filename))
            &&& o.contains_pair("authorName"@, opt_json(row.authorName))
            &&& o.contains_pair("authorId"@, opt_json(row.authorId))
            &&& o.contains_pair("title"@, opt_json(row.title))
            &&& o.contains_key(key) ==> key == "id"@ || key == "type"@ || key == "dir"@ || key
                == "filename"@ || key == "authorName"@ || key == "authorId"@ || key == "title"@
        },
{
    reveal_strlit("id");
    reveal_strlit("type");
    reveal_strlit("dir");
    reveal_strlit("filename");
    reveal_strlit("authorName");
    reveal_strlit("authorId");
    reveal_strlit("title");
    assert("id"@.len() == 2 && "type"@.len() == 4 && "dir"@.len() == 3 && "filename"@.len() == 8);
    assert("authorName"@.len() == 10 && "authorId"@.len() == 8 && "title"@.len() == 5);
    assert("filename"@[0] == 'f' && "authorId"@[0] == 'a');
}

/// Of a row with only a directory just the directory is told, and of one with only an author
/// just the author's name and id.
pub proof fn law_rows_of_one_thing(
    row: FileRow,
    dir: Option<String>,
    name: Option<String>,
    id: Option<String>,
    key: Seq<char>,
)
    ensures
        row.has_only_dir(dir) ==> (row.json_view() matches JsonView::Object(o) && {
            &&& o.contains_pair("dir"@, opt_json(dir))
            &&& o.contains_key(key) && key != "dir"@ ==> o[key] == JsonView::Null
        }),
        row.has_only_author(name, id) ==> (row.json_view() matches JsonView::Object(o) && {
            &&& o.contains_pair("authorName"@, opt_json(name))
            &&& o.contains_pair("authorId"@, opt_json(id))
            &&& o.contains_key(key) && key != "authorName"@ && key != "authorId"@ ==> o[key]
                == JsonView::Null
        }),
{
    law_row_is_told(row, key);
}

/// A text in JSON is that text; where there is none it is null.
pub proof fn law_text_is_told(s: String)
    ensures
        opt_json(Some(s)) == JsonView::Text(s@),
        opt_json(None) == JsonView::Null,
{
}

/// The values that are put into the catalogue stand in the order of its columns: kind,
/// directory, name, author, id of the author, title.
pub proof fn law_values_in_order(row: FileRow)
    ensures
        insert_values(row).len() == 6,
        insert_values(row)[0] == opt_text(row.kind),
        insert_values(row)[1] == opt_text(row.dir),
        insert_values(row)[2] == opt_text(row.filename),
        insert_values(row)[3] == opt_text(row.authorName),
        insert_values(row)[4] == opt_text(row.authorId),
        insert_values(row)[5] == opt_text(row.title),
{
}

/// The values of a statement are those that it holds, in order.
pub proof fn law_statement_says(r: Statement, sql: Seq<char>, params: Seq<Option<Seq<char>>>, i: int)
    requires
        r.says(sql, params),
    ensures
        r.sql@ == sql,
        r.params@.len() == params.len(),
        0 <= i < params.len() ==> opt_text(r.params@[i]) == params[i],
{
    assert(param_views(r.params@).len() == r.params@.len());
    if 0 <= i < params.len() {
        assert(param_views(r.params@)[i] == opt_text(r.params@[i]));
    }
}

/// The row is one that has these values in the columns of kind, directory and name, as far as
/// they are asked for.
pub open spec fn row_has(
    row: FileRow,
    kind: Option<String>,
    dir: Option<String>,
    filename: Option<String>,
) -> bool {
    &&& kind matches Some(k) ==> opt_text(row.kind) == Some(k@)
    &&& dir matches Some(d) ==> opt_text(row.dir) == Some(d@)
    &&& filename matches Some(f) ==> opt_text(row.filename) == Some(f@)
}

/// `mark` stands in `s` at `i`.
pub open spec fn holds_at(s: Seq<char>, mark: Seq<char>, i: int) -> bool {
    0 <= i && i + mark.len() <= s.len() && s.subrange(i, i + mark.len()) == mark
}

/// The question is about the rows of this kind: it holds the kind between quotes behind
/// `type=`.
pub open spec fn is_about(sql: Seq<char>, kind: Seq<char>) -> bool {
    let mark = "type='"@ + kind + "'"@;
    exists|i: int| #[trigger] holds_at(sql, mark, i)
}

/// The questions that name their kind are each about it.
pub proof fn lemma_questions_name_their_kind()
    ensures
        is_about("SELECT * FROM files WHERE type='pixiv' ORDER BY RANDOM() LIMIT 1"@, "pixiv"@),
        is_about(
            "SELECT * FROM files WHERE type='pixiv' AND filename LIKE ? ESCAPE '\\' LIMIT 1"@,
            "pixiv"@,
        ),
        is_about(
            "SELECT filename FROM files WHERE type='pixiv' AND dir=? AND filename LIKE ?"@,
            "pixiv"@,
        ),
        is_about("SELECT * FROM files WHERE type='plus' ORDER BY RANDOM() LIMIT 1"@, "plus"@),
        is_about(
            "SELECT * FROM files WHERE type='plus' AND (authorName LIKE ? OR authorId LIKE ?)"@,
            "plus"@,
        ),
        is_about("SELECT DISTINCT authorName, authorId FROM files WHERE type='plus'"@, "plus"@),
{
    reveal_strlit("type='");
    reveal_strlit("'");
    reveal_strlit("pixiv");
    reveal_strlit("plus");
    reveal_strlit("SELECT * FROM files WHERE type='pixiv' ORDER BY RANDOM() LIMIT 1");
    reveal_strlit("SELECT * FROM files WHERE type='pixiv' AND filename LIKE ? ESCAPE '\\' LIMIT 1");
    reveal_strlit("SELECT filename FROM files WHERE type='pixiv' AND dir=? AND filename LIKE ?");
    reveal_strlit("SELECT * FROM files WHERE type='plus' ORDER BY RANDOM() LIMIT 1");
    reveal_strlit("SELECT * FROM files WHERE type='plus' AND (authorName LIKE ? OR authorId LIKE ?)");
    reveal_strlit("SELECT DISTINCT authorName, authorId FROM files WHERE type='plus'");
    let pictures = "type='"@ + "pixiv"@ + "'"@;
    let videos = "type='"@ + "plus"@ + "'"@;
    assert(pictures.len() == 12 && videos.len() == 11);
    assert(holds_at(
        "SELECT * FROM files WHERE type='pixiv' ORDER BY RANDOM() LIMIT 1"@,
        pictures,
        26,
    )) by {
        assert("SELECT * FROM files WHERE type='pixiv' ORDER BY RANDOM() LIMIT 1"@.subrange(26, 38)
            =~= pictures);
    }
    assert(holds_at(
        "SELECT * FROM files WHERE type='pixiv' AND filename LIKE ? ESCAPE '\\' LIMIT 1"@,
        pictures,
        26,
    )) by {
        assert("SELECT * FROM files WHERE type='pixiv' AND filename LIKE ? ESCAPE '\\' LIMIT 1"@.subrange(26, 38)
            =~= pictures);
    }
    assert(holds_at(
        "SELECT filename FROM files WHERE type='pixiv' AND dir=? AND filename LIKE ?"@,
        pictures,
        33,
    )) by {
        assert("SELECT filename FROM files WHERE type='pixiv' AND dir=? AND filename LIKE ?"@.subrange(33, 45)
            =~= pictures);
    }
    assert(holds_at(
        "SELECT * FROM files WHERE type='plus' ORDER BY RANDOM() LIMIT 1"@,
        videos,
        26,
    )) by {
        assert("SELECT * FROM files WHERE type='plus' ORDER BY RANDOM() LIMIT 1"@.subrange(26, 37)
            =~= videos);
    }
    assert(holds_at(
        "SELECT * FROM files WHERE type='plus' AND (authorName LIKE ? OR authorId LIKE ?)"@,
        videos,
        26,
    )) by {
        assert("SELECT * FROM files WHERE type='plus' AND (authorName LIKE ? OR authorId LIKE ?)"@.subrange(26, 37)
            =~= videos);
    }
    assert(holds_at(
        "SELECT DISTINCT authorName, authorId FROM files WHERE type='plus'"@,
        videos,
        54,
    )) by {
        assert("SELECT DISTINCT authorName, authorId FROM files WHERE type='plus'"@.subrange(54, 65)
            =~= videos);
    }
}

} // verus!
