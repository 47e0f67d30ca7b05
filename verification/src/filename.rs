//! What the names of the files tell.
use vstd::prelude::*;

use crate::path::{file_stem, file_stem_of};
use crate::text::{all_digits, digit_run_start, index_from, is_digit, opt_text};
use crate::text::{chars_of, find_char, find_digit_run, text_between};
use crate::text::{lemma_digit_run_start, lemma_digit_run_start_is, lemma_index_from};
use crate::text::lemma_index_from_is;

verus! {

// ===================== Pictures =====================
/// What the name of a picture tells: its title, the id of the work, and the page where
/// the work has pages.
#[derive(Clone, Debug)]
pub struct ParsedPixiv {
    pub base: String,
    pub pid: String,
    pub page: Option<String>,
}

/// What the name of a picture tells.
pub struct PixivName {
    pub base: Seq<char>,
    pub pid: Seq<char>,
    pub page: Option<Seq<char>>,
}

impl View for ParsedPixiv {
    type V = PixivName;

    open spec fn view(&self) -> PixivName {
        PixivName { base: self.base@, pid: self.pid@, page: opt_text(self.page) }
    }
}

/// What an optional parsed name is.
pub open spec fn opt_pixiv(p: Option<ParsedPixiv>) -> Option<PixivName> {
    match p {
        Some(q) => Some(q@),
        None => None,
    }
}

/// What a name without extension tells where it ends in `_pid` before `end`.
pub open spec fn pixiv_name_before(
    stem: Seq<char>,
    end: int,
    page: Option<Seq<char>>,
) -> Option<PixivName> {
    let b = digit_run_start(stem, end);
    if 0 < b < end && stem[b - 1] == '_' {
        Some(PixivName { base: stem.subrange(0, b - 1), pid: stem.subrange(b, end), page })
    } else {
        None
    }
}

/// What a name without extension tells: it is `base_pid_ppage` or `base_pid`, where
/// `pid` and `page` are digits.
pub open spec fn pixiv_name(stem: Seq<char>) -> Option<PixivName> {
    let n = stem.len() as int;
    let a = digit_run_start(stem, n);
    if 2 <= a < n && stem[a - 2] == '_' && stem[a - 1] == 'p' {
        pixiv_name_before(stem, a - 2, Some(stem.subrange(a, n)))
    } else {
        pixiv_name_before(stem, n, None)
    }
}

/// What the name of a file tells.
pub open spec fn pixiv_file_name(filename: Seq<char>) -> Option<PixivName> {
    match file_stem_of(filename) {
        Some(stem) => pixiv_name(stem),
        None => None,
    }
}

/// The name `base_pid_ppage`, or `base_pid` where there is no page.
pub open spec fn pixiv_stem(name: PixivName) -> Seq<char> {
    let front = name.base + seq!['_'] + name.pid;
    match name.page {
        Some(page) => front + seq!['_', 'p'] + page,
        None => front,
    }
}

/// The id is digits, and so is the page where there is one.
pub open spec fn pixiv_name_ok(name: PixivName) -> bool {
    &&& name.pid.len() > 0
    &&& all_digits(name.pid)
    &&& name.page matches Some(page) ==> page.len() > 0 && all_digits(page)
}

/// What the characters tell where they end in `_pid` before `end`.
fn parse_before(x: &Vec<char>, end: usize, page: Option<String>) -> (r: Option<ParsedPixiv>)
    requires
        end <= x@.len(),
    ensures
        opt_pixiv(r) == pixiv_name_before(x@, end as int, opt_text(page)),
{
    let b: usize = find_digit_run(x, end);
    if 0 < b && b < end && x[b - 1] == '_' {
        Some(ParsedPixiv { base: text_between(x, 0, b - 1), pid: text_between(x, b, end), page })
    } else {
        None
    }
}

/// What the name of a picture tells.
pub fn parse_pixiv_filename(filename: &str) -> (r: Option<ParsedPixiv>)
    ensures
        opt_pixiv(r) == pixiv_file_name(filename@),
{
    let stem: String = match file_stem(filename) {
        Some(s) => s,
        None => {
            return None;
        },
    };
    let x: Vec<char> = chars_of(stem.as_str());
    let n: usize = x.len();
    let a: usize = find_digit_run(&x, n);
    if 2 <= a && a < n && x[a - 2] == '_' && x[a - 1] == 'p' {
        let page: String = text_between(&x, a, n);
        parse_before(&x, a - 2, Some(page))
    } else {
        parse_before(&x, n, None)
    }
}

/// A name that is made of a title, an id and perhaps a page tells just these.
pub proof fn law_pixiv_name_told(name: PixivName)
    requires
        pixiv_name_ok(name),
    ensures
        pixiv_name(pixiv_stem(name)) == Some(name),
{
    let s = pixiv_stem(name);
    let n = s.len() as int;
    let b = name.base.len() as int + 1;
    let e = b + name.pid.len();
    assert(s.subrange(0, b - 1) =~= name.base);
    assert(s.subrange(b, e) =~= name.pid);
    assert(s[b - 1] == '_');
    assert forall|k: int| b <= k < e implies is_digit(#[trigger] s[k]) by {
        assert(s[k] == name.pid[k - b]);
    }
    lemma_digit_run_start_is(s, e, b);
    match name.page {
        Some(page) => {
            let a = e + 2;
            assert(s.subrange(a, n) =~= page);
            assert(s[e] == '_' && s[e + 1] == 'p');
            assert forall|k: int| a <= k < n implies is_digit(#[trigger] s[k]) by {
                assert(s[k] == page[k - a]);
            }
            lemma_digit_run_start_is(s, n, a);
        },
        None => {
            assert(e == n);
        },
    }
}

/// A name that tells something is made of what it tells.
pub proof fn law_pixiv_name_made(stem: Seq<char>)
    requires
        pixiv_name(stem) is Some,
    ensures
        pixiv_name_ok(pixiv_name(stem)->0),
        pixiv_stem(pixiv_name(stem)->0) == stem,
{
    let n = stem.len() as int;
    let a = digit_run_start(stem, n);
    lemma_digit_run_start(stem, n);
    if 2 <= a < n && stem[a - 2] == '_' && stem[a - 1] == 'p' {
        lemma_digit_run_start(stem, a - 2);
    }
    assert(pixiv_stem(pixiv_name(stem)->0) =~= stem);
}

// ===================== Videos =====================
/// What the name of a video tells: its author, the id of the author, and its title.
pub struct PlusName {
    pub author: Seq<char>,
    pub id: Seq<char>,
    pub title: Seq<char>,
}

/// What a name without extension tells: what stands before the first and the second
/// `_`, and what stands behind that.
pub open spec fn plus_name(stem: Seq<char>) -> Option<PlusName> {
    let n = stem.len() as int;
    let i = index_from(stem, '_', 0);
    let j = index_from(stem, '_', i + 1);
    if i < n && j < n {
        Some(
            PlusName {
                author: stem.subrange(0, i),
                id: stem.subrange(i + 1, j),
                title: stem.subrange(j + 1, n),
            },
        )
    } else {
        None
    }
}

/// What the name of a file tells.
pub open spec fn plus_file_name(filename: Seq<char>) -> Option<PlusName> {
    match file_stem_of(filename) {
        Some(stem) => plus_name(stem),
        None => None,
    }
}

/// The name `author_id_title`.
pub open spec fn plus_stem(name: PlusName) -> Seq<char> {
    name.author + seq!['_'] + name.id + seq!['_'] + name.title
}

/// Neither the author nor the id has a `_` in it.
pub open spec fn plus_name_ok(name: PlusName) -> bool {
    !name.author.contains('_') && !name.id.contains('_')
}

/// What an optional parsed name is.
pub open spec fn opt_plus(p: Option<(String, String, String)>) -> Option<PlusName> {
    match p {
        Some(q) => Some(PlusName { author: q.0@, id: q.1@, title: q.2@ }),
        None => None,
    }
}

/// What the name of a video tells.
pub fn parse_plus_filename(filename: &str) -> (r: Option<(String, String, String)>)
    ensures
        opt_plus(r) == plus_file_name(filename@),
{
    let stem: String = match file_stem(filename) {
        Some(s) => s,
        None => {
            return None;
        },
    };
    let x: Vec<char> = chars_of(stem.as_str());
    let n: usize = x.len();
    let i: usize = find_char(&x, '_', 0);
    if i >= n {
        return None;
    }
    let j: usize = find_char(&x, '_', i + 1);
    if j >= n {
        return None;
    }
    Some((text_between(&x, 0, i), text_between(&x, i + 1, j), text_between(&x, j + 1, n)))
}

/// A name that is made of an author, an id and a title tells just these.
pub proof fn law_plus_name_told(name: PlusName)
    requires
        plus_name_ok(name),
    ensures
        plus_name(plus_stem(name)) == Some(name),
{
    let s = plus_stem(name);
    let n = s.len() as int;
    let i = name.author.len() as int;
    let j = i + 1 + name.id.len();
    assert forall|k: int| 0 <= k < i implies s[k] != '_' by {
        assert(s[k] == name.author[k]);
        assert(name.author.contains(name.author[k]));
    }
    lemma_index_from_is(s, '_', 0, i);
    assert forall|k: int| i + 1 <= k < j implies s[k] != '_' by {
        assert(s[k] == name.id[k - i - 1]);
        assert(name.id.contains(name.id[k - i - 1]));
    }
    lemma_index_from_is(s, '_', i + 1, j);
    assert(s.subrange(0, i) =~= name.author);
    assert(s.subrange(i + 1, j) =~= name.id);
    assert(s.subrange(j + 1, n) =~= name.title);
}

/// A name that tells something is made of what it tells.
pub proof fn law_plus_name_made(stem: Seq<char>)
    requires
        plus_name(stem) is Some,
    ensures
        plus_name_ok(plus_name(stem)->0),
        plus_stem(plus_name(stem)->0) == stem,
{
    let i = index_from(stem, '_', 0);
    lemma_index_from(stem, '_', 0);
    lemma_index_from(stem, '_', i + 1);
    let name = plus_name(stem)->0;
    assert(plus_stem(name) =~= stem);
}

} // verus!
