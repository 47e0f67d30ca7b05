//! Links to files, and what the answers say of them.
use serde_json::Value;
use vstd::prelude::*;

use crate::files::{json_opt, opt_json, FileRow};
use crate::json::{json_content, json_object, json_set, JsonView};
use crate::percent::{encode, law_link_is_plain, law_link_round_trip, link_text, text_of_link};
use crate::text::texts;

verus! {

/// The link to a file: what links begin with, the place of the files, and the name.
pub open spec fn file_link(origin: Seq<char>, place: Seq<char>, name: Seq<char>) -> Seq<char> {
    origin + place + link_text(name)
}

/// The links to the files.
pub open spec fn file_links(
    origin: Seq<char>,
    place: Seq<char>,
    names: Seq<Seq<char>>,
) -> Seq<Seq<char>> {
    names.map_values(|name: Seq<char>| file_link(origin, place, name))
}

/// The link to a file.
pub fn link_file(origin: &str, place: &str, name: &str) -> (r: String)
    ensures
        r@ == file_link(origin@, place@, name@),
{
    let encoded: String = encode(name);
    origin.to_owned().concat(place).concat(encoded.as_str())
}

/// The links to the files.
pub fn link_files(origin: &str, place: &str, names: &Vec<String>) -> (r: Vec<String>)
    ensures
        texts(r@) == file_links(origin@, place@, texts(names@)),
{
    let mut out: Vec<String> = Vec::new();
    let ghost all = file_links(origin@, place@, texts(names@));
    let mut i: usize = 0;
    while i < names.len()
        invariant
            i <= names@.len(),
            all == file_links(origin@, place@, texts(names@)),
            texts(out@) =~= all.take(i as int),
        decreases names@.len() - i,
    {
        let ghost before = out@;
        out.push(link_file(origin, place, names[i].as_str()));
        assert(texts(names@)[i as int] == names@[i as int]@);
        assert(texts(out@) =~= texts(before).push(all[i as int]));
        i = i + 1;
    }
    assert(texts(out@) =~= all);
    out
}

/// What an answer says of where a file is.
pub open spec fn file_info(row: FileRow) -> JsonView {
    JsonView::Object(
        Map::empty().insert("dir"@, opt_json(row.dir)).insert("filename"@, opt_json(row.filename)),
    )
}

/// What an answer says of where a file is.
pub fn json_file_info(row: &FileRow) -> (r: Value)
    ensures
        json_content(r) == file_info(*row),
{
    let mut info: Value = json_object();
    json_set(&mut info, "dir", json_opt(&row.dir));
    json_set(&mut info, "filename", json_opt(&row.filename));
    info
}

// ===================== Laws =====================
/// A link begins with the origin and the place; what stands behind them is the name of the
/// file, as links hold it, without `/`.
pub proof fn law_link_holds_name(origin: Seq<char>, place: Seq<char>, name: Seq<char>)
    ensures
        exists|t: Seq<char>|
            file_link(origin, place, name) == origin + place + t && #[trigger] text_of_link(t)
                == Some(name) && !t.contains('/'),
{
    let t = link_text(name);
    law_link_round_trip(name);
    if t.contains('/') {
        let k = choose|k: int| 0 <= k < t.len() && t[k] == '/';
        law_link_is_plain(name, k);
    }
    assert(text_of_link(t) == Some(name));
}

/// There is one link for each name, in the same order.
pub proof fn law_links_in_order(
    origin: Seq<char>,
    place: Seq<char>,
    names: Seq<Seq<char>>,
    i: int,
)
    requires
        0 <= i < names.len(),
    ensures
        file_links(origin, place, names).len() == names.len(),
        exists|t: Seq<char>|
            file_links(origin, place, names)[i] == origin + place + t && #[trigger] text_of_link(t)
                == Some(names[i]) && !t.contains('/'),
{
    law_link_holds_name(origin, place, names[i]);
}

/// What is said of where a file is holds its directory and its name.
pub proof fn law_file_info_is_told(row: FileRow)
    ensures
        file_info(row) matches JsonView::Object(info) && {
            &&& info.contains_pair("dir"@, opt_json(row.dir))
            &&& info.contains_pair("filename"@, opt_json(row.filename))
            &&& forall|key: Seq<char>| #[trigger]
                info.contains_key(key) ==> key == "dir"@ || key == "filename"@
        },
        row.dir matches Some(d) ==> opt_json(row.dir) == JsonView::Text(d@),
        row.filename matches Some(f) ==> opt_json(row.filename) == JsonView::Text(f@),
        row.dir is None ==> opt_json(row.dir) == JsonView::Null,
{
    reveal_strlit("dir");
    reveal_strlit("filename");
    assert("dir"@.len() == 3 && "filename"@.len() == 8);
}

} // verus!
