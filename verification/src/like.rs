//! The patterns of SQL's `LIKE`.
use vstd::prelude::*;

use crate::files::{beginning_pattern, containing_pattern};
use crate::text::{ascii_small, ascii_small_text, chars_of};

verus! {

// ===================== Matching =====================
/// The two characters are the same, or differ only in the case of a letter of ASCII.
pub open spec fn same_letter(a: char, b: char) -> bool {
    ascii_small(a) == ascii_small(b)
}

/// The name matches the pattern: `%` stands for any characters, `_` for any one, what
/// follows the escape for itself, and all else for itself, but for the case of letters of
/// ASCII.
pub open spec fn like(pattern: Seq<char>, name: Seq<char>, escape: Option<char>) -> bool
    decreases pattern.len(), name.len(),
{
    if pattern.len() == 0 {
        name.len() == 0
    } else if escape == Some(pattern[0]) {
        &&& pattern.len() >= 2
        &&& name.len() > 0
        &&& same_letter(pattern[1], name[0])
        &&& like(pattern.skip(2), name.skip(1), escape)
    } else if pattern[0] == '%' {
        ||| like(pattern.skip(1), name, escape)
        ||| name.len() > 0 && like(pattern, name.skip(1), escape)
    } else {
        &&& name.len() > 0
        &&& pattern[0] == '_' || same_letter(pattern[0], name[0])
        &&& like(pattern.skip(1), name.skip(1), escape)
    }
}

/// The term stands in the name at `i`, but for the case of letters of ASCII.
pub open spec fn stands_at(name: Seq<char>, term: Seq<char>, i: int) -> bool {
    &&& 0 <= i
    &&& i + term.len() <= name.len()
    &&& ascii_small_text(name.subrange(i, i + term.len())) == ascii_small_text(term)
}

/// The term stands somewhere in the name, but for the case of letters of ASCII.
pub open spec fn contains_term(name: Seq<char>, term: Seq<char>) -> bool {
    exists|i: int| #[trigger] stands_at(name, term, i)
}

// ===================== Escaping =====================
/// What a character is in a pattern where it stands for itself: a backslash comes before
/// the wildcards and before a backslash.
pub open spec fn escaped_char(c: char) -> Seq<char> {
    if c == '%' || c == '_' || c == '\\' {
        seq!['\\', c]
    } else {
        seq![c]
    }
}

/// What a term is in a pattern where it stands for itself.
pub open spec fn escaped(term: Seq<char>) -> Seq<char>
    decreases term.len(),
{
    if term.len() == 0 {
        seq![]
    } else {
        escaped(term.drop_last()) + escaped_char(term.last())
    }
}

/// What a term is in a pattern where it stands for itself.
pub fn escape_search_term(term: &str) -> (r: String)
    ensures
        r@ == escaped(term@),
{
    let x: Vec<char> = chars_of(term);
    let mut out: String = String::new();
    assert(out@ =~= escaped(x@.take(0)));
    let mut i: usize = 0;
    while i < x.len()
        invariant
            i <= x@.len(),
            out@ == escaped(x@.take(i as int)),
        decreases x@.len() - i,
    {
        let c: char = x[i];
        let ghost before = out@;
        proof {
            assert(x@.take(i + 1).drop_last() =~= x@.take(i as int));
            assert(x@.take(i + 1).last() == c);
        }
        if c == '%' || c == '_' || c == '\\' {
            out.push('\\');
        }
        out.push(c);
        assert(out@ =~= before + escaped_char(c));
        i = i + 1;
    }
    assert(x@.take(x@.len() as int) =~= x@);
    out
}

// ===================== Laws =====================
/// `%` alone matches everything.
proof fn lemma_any(name: Seq<char>, escape: Option<char>)
    requires
        escape != Some('%'),
    ensures
        like(seq!['%'], name, escape),
    decreases name.len(),
{
    reveal_with_fuel(like, 2);
    assert(seq!['%'].skip(1) =~= seq![]);
    if name.len() > 0 {
        lemma_any(name.skip(1), escape);
    }
}

/// A pattern behind `%` matches where it matches some end of the name.
proof fn lemma_any_before(pattern: Seq<char>, name: Seq<char>, escape: Option<char>)
    requires
        escape != Some('%'),
    ensures
        like(seq!['%'] + pattern, name, escape) <==> exists|i: int|
            0 <= i <= name.len() && #[trigger] like(pattern, name.skip(i), escape),
    decreases name.len(),
{
    let whole = seq!['%'] + pattern;
    assert(whole.skip(1) =~= pattern);
    assert(name.skip(0) =~= name);
    assert(like(pattern, name.skip(0), escape) == like(pattern, name, escape));
    if name.len() > 0 {
        let rest = name.skip(1);
        lemma_any_before(pattern, rest, escape);
        assert(like(whole, name, escape) == (like(pattern, name, escape) || like(
            whole,
            rest,
            escape,
        )));
        if like(whole, rest, escape) {
            let i = choose|i: int|
                0 <= i <= rest.len() && #[trigger] like(pattern, rest.skip(i), escape);
            assert(rest.skip(i) =~= name.skip(i + 1));
        }
        if exists|i: int| 0 <= i <= name.len() && #[trigger] like(pattern, name.skip(i), escape) {
            let i = choose|i: int|
                0 <= i <= name.len() && #[trigger] like(pattern, name.skip(i), escape);
            if i > 0 {
                assert(rest.skip(i - 1) =~= name.skip(i));
            }
        }
    }
}

/// An escaped term begins with its first character, escaped.
proof fn lemma_escaped_front(term: Seq<char>)
    requires
        term.len() > 0,
    ensures
        escaped(term) == escaped_char(term[0]) + escaped(term.skip(1)),
    decreases term.len(),
{
    if term.len() == 1 {
        assert(term.drop_last() =~= seq![]);
        assert(term.skip(1) =~= seq![]);
        assert(escaped(term) =~= escaped_char(term[0]) + escaped(term.skip(1)));
    } else {
        let init = term.drop_last();
        lemma_escaped_front(init);
        assert(init.skip(1) =~= term.skip(1).drop_last());
        assert(init[0] == term[0]);
        assert(term.skip(1).last() == term.last());
        assert(escaped(term) =~= escaped_char(term[0]) + escaped(term.skip(1)));
    }
}

/// A term that begins with a character stands at the front where the character does and
/// the rest follows.
proof fn lemma_stands_front(name: Seq<char>, term: Seq<char>)
    requires
        term.len() > 0,
    ensures
        stands_at(name, term, 0) <==> name.len() > 0 && same_letter(term[0], name[0]) && stands_at(
            name.skip(1),
            term.skip(1),
            0,
        ),
{
    let n = term.len() as int;
    if n <= name.len() {
        let a = ascii_small_text(name.subrange(0, n));
        let b = ascii_small_text(term);
        let c = ascii_small_text(name.skip(1).subrange(0, n - 1));
        let d = ascii_small_text(term.skip(1));
        if a == b {
            assert(a[0] == b[0]);
            assert forall|k: int| 0 <= k < n - 1 implies c[k] == d[k] by {
                assert(a[k + 1] == b[k + 1]);
            }
            assert(c =~= d);
        }
        if same_letter(term[0], name[0]) && c == d {
            assert forall|k: int| 0 <= k < n implies a[k] == b[k] by {
                if k > 0 {
                    assert(c[k - 1] == d[k - 1]);
                }
            }
            assert(a =~= b);
        }
    }
}

/// An escaped term with `%` behind it matches what begins with the term.
proof fn lemma_escaped_begins(term: Seq<char>, name: Seq<char>)
    ensures
        like(escaped(term) + seq!['%'], name, Some('\\')) <==> stands_at(name, term, 0),
    decreases term.len(),
{
    let pattern = escaped(term) + seq!['%'];
    if term.len() == 0 {
        assert(pattern =~= seq!['%']);
        lemma_any(name, Some('\\'));
        assert(name.subrange(0, 0) =~= term);
    } else {
        let c = term[0];
        let rest = escaped(term.skip(1)) + seq!['%'];
        lemma_escaped_front(term);
        assert(pattern =~= escaped_char(c) + rest);
        assert(pattern.skip(escaped_char(c).len() as int) =~= rest);
        lemma_stands_front(name, term);
        if name.len() > 0 {
            lemma_escaped_begins(term.skip(1), name.skip(1));
        }
    }
}

/// The pattern of an escaped term matches exactly the names that contain the term, but
/// for the case of letters of ASCII.
pub proof fn law_escaped_finds_term(term: Seq<char>, name: Seq<char>)
    ensures
        like(containing_pattern(escaped(term)), name, Some('\\')) <==> contains_term(name, term),
{
    let pattern = escaped(term) + seq!['%'];
    assert(containing_pattern(escaped(term)) =~= seq!['%'] + pattern);
    lemma_any_before(pattern, name, Some('\\'));
    assert forall|i: int| 0 <= i <= name.len() implies like(
        pattern,
        #[trigger] name.skip(i),
        Some('\\'),
    ) == stands_at(name, term, i) by {
        lemma_escaped_begins(term, name.skip(i));
        if i + term.len() <= name.len() {
            assert(name.skip(i).subrange(0, term.len() as int) =~= name.subrange(
                i,
                i + term.len(),
            ));
        }
    }
    if contains_term(name, term) {
        let i = choose|i: int| #[trigger] stands_at(name, term, i);
        assert(like(pattern, name.skip(i), Some('\\')));
    }
}

/// A term without wildcards, with `%` behind it, matches what begins with the term.
proof fn lemma_plain_begins(term: Seq<char>, name: Seq<char>)
    requires
        !term.contains('%'),
        !term.contains('_'),
    ensures
        like(term + seq!['%'], name, None) <==> stands_at(name, term, 0),
    decreases term.len(),
{
    let pattern = term + seq!['%'];
    if term.len() == 0 {
        assert(pattern =~= seq!['%']);
        lemma_any(name, None);
        assert(name.subrange(0, 0) =~= term);
    } else {
        let rest = term.skip(1);
        assert(pattern.skip(1) =~= rest + seq!['%']);
        assert(term.contains(term[0]));
        assert forall|c: char| rest.contains(c) implies term.contains(c) by {
            let k = choose|k: int| 0 <= k < rest.len() && rest[k] == c;
            assert(term[k + 1] == c);
        }
        lemma_stands_front(name, term);
        if name.len() > 0 {
            lemma_plain_begins(rest, name.skip(1));
        }
    }
}

/// The pattern of a term without wildcards matches exactly the names that contain the
/// term, but for the case of letters of ASCII.
pub proof fn law_plain_finds_term(term: Seq<char>, name: Seq<char>)
    requires
        !term.contains('%'),
        !term.contains('_'),
    ensures
        like(containing_pattern(term), name, None) <==> contains_term(name, term),
{
    let pattern = term + seq!['%'];
    assert(containing_pattern(term) =~= seq!['%'] + pattern);
    lemma_any_before(pattern, name, None);
    assert forall|i: int| 0 <= i <= name.len() implies like(pattern, #[trigger] name.skip(i), None)
        == stands_at(name, term, i) by {
        lemma_plain_begins(term, name.skip(i));
        if i + term.len() <= name.len() {
            assert(name.skip(i).subrange(0, term.len() as int) =~= name.subrange(
                i,
                i + term.len(),
            ));
        }
    }
    if contains_term(name, term) {
        let i = choose|i: int| #[trigger] stands_at(name, term, i);
        assert(like(pattern, name.skip(i), None));
    }
}

/// A name is found by itself.
pub proof fn law_name_finds_itself(name: Seq<char>)
    ensures
        like(containing_pattern(escaped(name)), name, Some('\\')),
{
    assert(name.subrange(0, name.len() as int) =~= name);
    assert(stands_at(name, name, 0));
    law_escaped_finds_term(name, name);
}

/// A pattern of a beginning matches what begins with it, whatever wildcards the beginning
/// holds.
pub proof fn law_beginning_is_found(prefix: Seq<char>, name: Seq<char>)
    requires
        prefix.is_prefix_of(name),
    ensures
        like(beginning_pattern(prefix), name, None),
    decreases prefix.len(),
{
    let pattern = beginning_pattern(prefix);
    if prefix.len() == 0 {
        assert(pattern =~= seq!['%']);
        lemma_any(name, None);
    } else {
        let rest = name.skip(1);
        assert(name.subrange(0, prefix.len() as int)[0] == prefix[0]);
        assert(rest.subrange(0, prefix.len() - 1) =~= prefix.skip(1)) by {
            assert forall|k: int| 0 <= k < prefix.len() - 1 implies rest[k] == prefix.skip(1)[k] by {
                assert(name.subrange(0, prefix.len() as int)[k + 1] == prefix[k + 1]);
            }
        }
        law_beginning_is_found(prefix.skip(1), rest);
        assert(pattern.skip(1) =~= beginning_pattern(prefix.skip(1)));
        if prefix[0] == '%' {
            assert(like(pattern, rest, None));
        }
    }
}

/// What matches the pattern of a beginning without `%` begins with it, character by
/// character, where `_` stands for any.
pub proof fn lemma_beginning_by_characters(prefix: Seq<char>, name: Seq<char>)
    requires
        forall|k: int| 0 <= k < prefix.len() ==> #[trigger] prefix[k] != '%',
        like(beginning_pattern(prefix), name, None),
    ensures
        prefix.len() <= name.len(),
        forall|k: int|
            0 <= k < prefix.len() ==> #[trigger] prefix[k] == '_' || same_letter(prefix[k], name[k]),
    decreases prefix.len(),
{
    let pattern = beginning_pattern(prefix);
    if prefix.len() > 0 {
        assert(pattern[0] == prefix[0]);
        let rest = prefix.skip(1);
        assert(pattern.skip(1) =~= beginning_pattern(rest));
        assert forall|k: int| 0 <= k < rest.len() implies #[trigger] rest[k] != '%' by {
            assert(rest[k] == prefix[k + 1]);
        }
        lemma_beginning_by_characters(rest, name.skip(1));
        assert forall|k: int| 0 <= k < prefix.len() implies #[trigger] prefix[k] == '_'
            || same_letter(prefix[k], name[k]) by {
            if k > 0 {
                assert(rest[k - 1] == prefix[k]);
                assert(name.skip(1)[k - 1] == name[k]);
            }
        }
    }
}

} // verus!
