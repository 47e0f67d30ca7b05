//! Text as sequences of characters: searching, cutting, trimming, and decimal numbers.
use vstd::prelude::*;
use vstd::utf8::is_ascii_chars;

verus! {

// ===================== Characters =====================
/// `c` is one of the ASCII digits.
pub open spec fn is_digit(c: char) -> bool {
    '0' <= c <= '9'
}

/// Every character of `s` is an ASCII digit.
pub open spec fn all_digits(s: Seq<char>) -> bool {
    forall|i: int| 0 <= i < s.len() ==> is_digit(#[trigger] s[i])
}

/// `c` has the Unicode property `White_Space`.
pub open spec fn is_white(c: char) -> bool {
    ||| '\u{9}' <= c <= '\u{d}'
    ||| c == ' '
    ||| c == '\u{85}'
    ||| c == '\u{a0}'
    ||| c == '\u{1680}'
    ||| '\u{2000}' <= c <= '\u{200a}'
    ||| c == '\u{2028}'
    ||| c == '\u{2029}'
    ||| c == '\u{202f}'
    ||| c == '\u{205f}'
    ||| c == '\u{3000}'
}

/// Tells whether `c` is one of the ASCII digits.
pub fn digit_char(c: char) -> (r: bool)
    ensures
        r == is_digit(c),
{
    '0' <= c && c <= '9'
}

/// Tells whether `c` is white space.
pub fn white_char(c: char) -> (r: bool)
    ensures
        r == is_white(c),
{
    ('\u{9}' <= c && c <= '\u{d}') || c == ' ' || c == '\u{85}' || c == '\u{a0}' || c == '\u{1680}'
        || ('\u{2000}' <= c && c <= '\u{200a}') || c == '\u{2028}' || c == '\u{2029}'
        || c == '\u{202f}' || c == '\u{205f}' || c == '\u{3000}'
}

// ===================== Strings and characters =====================
/// `String::push`: appends the character `c`.
pub assume_specification[ String::push ](s: &mut String, c: char)
    ensures
        final(s)@ == old(s)@.push(c),
;

/// The characters of `s`, in order.
pub fn chars_of(s: &str) -> (r: Vec<char>)
    ensures
        r@ == s@,
{
    let mut out: Vec<char> = Vec::new();
    for c in it: s.chars()
        invariant
            it.seq() == s@,
            out@ == s@.take(it.index()),
    {
        out.push(c);
    }
    out
}

/// The text of the characters from `from` up to, and without, `to`.
pub fn text_between(chars: &Vec<char>, from: usize, to: usize) -> (r: String)
    requires
        from <= to <= chars@.len(),
    ensures
        r@ == chars@.subrange(from as int, to as int),
{
    let mut out: String = String::new();
    let mut i: usize = from;
    while i < to
        invariant
            from <= i <= to <= chars@.len(),
            out@ == chars@.subrange(from as int, i as int),
        decreases to - i,
    {
        out.push(chars[i]);
        i = i + 1;
    }
    out
}

/// Tells whether the texts are the same.
pub fn same_text(a: &str, b: &str) -> (r: bool)
    ensures
        r == (a@ == b@),
{
    let x: Vec<char> = chars_of(a);
    let y: Vec<char> = chars_of(b);
    if x.len() != y.len() {
        return false;
    }
    let mut i: usize = 0;
    while i < x.len()
        invariant
            i <= x@.len(),
            x@ == a@,
            y@ == b@,
            x@.len() == y@.len(),
            forall|k: int| 0 <= k < i ==> x@[k] == y@[k],
        decreases x@.len() - i,
    {
        if x[i] != y[i] {
            return false;
        }
        i = i + 1;
    }
    assert(x@ =~= y@);
    true
}

/// Tells whether `s` begins with `prefix`.
pub fn begins_with(s: &str, prefix: &str) -> (r: bool)
    ensures
        r == prefix@.is_prefix_of(s@),
{
    let x: Vec<char> = chars_of(s);
    let p: Vec<char> = chars_of(prefix);
    if p.len() > x.len() {
        return false;
    }
    let mut i: usize = 0;
    while i < p.len()
        invariant
            i <= p@.len() <= x@.len(),
            x@ == s@,
            p@ == prefix@,
            forall|k: int| 0 <= k < i ==> x@[k] == p@[k],
        decreases p@.len() - i,
    {
        if x[i] != p[i] {
            assert(s@.subrange(0, prefix@.len() as int)[i as int] != prefix@[i as int]);
            return false;
        }
        i = i + 1;
    }
    assert(s@.subrange(0, prefix@.len() as int) =~= prefix@);
    true
}

/// Tells whether `s` ends with `suffix`.
pub fn finishes_with(s: &str, suffix: &str) -> (r: bool)
    ensures
        r == suffix@.is_suffix_of(s@),
{
    let x: Vec<char> = chars_of(s);
    let p: Vec<char> = chars_of(suffix);
    if p.len() > x.len() {
        return false;
    }
    let n: usize = x.len();
    let from: usize = n - p.len();
    let mut i: usize = 0;
    while i < p.len()
        invariant
            i <= p@.len() <= x@.len(),
            n == x@.len(),
            from == n - p@.len(),
            x@ == s@,
            p@ == suffix@,
            forall|k: int| 0 <= k < i ==> x@[from + k] == p@[k],
        decreases p@.len() - i,
    {
        if x[from + i] != p[i] {
            assert(s@.subrange(from as int, s@.len() as int)[i as int] != suffix@[i as int]);
            return false;
        }
        i = i + 1;
    }
    assert(s@.subrange(from as int, s@.len() as int) =~= suffix@);
    true
}

/// Tells whether every character of `s` is an ASCII digit. The empty text has none
/// that is not.
pub fn digits_only(s: &str) -> (r: bool)
    ensures
        r == all_digits(s@),
{
    let x: Vec<char> = chars_of(s);
    let mut i: usize = 0;
    while i < x.len()
        invariant
            i <= x@.len(),
            x@ == s@,
            forall|k: int| 0 <= k < i ==> is_digit(#[trigger] x@[k]),
        decreases x@.len() - i,
    {
        if !digit_char(x[i]) {
            assert(!is_digit(s@[i as int]));
            return false;
        }
        i = i + 1;
    }
    true
}

/// The small letter of a capital letter of ASCII; any other character itself.
pub open spec fn ascii_small(c: char) -> char {
    if 'A' <= c <= 'Z' {
        (c as u32 + 32) as char
    } else {
        c
    }
}

/// The text with the capital letters of ASCII made small.
pub open spec fn ascii_small_text(s: Seq<char>) -> Seq<char> {
    s.map_values(|c: char| ascii_small(c))
}

/// The text in small letters, as `str::to_lowercase` makes them by the rules of Unicode.
pub uninterp spec fn small_letters(s: Seq<char>) -> Seq<char>;

/// `str::to_lowercase`: the text in small letters. Of a text in ASCII each capital
/// letter becomes its small letter, and the rest stays.
#[verifier::external_body]
fn to_small(s: &str) -> (r: String)
    ensures
        r@ == small_letters(s@),
        is_ascii_chars(s@) ==> r@ == ascii_small_text(s@),
{
    s.to_lowercase()
}

/// The text in small letters: of a text in ASCII each capital letter made small, and what
/// the rules of Unicode make of any other.
pub open spec fn lowered(s: Seq<char>) -> Seq<char> {
    if is_ascii_chars(s) {
        ascii_small_text(s)
    } else {
        small_letters(s)
    }
}

/// The text in small letters.
pub fn lower_text(s: &str) -> (r: String)
    ensures
        r@ == lowered(s@),
{
    to_small(s)
}

// ===================== Searching =====================
/// The first place from `from` on where `c` stands in `s`; the length of `s` if there
/// is none.
pub open spec fn index_from(s: Seq<char>, c: char, from: int) -> int
    decreases s.len() - from,
{
    if from >= s.len() {
        s.len() as int
    } else if s[from] == c {
        from
    } else {
        index_from(s, c, from + 1)
    }
}

/// The first place from `from` on where `a` stands in `s` with `b` right behind it;
/// the length of `s` if there is none.
pub open spec fn pair_from(s: Seq<char>, a: char, b: char, from: int) -> int
    decreases s.len() - from,
{
    if from + 1 >= s.len() {
        s.len() as int
    } else if s[from] == a && s[from + 1] == b {
        from
    } else {
        pair_from(s, a, b, from + 1)
    }
}

/// The start of the run of digits that ends at `end`: `end` itself where no digit
/// stands before it.
pub open spec fn digit_run_start(s: Seq<char>, end: int) -> int
    decreases end,
{
    if 0 < end <= s.len() && is_digit(s[end - 1]) {
        digit_run_start(s, end - 1)
    } else {
        end
    }
}

/// The last place before `end` where `c` stands in `s`; -1 if there is none.
pub open spec fn last_index_before(s: Seq<char>, c: char, end: int) -> int
    decreases end,
{
    if end <= 0 || end > s.len() {
        -1
    } else if s[end - 1] == c {
        end - 1
    } else {
        last_index_before(s, c, end - 1)
    }
}

/// `index_from` lies where it says: `c` stands there, and nowhere before it.
pub proof fn lemma_index_from(s: Seq<char>, c: char, from: int)
    requires
        0 <= from <= s.len(),
    ensures
        from <= index_from(s, c, from) <= s.len(),
        index_from(s, c, from) < s.len() ==> s[index_from(s, c, from)] == c,
        forall|k: int| from <= k < index_from(s, c, from) ==> s[k] != c,
    decreases s.len() - from,
{
    if from < s.len() && s[from] != c {
        lemma_index_from(s, c, from + 1);
    }
}

/// A place where `c` stands, with no `c` between it and `from`, is `index_from`.
pub proof fn lemma_index_from_is(s: Seq<char>, c: char, from: int, at: int)
    requires
        0 <= from <= at <= s.len(),
        at < s.len() ==> s[at] == c,
        forall|k: int| from <= k < at ==> s[k] != c,
    ensures
        index_from(s, c, from) == at,
    decreases at - from,
{
    if from < at {
        lemma_index_from_is(s, c, from + 1, at);
    }
}

/// `pair_from` lies where it says: the pair stands there, and nowhere before it.
pub proof fn lemma_pair_from(s: Seq<char>, a: char, b: char, from: int)
    requires
        0 <= from <= s.len(),
    ensures
        from <= pair_from(s, a, b, from) <= s.len(),
        pair_from(s, a, b, from) < s.len() ==> {
            &&& pair_from(s, a, b, from) + 1 < s.len()
            &&& s[pair_from(s, a, b, from)] == a
            &&& s[pair_from(s, a, b, from) + 1] == b
        },
        forall|k: int|
            from <= k < pair_from(s, a, b, from) && k + 1 < s.len() ==> !(#[trigger] s[k] == a
                && s[k + 1] == b),
    decreases s.len() - from,
{
    if from + 1 < s.len() && !(s[from] == a && s[from + 1] == b) {
        lemma_pair_from(s, a, b, from + 1);
    }
}

/// A place where the pair stands, with no such pair between it and `from`, is `pair_from`.
pub proof fn lemma_pair_from_is(s: Seq<char>, a: char, b: char, from: int, at: int)
    requires
        0 <= from <= at,
        at + 1 < s.len(),
        s[at] == a,
        s[at + 1] == b,
        forall|k: int| from <= k < at ==> !(#[trigger] s[k] == a && s[k + 1] == b),
    ensures
        pair_from(s, a, b, from) == at,
    decreases at - from,
{
    if from < at {
        assert(!(s[from] == a && s[from + 1] == b));
        lemma_pair_from_is(s, a, b, from + 1, at);
    }
}

/// A place where `c` stands, with no `c` between it and `end`, is `last_index_before`.
pub proof fn lemma_last_index_is(s: Seq<char>, c: char, end: int, at: int)
    requires
        0 <= at < end <= s.len(),
        s[at] == c,
        forall|k: int| at < k < end ==> s[k] != c,
    ensures
        last_index_before(s, c, end) == at,
    decreases end - at,
{
    if at < end - 1 {
        lemma_last_index_is(s, c, end - 1, at);
    }
}

/// From `digit_run_start` up to `end` there are only digits, and no digit right before it.
pub proof fn lemma_digit_run_start(s: Seq<char>, end: int)
    requires
        0 <= end <= s.len(),
    ensures
        0 <= digit_run_start(s, end) <= end,
        all_digits(s.subrange(digit_run_start(s, end), end)),
        digit_run_start(s, end) > 0 ==> !is_digit(s[digit_run_start(s, end) - 1]),
    decreases end,
{
    let a = digit_run_start(s, end);
    if 0 < end && is_digit(s[end - 1]) {
        lemma_digit_run_start(s, end - 1);
        assert forall|i: int| 0 <= i < s.subrange(a, end).len() implies is_digit(
            #[trigger] s.subrange(a, end)[i],
        ) by {
            if i < end - 1 - a {
                assert(s.subrange(a, end)[i] == s.subrange(a, end - 1)[i]);
            }
        }
    }
}

/// A run of digits up to `end` with no digit right before it starts at `digit_run_start`.
pub proof fn lemma_digit_run_start_is(s: Seq<char>, end: int, at: int)
    requires
        0 <= at <= end <= s.len(),
        forall|k: int| at <= k < end ==> is_digit(#[trigger] s[k]),
        at > 0 ==> !is_digit(s[at - 1]),
    ensures
        digit_run_start(s, end) == at,
    decreases end - at,
{
    if at < end {
        assert(is_digit(s[end - 1]));
        lemma_digit_run_start_is(s, end - 1, at);
    }
}

/// The place that `index_from` names.
pub fn find_char(chars: &Vec<char>, c: char, from: usize) -> (r: usize)
    requires
        from <= chars@.len(),
    ensures
        r as int == index_from(chars@, c, from as int),
        from <= r <= chars@.len(),
{
    let mut i: usize = from;
    while i < chars.len() && chars[i] != c
        invariant
            from <= i <= chars@.len(),
            index_from(chars@, c, from as int) == index_from(chars@, c, i as int),
        decreases chars@.len() - i,
    {
        i = i + 1;
    }
    i
}

/// The place that `pair_from` names.
pub fn find_pair(chars: &Vec<char>, a: char, b: char, from: usize) -> (r: usize)
    requires
        from <= chars@.len(),
    ensures
        r as int == pair_from(chars@, a, b, from as int),
        from <= r <= chars@.len(),
{
    let mut i: usize = from;
    while i < chars.len() && chars.len() - i > 1
        invariant
            from <= i <= chars@.len(),
            pair_from(chars@, a, b, from as int) == pair_from(chars@, a, b, i as int),
        decreases chars@.len() - i,
    {
        if chars[i] == a && chars[i + 1] == b {
            return i;
        }
        i = i + 1;
    }
    chars.len()
}

/// The place that `digit_run_start` names.
pub fn find_digit_run(chars: &Vec<char>, end: usize) -> (r: usize)
    requires
        end <= chars@.len(),
    ensures
        r as int == digit_run_start(chars@, end as int),
        r <= end,
{
    let mut i: usize = end;
    while i > 0 && digit_char(chars[i - 1])
        invariant
            i <= end <= chars@.len(),
            digit_run_start(chars@, end as int) == digit_run_start(chars@, i as int),
        decreases i,
    {
        i = i - 1;
    }
    i
}

/// The place that `last_index_before` names; `None` if there is none.
pub fn find_last_char(chars: &Vec<char>, c: char, end: usize) -> (r: Option<usize>)
    requires
        end <= chars@.len(),
    ensures
        r matches Some(i) ==> i as int == last_index_before(chars@, c, end as int) && i < end,
        r is None ==> last_index_before(chars@, c, end as int) == -1,
{
    let mut i: usize = end;
    while i > 0
        invariant
            i <= end <= chars@.len(),
            last_index_before(chars@, c, end as int) == last_index_before(chars@, c, i as int),
        decreases i,
    {
        if chars[i - 1] == c {
            return Some(i - 1);
        }
        i = i - 1;
    }
    None
}

// ===================== Cutting and trimming =====================
/// The pieces of `s` between the places where `c` stands; one piece where it stands
/// nowhere.
pub open spec fn split_on(s: Seq<char>, c: char) -> Seq<Seq<char>>
    decreases s.len(),
{
    let i = index_from(s, c, 0);
    if 0 <= i < s.len() {
        seq![s.subrange(0, i)] + split_on(s.subrange(i + 1, s.len() as int), c)
    } else {
        seq![s]
    }
}

/// `s` without the white space that it begins with.
pub open spec fn trim_front(s: Seq<char>) -> Seq<char>
    decreases s.len(),
{
    if s.len() > 0 && is_white(s[0]) {
        trim_front(s.subrange(1, s.len() as int))
    } else {
        s
    }
}

/// `s` without the white space that it ends with.
pub open spec fn trim_back(s: Seq<char>) -> Seq<char>
    decreases s.len(),
{
    if s.len() > 0 && is_white(s.last()) {
        trim_back(s.drop_last())
    } else {
        s
    }
}

/// `s` without the white space at both its ends.
pub open spec fn trimmed(s: Seq<char>) -> Seq<char> {
    trim_back(trim_front(s))
}

/// The views of the strings.
pub open spec fn texts(v: Seq<String>) -> Seq<Seq<char>> {
    v.map_values(|s: String| s@)
}

/// The pieces of `s` between the places where `c` stands.
pub fn pieces(s: &str, c: char) -> (r: Vec<String>)
    ensures
        texts(r@) == split_on(s@, c),
{
    let x: Vec<char> = chars_of(s);
    let mut out: Vec<String> = Vec::new();
    let mut from: usize = 0;
    proof {
        assert(x@.subrange(0, x@.len() as int) =~= x@);
        assert(texts(out@) + split_on(x@, c) =~= split_on(x@, c));
    }
    loop
        invariant
            x@ == s@,
            from <= x@.len(),
            texts(out@) + split_on(x@.subrange(from as int, x@.len() as int), c) == split_on(x@, c),
        decreases x@.len() - from,
    {
        let i: usize = find_char(&x, c, from);
        let ghost rest = x@.subrange(from as int, x@.len() as int);
        let ghost before = texts(out@);
        proof {
            lemma_index_from(x@, c, from as int);
            assert forall|k: int| 0 <= k < i - from implies rest[k] != c by {
                assert(rest[k] == x@[from + k]);
            }
            lemma_index_from_is(rest, c, 0, i - from);
        }
        out.push(text_between(&x, from, i));
        proof {
            assert(rest.subrange(0, i - from) =~= x@.subrange(from as int, i as int));
            assert(texts(out@) =~= before.push(x@.subrange(from as int, i as int)));
        }
        if i >= x.len() {
            proof {
                assert(rest =~= x@.subrange(from as int, i as int));
                assert(texts(out@) =~= before + split_on(rest, c));
            }
            return out;
        }
        proof {
            let tail = x@.subrange(i + 1, x@.len() as int);
            assert(rest.subrange(i - from + 1, rest.len() as int) =~= tail);
            assert(texts(out@) + split_on(tail, c) =~= before + split_on(rest, c));
        }
        from = i + 1;
    }
}

/// `s` without the white space at both its ends.
pub fn trim_text(s: &str) -> (r: String)
    ensures
        r@ == trimmed(s@),
{
    let x: Vec<char> = chars_of(s);
    let n: usize = x.len();
    let mut from: usize = 0;
    proof {
        assert(x@.subrange(0, n as int) =~= x@);
    }
    while from < n && white_char(x[from])
        invariant
            x@ == s@,
            n == x@.len(),
            from <= n,
            trim_front(x@) == trim_front(x@.subrange(from as int, n as int)),
        decreases n - from,
    {
        proof {
            let rest = x@.subrange(from as int, n as int);
            assert(rest.subrange(1, rest.len() as int) =~= x@.subrange(from + 1, n as int));
        }
        from = from + 1;
    }
    let ghost front = x@.subrange(from as int, n as int);
    proof {
        assert(trim_front(x@) == front);
    }
    let mut to: usize = n;
    while to > from && white_char(x[to - 1])
        invariant
            x@ == s@,
            n == x@.len(),
            from <= to <= n,
            front == x@.subrange(from as int, n as int),
            trim_back(front) == trim_back(x@.subrange(from as int, to as int)),
        decreases to,
    {
        proof {
            let rest = x@.subrange(from as int, to as int);
            assert(rest.drop_last() =~= x@.subrange(from as int, to - 1));
        }
        to = to - 1;
    }
    text_between(&x, from, to)
}

/// The pieces of `s` between commas, trimmed, without those of which nothing is left.
pub open spec fn comma_list(s: Seq<char>) -> Seq<Seq<char>> {
    split_on(s, ',').map_values(|t: Seq<char>| trimmed(t)).filter(|t: Seq<char>| t.len() > 0)
}

/// No item of a list between commas is empty.
pub proof fn law_no_item_is_empty(s: Seq<char>, i: int)
    requires
        0 <= i < comma_list(s).len(),
    ensures
        comma_list(s)[i].len() > 0,
{
    broadcast use vstd::seq_lib::group_filter_ensures;

}

/// The pieces of `s` between commas, trimmed, without those of which nothing is left.
pub fn comma_items(s: &str) -> (r: Vec<String>)
    ensures
        texts(r@) == comma_list(s@),
{
    let cut: Vec<String> = pieces(s, ',');
    let mut out: Vec<String> = Vec::new();
    let ghost all = split_on(s@, ',').map_values(|t: Seq<char>| trimmed(t));
    let ghost some = |t: Seq<char>| t.len() > 0;
    proof {
        reveal(Seq::filter);
        assert(texts(out@) =~= all.take(0).filter(some));
    }
    let mut i: usize = 0;
    while i < cut.len()
        invariant
            i <= cut@.len(),
            texts(cut@) == split_on(s@, ','),
            all == split_on(s@, ',').map_values(|t: Seq<char>| trimmed(t)),
            some == (|t: Seq<char>| t.len() > 0),
            texts(out@) == all.take(i as int).filter(some),
        decreases cut@.len() - i,
    {
        let ghost before = texts(out@);
        let t: String = trim_text(cut[i].as_str());
        proof {
            assert(texts(cut@)[i as int] == cut@[i as int]@);
            assert(t@ == all[i as int]);
            reveal(Seq::filter);
            assert(all.take(i + 1).drop_last() =~= all.take(i as int));
            assert(all.take(i + 1).last() == t@);
        }
        if !t.as_str().is_empty() {
            let ghost view = t@;
            out.push(t);
            proof {
                assert(texts(out@) =~= before.push(view));
            }
        }
        i = i + 1;
    }
    proof {
        assert(all.take(all.len() as int) =~= all);
    }
    out
}

/// What an optional string holds.
pub open spec fn opt_text(s: Option<String>) -> Option<Seq<char>> {
    match s {
        Some(t) => Some(t@),
        None => None,
    }
}

/// What an optional string holds; `default` where there is none.
pub open spec fn text_or(s: Option<String>, default: Seq<char>) -> Seq<char> {
    match s {
        Some(t) => t@,
        None => default,
    }
}

/// A copy of what an optional string holds; `default` where there is none.
pub fn string_or(s: &Option<String>, default: &str) -> (r: String)
    ensures
        r@ == text_or(*s, default@),
{
    match s {
        Some(t) => t.clone(),
        None => default.to_owned(),
    }
}

/// A copy of an optional string.
pub fn copy_opt(s: &Option<String>) -> (r: Option<String>)
    ensures
        r == *s,
{
    match s {
        Some(t) => Some(t.clone()),
        None => None,
    }
}

// ===================== Decimal numbers =====================
/// The value of the digit `c`.
pub open spec fn digit_value(c: char) -> nat {
    (c as u32 - '0' as u32) as nat
}

/// The digit of the value `d`.
pub open spec fn digit_of(d: nat) -> char {
    ('0' as u32 + d) as char
}

/// The number that the digits of `s` write.
pub open spec fn decimal_value(s: Seq<char>) -> nat
    decreases s.len(),
{
    if s.len() == 0 {
        0
    } else {
        10 * decimal_value(s.drop_last()) + digit_value(s.last())
    }
}

/// The digits that write `n`.
pub open spec fn decimal_text(n: nat) -> Seq<char>
    decreases n,
{
    if n < 10 {
        seq![digit_of(n)]
    } else {
        decimal_text(n / 10).push(digit_of(n % 10))
    }
}

/// The number that `s` writes, if it is digits, at least one, with an optional plus
/// sign before them, and the number is `max` at most.
pub open spec fn unsigned_number(s: Seq<char>, max: nat) -> Option<nat> {
    let d = if s.len() > 0 && s[0] == '+' {
        s.subrange(1, s.len() as int)
    } else {
        s
    };
    if d.len() > 0 && all_digits(d) && decimal_value(d) <= max {
        Some(decimal_value(d))
    } else {
        None
    }
}

/// The number that `s` writes, if it is digits, at least one, with an optional sign
/// before them, and the number is one of 32 bits.
pub open spec fn signed_number(s: Seq<char>) -> Option<int> {
    if s.len() > 0 && s[0] == '-' {
        let d = s.subrange(1, s.len() as int);
        if d.len() > 0 && all_digits(d) && decimal_value(d) <= 0x8000_0000 {
            Some(-(decimal_value(d) as int))
        } else {
            None
        }
    } else {
        match unsigned_number(s, 0x7fff_ffff) {
            Some(n) => Some(n as int),
            None => None,
        }
    }
}

/// What stands in front of a digit does not make the number smaller.
proof fn lemma_decimal_value_grows(s: Seq<char>, k: int)
    requires
        0 <= k <= s.len(),
    ensures
        decimal_value(s.take(k)) <= decimal_value(s),
    decreases s.len() - k,
{
    if k < s.len() {
        lemma_decimal_value_grows(s, k + 1);
        assert(s.take(k + 1).drop_last() =~= s.take(k));
    } else {
        assert(s.take(k) =~= s);
    }
}

/// The number that the digits from `from` on write, if there are any and it is `max`
/// at most.
fn parse_digits(x: &Vec<char>, from: usize, max: u64) -> (r: Option<u64>)
    requires
        from <= x@.len(),
    ensures
        ({
            let d = x@.subrange(from as int, x@.len() as int);
            &&& r is Some <==> d.len() > 0 && all_digits(d) && decimal_value(d) <= max
            &&& r matches Some(n) ==> n as nat == decimal_value(d)
        }),
{
    let ghost d = x@.subrange(from as int, x@.len() as int);
    if from >= x.len() {
        return None;
    }
    let mut n: u64 = 0;
    let mut i: usize = from;
    while i < x.len()
        invariant
            from <= i <= x@.len(),
            d == x@.subrange(from as int, x@.len() as int),
            n as nat == decimal_value(d.take(i - from)),
            n <= max,
            forall|k: int| 0 <= k < i - from ==> is_digit(#[trigger] d[k]),
        decreases x@.len() - i,
    {
        let c: char = x[i];
        if !digit_char(c) {
            assert(!is_digit(d[i - from]));
            return None;
        }
        let wide: u128 = n as u128 * 10 + (c as u32 - '0' as u32) as u128;
        proof {
            assert(d.take(i + 1 - from).drop_last() =~= d.take(i - from));
            assert(d.take(i + 1 - from).last() == c);
            lemma_decimal_value_grows(d, i + 1 - from);
        }
        if wide > max as u128 {
            return None;
        }
        n = wide as u64;
        i = i + 1;
    }
    assert(d.take(d.len() as int) =~= d);
    Some(n)
}

/// The number that `s` writes, `max` at most.
pub fn parse_unsigned(s: &str, max: u64) -> (r: Option<u64>)
    ensures
        r is Some <==> unsigned_number(s@, max as nat) is Some,
        r matches Some(n) ==> unsigned_number(s@, max as nat) == Some(n as nat),
{
    let x: Vec<char> = chars_of(s);
    assert(x@.subrange(0, x@.len() as int) =~= x@);
    if x.len() > 0 && x[0] == '+' {
        parse_digits(&x, 1, max)
    } else {
        parse_digits(&x, 0, max)
    }
}

/// The number of 32 bits that `s` writes.
pub fn parse_signed(s: &str) -> (r: Option<i32>)
    ensures
        r is Some <==> signed_number(s@) is Some,
        r matches Some(n) ==> signed_number(s@) == Some(n as int),
{
    let x: Vec<char> = chars_of(s);
    if x.len() > 0 && x[0] == '-' {
        match parse_digits(&x, 1, 0x8000_0000) {
            Some(n) => Some((-(n as i64)) as i32),
            None => None,
        }
    } else {
        match parse_unsigned(s, 0x7fff_ffff) {
            Some(n) => Some(n as i32),
            None => None,
        }
    }
}

/// The digit of the value `d`.
fn digit_for(d: u64) -> (r: char)
    requires
        d < 10,
    ensures
        r == digit_of(d as nat),
{
    (48u8 + d as u8) as char
}

/// The digits that write `n`.
pub fn number_text(n: u64) -> (r: String)
    ensures
        r@ == decimal_text(n as nat),
    decreases n,
{
    if n < 10 {
        let mut out: String = String::new();
        out.push(digit_for(n));
        proof {
            assert(out@ =~= decimal_text(n as nat));
        }
        out
    } else {
        let mut out: String = number_text(n / 10);
        out.push(digit_for(n % 10));
        out
    }
}

/// What is written of a number reads back as that number.
pub proof fn law_decimal_round_trip(n: nat, max: nat)
    requires
        n <= max,
    ensures
        unsigned_number(decimal_text(n), max) == Some(n),
{
    lemma_decimal_text(n);
    assert(is_digit(decimal_text(n)[0]));
}

/// The digits of `decimal_text` are digits, at least one, and write the number.
pub proof fn lemma_decimal_text(n: nat)
    ensures
        decimal_text(n).len() > 0,
        all_digits(decimal_text(n)),
        decimal_value(decimal_text(n)) == n,
    decreases n,
{
    if n >= 10 {
        lemma_decimal_text(n / 10);
        let t = decimal_text(n / 10);
        assert(decimal_text(n).drop_last() =~= t);
        assert forall|i: int| 0 <= i < decimal_text(n).len() implies is_digit(
            #[trigger] decimal_text(n)[i],
        ) by {
            if i < t.len() {
                assert(is_digit(t[i]));
            }
        }
    } else {
        reveal_with_fuel(decimal_value, 2);
        assert(decimal_text(n).drop_last() =~= Seq::<char>::empty());
    }
    assert(decimal_text(n).last() == digit_of(n % 10));
    assert(digit_value(digit_of(n % 10)) == n % 10);
}

// ===================== Laws =====================
/// Digits are written from the left: one more digit behind those of a number writes ten
/// times the number and the digit.
pub proof fn law_decimal_digits(n: nat, d: nat)
    requires
        d < 10,
    ensures
        decimal_text(d) == seq![('0' as int + d) as char],
        n > 0 ==> decimal_text(10 * n + d) == decimal_text(n) + decimal_text(d),
{
    if n > 0 {
        assert((10 * n + d) / 10 == n);
        assert((10 * n + d) % 10 == d);
        assert(decimal_text(10 * n + d) =~= decimal_text(n) + decimal_text(d));
    }
}

/// A number of 32 bits that is written reads back as that number, with a sign too.
pub proof fn law_signed_round_trip(n: nat)
    requires
        n <= 0x7fff_ffff,
    ensures
        signed_number(decimal_text(n)) == Some(n as int),
        signed_number(seq!['-'] + decimal_text(n)) == Some(-(n as int)),
        signed_number(seq!['+'] + decimal_text(n)) == Some(n as int),
{
    lemma_decimal_text(n);
    let t = decimal_text(n);
    law_decimal_round_trip(n, 0x7fff_ffff);
    assert(is_digit(t[0]));
    assert((seq!['-'] + t).subrange(1, t.len() as int + 1) =~= t);
    assert((seq!['+'] + t).subrange(1, t.len() as int + 1) =~= t);
}

/// What is no number is not read as one: a number is digits, with a sign at most.
pub proof fn law_numbers_are_digits(s: Seq<char>, max: nat)
    requires
        unsigned_number(s, max) is Some,
    ensures
        unsigned_number(s, max)->0 <= max,
        all_digits(s) || s[0] == '+' && all_digits(s.skip(1)),
{
    assert(s.subrange(1, s.len() as int) =~= s.skip(1));
}

/// Cutting a text at a separator cuts what stands before it and what stands behind it.
pub proof fn law_split_around(a: Seq<char>, b: Seq<char>, c: char)
    ensures
        split_on(a + seq![c] + b, c) == split_on(a, c) + split_on(b, c),
        !a.contains(c) ==> split_on(a, c) == seq![a],
    decreases a.len(),
{
    let s = a + seq![c] + b;
    let i = index_from(a, c, 0);
    lemma_index_from(a, c, 0);
    assert forall|k: int| 0 <= k < i implies s[k] != c by {
        assert(s[k] == a[k]);
    }
    lemma_index_from_is(s, c, 0, i);
    if i < a.len() {
        assert(a.contains(a[i]));
        let rest = a.subrange(i + 1, a.len() as int);
        law_split_around(rest, b, c);
        assert(s.subrange(i + 1, s.len() as int) =~= rest + seq![c] + b);
        assert(s.subrange(0, i) =~= a.subrange(0, i));
        assert(split_on(s, c) =~= split_on(a, c) + split_on(b, c));
    } else {
        assert(s.subrange(i + 1, s.len() as int) =~= b);
        assert(s.subrange(0, i) =~= a);
        assert(split_on(s, c) =~= split_on(a, c) + split_on(b, c));
    }
}

/// Nothing is trimmed in front where there is no white space.
proof fn lemma_trim_front(space: Seq<char>, s: Seq<char>)
    requires
        forall|i: int| 0 <= i < space.len() ==> is_white(#[trigger] space[i]),
        s.len() > 0 ==> !is_white(s[0]),
    ensures
        trim_front(space + s) == s,
    decreases space.len(),
{
    let whole = space + s;
    if space.len() > 0 {
        assert(is_white(space[0]));
        let rest = space.skip(1);
        assert forall|i: int| 0 <= i < rest.len() implies is_white(#[trigger] rest[i]) by {
            assert(rest[i] == space[i + 1]);
        }
        lemma_trim_front(rest, s);
        assert(whole.subrange(1, whole.len() as int) =~= rest + s);
    } else {
        assert(whole =~= s);
    }
}

/// White space behind a text is trimmed, and nothing else.
proof fn lemma_trim_back(s: Seq<char>, space: Seq<char>)
    requires
        forall|i: int| 0 <= i < space.len() ==> is_white(#[trigger] space[i]),
        s.len() > 0 ==> !is_white(s.last()),
    ensures
        trim_back(s + space) == s,
    decreases space.len(),
{
    let whole = s + space;
    if space.len() > 0 {
        assert(is_white(space[space.len() - 1]));
        let rest = space.drop_last();
        assert forall|i: int| 0 <= i < rest.len() implies is_white(#[trigger] rest[i]) by {
            assert(rest[i] == space[i]);
        }
        lemma_trim_back(s, rest);
        assert(whole.drop_last() =~= s + rest);
    } else {
        assert(whole =~= s);
    }
}

/// A text that neither begins nor ends in white space is what is left of it between white
/// space.
pub proof fn law_trimmed_between(front: Seq<char>, s: Seq<char>, back: Seq<char>)
    requires
        forall|i: int| 0 <= i < front.len() ==> is_white(#[trigger] front[i]),
        forall|i: int| 0 <= i < back.len() ==> is_white(#[trigger] back[i]),
        s.len() > 0,
        !is_white(s[0]),
        !is_white(s.last()),
    ensures
        trimmed(front + s + back) == s,
{
    lemma_trim_front(front, s + back);
    assert(front + s + back =~= front + (s + back));
    lemma_trim_back(s, back);
}

/// A list between commas holds the items before a comma, then those behind it; an item
/// alone is a list of one.
pub proof fn law_comma_list(a: Seq<char>, b: Seq<char>)
    ensures
        comma_list(a + seq![','] + b) == comma_list(a) + comma_list(b),
        !a.contains(',') && a.len() > 0 && !is_white(a[0]) && !is_white(a.last())
            ==> comma_list(a) == seq![a],
{
    law_split_around(a, b, ',');
    let trim = |t: Seq<char>| trimmed(t);
    let some = |t: Seq<char>| t.len() > 0;
    let x = split_on(a, ',').map_values(trim);
    let y = split_on(b, ',').map_values(trim);
    assert(split_on(a + seq![','] + b, ',').map_values(trim) =~= x + y);
    lemma_filter_cut(x, y);
    if !a.contains(',') && a.len() > 0 && !is_white(a[0]) && !is_white(a.last()) {
        law_trimmed_between(seq![], a, seq![]);
        assert(seq![] + a + seq![] =~= a);
        assert(x =~= seq![a]);
        reveal(Seq::filter);
        assert(x.drop_last() =~= seq![]);
        assert(x.drop_last().filter(some) =~= seq![]);
        assert(x.filter(some) =~= seq![a]);
    }
}

/// Leaving out empty texts goes through a cut.
proof fn lemma_filter_cut(x: Seq<Seq<char>>, y: Seq<Seq<char>>)
    ensures
        (x + y).filter(|t: Seq<char>| t.len() > 0) == x.filter(|t: Seq<char>| t.len() > 0)
            + y.filter(|t: Seq<char>| t.len() > 0),
    decreases y.len(),
{
    reveal(Seq::filter);
    let some = |t: Seq<char>| t.len() > 0;
    if y.len() == 0 {
        assert(x + y =~= x);
        assert(y.filter(some) =~= seq![]);
        assert(x.filter(some) + y.filter(some) =~= x.filter(some));
    } else {
        lemma_filter_cut(x, y.drop_last());
        assert((x + y).drop_last() =~= x + y.drop_last());
        assert((x + y).last() == y.last());
        assert((x + y).filter(some) =~= x.filter(some) + y.filter(some));
    }
}

/// Capital letters of ASCII become small, and every other character of an ASCII text stays.
pub proof fn law_letters_are_made_small(s: Seq<char>, i: int)
    requires
        is_ascii_chars(s),
        0 <= i < s.len(),
    ensures
        lowered(s).len() == s.len(),
        'A' <= s[i] <= 'Z' ==> lowered(s)[i] as int == s[i] as int + 32,
        !('A' <= s[i] <= 'Z') ==> lowered(s)[i] == s[i],
{
}

/// An optional text is the text that it holds.
pub proof fn law_optional_text(s: String)
    ensures
        opt_text(Some(s)) == Some(s@),
        opt_text(None) is None,
{
}

/// Digits are read from the left, zeros at the front too: one more digit makes ten times the
/// number and the digit, and nothing where that is too large.
pub proof fn law_digits_are_read(t: Seq<char>, c: char, max: nat)
    requires
        t.len() > 0 && all_digits(t),
        '0' <= c <= '9',
    ensures
        ({
            let d = (c as int - '0' as int) as nat;
            &&& unsigned_number(seq![c], max) == (if d <= max {
                Some(d)
            } else {
                None
            })
            &&& unsigned_number(t.push(c), max) == (match unsigned_number(t, max) {
                Some(n) => if 10 * n + d <= max {
                    Some(10 * n + d)
                } else {
                    None
                },
                None => None,
            })
        }),
{
    assert(is_digit(c) && is_digit(t[0]));
    assert(t.push(c).drop_last() =~= t);
    assert(t.push(c)[0] == t[0]);
    assert(all_digits(t.push(c))) by {
        assert forall|i: int| 0 <= i < t.push(c).len() implies is_digit(#[trigger] t.push(c)[i]) by {
            if i < t.len() {
                assert(is_digit(t[i]));
            }
        }
    }
    assert(all_digits(seq![c]));
    reveal_with_fuel(decimal_value, 2);
    assert(seq![c].drop_last() =~= Seq::<char>::empty());
}

/// A plus sign before digits does not matter. A minus sign makes the number negative. Numbers
/// with a sign reach to those of 32 bits.
pub proof fn law_signs_are_read(t: Seq<char>, max: nat)
    requires
        t.len() > 0 && all_digits(t),
    ensures
        unsigned_number(seq!['+'] + t, max) == unsigned_number(t, max),
        unsigned_number(seq!['-'] + t, max) is None,
        signed_number(seq!['+'] + t) == signed_number(t),
        match unsigned_number(t, i32::MAX as nat) {
            Some(n) => signed_number(t) == Some(n as int),
            None => signed_number(t) is None,
        },
        match unsigned_number(t, (i32::MAX + 1) as nat) {
            Some(n) => signed_number(seq!['-'] + t) == Some(-(n as int)),
            None => signed_number(seq!['-'] + t) is None,
        },
{
    assert(is_digit(t[0]));
    let plus = seq!['+'] + t;
    let minus = seq!['-'] + t;
    assert(plus.subrange(1, plus.len() as int) =~= t);
    assert(minus.subrange(1, minus.len() as int) =~= t);
    assert(!is_digit(minus[0]));
}

/// A text that is empty, is a sign alone, or holds a character that is neither a digit nor a
/// sign at the front is no number.
pub proof fn law_no_number_is_read(s: Seq<char>, i: int, max: nat)
    requires
        s.len() == 0 || s == seq!['+'] || s == seq!['-'] || 0 <= i < s.len() && !('0' <= s[i]
            <= '9') && (i > 0 || s[0] != '+' && s[0] != '-'),
    ensures
        unsigned_number(s, max) is None,
        signed_number(s) is None,
{
    if s.len() > 0 {
        let rest = s.subrange(1, s.len() as int);
        if s == seq!['+'] || s == seq!['-'] {
            assert(rest.len() == 0);
            assert(!is_digit(s[0]));
        } else {
            assert(!is_digit(s[i]));
            if i > 0 {
                assert(rest[i - 1] == s[i]);
            }
        }
    }
}

/// Of white space nothing is left.
pub proof fn law_white_is_trimmed(s: Seq<char>)
    requires
        forall|i: int| 0 <= i < s.len() ==> is_white(#[trigger] s[i]),
    ensures
        trimmed(s).len() == 0,
{
    let none = Seq::<char>::empty();
    lemma_trim_front(s, none);
    assert(s + none =~= s);
}

/// An item of a list counts without the white space around it, and not at all where nothing
/// else is there.
pub proof fn law_comma_item(front: Seq<char>, s: Seq<char>, back: Seq<char>)
    requires
        forall|i: int| 0 <= i < front.len() ==> is_white(#[trigger] front[i]),
        forall|i: int| 0 <= i < back.len() ==> is_white(#[trigger] back[i]),
        !s.contains(','),
        s.len() > 0 ==> !is_white(s[0]) && !is_white(s.last()),
    ensures
        comma_list(front + s + back) == (if s.len() == 0 {
            Seq::<Seq<char>>::empty()
        } else {
            seq![s]
        }),
{
    let whole = front + s + back;
    if whole.contains(',') {
        let k = choose|k: int| 0 <= k < whole.len() && whole[k] == ',';
        if k < front.len() {
            assert(is_white(front[k]));
        } else if k < front.len() + s.len() {
            assert(s[k - front.len()] == ',');
        } else {
            assert(is_white(back[k - front.len() - s.len()]));
        }
    }
    law_split_around(whole, seq![], ',');
    if s.len() > 0 {
        law_trimmed_between(front, s, back);
    } else {
        assert forall|i: int| 0 <= i < whole.len() implies is_white(#[trigger] whole[i]) by {
            if i < front.len() {
                assert(is_white(front[i]));
            } else {
                assert(is_white(back[i - front.len()]));
            }
        }
        law_white_is_trimmed(whole);
    }
    let x = split_on(whole, ',').map_values(|t: Seq<char>| trimmed(t));
    assert(x =~= seq![trimmed(whole)]);
    let some = |t: Seq<char>| t.len() > 0;
    reveal(Seq::filter);
    assert(x.drop_last() =~= seq![]);
    assert(x.drop_last().filter(some) =~= seq![]);
    assert(x.last() == trimmed(whole));
    assert(comma_list(whole) =~= (if s.len() == 0 {
        Seq::<Seq<char>>::empty()
    } else {
        seq![s]
    }));
}

/// White space of ASCII is the space and the five characters from the tab to the carriage
/// return; behind ASCII it is what Unicode says.
pub proof fn law_white_space(c: char)
    ensures
        c as int <= 127 ==> (is_white(c) <==> c == ' ' || c == '\t' || c == '\n' || c as int == 11
            || c as int == 12 || c == '\r'),
        c as int > 127 ==> (is_white(c) <==> seq![
            133int,
            160,
            5760,
            8192,
            8193,
            8194,
            8195,
            8196,
            8197,
            8198,
            8199,
            8200,
            8201,
            8202,
            8232,
            8233,
            8239,
            8287,
            12288,
        ].contains(c as int)),
{
    let all = seq![
        133int,
        160,
        5760,
        8192,
        8193,
        8194,
        8195,
        8196,
        8197,
        8198,
        8199,
        8200,
        8201,
        8202,
        8232,
        8233,
        8239,
        8287,
        12288,
    ];
    let n = c as int;
    assert(all[0] == 133 && all[1] == 160 && all[2] == 5760 && all[14] == 8232);
    assert(all[15] == 8233 && all[16] == 8239 && all[17] == 8287 && all[18] == 12288);
    if 8192 <= n <= 8202 {
        assert(all[n - 8189] == n);
    }
}

/// A text that is not ASCII has the small letters that Unicode gives it.
pub proof fn law_other_letters_are_made_small(s: Seq<char>)
    requires
        !is_ascii_chars(s),
    ensures
        lowered(s) == small_letters(s),
{
}

/// A text is digits where each of its characters is one of the ten; the empty text is.
pub proof fn law_digits_of_text(a: Seq<char>, b: Seq<char>, c: char)
    ensures
        all_digits(Seq::<char>::empty()),
        all_digits(seq![c]) <==> "0123456789"@.contains(c),
        all_digits(a + b) <==> all_digits(a) && all_digits(b),
{
    reveal_strlit("0123456789");
    let ten = "0123456789"@;
    assert(ten.len() == 10);
    assert(seq![c][0] == c);
    if '0' <= c <= '9' {
        assert(ten[c as int - '0' as int] == c);
    }
    assert(all_digits(a + b) ==> all_digits(a) && all_digits(b)) by {
        if all_digits(a + b) {
            assert forall|i: int| 0 <= i < a.len() implies is_digit(#[trigger] a[i]) by {
                assert(is_digit((a + b)[i]));
            }
            assert forall|i: int| 0 <= i < b.len() implies is_digit(#[trigger] b[i]) by {
                assert(is_digit((a + b)[a.len() + i]));
            }
        }
    }
}

} // verus!
