//! Parts of files: which bytes a request wants.
use vstd::prelude::*;

use crate::headers::opt_str;
use crate::text::{begins_with, chars_of, decimal_text, number_text, parse_unsigned, pieces};
use crate::text::{is_digit, law_decimal_round_trip, law_split_around, lemma_decimal_text};
use crate::text::{split_on, text_between, texts, unsigned_number};

verus! {

/// Which bytes of a file a request gets.
#[derive(Clone, Copy, Debug)]
pub enum RangePlan {
    /// All of them.
    Whole,
    /// None: it wants bytes behind the end of the file.
    Unsatisfiable,
    /// Those from `start` on, up to the byte `last`. The request named `end`.
    Part { start: u64, end: u64, last: u64 },
}

/// What stands behind `bytes=` in the header; none where it does not begin with that.
pub open spec fn wanted_bytes(range: Option<Seq<char>>) -> Option<Seq<char>> {
    match range {
        Some(r) => if "bytes="@.is_prefix_of(r) {
            Some(r.subrange("bytes="@.len() as int, r.len() as int))
        } else {
            None
        },
        None => None,
    }
}

/// The piece at `i` between hyphens as a number; `default` where there is none.
pub open spec fn number_at(wanted: Seq<char>, i: int, default: int) -> int {
    let cut = split_on(wanted, '-');
    if i < cut.len() {
        match unsigned_number(cut[i], u64::MAX as nat) {
            Some(n) => n as int,
            None => default,
        }
    } else {
        default
    }
}

/// The first byte that is wanted: the number before the first hyphen, or 0.
pub open spec fn first_byte(wanted: Seq<char>) -> int {
    number_at(wanted, 0, 0)
}

/// The last byte that is wanted: the number behind the first hyphen, or the last byte
/// of the file.
pub open spec fn last_byte(wanted: Seq<char>, size: u64) -> int {
    number_at(wanted, 1, size - 1)
}

/// The request wants bytes of the file, but names an end before the start.
pub open spec fn range_inverted(range: Option<Seq<char>>, size: u64) -> bool {
    match wanted_bytes(range) {
        Some(w) => first_byte(w) < size && last_byte(w, size) < first_byte(w),
        None => false,
    }
}

/// Which bytes of a file of `size` bytes a request gets.
pub open spec fn planned(range: Option<Seq<char>>, size: u64) -> RangePlan {
    match wanted_bytes(range) {
        Some(w) => if first_byte(w) >= size {
            RangePlan::Unsatisfiable
        } else {
            RangePlan::Part {
                start: first_byte(w) as u64,
                end: last_byte(w, size) as u64,
                last: (if last_byte(w, size) < size {
                    last_byte(w, size)
                } else {
                    size - 1
                }) as u64,
            }
        },
        None => RangePlan::Whole,
    }
}

/// The numbers that are wanted, as far as they are there.
fn wanted_numbers(range: Option<&str>) -> (r: Option<(Option<u64>, Option<u64>)>)
    ensures
        r is Some <==> wanted_bytes(opt_str(range)) is Some,
        r matches Some(n) ==> {
            let w = wanted_bytes(opt_str(range))->0;
            &&& forall|d: int|
                number_at(w, 0, d) == (match n.0 {
                    Some(v) => v as int,
                    None => d,
                })
            &&& forall|d: int|
                number_at(w, 1, d) == (match n.1 {
                    Some(v) => v as int,
                    None => d,
                })
        },
{
    let text: &str = match range {
        Some(t) => t,
        None => {
            return None;
        },
    };
    if !begins_with(text, "bytes=") {
        return None;
    }
    let x: Vec<char> = chars_of(text);
    let mark: Vec<char> = chars_of("bytes=");
    let wanted: String = text_between(&x, mark.len(), x.len());
    let cut: Vec<String> = pieces(wanted.as_str(), '-');
    let ghost all = split_on(wanted@, '-');
    assert(texts(cut@) == all);
    let first: Option<u64> = if cut.len() > 0 {
        assert(all[0] == cut@[0]@);
        parse_unsigned(cut[0].as_str(), u64::MAX)
    } else {
        None
    };
    let second: Option<u64> = if cut.len() > 1 {
        assert(all[1] == cut@[1]@);
        parse_unsigned(cut[1].as_str(), u64::MAX)
    } else {
        None
    };
    Some((first, second))
}

/// Tells whether the request names an end before the start.
pub fn is_inverted(range: Option<&str>, size: u64) -> (r: bool)
    ensures
        r == range_inverted(opt_str(range), size),
{
    match wanted_numbers(range) {
        Some((first, second)) => {
            let start: u64 = match first {
                Some(n) => n,
                None => 0,
            };
            match second {
                Some(end) => start < size && end < start,
                None => false,
            }
        },
        None => false,
    }
}

/// Which bytes of a file of `size` bytes a request gets.
pub fn plan_range(range: Option<&str>, size: u64) -> (r: RangePlan)
    requires
        !range_inverted(opt_str(range), size),
    ensures
        r == planned(opt_str(range), size),
{
    match wanted_numbers(range) {
        Some((first, second)) => {
            let start: u64 = match first {
                Some(n) => n,
                None => 0,
            };
            if start >= size {
                return RangePlan::Unsatisfiable;
            }
            let end: u64 = match second {
                Some(n) => n,
                None => size - 1,
            };
            let last: u64 = if end < size {
                end
            } else {
                size - 1
            };
            RangePlan::Part { start, end, last }
        },
        None => RangePlan::Whole,
    }
}

/// A part that is planned lies in the file, and is not empty.
pub proof fn law_part_in_file(range: Option<Seq<char>>, size: u64)
    requires
        !range_inverted(range, size),
        planned(range, size) is Part,
    ensures
        planned(range, size)->start <= planned(range, size)->last < size,
{
}

/// What is said of a part of a file: `bytes start-end/size`.
pub open spec fn part_label(start: u64, end: u64, size: u64) -> Seq<char> {
    "bytes "@ + decimal_text(start as nat) + "-"@ + decimal_text(end as nat) + "/"@ + decimal_text(
        size as nat,
    )
}

/// What is said of a part of a file.
pub fn label_part(start: u64, end: u64, size: u64) -> (r: String)
    ensures
        r@ == part_label(start, end, size),
{
    let a: String = number_text(start);
    let b: String = number_text(end);
    let c: String = number_text(size);
    "bytes ".to_owned().concat(a.as_str()).concat("-").concat(b.as_str()).concat("/").concat(
        c.as_str(),
    )
}

/// The bytes from `start` on, up to the byte `last`.
pub fn cut_part(data: &Vec<u8>, start: u64, last: u64) -> (r: Vec<u8>)
    requires
        start <= last < data@.len(),
    ensures
        r@ == data@.subrange(start as int, last + 1),
{
    let mut out: Vec<u8> = Vec::new();
    let n: usize = data.len();
    let to: usize = last as usize;
    let mut i: usize = start as usize;
    while i <= to
        invariant
            start <= i <= to + 1,
            to < n,
            n == data@.len(),
            out@ == data@.subrange(start as int, i as int),
        decreases to + 1 - i,
    {
        out.push(data[i]);
        i = i + 1;
    }
    out
}

/// Decimal digits hold no hyphen.
proof fn lemma_digits_without_hyphen(n: nat)
    ensures
        !decimal_text(n).contains('-'),
        decimal_text(n).len() > 0,
{
    lemma_decimal_text(n);
    let t = decimal_text(n);
    if t.contains('-') {
        let k = choose|k: int| 0 <= k < t.len() && t[k] == '-';
        assert(is_digit(t[k]));
    }
}

/// A request for `bytes=a-b` gets the bytes from `a` to `b`, or to the end of the file where
/// `b` lies behind it; none where `a` does.
pub proof fn law_range_is_read(a: u64, b: u64, size: u64)
    requires
        a <= b,
    ensures
        ({
            let range = "bytes="@ + (decimal_text(a as nat) + seq!['-'] + decimal_text(b as nat));
            &&& !range_inverted(Some(range), size)
            &&& a >= size ==> planned(Some(range), size) is Unsatisfiable
            &&& a < size ==> planned(Some(range), size) == (RangePlan::Part {
                start: a,
                end: b,
                last: if b < size {
                    b
                } else {
                    (size - 1) as u64
                },
            })
        }),
{
    let x = decimal_text(a as nat);
    let y = decimal_text(b as nat);
    let wanted = x + seq!['-'] + y;
    let range = "bytes="@ + wanted;
    lemma_wanted(wanted);
    lemma_digits_without_hyphen(a as nat);
    lemma_digits_without_hyphen(b as nat);
    law_split_around(x, y, '-');
    law_split_around(y, seq![], '-');
    assert(split_on(wanted, '-') =~= seq![x, y]);
    law_decimal_round_trip(a as nat, u64::MAX as nat);
    law_decimal_round_trip(b as nat, u64::MAX as nat);
}

/// A request for `bytes=a-` gets the bytes from `a` to the end of the file.
pub proof fn law_open_range_is_read(a: u64, size: u64)
    requires
        a < size,
    ensures
        planned(Some("bytes="@ + (decimal_text(a as nat) + seq!['-'])), size) == (RangePlan::Part {
            start: a,
            end: (size - 1) as u64,
            last: (size - 1) as u64,
        }),
{
    let x = decimal_text(a as nat);
    let none = Seq::<char>::empty();
    let wanted = x + seq!['-'] + none;
    assert(wanted =~= x + seq!['-']);
    lemma_wanted(wanted);
    lemma_digits_without_hyphen(a as nat);
    law_split_around(x, none, '-');
    law_split_around(none, none, '-');
    assert(split_on(wanted, '-') =~= seq![x, none]);
    law_decimal_round_trip(a as nat, u64::MAX as nat);
}

/// A request that names no bytes gets the whole file.
pub proof fn law_no_range_is_whole(range: Option<Seq<char>>, size: u64)
    requires
        range matches Some(r) ==> forall|t: Seq<char>| r != #[trigger] ("bytes="@ + t),
    ensures
        planned(range, size) is Whole,
        !range_inverted(range, size),
{
    if let Some(r) = range {
        if "bytes="@.is_prefix_of(r) {
            let n = "bytes="@.len() as int;
            assert(r =~= "bytes="@ + r.skip(n)) by {
                assert(r.subrange(0, n) == "bytes="@);
            }
        }
    }
}

/// What stands behind `bytes=` is what is wanted.
proof fn lemma_wanted(wanted: Seq<char>)
    ensures
        wanted_bytes(Some("bytes="@ + wanted)) == Some(wanted),
{
    let range = "bytes="@ + wanted;
    let n = "bytes="@.len() as int;
    assert(range.subrange(0, n) =~= "bytes="@);
    assert(range.subrange(n, range.len() as int) =~= wanted);
}

/// A request for `bytes=a-b` names an end before the start where `b` is less than `a`; that
/// matters only where `a` is a byte of the file. Where `a` is none there is nothing to get.
pub proof fn law_inverted_range_is_told(a: u64, b: u64, size: u64)
    ensures
        range_inverted(
            Some("bytes="@ + (decimal_text(a as nat) + seq!['-'] + decimal_text(b as nat))),
            size,
        ) <==> b < a < size,
        a >= size ==> planned(
            Some("bytes="@ + (decimal_text(a as nat) + seq!['-'] + decimal_text(b as nat))),
            size,
        ) is Unsatisfiable,
{
    let x = decimal_text(a as nat);
    let y = decimal_text(b as nat);
    let wanted = x + seq!['-'] + y;
    lemma_wanted(wanted);
    lemma_digits_without_hyphen(a as nat);
    lemma_digits_without_hyphen(b as nat);
    law_split_around(x, y, '-');
    law_split_around(y, seq![], '-');
    assert(split_on(wanted, '-') =~= seq![x, y]);
    law_decimal_round_trip(a as nat, u64::MAX as nat);
    law_decimal_round_trip(b as nat, u64::MAX as nat);
}

/// What stands behind a second hyphen does not matter, and a start alone is one that is open.
pub proof fn law_two_numbers_are_read(x: Seq<char>, y: Seq<char>, more: Seq<char>, size: u64)
    requires
        !x.contains('-') && !y.contains('-'),
    ensures
        ({
            let two = Some("bytes="@ + (x + seq!['-'] + y));
            let three = Some("bytes="@ + (x + seq!['-'] + (y + seq!['-'] + more)));
            &&& planned(three, size) == planned(two, size)
            &&& range_inverted(three, size) == range_inverted(two, size)
        }),
        ({
            let alone = Some("bytes="@ + x);
            let open = Some("bytes="@ + (x + seq!['-']));
            &&& planned(alone, size) == planned(open, size)
            &&& range_inverted(alone, size) == range_inverted(open, size)
        }),
{
    let none = Seq::<char>::empty();
    let two = x + seq!['-'] + y;
    let three = x + seq!['-'] + (y + seq!['-'] + more);
    lemma_wanted(two);
    lemma_wanted(three);
    lemma_wanted(x);
    lemma_wanted(x + seq!['-']);
    law_split_around(x, y, '-');
    law_split_around(x, y + seq!['-'] + more, '-');
    law_split_around(y, more, '-');
    law_split_around(y, none, '-');
    law_split_around(x, none, '-');
    law_split_around(none, none, '-');
    assert(x + seq!['-'] + none =~= x + seq!['-']);
    assert(split_on(two, '-') =~= seq![x, y]);
    assert(split_on(three, '-')[0] == x && split_on(three, '-')[1] == y);
    assert(split_on(x, '-') =~= seq![x]);
    assert(split_on(x + seq!['-'], '-') =~= seq![x, none]);
    assert(none.len() == 0);
}

/// A start that is no number is the first byte of the file, and an end that is no number its
/// last.
pub proof fn law_no_number_is_edge(x: Seq<char>, y: Seq<char>, size: u64)
    requires
        !x.contains('-') && !y.contains('-'),
    ensures
        unsigned_number(x, u64::MAX as nat) is None ==> {
            let range = Some("bytes="@ + (x + seq!['-'] + y));
            let zero = Some("bytes="@ + (decimal_text(0) + seq!['-'] + y));
            &&& planned(range, size) == planned(zero, size)
            &&& range_inverted(range, size) == range_inverted(zero, size)
        },
        unsigned_number(y, u64::MAX as nat) is None ==> {
            let range = Some("bytes="@ + (x + seq!['-'] + y));
            let open = Some("bytes="@ + (x + seq!['-']));
            &&& planned(range, size) == planned(open, size)
            &&& range_inverted(range, size) == range_inverted(open, size)
        },
{
    let none = Seq::<char>::empty();
    let zero = decimal_text(0);
    lemma_digits_without_hyphen(0);
    law_decimal_round_trip(0, u64::MAX as nat);
    lemma_wanted(x + seq!['-'] + y);
    lemma_wanted(zero + seq!['-'] + y);
    lemma_wanted(x + seq!['-']);
    law_split_around(x, y, '-');
    law_split_around(zero, y, '-');
    law_split_around(y, none, '-');
    law_split_around(x, none, '-');
    law_split_around(none, none, '-');
    assert(x + seq!['-'] + none =~= x + seq!['-']);
    assert(split_on(x + seq!['-'] + y, '-') =~= seq![x, y]);
    assert(split_on(zero + seq!['-'] + y, '-') =~= seq![zero, y]);
    assert(split_on(x + seq!['-'], '-') =~= seq![x, none]);
}

} // verus!
