//! Percent-encoding of names in links.
use vstd::prelude::*;
use vstd::utf8::{decode_utf8, encode_utf8, is_ascii_chars, valid_utf8};
use vstd::utf8::{encode_utf8_decode_utf8, encode_utf8_valid_utf8, is_ascii_chars_encode_utf8};

verus! {

/// The byte stands for itself: a letter or a digit of ASCII, or one of `-`, `_`, `.`
/// and `~`.
pub open spec fn is_unreserved(b: u8) -> bool {
    ||| '0' as u8 <= b <= '9' as u8
    ||| 'A' as u8 <= b <= 'Z' as u8
    ||| 'a' as u8 <= b <= 'z' as u8
    ||| b == '-' as u8
    ||| b == '_' as u8
    ||| b == '.' as u8
    ||| b == '~' as u8
}

/// The hexadecimal digit of the value `v`, a capital letter from ten on.
pub open spec fn hex_digit(v: int) -> char {
    if v < 10 {
        ('0' as int + v) as char
    } else {
        ('A' as int + v - 10) as char
    }
}

/// The value of a hexadecimal digit, in small or capital letters.
pub open spec fn hex_value(b: u8) -> Option<int> {
    if '0' as u8 <= b <= '9' as u8 {
        Some(b as int - '0' as int)
    } else if 'A' as u8 <= b <= 'F' as u8 {
        Some(b as int - 'A' as int + 10)
    } else if 'a' as u8 <= b <= 'f' as u8 {
        Some(b as int - 'a' as int + 10)
    } else {
        None
    }
}

/// What is written for one byte.
pub open spec fn percent_byte(b: u8) -> Seq<char> {
    if is_unreserved(b) {
        seq![b as char]
    } else {
        seq!['%', hex_digit(b as int / 16), hex_digit(b as int % 16)]
    }
}

/// What is written for the bytes, one after the other.
pub open spec fn percent_bytes(bytes: Seq<u8>) -> Seq<char>
    decreases bytes.len(),
{
    if bytes.len() == 0 {
        seq![]
    } else {
        percent_byte(bytes[0]) + percent_bytes(bytes.subrange(1, bytes.len() as int))
    }
}

/// The bytes with each `%` and two hexadecimal digits behind it taken for the byte
/// that they write; any other `%` stays.
pub open spec fn percent_decoded(bytes: Seq<u8>) -> Seq<u8>
    decreases bytes.len(),
{
    if bytes.len() == 0 {
        seq![]
    } else if bytes.len() >= 3 && bytes[0] == '%' as u8 && hex_value(bytes[1]) is Some && hex_value(
        bytes[2],
    ) is Some {
        seq![(16 * hex_value(bytes[1])->0 + hex_value(bytes[2])->0) as u8] + percent_decoded(
            bytes.subrange(3, bytes.len() as int),
        )
    } else {
        seq![bytes[0]] + percent_decoded(bytes.subrange(1, bytes.len() as int))
    }
}

/// A text as it stands in a link.
pub open spec fn link_text(s: Seq<char>) -> Seq<char> {
    percent_bytes(encode_utf8(s))
}

/// The text that stands in a link as `s`; none where the bytes are no UTF-8.
pub open spec fn text_of_link(s: Seq<char>) -> Option<Seq<char>> {
    let bytes = percent_decoded(encode_utf8(s));
    if valid_utf8(bytes) {
        Some(decode_utf8(bytes))
    } else {
        None
    }
}

/// `urlencoding::encode`: the bytes of the text in UTF-8, every one but the unreserved
/// ones written as a percent sign and two hexadecimal digits.
#[verifier::external_body]
pub(crate) fn encode(s: &str) -> (r: String)
    ensures
        r@ == link_text(s@),
{
    urlencoding::encode(s).into_owned()
}

/// `urlencoding::decode`: the bytes that are written, taken for UTF-8; `None` where
/// they are none.
#[verifier::external_body]
pub(crate) fn decode(s: &str) -> (r: Option<String>)
    ensures
        r is Some <==> text_of_link(s@) is Some,
        r matches Some(t) ==> text_of_link(s@) == Some(t@),
{
    urlencoding::decode(s).ok().map(|t| t.into_owned())
}

/// The characters as bytes.
spec fn as_bytes(s: Seq<char>) -> Seq<u8> {
    Seq::new(s.len(), |i: int| s[i] as u8)
}

/// What is written for bytes is ASCII.
proof fn lemma_percent_ascii(bytes: Seq<u8>)
    ensures
        is_ascii_chars(percent_bytes(bytes)),
    decreases bytes.len(),
{
    if bytes.len() > 0 {
        lemma_percent_ascii(bytes.subrange(1, bytes.len() as int));
    }
}

/// What is written for bytes decodes to them.
proof fn lemma_percent_round_trip(bytes: Seq<u8>)
    ensures
        percent_decoded(as_bytes(percent_bytes(bytes))) == bytes,
    decreases bytes.len(),
{
    let t = as_bytes(percent_bytes(bytes));
    if bytes.len() == 0 {
        assert(t =~= seq![]);
        assert(percent_decoded(t) =~= bytes);
    } else {
        let b = bytes[0];
        let rest = bytes.subrange(1, bytes.len() as int);
        let u = as_bytes(percent_bytes(rest));
        lemma_percent_round_trip(rest);
        assert(bytes =~= seq![b] + rest);
        if is_unreserved(b) {
            assert(t =~= seq![b] + u);
            assert(t.subrange(1, t.len() as int) =~= u);
        } else {
            let h = hex_digit(b as int / 16);
            let l = hex_digit(b as int % 16);
            assert(t =~= seq!['%' as u8, h as u8, l as u8] + u);
            assert(t.subrange(3, t.len() as int) =~= u);
            assert(hex_value(h as u8) == Some(b as int / 16));
            assert(hex_value(l as u8) == Some(b as int % 16));
            assert(16 * (b as int / 16) + b as int % 16 == b);
        }
    }
}

/// A text that was put into a link is the text that comes out of it.
pub proof fn law_link_round_trip(s: Seq<char>)
    ensures
        text_of_link(link_text(s)) == Some(s),
{
    let bytes = encode_utf8(s);
    let t = percent_bytes(bytes);
    lemma_percent_ascii(bytes);
    is_ascii_chars_encode_utf8(t);
    assert(encode_utf8(t) =~= as_bytes(t));
    lemma_percent_round_trip(bytes);
    encode_utf8_valid_utf8(s);
    encode_utf8_decode_utf8(s);
}

/// What stands in a link has no separator of paths and no percent sign but those that
/// escape.
pub proof fn law_link_is_plain(s: Seq<char>, i: int)
    requires
        0 <= i < link_text(s).len(),
    ensures
        ({
            let c = link_text(s)[i];
            ||| c == '%'
            ||| is_unreserved(c as u8) && c <= '\u{7f}'
        }),
{
    lemma_percent_plain(encode_utf8(s), i);
}

proof fn lemma_percent_plain(bytes: Seq<u8>, i: int)
    requires
        0 <= i < percent_bytes(bytes).len(),
    ensures
        ({
            let c = percent_bytes(bytes)[i];
            ||| c == '%'
            ||| is_unreserved(c as u8) && c <= '\u{7f}'
        }),
    decreases bytes.len(),
{
    let n = percent_byte(bytes[0]).len() as int;
    if i >= n {
        let rest = bytes.subrange(1, bytes.len() as int);
        lemma_percent_plain(rest, i - n);
        assert(percent_bytes(bytes)[i] == percent_bytes(rest)[i - n]);
    }
}

} // verus!
