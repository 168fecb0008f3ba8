//! Text primitives: UTF-8 decoding, line splitting, trimming, sorting, joining.

use itertools::Itertools;
use vstd::prelude::*;
use vstd::utf8::{decode_utf8, valid_utf8};

verus! {

/// The view of an optional string.
pub open spec fn opt_view(text: Option<String>) -> Option<Seq<char>> {
    match text {
        Some(text) => Some(text@),
        None => None,
    }
}

/// The views of a sequence of strings.
pub open spec fn texts(items: Seq<String>) -> Seq<Seq<char>> {
    items.map_values(|item: String| item@)
}

/// The views of a sequence of string slices.
pub open spec fn slice_texts(items: Seq<&str>) -> Seq<Seq<char>> {
    items.map_values(|item: &str| item@)
}

/// Unicode's `White_Space` property.
pub open spec fn is_white_space(c: char) -> bool {
    let code = c as u32;
    ||| 0x9 <= code <= 0xD
    ||| code == 0x20
    ||| code == 0x85
    ||| code == 0xA0
    ||| code == 0x1680
    ||| 0x2000 <= code <= 0x200A
    ||| code == 0x2028
    ||| code == 0x2029
    ||| code == 0x202F
    ||| code == 0x205F
    ||| code == 0x3000
}

/// `text` without its leading and trailing white space.
pub open spec fn trimmed(text: Seq<char>) -> Seq<char>
    decreases text.len(),
{
    if text.len() == 0 {
        text
    } else if is_white_space(text.first()) {
        trimmed(text.drop_first())
    } else if is_white_space(text.last()) {
        trimmed(text.drop_last())
    } else {
        text
    }
}

/// `line` without one trailing carriage return.
pub open spec fn without_carriage_return(line: Seq<char>) -> Seq<char> {
    if line.len() > 0 && line.last() == '\r' {
        line.drop_last()
    } else {
        line
    }
}

/// The lines of `text`. A line ends at a line feed, or at a carriage return and
/// a line feed; the ending is not part of the line, and the last line needs none.
pub open spec fn split_lines(text: Seq<char>) -> Seq<Seq<char>>
    decreases text.len(),
{
    match text.index_of_first('\n') {
        Some(end) => {
            proof {
                text.index_of_first_ensures('\n');
            }
            seq![without_carriage_return(text.take(end))] + split_lines(text.skip(end + 1))
        },
        None => if text.len() == 0 {
            Seq::empty()
        } else {
            seq![text]
        },
    }
}

/// Calls `str::lines`, and collects what it yields.
///
/// Claims that the lines are those that [`split_lines`] describes.
#[verifier::external_body]
pub(crate) fn text_lines<'a>(text: &'a str) -> (res: Vec<&'a str>)
    ensures
        slice_texts(res@) == split_lines(text@),
{
    text.lines().collect()
}

/// Calls `str::trim`.
///
/// Claims that what is cut off at both ends is white space as Unicode defines it.
#[verifier::external_body]
pub(crate) fn trim<'a>(text: &'a str) -> (res: &'a str)
    ensures
        res@ == trimmed(text@),
{
    text.trim()
}

/// Calls `std::str::from_utf8`.
///
/// Claims that it succeeds on valid UTF-8 and on nothing else, and that the
/// string holds the characters that the bytes encode.
#[verifier::external_body]
pub(crate) fn decode<'a>(bytes: &'a [u8]) -> (res: Option<&'a str>)
    ensures
        (match res {
            Some(text) => valid_utf8(bytes@) && text@ == decode_utf8(bytes@),
            None => !valid_utf8(bytes@),
        }),
{
    std::str::from_utf8(bytes).ok()
}

/// Lexicographic order by code point.
pub open spec fn text_le(a: Seq<char>, b: Seq<char>) -> bool
    decreases a.len(),
{
    if a.len() == 0 {
        true
    } else if b.len() == 0 {
        false
    } else if a.first() == b.first() {
        text_le(a.drop_first(), b.drop_first())
    } else {
        (a.first() as u32) < (b.first() as u32)
    }
}

/// `items` never step down in [`text_le`].
pub open spec fn ascending(items: Seq<Seq<char>>) -> bool {
    forall|i: int, j: int| 0 <= i <= j < items.len() ==> #[trigger] text_le(items[i], items[j])
}

/// Calls `itertools::Itertools::sorted`, and collects what it yields.
///
/// Claims that the strings that went in come out, each as often, in the order of
/// `String`, which is lexicographic by code point.
#[verifier::external_body]
pub(crate) fn sorted(items: Vec<String>) -> (res: Vec<String>)
    ensures
        ascending(texts(res@)),
        texts(res@).to_multiset() == texts(items@).to_multiset(),
{
    items.into_iter().sorted().collect()
}

/// `items` in order, with `separator` between neighbours.
pub open spec fn joined(items: Seq<Seq<char>>, separator: Seq<char>) -> Seq<char>
    decreases items.len(),
{
    if items.len() == 0 {
        Seq::empty()
    } else if items.len() == 1 {
        items[0]
    } else {
        joined(items.drop_last(), separator) + separator + items.last()
    }
}

/// Calls `itertools::Itertools::join`.
///
/// Claims that the result is what [`joined`] describes.
#[verifier::external_body]
pub(crate) fn join(items: &Vec<String>, separator: &str) -> (res: String)
    ensures
        res@ == joined(texts(items@), separator@),
{
    items.iter().join(separator)
}

/// The views of a list of texts are the views of its elements, one for one.
pub proof fn law_text_views_are_whole(items: Seq<String>, slices: Seq<&str>, text: String)
    ensures
        texts(items).len() == items.len(),
        forall|i: int| 0 <= i < items.len() ==> #[trigger] texts(items)[i] == items[i]@,
        slice_texts(slices).len() == slices.len(),
        forall|i: int| 0 <= i < slices.len() ==> #[trigger] slice_texts(slices)[i] == slices[i]@,
        opt_view(Some(text)) == Some(text@),
        opt_view(None) is None,
{
}

} // verus!
