//! Extended grapheme clusters and display width, as the Unicode tables of
//! `unicode-segmentation` and `unicode-width` define them.

use crate::text::lemma_char_boundary;
use unicode_segmentation::GraphemeCursor;
use unicode_segmentation::GraphemeIncomplete;
use unicode_width::UnicodeWidthStr;
use vstd::prelude::*;
use vstd::string::StringSliceAdditionalSpecFns;
use vstd::utf8::*;

verus! {

/// The error of a cursor that was handed only part of a text.
#[verifier::external_type_specification]
#[verifier::external_body]
pub struct ExGraphemeIncomplete(GraphemeIncomplete);

/// Whether byte offset `offset`, a character boundary of `text`, lies
/// between two extended grapheme clusters: what `GraphemeCursor::is_boundary`
/// answers for a cursor that sees the whole text.
pub uninterp spec fn is_grapheme_boundary(text: Seq<u8>, offset: int) -> bool;

/// The number of terminal columns that `text` takes: what
/// `UnicodeWidthStr::width` returns for it.
pub uninterp spec fn display_width(text: Seq<u8>) -> nat;

/// `offset` is a place where a cursor may rest: a character boundary of
/// `text` that does not split a grapheme cluster.
pub open spec fn is_cursor_stop(text: Seq<u8>, offset: int) -> bool {
    is_char_boundary(text, offset) && is_grapheme_boundary(text, offset)
}

/// `stop` is the first cursor stop behind `offset`.
pub open spec fn is_stop_after(text: Seq<u8>, offset: int, stop: int) -> bool {
    &&& offset < stop <= text.len()
    &&& is_cursor_stop(text, stop)
    &&& forall|q: int| offset < q < stop ==> !is_cursor_stop(text, q)
}

/// `stop` is the last cursor stop before `offset`.
pub open spec fn is_stop_before(text: Seq<u8>, offset: int, stop: int) -> bool {
    &&& 0 <= stop < offset
    &&& is_cursor_stop(text, stop)
    &&& forall|q: int| stop < q < offset ==> !is_cursor_stop(text, q)
}

/// The first cursor stop behind `offset`, if there is one.
pub open spec fn stop_after(text: Seq<u8>, offset: int) -> Option<int> {
    if exists|s: int| is_stop_after(text, offset, s) {
        Some(choose|s: int| is_stop_after(text, offset, s))
    } else {
        None
    }
}

/// The last cursor stop before `offset`, if there is one.
pub open spec fn stop_before(text: Seq<u8>, offset: int) -> Option<int> {
    if exists|s: int| is_stop_before(text, offset, s) {
        Some(choose|s: int| is_stop_before(text, offset, s))
    } else {
        None
    }
}

/// There is at most one first stop behind an offset.
pub proof fn lemma_stop_after(text: Seq<u8>, offset: int, stop: int)
    requires
        is_stop_after(text, offset, stop),
    ensures
        stop_after(text, offset) == Some(stop),
{
    let other = choose|s: int| is_stop_after(text, offset, s);
    if other < stop {
        assert(!is_cursor_stop(text, other));
    }
    if stop < other {
        assert(!is_cursor_stop(text, stop));
    }
}

/// There is at most one last stop before an offset.
pub proof fn lemma_stop_before(text: Seq<u8>, offset: int, stop: int)
    requires
        is_stop_before(text, offset, stop),
    ensures
        stop_before(text, offset) == Some(stop),
{
    let other = choose|s: int| is_stop_before(text, offset, s);
    if other < stop {
        assert(!is_cursor_stop(text, stop));
    }
    if stop < other {
        assert(!is_cursor_stop(text, other));
    }
}

/// `GraphemeCursor::is_boundary`, asked of a cursor that `GraphemeCursor::new`
/// has just made at `offset` for extended clusters, with the whole of `text`
/// at hand. With the whole text at hand the cursor never asks for more
/// context, and both ends of a text are boundaries.
#[verifier::external_body]
fn cursor_is_boundary(text: &str, offset: usize) -> (r: Result<bool, GraphemeIncomplete>)
    requires
        is_char_boundary(text.spec_bytes(), offset as int),
    ensures
        r is Ok,
        r->Ok_0 == is_grapheme_boundary(text.spec_bytes(), offset as int),
        offset == 0 || offset == text.spec_bytes().len() ==> r->Ok_0,
{
    GraphemeCursor::new(offset, text.len(), true).is_boundary(text, 0)
}

/// `GraphemeCursor::next_boundary`, asked of a cursor that
/// `GraphemeCursor::new` has just made at `offset` for extended clusters,
/// with the whole of `text` at hand: nothing at the end of the text, else
/// the nearest boundary behind `offset`, which the cursor reaches one
/// character at a time.
#[verifier::external_body]
fn cursor_next_boundary(text: &str, offset: usize) -> (r: Result<
    Option<usize>,
    GraphemeIncomplete,
>)
    requires
        is_char_boundary(text.spec_bytes(), offset as int),
    ensures
        r is Ok,
        offset == text.spec_bytes().len() ==> r->Ok_0 is None,
        offset < text.spec_bytes().len() ==> r->Ok_0 is Some && is_stop_after(
            text.spec_bytes(),
            offset as int,
            r->Ok_0->Some_0 as int,
        ),
{
    GraphemeCursor::new(offset, text.len(), true).next_boundary(text, 0)
}

/// `GraphemeCursor::prev_boundary`, asked of a cursor that
/// `GraphemeCursor::new` has just made at `offset` for extended clusters,
/// with the whole of `text` at hand: nothing at the start of the text, else
/// the nearest boundary before `offset`, which the cursor reaches one
/// character at a time.
#[verifier::external_body]
fn cursor_prev_boundary(text: &str, offset: usize) -> (r: Result<
    Option<usize>,
    GraphemeIncomplete,
>)
    requires
        is_char_boundary(text.spec_bytes(), offset as int),
    ensures
        r is Ok,
        offset == 0 ==> r->Ok_0 is None,
        offset > 0 ==> r->Ok_0 is Some && is_stop_before(
            text.spec_bytes(),
            offset as int,
            r->Ok_0->Some_0 as int,
        ),
{
    GraphemeCursor::new(offset, text.len(), true).prev_boundary(text, 0)
}

/// `UnicodeWidthStr::width`: the sum of the widths that the crate's tables
/// give to the parts of `text`, which is nothing for a text without a
/// character.
#[verifier::external_body]
fn unicode_width(text: &str) -> (w: usize)
    ensures
        w == display_width(text.spec_bytes()),
        text.spec_bytes().len() == 0 ==> w == 0,
{
    UnicodeWidthStr::width(text)
}

/// The number of terminal columns that `text` takes; none for an empty
/// text.
pub fn width(text: &str) -> (w: usize)
    ensures
        w == display_width(text.spec_bytes()),
        text.spec_bytes().len() == 0 ==> w == 0,
{
    unicode_width(text)
}

/// Whether a cursor may rest at `offset`. An offset outside the text or
/// inside a character is no stop.
pub fn is_boundary(text: &str, offset: usize) -> (b: bool)
    ensures
        b == is_cursor_stop(text.spec_bytes(), offset as int),
{
    if !text.is_char_boundary(offset) {
        return false;
    }
    match cursor_is_boundary(text, offset) {
        Ok(b) => b,
        Err(_) => false,
    }
}

/// The first cursor stop behind `offset`. There is none at the end of the
/// text, nor for an offset outside the text or inside a character.
pub fn next_boundary(text: &str, offset: usize) -> (r: Option<usize>)
    ensures
        match r {
            Some(stop) => is_stop_after(text.spec_bytes(), offset as int, stop as int),
            None => !is_char_boundary(text.spec_bytes(), offset as int) || offset
                == text.spec_bytes().len(),
        },
{
    if !text.is_char_boundary(offset) {
        return None;
    }
    proof {
        encode_utf8_valid_utf8(text@);
        lemma_char_boundary(text.spec_bytes(), offset as int);
    }
    match cursor_next_boundary(text, offset) {
        Ok(Some(stop)) => Some(stop),
        Ok(None) | Err(_) => None,
    }
}

/// The last cursor stop before `offset`. There is none at the start of the
/// text, nor for an offset outside the text or inside a character.
pub fn prev_boundary(text: &str, offset: usize) -> (r: Option<usize>)
    ensures
        match r {
            Some(stop) => is_stop_before(text.spec_bytes(), offset as int, stop as int),
            None => !is_char_boundary(text.spec_bytes(), offset as int) || offset == 0,
        },
{
    if !text.is_char_boundary(offset) {
        return None;
    }
    proof {
        encode_utf8_valid_utf8(text@);
        lemma_char_boundary(text.spec_bytes(), offset as int);
    }
    match cursor_prev_boundary(text, offset) {
        Ok(Some(stop)) => Some(stop),
        Ok(None) | Err(_) => None,
    }
}

} // verus!
