//! UTF-8 text as bytes: boundaries, slices and in-place edits of a `String`.
//!
//! Positions in this crate are byte offsets, so a text is modelled by the
//! sequence of its UTF-8 bytes.

use vstd::prelude::*;
use vstd::string::StringSliceAdditionalSpecFns;
use vstd::utf8::*;

verus! {

/// The UTF-8 bytes of an owned string.
pub open spec fn bytes_of(s: &String) -> Seq<u8> {
    encode_utf8(s@)
}

/// `a` with `mid` put in at byte offset `at`.
pub open spec fn spliced(a: Seq<u8>, at: int, mid: Seq<u8>) -> Seq<u8> {
    a.subrange(0, at) + mid + a.subrange(at, a.len() as int)
}

/// `a` without the bytes from `from` up to `to`.
pub open spec fn removed(a: Seq<u8>, from: int, to: int) -> Seq<u8> {
    a.subrange(0, from) + a.subrange(to, a.len() as int)
}

/// In valid UTF-8 an offset is a character boundary exactly when it is the
/// end of the text or the byte there does not continue a character.
pub proof fn lemma_char_boundary(b: Seq<u8>, i: int)
    requires
        valid_utf8(b),
    ensures
        is_char_boundary(b, i) <==> (0 <= i <= b.len() && (i == b.len() || !is_continuation_byte(
            b[i],
        ))),
{
    if 0 <= i < b.len() {
        is_char_boundary_iff_not_is_continuation_byte(b, i);
    } else if i == b.len() {
        is_char_boundary_start_end_of_seq(b);
    } else {
        reveal_with_fuel(is_char_boundary, 2);
    }
}

/// In valid UTF-8 the offset behind an ASCII byte is a character boundary.
pub proof fn lemma_boundary_after_ascii(b: Seq<u8>, k: int)
    requires
        valid_utf8(b),
        0 <= k < b.len(),
        b[k] < 0x80,
    ensures
        is_char_boundary(b, k),
        is_char_boundary(b, k + 1),
{
    lemma_char_boundary(b, k);
    valid_utf8_split(b, k);
    let tail = b.subrange(k, b.len() as int);
    assert(tail[0] == b[k]);
    assert(is_char_boundary(tail, 1)) by {
        reveal_with_fuel(is_char_boundary, 2);
        reveal_with_fuel(valid_utf8, 2);
    }
    lemma_char_boundary(tail, 1);
    lemma_char_boundary(b, k + 1);
    if k + 1 < b.len() {
        assert(tail[1] == b[k + 1]);
    }
}

/// A character boundary of a text is one of each part of it that lies
/// between two character boundaries and holds it, and the other way round.
pub proof fn lemma_boundary_in_part(b: Seq<u8>, from: int, to: int, i: int)
    requires
        valid_utf8(b),
        is_char_boundary(b, from),
        is_char_boundary(b, to),
        from <= to,
        0 <= i <= to - from,
    ensures
        valid_utf8(b.subrange(from, to)),
        is_char_boundary(b.subrange(from, to), i) <==> is_char_boundary(b, from + i),
{
    lemma_removed_valid(b, from, to);
    lemma_char_boundary(b, from);
    lemma_char_boundary(b, to);
    lemma_char_boundary(b, from + i);
    lemma_char_boundary(b.subrange(from, to), i);
}

/// Encoding distributes over concatenation.
pub proof fn lemma_encode_concat(a: Seq<char>, b: Seq<char>)
    ensures
        encode_utf8(a + b) == encode_utf8(a) + encode_utf8(b),
    decreases a.len(),
{
    if a.len() == 0 {
        assert(a + b =~= b);
        assert(encode_utf8(a) + encode_utf8(b) =~= encode_utf8(b));
    } else {
        lemma_encode_concat(a.drop_first(), b);
        assert((a + b).drop_first() =~= a.drop_first() + b);
        assert((a + b)[0] == a[0]);
        assert(encode_utf8(a + b) =~= encode_utf8(a) + encode_utf8(b));
    }
}

/// Putting valid UTF-8 in at a character boundary gives valid UTF-8.
pub proof fn lemma_spliced_valid(a: Seq<u8>, at: int, mid: Seq<u8>)
    requires
        valid_utf8(a),
        valid_utf8(mid),
        is_char_boundary(a, at),
    ensures
        valid_utf8(spliced(a, at, mid)),
{
    lemma_char_boundary(a, at);
    valid_utf8_split(a, at);
    valid_utf8_concat(a.subrange(0, at), mid);
    valid_utf8_concat(a.subrange(0, at) + mid, a.subrange(at, a.len() as int));
}

/// Taking out the bytes between two character boundaries leaves valid UTF-8.
pub proof fn lemma_removed_valid(a: Seq<u8>, from: int, to: int)
    requires
        valid_utf8(a),
        is_char_boundary(a, from),
        is_char_boundary(a, to),
        from <= to,
    ensures
        valid_utf8(removed(a, from, to)),
        valid_utf8(a.subrange(from, to)),
{
    lemma_char_boundary(a, from);
    lemma_char_boundary(a, to);
    valid_utf8_split(a, from);
    valid_utf8_split(a, to);
    valid_utf8_concat(a.subrange(0, from), a.subrange(to, a.len() as int));
    let head = a.subrange(0, to);
    lemma_char_boundary(head, from);
    valid_utf8_split(head, from);
    assert(head.subrange(from, head.len() as int) =~= a.subrange(from, to));
}

/// The number of bytes that the UTF-8 encoding of `c` takes.
pub fn utf8_len(c: char) -> (n: usize)
    ensures
        n == encode_utf8(seq![c]).len(),
        1 <= n <= 4,
{
    let v = c as u32;
    proof {
        char_is_scalar(c);
        assert(seq![c].drop_first() =~= Seq::<char>::empty());
        assert(encode_utf8(seq![c]) =~= encode_scalar(c as u32)) by {
            reveal_with_fuel(encode_utf8, 2);
        }
    }
    if v < 0x80 {
        1
    } else if v < 0x800 {
        2
    } else if v < 0x10000 {
        3
    } else {
        4
    }
}

/// The bytes that follow a character boundary of valid UTF-8 stand at a
/// character boundary once other valid UTF-8 is put in before them, as does
/// everything that stood at one.
pub proof fn lemma_spliced_boundary(a: Seq<u8>, at: int, mid: Seq<u8>, i: int)
    requires
        valid_utf8(a),
        valid_utf8(mid),
        is_char_boundary(a, at),
        is_char_boundary(a, i),
    ensures
        i <= at ==> is_char_boundary(spliced(a, at, mid), i),
        i >= at ==> is_char_boundary(spliced(a, at, mid), i + mid.len()),
{
    lemma_spliced_valid(a, at, mid);
    lemma_char_boundary(a, at);
    lemma_char_boundary(a, i);
    let b = spliced(a, at, mid);
    lemma_char_boundary(b, i);
    lemma_char_boundary(b, i + mid.len());
    lemma_char_boundary(mid, 0);
    if i <= at && i < b.len() {
        if i < at {
            assert(b[i] == a[i]);
        } else if mid.len() > 0 {
            assert(b[i] == mid[0]);
        } else {
            assert(b[i] == a[i]);
        }
    }
    if i >= at && i + mid.len() < b.len() {
        assert(b[i + mid.len()] == a[i]);
    }
}

/// Where an offset into a text lands once the bytes from `from` up to `to`
/// are taken out: it follows the text it stood in, and falls to `from` if
/// it stood in what was taken out.
pub open spec fn shifted(offset: usize, from: usize, to: usize) -> usize {
    if offset <= from {
        offset
    } else if offset >= to {
        (offset - (to - from)) as usize
    } else {
        from
    }
}

/// What stood at a character boundary still does once the bytes between
/// two character boundaries are taken out.
pub proof fn lemma_removed_boundary(a: Seq<u8>, from: usize, to: usize, i: usize)
    requires
        valid_utf8(a),
        is_char_boundary(a, from as int),
        is_char_boundary(a, to as int),
        is_char_boundary(a, i as int),
        from <= to,
    ensures
        is_char_boundary(removed(a, from as int, to as int), shifted(i, from, to) as int),
{
    lemma_removed_valid(a, from as int, to as int);
    lemma_char_boundary(a, from as int);
    lemma_char_boundary(a, to as int);
    lemma_char_boundary(a, i as int);
    let b = removed(a, from as int, to as int);
    let j = shifted(i, from, to) as int;
    lemma_char_boundary(b, j);
    if j < b.len() {
        if j < from {
            assert(b[j] == a[j]);
        } else {
            assert(b[j] == a[j + (to - from)]);
        }
    }
}

/// The length of `text` in bytes.
pub fn byte_len(text: &str) -> (n: usize)
    ensures
        n == text.spec_bytes().len(),
{
    text.as_bytes().len()
}

/// The part of `text` between two character boundaries.
pub fn slice<'a>(text: &'a str, from: usize, to: usize) -> (part: &'a str)
    requires
        from <= to,
        is_char_boundary(text.spec_bytes(), from as int),
        is_char_boundary(text.spec_bytes(), to as int),
    ensures
        part.spec_bytes() == text.spec_bytes().subrange(from as int, to as int),
{
    broadcast use encode_utf8_valid_utf8;

    let ghost all = text.spec_bytes();
    proof {
        lemma_char_boundary(all, from as int);
        lemma_char_boundary(all, to as int);
        valid_utf8_split(all, to as int);
    }
    let (head, _) = text.split_at(to);
    proof {
        lemma_char_boundary(head.spec_bytes(), from as int);
    }
    let (_, part) = head.split_at(from);
    assert(part.spec_bytes() =~= all.subrange(from as int, to as int));
    part
}

/// Whether `c` has the Unicode property White_Space: what
/// `char::is_whitespace` answers.
pub uninterp spec fn is_whitespace(c: char) -> bool;

/// Whether `c` is a letter or a number of Unicode: what
/// `char::is_alphanumeric` answers.
pub uninterp spec fn is_alphanumeric(c: char) -> bool;

/// `char::is_whitespace`.
#[verifier::external_body]
pub(crate) fn char_is_whitespace(c: char) -> (r: bool)
    ensures
        r == is_whitespace(c),
{
    c.is_whitespace()
}

/// `char::is_alphanumeric`.
#[verifier::external_body]
pub(crate) fn char_is_alphanumeric(c: char) -> (r: bool)
    ensures
        r == is_alphanumeric(c),
{
    c.is_alphanumeric()
}

/// `text` without the whitespace at its end.
pub open spec fn trimmed_end(text: Seq<char>) -> Seq<char>
    decreases text.len(),
{
    if text.len() > 0 && is_whitespace(text.last()) {
        trimmed_end(text.drop_last())
    } else {
        text
    }
}

/// `text` without the whitespace at its start.
pub open spec fn trimmed_start(text: Seq<char>) -> Seq<char>
    decreases text.len(),
{
    if text.len() > 0 && is_whitespace(text.first()) {
        trimmed_start(text.drop_first())
    } else {
        text
    }
}

/// `text` without the whitespace at its ends.
pub open spec fn trimmed(text: Seq<char>) -> Seq<char> {
    trimmed_start(trimmed_end(text))
}

/// `str::trim_end`: the text without the whitespace at its end.
#[verifier::external_body]
pub(crate) fn trim_end(text: &str) -> (r: &str)
    ensures
        r@ == trimmed_end(text@),
{
    text.trim_end()
}

/// `str::trim`: the text without the whitespace at its ends.
#[verifier::external_body]
pub(crate) fn trim(text: &str) -> (r: &str)
    ensures
        r@ == trimmed(text@),
{
    text.trim()
}

/// `String::push`: appends `ch`.
#[verifier::external_body]
pub(crate) fn string_push(s: &mut String, ch: char)
    ensures
        final(s)@ == old(s)@.push(ch),
{
    s.push(ch)
}

/// `String::pop`: takes the last character off, if there is one.
#[verifier::external_body]
pub(crate) fn string_pop(s: &mut String) -> (last: Option<char>)
    ensures
        old(s)@.len() > 0 ==> last == Some(old(s)@.last()) && final(s)@ == old(s)@.drop_last(),
        old(s)@.len() == 0 ==> last is None && final(s)@ == old(s)@,
{
    s.pop()
}

/// `String::insert`: puts the encoding of `ch` in at byte offset `at`, which
/// has to be a character boundary of the string.
#[verifier::external_body]
pub(crate) fn string_insert(s: &mut String, at: usize, ch: char)
    requires
        is_char_boundary(bytes_of(old(s)), at as int),
    ensures
        bytes_of(final(s)) == spliced(bytes_of(old(s)), at as int, encode_utf8(seq![ch])),
{
    s.insert(at, ch)
}

/// `String::insert_str`: puts `part` in at byte offset `at`, which has to be
/// a character boundary of the string.
#[verifier::external_body]
pub(crate) fn string_insert_str(s: &mut String, at: usize, part: &str)
    requires
        is_char_boundary(bytes_of(old(s)), at as int),
    ensures
        bytes_of(final(s)) == spliced(bytes_of(old(s)), at as int, part.spec_bytes()),
{
    s.insert_str(at, part)
}

/// `String::replace_range` with an empty replacement: takes out the bytes
/// from `from` up to `to`, both of which have to be character boundaries.
#[verifier::external_body]
pub(crate) fn string_remove_range(s: &mut String, from: usize, to: usize)
    requires
        from <= to,
        is_char_boundary(bytes_of(old(s)), from as int),
        is_char_boundary(bytes_of(old(s)), to as int),
    ensures
        bytes_of(final(s)) == removed(bytes_of(old(s)), from as int, to as int),
{
    s.replace_range(from..to, "")
}

} // verus!
