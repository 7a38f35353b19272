//! The text buffer: content, line table, byte position and visual cursor.

pub mod highlight;

use crate::grapheme::display_width;
use crate::grapheme::is_cursor_stop;
use crate::grapheme::is_stop_after;
use crate::grapheme::is_stop_before;
use crate::grapheme::lemma_stop_after;
use crate::grapheme::lemma_stop_before;
use crate::grapheme::next_boundary;
use crate::grapheme::prev_boundary;
use crate::grapheme::stop_after;
use crate::grapheme::stop_before;
use crate::grapheme::width;
use crate::lines::as_ints;
use crate::lines::generate_linestarts;
use crate::lines::lemma_line_breaks;
use crate::lines::lemma_line_start;
use crate::lines::lemma_line_starts_shape;
use crate::lines::LINE_FEED;
use crate::lines::line_breaks;
use crate::lines::line_starts;
use crate::parse::CachedParseState;
use crate::parse::extension_syntax;
use crate::parse::first_line_syntax;
use crate::parse::Grammar;
use crate::parse::Grammars;
use crate::parse::ParseCache;
use crate::parse::perform_str_replacements;
use crate::parse::replaced;
use crate::text::byte_len;
use crate::text::bytes_of;
use crate::text::char_is_alphanumeric;
use crate::text::char_is_whitespace;
use crate::text::is_alphanumeric;
use crate::text::is_whitespace;
use crate::text::lemma_boundary_after_ascii;
use crate::text::lemma_boundary_in_part;
use crate::text::lemma_char_boundary;
use crate::text::lemma_removed_boundary;
use crate::text::lemma_removed_valid;
use crate::text::lemma_spliced_boundary;
use crate::text::lemma_spliced_valid;
use crate::text::removed;
use crate::text::shifted;
use crate::text::slice;
use crate::text::spliced;
use crate::text::string_insert;
use crate::text::string_insert_str;
use crate::text::string_remove_range;
use crate::text::utf8_len;
use crate::undo::UndoState;
use crate::undo::UndoView;
use std::ops::Range;
use syntect::parsing::SyntaxReference;
use syntect::parsing::SyntaxSet;
use vstd::prelude::*;
use vstd::std_specs::vec::axiom_spec_len;
use vstd::string::StringSliceAdditionalSpecFns;
use vstd::utf8::*;

verus! {

/// The column and line of the cursor, starting at (0, 0).
#[derive(Debug, Clone, Copy, PartialEq, Eq, Structural)]
pub struct Cursor {
    pub x: usize,
    pub y: usize,
}

/// The carriage-return byte.
pub const CARRIAGE_RETURN: u8 = 13;

/// The columns that `text` takes on screen: its display width once every
/// tab is replaced by its columns, and none where there is no text.
pub open spec fn columns(text: Seq<u8>) -> nat {
    if text.len() == 0 {
        0
    } else {
        display_width(encode_utf8(replaced(decode_utf8(text), false)))
    }
}

/// Whether `b` belongs to a line break.
pub open spec fn is_line_end(b: u8) -> bool {
    b == LINE_FEED || b == CARRIAGE_RETURN
}

/// The length of `text` without the line-break bytes at its end.
pub open spec fn trimmed_len(text: Seq<u8>) -> int
    decreases text.len(),
{
    if text.len() > 0 && is_line_end(text.last()) {
        trimmed_len(text.drop_last())
    } else {
        text.len() as int
    }
}

/// `text` without the line-break bytes at its end.
pub open spec fn without_line_end(text: Seq<u8>) -> Seq<u8> {
    text.take(trimmed_len(text))
}

/// The trimmed length lies within the text, and what follows it is made of
/// line-break bytes only.
pub proof fn lemma_trimmed_len(text: Seq<u8>)
    ensures
        0 <= trimmed_len(text) <= text.len(),
        forall|i: int| trimmed_len(text) <= i < text.len() ==> is_line_end(#[trigger] text[i]),
        trimmed_len(text) > 0 ==> !is_line_end(text[trimmed_len(text) - 1]),
    decreases text.len(),
{
    if text.len() > 0 && is_line_end(text.last()) {
        let shorter = text.drop_last();
        lemma_trimmed_len(shorter);
        assert forall|i: int| trimmed_len(text) <= i < text.len() implies is_line_end(
            #[trigger] text[i],
        ) by {
            if i < shorter.len() {
                assert(text[i] == shorter[i]);
            }
        }
        if trimmed_len(text) > 0 {
            assert(text[trimmed_len(text) - 1] == shorter[trimmed_len(text) - 1]);
        }
    }
}

/// The amount of columns a str will take: grapheme clusters plus tab slots.
pub fn str_column_length(s: &str) -> (w: usize)
    ensures
        w == columns(s.spec_bytes()),
{
    let shown = perform_str_replacements(s, false);
    proof {
        encode_utf8_decode_utf8(s@);
    }
    width(shown.as_str())
}

/// `s` without the line break at its end.
pub fn trim_line_end(s: &str) -> (r: &str)
    ensures
        r.spec_bytes() == without_line_end(s.spec_bytes()),
{
    let bytes = s.as_bytes();
    let mut end: usize = bytes.len();
    assert(bytes@.take(end as int) =~= bytes@);
    while end > 0 && (bytes[end - 1] == LINE_FEED || bytes[end - 1] == CARRIAGE_RETURN)
        invariant
            end <= bytes@.len(),
            trimmed_len(bytes@) == trimmed_len(bytes@.take(end as int)),
        decreases end,
    {
        proof {
            let now = bytes@.take(end as int);
            assert(now.last() == bytes@[end - 1]);
            assert(now.drop_last() =~= bytes@.take(end - 1));
        }
        end = end - 1;
    }
    proof {
        assert(bytes@.take(bytes@.len() as int) =~= bytes@);
        let now = bytes@.take(end as int);
        if end > 0 {
            assert(now.last() == bytes@[end - 1]);
        }
        assert(trimmed_len(now) == end);
        encode_utf8_valid_utf8(s@);
        lemma_trimmed_len(bytes@);
        if end < bytes@.len() {
            assert(is_line_end(bytes@[end as int]));
            lemma_boundary_after_ascii(bytes@, end as int);
        } else {
            lemma_char_boundary(bytes@, end as int);
        }
        lemma_char_boundary(bytes@, 0);
    }
    let r = slice(s, 0, end);
    assert(r.spec_bytes() =~= without_line_end(s.spec_bytes()));
    r
}

/// Like `str_column_length`, but without the line break at the end.
pub fn str_column_length_no_lb(s: &str) -> (w: usize)
    ensures
        w == columns(without_line_end(s.spec_bytes())),
{
    str_column_length(trim_line_end(s))
}

/// The line that holds `position`: the first one from `from` on whose
/// successor starts behind `position`, or the last line.
pub open spec fn line_at(table: Seq<int>, position: int, from: int) -> int
    decreases table.len() - from,
{
    if from + 2 >= table.len() {
        table.len() - 2
    } else if table[from + 1] > position {
        from
    } else {
        line_at(table, position, from + 1)
    }
}

/// The line found holds the position: it starts at or before it.
pub proof fn lemma_line_at(table: Seq<int>, position: int, from: int)
    requires
        table.len() >= 2,
        0 <= from <= table.len() - 2,
        table[from] <= position,
    ensures
        from <= line_at(table, position, from) <= table.len() - 2,
        table[line_at(table, position, from)] <= position,
    decreases table.len() - from,
{
    if from + 2 < table.len() && table[from + 1] <= position {
        lemma_line_at(table, position, from + 1);
    }
}

/// Where the cursor stands on screen when the position is `position`: the
/// line that holds it and the columns that the line takes up to there.
pub open spec fn cursor_at(text: Seq<u8>, position: int) -> Cursor {
    let table = line_starts(text);
    let y = line_at(table, position, 0);
    Cursor { x: columns(text.subrange(table[y], position)) as usize, y: y as usize }
}

/// At the start of a text the cursor stands in the first line and the
/// first column.
pub proof fn lemma_cursor_at_start(text: Seq<u8>)
    ensures
        cursor_at(text, 0) == (Cursor { x: 0, y: 0 }),
{
    let table = line_starts(text);
    lemma_line_starts_shape(text);
    lemma_line_breaks(text, text.len() as int);
    if table.len() > 2 {
        assert(table[1] == line_breaks(text, text.len() as int)[0]);
    }
    assert(line_at(table, 0, 0) == 0);
    assert(text.subrange(0, 0).len() == 0);
}

/// No line starts behind the end of the text: the search for the line of
/// the end runs to the last line.
pub proof fn lemma_line_at_end(table: Seq<int>, len: int, from: int)
    requires
        table.len() >= 2,
        0 <= from <= table.len() - 2,
        forall|i: int| 0 <= i < table.len() ==> table[i] <= len,
    ensures
        line_at(table, len, from) == table.len() - 2,
    decreases table.len() - from,
{
    if from + 2 < table.len() {
        lemma_line_at_end(table, len, from + 1);
    }
}

/// At the end of a text the cursor stands in the last line.
pub proof fn lemma_cursor_at_end(text: Seq<u8>)
    requires
        text.len() <= usize::MAX,
    ensures
        cursor_at(text, text.len() as int).y == line_starts(text).len() - 2,
{
    let table = line_starts(text);
    lemma_line_starts_shape(text);
    lemma_line_breaks(text, text.len() as int);
    assert forall|i: int| 0 <= i < table.len() implies table[i] <= text.len() by {
        assert(table[i] <= table[table.len() - 1]);
    }
    lemma_line_at_end(table, text.len() as int, 0);
}

/// The stop that follows `from` in `line`, or the end of the line.
pub open spec fn next_stop(line: Seq<u8>, from: int) -> int {
    match stop_after(line, from) {
        Some(stop) => stop,
        None => line.len() as int,
    }
}

/// The kinds of grapheme cluster that a word jump tells apart.
#[derive(Debug, Clone, Copy, PartialEq, Eq, Structural)]
pub enum CharClass {
    /// Whitespace.
    Whitespace,
    /// Letters, numbers and the underscore.
    Word,
    /// Everything else.
    Other,
}

/// The kind of a character.
pub open spec fn class_of(c: char) -> CharClass {
    if is_whitespace(c) {
        CharClass::Whitespace
    } else if is_alphanumeric(c) || c == '_' {
        CharClass::Word
    } else {
        CharClass::Other
    }
}

/// The kind of a grapheme cluster: that of its first character.
pub open spec fn cluster_class(cluster: Seq<u8>) -> CharClass {
    class_of(decode_utf8(cluster)[0])
}

/// Whether a grapheme cluster ends a line.
pub open spec fn breaks_line(cluster: Seq<u8>) -> bool {
    cluster.len() > 0 && cluster.last() == LINE_FEED
}

/// Whether a word jump steps over `cluster` when it skips clusters of
/// kind `class`.
pub open spec fn in_run(cluster: Seq<u8>, class: CharClass) -> bool {
    cluster.len() > 0 && cluster_class(cluster) == class && !breaks_line(cluster)
}

/// Where the run of clusters of kind `class` that starts at `from` ends.
pub open spec fn run_end(text: Seq<u8>, from: int, class: CharClass) -> int
    decreases text.len() - from,
{
    match stop_after(text, from) {
        Some(next) => if from < next <= text.len() && in_run(text.subrange(from, next), class) {
            run_end(text, next, class)
        } else {
            from
        },
        None => from,
    }
}

/// Where the run of clusters of kind `class` that ends at `from` starts.
pub open spec fn run_start(text: Seq<u8>, from: int, class: CharClass) -> int
    decreases from,
{
    match stop_before(text, from) {
        Some(prev) => if 0 <= prev < from && in_run(text.subrange(prev, from), class) {
            run_start(text, prev, class)
        } else {
            from
        },
        None => from,
    }
}

/// Whether `query` stands in `text` at offset `at`, a character boundary.
pub open spec fn matches_at(text: Seq<u8>, query: Seq<u8>, at: int) -> bool {
    &&& 0 <= at
    &&& at + query.len() <= text.len()
    &&& is_char_boundary(text, at)
    &&& text.subrange(at, at + query.len()) == query
}

/// The occurrences of `query` in `text` from offset `from` on, from left
/// to right, none overlapping another: each as the offsets of its start
/// and its end.
pub open spec fn occurrences(text: Seq<u8>, query: Seq<u8>, from: int) -> Seq<(usize, usize)>
    decreases text.len() + 1 - from,
{
    if from < 0 || from + query.len() > text.len() {
        Seq::empty()
    } else if matches_at(text, query, from) {
        seq![(from as usize, (from + query.len()) as usize)] + occurrences(
            text,
            query,
            if query.len() == 0 {
                from + 1
            } else {
                from + query.len()
            },
        )
    } else {
        occurrences(text, query, from + 1)
    }
}

/// The start of the first range from index `from` on that starts at or
/// behind `position`.
pub open spec fn first_from(ranges: Seq<(usize, usize)>, position: usize, from: int) -> Option<
    usize,
>
    decreases ranges.len() - from,
{
    if from < 0 || from >= ranges.len() {
        None
    } else if ranges[from].0 >= position {
        Some(ranges[from].0)
    } else {
        first_from(ranges, position, from + 1)
    }
}

/// The start of the last range among the first `upto` that starts before
/// `position`.
pub open spec fn last_before(ranges: Seq<(usize, usize)>, position: usize, upto: int) -> Option<
    usize,
>
    decreases upto,
{
    if upto <= 0 || upto > ranges.len() {
        None
    } else if ranges[upto - 1].0 < position {
        Some(ranges[upto - 1].0)
    } else {
        last_before(ranges, position, upto - 1)
    }
}

/// The smaller of two numbers.
pub open spec fn smaller_of(a: usize, b: usize) -> usize {
    if a <= b {
        a
    } else {
        b
    }
}

/// The smaller of two numbers.
pub fn smaller(a: usize, b: usize) -> (m: usize)
    ensures
        m == smaller_of(a, b),
{
    if a <= b {
        a
    } else {
        b
    }
}

/// A column count, held to what a machine integer can hold.
pub open spec fn saturated(v: int) -> int {
    if v > usize::MAX {
        usize::MAX as int
    } else {
        v
    }
}

/// Walks the grapheme clusters of `line` from offset `from`, where `col`
/// columns are taken, until `want` columns are reached or the line ends.
/// Gives the offset and the columns reached.
pub open spec fn walk(line: Seq<u8>, from: int, col: int, want: int) -> (int, int)
    decreases line.len() - from,
{
    if col >= want || from >= line.len() || next_stop(line, from) <= from || next_stop(line, from)
        > line.len() {
        (from, col)
    } else {
        let next = next_stop(line, from);
        walk(line, next, saturated(col + columns(line.subrange(from, next))), want)
    }
}

/// The walk ends within the line.
pub proof fn lemma_walk(line: Seq<u8>, from: int, col: int, want: int)
    requires
        0 <= from <= line.len(),
        0 <= col <= usize::MAX,
    ensures
        from <= walk(line, from, col, want).0 <= line.len(),
        0 <= walk(line, from, col, want).1 <= usize::MAX,
        walk(line, from, col, want).0 == from || walk(line, from, col, want).0 == line.len()
            || is_cursor_stop(line, walk(line, from, col, want).0),
    decreases line.len() - from,
{
    if col >= want || from >= line.len() || next_stop(line, from) <= from || next_stop(line, from)
        > line.len() {
    } else {
        let next = next_stop(line, from);
        lemma_walk(line, next, saturated(col + columns(line.subrange(from, next))), want);
        if walk(line, from, col, want).0 == next && next < line.len() {
            assert(stop_after(line, from) is Some);
            assert(is_stop_after(line, from, next));
        }
    }
}

/// The byte offset of column `x` of line `y` of `text`, and the column
/// there: the boundary of the first grapheme cluster of the line at or
/// behind the column, or the end of the line, before its line break.
pub open spec fn offset_at(text: Seq<u8>, y: usize, x: usize) -> (usize, usize) {
    let table = line_starts(text);
    let line = text.subrange(table[y as int], table[y + 1]);
    let found = walk(without_line_end(line), 0, 0, x as int);
    ((table[y as int] + found.0) as usize, found.1 as usize)
}

/// What the logic of a buffer reads of it.
pub struct BufferView {
    /// The UTF-8 bytes of the content.
    pub text: Seq<u8>,
    /// The byte offset of the cursor.
    pub position: usize,
    /// The visual cursor.
    pub cursor: Cursor,
    /// The first visible row.
    pub top: usize,
    /// The column that vertical moves aim for.
    pub prefered_col: Option<usize>,
    /// The ranges that the last search found.
    pub highlights: Seq<(usize, usize)>,
    /// The snapshots of the highlighter by line.
    pub cache: Map<usize, CachedParseState>,
    /// The undo history.
    pub undo: UndoView,
}

impl BufferView {
    /// The line-start table of the text.
    pub open spec fn table(self) -> Seq<int> {
        line_starts(self.text)
    }

    /// The number of lines.
    pub open spec fn line_count(self) -> int {
        self.table().len() - 1
    }

    /// The bytes of line `y`, its line break included.
    pub open spec fn line(self, y: int) -> Seq<u8> {
        self.text.subrange(self.table()[y], self.table()[y + 1])
    }

    /// The columns of line `y`, its line break left out.
    pub open spec fn line_columns(self, y: int) -> nat {
        columns(without_line_end(self.line(y)))
    }

    /// The text is valid UTF-8, the position does not split a character
    /// and the cursor stands on a line of the text.
    pub open spec fn wf(self) -> bool {
        &&& self.anchored()
        &&& self.cursor.y + 1 <= self.line_count()
    }

    /// With the cursor's line in view: the first visible row moves up to
    /// it, or down until it is the last of `height` rows.
    pub open spec fn scrolled(self, height: usize) -> BufferView {
        if self.cursor.y < self.top {
            BufferView { top: self.cursor.y, ..self }
        } else if self.cursor.y >= self.top + height {
            BufferView { top: (self.cursor.y - height + 1) as usize, ..self }
        } else {
            self
        }
    }

    /// With the cursor's line in the middle of `height` rows.
    pub open spec fn centered(self, height: usize) -> BufferView {
        BufferView { top: self.cursor.y.saturating_sub(height / 2), ..self }
    }

    /// The number of lines that hold something: the last line does not
    /// count where it is empty.
    pub open spec fn filled_lines(self) -> int {
        if self.table()[self.line_count() - 1] == self.text.len() {
            self.line_count() - 1
        } else {
            self.line_count()
        }
    }

    /// Scrolled down by two rows, unless the end of the text is in view
    /// on a screen of `rows` rows.
    pub open spec fn scrolled_down(self, rows: usize) -> BufferView {
        if self.filled_lines() + 1 - rows > self.top {
            BufferView { top: self.top.saturating_add(2), ..self }
        } else {
            self
        }
    }

    /// Scrolled up by two rows.
    pub open spec fn scrolled_up(self) -> BufferView {
        BufferView { top: self.top.saturating_sub(2), ..self }
    }

    /// The text is valid UTF-8 and the position does not split a
    /// character. The cursor may stand anywhere.
    pub open spec fn anchored(self) -> bool {
        &&& self.undo.wf()
        &&& valid_utf8(self.text)
        &&& self.text.len() <= usize::MAX
        &&& is_char_boundary(self.text, self.position as int)
    }

    /// Whether the visual cursor is the one that the position implies.
    pub open spec fn settled(self) -> bool {
        self.cursor == cursor_at(self.text, self.position as int)
    }

    /// The cursor brought to where the position is.
    pub open spec fn with_cursor(self) -> BufferView {
        BufferView { cursor: cursor_at(self.text, self.position as int), ..self }
    }

    /// The position brought to where the cursor is: the cluster boundary
    /// of the cursor's line at or behind the cursor's column, or the end of
    /// the line. The cursor's column snaps to the boundary found.
    pub open spec fn with_position(self) -> BufferView {
        let found = offset_at(self.text, self.cursor.y, self.cursor.x);
        BufferView {
            position: found.0,
            cursor: Cursor { x: found.1, y: self.cursor.y },
            ..self
        }
    }

    /// Without the snapshots for line `top` and below.
    pub open spec fn invalidated(self) -> BufferView {
        BufferView { cache: self.cache.restrict(Set::new(|k: usize| k < self.top)), ..self }
    }

    /// With the cursor on line `y`.
    pub open spec fn on_line(self, y: usize) -> BufferView {
        BufferView { cursor: Cursor { x: self.cursor.x, y }, ..self }
    }

    /// With the cursor's column at the preferred column, or at `x` where
    /// none is set, held to the columns of the cursor's line.
    pub open spec fn placed(self, x: usize) -> BufferView {
        let want = match self.prefered_col {
            Some(col) => col,
            None => x,
        };
        let width = self.line_columns(self.cursor.y as int);
        BufferView {
            prefered_col: Some(want),
            cursor: Cursor { x: if want <= width { want } else { width as usize }, y: self.cursor.y },
            ..self
        }
    }

    /// At the start of the cursor's line.
    pub open spec fn at_line_start(self) -> BufferView {
        BufferView {
            prefered_col: None,
            cursor: Cursor { x: 0, y: self.cursor.y },
            ..self
        }.with_position()
    }

    /// At the end of the cursor's line, before its line break.
    pub open spec fn at_line_end(self) -> BufferView {
        BufferView {
            prefered_col: None,
            cursor: Cursor { x: self.line_columns(self.cursor.y as int) as usize, y: self.cursor.y },
            ..self
        }.with_position()
    }

    /// One line up; on the first line, to the start of the line.
    pub open spec fn moved_up(self) -> BufferView {
        if self.cursor.y == 0 {
            self.at_line_start()
        } else {
            self.on_line((self.cursor.y - 1) as usize).placed(self.cursor.x).with_position()
        }
    }

    /// One line down; on the last line, to the end of the line.
    pub open spec fn moved_down(self) -> BufferView {
        if self.cursor.y + 1 == self.line_count() {
            self.at_line_end()
        } else {
            self.on_line((self.cursor.y + 1) as usize).placed(self.cursor.x).with_position()
        }
    }

    /// The last line.
    pub open spec fn last_line(self) -> usize {
        (self.line_count() - 1) as usize
    }

    /// Scrolled and moved up by `height` lines.
    pub open spec fn paged_up(self, height: usize) -> BufferView {
        BufferView { top: self.top.saturating_sub(height), ..self }.on_line(
            self.cursor.y.saturating_sub(height),
        ).placed(self.cursor.x).with_position()
    }

    /// Scrolled and moved down by `height` lines.
    pub open spec fn paged_down(self, height: usize) -> BufferView {
        let entries = self.table().len() as usize;
        BufferView {
            top: smaller_of(self.top.saturating_add(height), entries.saturating_sub(height)),
            ..self
        }.on_line(smaller_of(self.cursor.y.saturating_add(height), self.last_line())).placed(
            self.cursor.x,
        ).with_position()
    }

    /// With the cursor where row `y` and column `x` of the viewport are.
    pub open spec fn clicked(self, x: u16, y: u16) -> BufferView {
        BufferView { prefered_col: Some(x as usize), ..self }.on_line(
            smaller_of(self.top.saturating_add(y as usize), self.last_line()),
        ).placed(x as usize).with_position()
    }

    /// At the start of the text.
    pub open spec fn at_top(self) -> BufferView {
        BufferView { position: 0, prefered_col: None, ..self }.with_cursor()
    }

    /// At the end of the text.
    pub open spec fn at_bottom(self) -> BufferView {
        BufferView { position: self.text.len() as usize, prefered_col: None, ..self }.with_cursor()
    }

    /// One grapheme cluster to the left, if there is one.
    pub open spec fn moved_left(self) -> BufferView {
        match stop_before(self.text, self.position as int) {
            Some(stop) => BufferView {
                position: stop as usize,
                prefered_col: None,
                ..self
            }.with_cursor(),
            None => self,
        }
    }

    /// One grapheme cluster to the right, if there is one.
    pub open spec fn moved_right(self) -> BufferView {
        match stop_after(self.text, self.position as int) {
            Some(stop) => BufferView {
                position: stop as usize,
                prefered_col: None,
                ..self
            }.with_cursor(),
            None => self,
        }
    }

    /// With `part` put in at the position, which moves behind it. A part
    /// that would make the text longer than a machine integer can count
    /// changes nothing.
    pub open spec fn inserted(self, part: Seq<u8>) -> BufferView {
        if self.text.len() + part.len() > usize::MAX {
            self
        } else {
            BufferView {
                text: spliced(self.text, self.position as int, part),
                position: (self.position + part.len()) as usize,
                ..self
            }.with_cursor().invalidated()
        }
    }

    /// As `inserted`, and without a preferred column.
    pub open spec fn pasted(self, part: Seq<u8>) -> BufferView {
        BufferView { prefered_col: None, ..self }.inserted(part)
    }

    /// What a backspace takes out: the grapheme cluster before the
    /// position.
    pub open spec fn before_position(self) -> Seq<u8> {
        match stop_before(self.text, self.position as int) {
            Some(stop) => self.text.subrange(stop, self.position as int),
            None => Seq::empty(),
        }
    }

    /// Without the grapheme cluster before the position.
    pub open spec fn backspaced(self) -> BufferView {
        match stop_before(self.text, self.position as int) {
            Some(stop) => BufferView {
                text: removed(self.text, stop, self.position as int),
                position: stop as usize,
                prefered_col: None,
                ..self
            }.with_cursor().invalidated(),
            None => self,
        }
    }

    /// What a delete takes out: the grapheme cluster at the position.
    pub open spec fn at_position(self) -> Seq<u8> {
        match stop_after(self.text, self.position as int) {
            Some(stop) => self.text.subrange(self.position as int, stop),
            None => Seq::empty(),
        }
    }

    /// Without the grapheme cluster at the position.
    pub open spec fn deleted(self) -> BufferView {
        match stop_after(self.text, self.position as int) {
            Some(stop) => BufferView {
                text: removed(self.text, self.position as int, stop),
                ..self
            }.with_cursor().invalidated(),
            None => self,
        }
    }

    /// Whether the bytes from `from` up to `to` can be taken out: both are
    /// character boundaries of the text, in this order.
    pub open spec fn can_drain(self, from: usize, to: usize) -> bool {
        &&& from <= to
        &&& is_char_boundary(self.text, from as int)
        &&& is_char_boundary(self.text, to as int)
    }

    /// What a drain takes out.
    pub open spec fn between(self, from: usize, to: usize) -> Seq<u8> {
        if self.can_drain(from, to) {
            self.text.subrange(from as int, to as int)
        } else {
            Seq::empty()
        }
    }

    /// Without the bytes from `from` up to `to`. The position follows the
    /// text it stood in.
    pub open spec fn drained(self, from: usize, to: usize) -> BufferView {
        if self.can_drain(from, to) {
            BufferView {
                text: removed(self.text, from as int, to as int),
                position: shifted(self.position, from, to),
                ..self
            }.with_cursor().invalidated()
        } else {
            self
        }
    }

    /// With the ranges at which `query` occurs as highlights.
    pub open spec fn found(self, query: Seq<u8>) -> BufferView {
        BufferView { highlights: occurrences(self.text, query, 0), ..self }
    }

    /// Where a jump to the next highlight leads: to the first one at or
    /// behind the position, or else round to the first of all.
    pub open spec fn next_highlight(self) -> Option<usize> {
        match first_from(self.highlights, self.position, 0) {
            Some(start) => Some(start),
            None => if self.highlights.len() > 0 {
                Some(self.highlights[0].0)
            } else {
                None
            },
        }
    }

    /// Where a jump to the previous highlight leads: to the last one
    /// before the position, or else round to the last of all.
    pub open spec fn previous_highlight(self) -> Option<usize> {
        match last_before(self.highlights, self.position, self.highlights.len() as int) {
            Some(start) => Some(start),
            None => if self.highlights.len() > 0 {
                Some(self.highlights[self.highlights.len() - 1].0)
            } else {
                None
            },
        }
    }

    /// At the next highlight, if there is one to go to.
    pub open spec fn jumped_next(self) -> BufferView {
        match self.next_highlight() {
            Some(start) => self.positioned(start),
            None => self,
        }
    }

    /// At the previous highlight, if there is one to go to.
    pub open spec fn jumped_previous(self) -> BufferView {
        match self.previous_highlight() {
            Some(start) => self.positioned(start),
            None => self,
        }
    }

    /// Behind the run of clusters of one kind that starts at the position.
    pub open spec fn moved_word_right(self) -> BufferView {
        BufferView {
            position: match stop_after(self.text, self.position as int) {
                Some(next) => run_end(
                    self.text,
                    self.position as int,
                    cluster_class(self.text.subrange(self.position as int, next)),
                ) as usize,
                None => self.position,
            },
            prefered_col: None,
            ..self
        }.with_cursor()
    }

    /// Before the run of clusters of one kind that ends at the position.
    pub open spec fn moved_word_left(self) -> BufferView {
        BufferView {
            position: match stop_before(self.text, self.position as int) {
                Some(prev) => run_start(
                    self.text,
                    self.position as int,
                    cluster_class(self.text.subrange(prev, self.position as int)),
                ) as usize,
                None => self.position,
            },
            prefered_col: None,
            ..self
        }.with_cursor()
    }

    /// With the position at `position`, if that is a character boundary.
    pub open spec fn positioned(self, position: usize) -> BufferView {
        if is_char_boundary(self.text, position as int) {
            BufferView { position, ..self }.with_cursor()
        } else {
            self
        }
    }
}

/// A buffer that was just made for `text`: the cursor at the start,
/// nothing scrolled, found, cached or done.
pub open spec fn fresh_view(text: Seq<u8>) -> BufferView {
    BufferView {
        text,
        position: 0,
        cursor: Cursor { x: 0, y: 0 },
        top: 0,
        prefered_col: None,
        highlights: Seq::empty(),
        cache: Map::empty(),
        undo: UndoView { history: Seq::empty(), index: 0, inhibited: false },
    }
}

/// Every line of a valid text starts and ends on a character boundary, and
/// is itself valid UTF-8.
pub proof fn lemma_line_bounds(text: Seq<u8>, y: int)
    requires
        valid_utf8(text),
        0 <= y < line_starts(text).len() - 1,
    ensures
        0 <= line_starts(text)[y] <= line_starts(text)[y + 1] <= text.len(),
        is_char_boundary(text, line_starts(text)[y]),
        is_char_boundary(text, line_starts(text)[y + 1]),
        valid_utf8(text.subrange(line_starts(text)[y], line_starts(text)[y + 1])),
{
    lemma_line_starts_shape(text);
    lemma_line_start(text, y);
    lemma_line_start(text, y + 1);
    let a = line_starts(text)[y];
    let b = line_starts(text)[y + 1];
    lemma_char_boundary(text, a);
    lemma_char_boundary(text, b);
    if 0 < a < text.len() {
        lemma_boundary_after_ascii(text, a - 1);
    }
    if 0 < b < text.len() {
        lemma_boundary_after_ascii(text, b - 1);
    }
    lemma_removed_valid(text, a, b);
}

/// Settling the cursor keeps a view well formed.
pub proof fn lemma_with_cursor_wf(v: BufferView)
    requires
        v.anchored(),
    ensures
        v.with_cursor().wf(),
        v.with_cursor().settled(),
{
    lemma_line_starts_shape(v.text);
    lemma_char_boundary(v.text, v.position as int);
    lemma_line_at(v.table(), v.position as int, 0);
}

/// The end of the content of a line, before its line break, is a character
/// boundary, and the content is valid UTF-8.
pub proof fn lemma_line_content(text: Seq<u8>, y: int)
    requires
        valid_utf8(text),
        0 <= y < line_starts(text).len() - 1,
    ensures
        ({
            let a = line_starts(text)[y];
            let line = text.subrange(a, line_starts(text)[y + 1]);
            &&& 0 <= trimmed_len(line) <= line.len()
            &&& is_char_boundary(text, a + trimmed_len(line))
            &&& without_line_end(line) == text.subrange(a, a + trimmed_len(line))
            &&& valid_utf8(without_line_end(line))
        }),
{
    lemma_line_bounds(text, y);
    let a = line_starts(text)[y];
    let b = line_starts(text)[y + 1];
    let line = text.subrange(a, b);
    let t = trimmed_len(line);
    lemma_trimmed_len(line);
    if t < line.len() {
        assert(is_line_end(line[t]));
        assert(line[t] == text[a + t]);
        lemma_boundary_after_ascii(text, a + t);
    }
    assert(without_line_end(line) =~= text.subrange(a, a + t));
    lemma_removed_valid(text, a, a + t);
}

/// Bringing the position to the cursor keeps a view well formed.
pub proof fn lemma_with_position_wf(v: BufferView)
    requires
        v.wf(),
    ensures
        v.with_position().wf(),
        ({
            let y = v.cursor.y as int;
            let found = walk(without_line_end(v.line(y)), 0, 0, v.cursor.x as int);
            &&& 0 <= found.0 <= trimmed_len(v.line(y))
            &&& v.table()[y] + found.0 <= v.text.len()
            &&& 0 <= found.1 <= usize::MAX
        }),
{
    let y = v.cursor.y as int;
    let a = v.table()[y];
    let line = v.line(y);
    let t = trimmed_len(line);
    let content = without_line_end(line);
    lemma_line_bounds(v.text, y);
    lemma_line_content(v.text, y);
    lemma_walk(content, 0, 0, v.cursor.x as int);
    let off = walk(content, 0, 0, v.cursor.x as int).0;
    lemma_boundary_in_part(v.text, a, a + t, off);
    lemma_char_boundary(content, 0);
    lemma_char_boundary(content, t);
}

/// Walks the grapheme clusters of `line` until `want` columns are reached
/// or the line ends. Gives the offset and the columns reached.
pub fn walk_line(line: &str, want: usize) -> (found: (usize, usize))
    ensures
        (found.0 as int, found.1 as int) == walk(line.spec_bytes(), 0, 0, want as int),
{
    let ghost bytes = line.spec_bytes();
    let n = byte_len(line);
    let mut pos: usize = 0;
    let mut col: usize = 0;
    proof {
        encode_utf8_valid_utf8(line@);
        lemma_char_boundary(bytes, 0);
    }
    while col < want && pos < n
        invariant
            bytes == line.spec_bytes(),
            valid_utf8(bytes),
            n == bytes.len(),
            pos <= n,
            is_char_boundary(bytes, pos as int),
            walk(bytes, pos as int, col as int, want as int) == walk(bytes, 0, 0, want as int),
        decreases n - pos,
    {
        let next = match next_boundary(line, pos) {
            Some(stop) => stop,
            None => n,
        };
        proof {
            lemma_stop_after(bytes, pos as int, next as int);
        }
        let w = str_column_length(slice(line, pos, next));
        col = col.saturating_add(w);
        pos = next;
    }
    (pos, col)
}

/// Putting valid UTF-8 in at the position keeps a view well formed.
pub proof fn lemma_inserted_wf(v: BufferView, part: Seq<u8>)
    requires
        v.anchored(),
        valid_utf8(part),
    ensures
        v.wf() ==> v.inserted(part).wf(),
        v.text.len() + part.len() <= usize::MAX ==> v.inserted(part).wf() && v.inserted(
            part,
        ).settled(),
{
    if v.text.len() + part.len() <= usize::MAX {
        lemma_spliced_valid(v.text, v.position as int, part);
        lemma_spliced_boundary(v.text, v.position as int, part, v.position as int);
        let moved = BufferView {
            text: spliced(v.text, v.position as int, part),
            position: (v.position + part.len()) as usize,
            ..v
        };
        lemma_with_cursor_wf(moved);
    }
}

/// Taking out what lies between two character boundaries keeps a view
/// well formed.
pub proof fn lemma_drained_wf(v: BufferView, from: usize, to: usize)
    requires
        v.anchored(),
        v.can_drain(from, to),
    ensures
        v.drained(from, to).wf(),
        v.drained(from, to).settled(),
{
    lemma_char_boundary(v.text, to as int);
    lemma_removed_valid(v.text, from as int, to as int);
    lemma_removed_boundary(v.text, from, to, v.position);
    let cut = BufferView {
        text: removed(v.text, from as int, to as int),
        position: shifted(v.position, from, to),
        ..v
    };
    lemma_with_cursor_wf(cut);
}

/// The kind of the grapheme cluster `cluster`.
pub fn classify(cluster: &str) -> (class: CharClass)
    requires
        cluster.spec_bytes().len() > 0,
    ensures
        class == cluster_class(cluster.spec_bytes()),
{
    proof {
        encode_utf8_decode_utf8(cluster@);
    }
    let c = cluster.get_char(0);
    if char_is_whitespace(c) {
        CharClass::Whitespace
    } else if char_is_alphanumeric(c) || c == '_' {
        CharClass::Word
    } else {
        CharClass::Other
    }
}

/// Whether a word jump steps over `cluster` when it skips clusters of
/// kind `class`.
pub fn is_in_run(cluster: &str, class: CharClass) -> (r: bool)
    ensures
        r == in_run(cluster.spec_bytes(), class),
{
    let bytes = cluster.as_bytes();
    let n = bytes.len();
    if n == 0 {
        return false;
    }
    bytes[n - 1] != LINE_FEED && classify(cluster) == class
}

/// Whether `query` stands in `text` at offset `at`.
fn bytes_at(text: &[u8], query: &[u8], at: usize) -> (r: bool)
    requires
        at + query@.len() <= text@.len() <= usize::MAX,
    ensures
        r == (text@.subrange(at as int, at + query@.len()) == query@),
{
    let m = query.len();
    let mut j: usize = 0;
    while j < m
        invariant
            m == query@.len(),
            text@.len() <= usize::MAX,
            at + m <= text@.len(),
            j <= m,
            forall|k: int| 0 <= k < j ==> text@[at + k] == query@[k],
        decreases m - j,
    {
        if text[at + j] != query[j] {
            assert(text@.subrange(at as int, at + m)[j as int] != query@[j as int]);
            return false;
        }
        j = j + 1;
    }
    assert(text@.subrange(at as int, at + m) =~= query@);
    true
}

/// The byte behind the last dot among the first `n` bytes of `name`, or
/// zero where there is no dot.
pub open spec fn after_last_dot(name: Seq<u8>, n: int) -> int
    decreases n,
{
    if n <= 0 {
        0
    } else if name[n - 1] == FULL_STOP {
        n
    } else {
        after_last_dot(name, n - 1)
    }
}

/// The extension of a file name: what follows its last dot, or all of it
/// where it has no dot.
pub open spec fn extension_of(name: Seq<u8>) -> Seq<u8> {
    name.subrange(after_last_dot(name, name.len() as int), name.len() as int)
}

/// The full stop.
pub const FULL_STOP: u8 = 46;

/// The extension of the file name `name`.
pub fn extension(name: &str) -> (part: &str)
    ensures
        part.spec_bytes() == extension_of(name.spec_bytes()),
{
    let bytes = name.as_bytes();
    let n = bytes.len();
    let mut at: usize = n;
    while at > 0 && bytes[at - 1] != FULL_STOP
        invariant
            at <= n,
            n == bytes@.len(),
            after_last_dot(bytes@, n as int) == after_last_dot(bytes@, at as int),
        decreases at,
    {
        at = at - 1;
    }
    proof {
        encode_utf8_valid_utf8(name@);
        lemma_char_boundary(bytes@, n as int);
        if at > 0 {
            lemma_boundary_after_ascii(bytes@, at - 1);
        } else {
            lemma_char_boundary(bytes@, 0);
        }
    }
    slice(name, at, n)
}

/// The offset of the first line feed of `text` from `from` on, or the
/// length of the text.
pub open spec fn first_line_feed(text: Seq<u8>, from: int) -> int
    decreases text.len() - from,
{
    if from < 0 || from >= text.len() {
        text.len() as int
    } else if text[from] == LINE_FEED {
        from
    } else {
        first_line_feed(text, from + 1)
    }
}

/// The first line of a text, without its line break: what stands before
/// the first line feed, less a carriage return before that; all of a text
/// without a line feed; nothing for an empty text.
pub open spec fn first_line_of(text: Seq<u8>) -> Option<Seq<u8>> {
    let end = first_line_feed(text, 0);
    if text.len() == 0 {
        None
    } else if end < text.len() && end > 0 && text[end - 1] == CARRIAGE_RETURN {
        Some(text.subrange(0, end - 1))
    } else {
        Some(text.subrange(0, end))
    }
}

/// The first line of `text`, without its line break.
pub fn first_line(text: &str) -> (line: Option<&str>)
    ensures
        match line {
            Some(part) => first_line_of(text.spec_bytes()) == Some(part.spec_bytes()),
            None => first_line_of(text.spec_bytes()) is None,
        },
{
    let bytes = text.as_bytes();
    let n = bytes.len();
    if n == 0 {
        return None;
    }
    let mut end: usize = 0;
    while end < n && bytes[end] != LINE_FEED
        invariant
            end <= n,
            n == bytes@.len(),
            first_line_feed(bytes@, 0) == first_line_feed(bytes@, end as int),
        decreases n - end,
    {
        end = end + 1;
    }
    let stop = if end < n && end > 0 && bytes[end - 1] == CARRIAGE_RETURN {
        end - 1
    } else {
        end
    };
    proof {
        encode_utf8_valid_utf8(text@);
        lemma_char_boundary(bytes@, 0);
        lemma_char_boundary(bytes@, stop as int);
        if stop < n {
            lemma_boundary_after_ascii(bytes@, stop as int);
        }
    }
    Some(slice(text, 0, stop))
}

/// The number of grapheme clusters of `text` from offset `from` on.
pub open spec fn cluster_count(text: Seq<u8>, from: int) -> nat
    decreases text.len() - from,
{
    if from < 0 || from >= text.len() || next_stop(text, from) <= from || next_stop(text, from)
        > text.len() {
        0
    } else {
        1 + cluster_count(text, next_stop(text, from))
    }
}

/// Counts the grapheme clusters of `text`.
pub fn count_clusters(text: &str) -> (n: usize)
    ensures
        n == cluster_count(text.spec_bytes(), 0),
        n <= text.spec_bytes().len(),
{
    let ghost bytes = text.spec_bytes();
    let len = byte_len(text);
    let mut at: usize = 0;
    let mut n: usize = 0;
    proof {
        encode_utf8_valid_utf8(text@);
        lemma_char_boundary(bytes, 0);
    }
    while at < len
        invariant
            bytes == text.spec_bytes(),
            valid_utf8(bytes),
            len == bytes.len(),
            at <= len,
            n <= at,
            is_char_boundary(bytes, at as int),
            n + cluster_count(bytes, at as int) == cluster_count(bytes, 0),
        decreases len - at,
    {
        let next = match next_boundary(text, at) {
            Some(stop) => stop,
            None => len,
        };
        proof {
            lemma_stop_after(bytes, at as int, next as int);
        }
        at = next;
        n = n + 1;
    }
    n
}

/// Why a buffer cannot be saved.
#[derive(Debug, Clone, Copy, PartialEq, Eq, Structural)]
pub enum SaveError {
    /// The buffer has no name.
    NoPath,
    /// The buffer shall not be edited.
    ReadOnly,
    /// The file was opened without the right to write.
    NoWritePermission,
}

impl SaveError {
    /// What the user is told.
    pub fn message(&self) -> (text: &'static str)
        ensures
            text@ == (match self {
                SaveError::NoPath => "no path specified"@,
                SaveError::ReadOnly => "Buffer is readonly"@,
                SaveError::NoWritePermission => "No write permission to file"@,
            }),
    {
        match self {
            SaveError::NoPath => "no path specified",
            SaveError::ReadOnly => "Buffer is readonly",
            SaveError::NoWritePermission => "No write permission to file",
        }
    }
}

/// A text buffer.
pub struct Buffer {
    pub name: Option<String>,
    pub content: String,
    /// cursors byte index into the buffer
    pub position: usize,
    /// visual (grapheme) cursor position
    pub cursor: Cursor,
    /// the indexes of all the beginnings of lines
    pub linestarts: Vec<usize>,
    /// the file was opened as readonly
    pub opened_readonly: bool,
    /// This buffer shall not be edited
    pub readonly: bool,
    /// How far the buffer is scrolled
    pub top: usize,
    /// Which column the cursor wants to be in during vertical moves
    pub prefered_col: Option<usize>,
    /// The cached parse states for this buffer
    pub parse_cache: ParseCache,
    /// The syntax in which the content is highlighted
    pub syntax: Option<SyntaxReference>,
    /// The ranges that the last search found
    pub highlights: Vec<(usize, usize)>,
    /// What was done and can be undone
    pub undo: UndoState,
}

impl View for Buffer {
    type V = BufferView;

    open spec fn view(&self) -> BufferView {
        BufferView {
            text: bytes_of(&self.content),
            position: self.position,
            cursor: self.cursor,
            top: self.top,
            prefered_col: self.prefered_col,
            highlights: self.highlights@,
            cache: self.parse_cache.states@,
            undo: self.undo@,
        }
    }
}

impl Buffer {
    /// The line table is the one of the content, and the view is well
    /// formed.
    pub open spec fn wf(&self) -> bool {
        &&& self@.wf()
        &&& as_ints(self.linestarts@) == line_starts(self@.text)
    }

    /// As `wf`, but for the cursor, which may stand anywhere.
    pub open spec fn anchored(&self) -> bool {
        &&& self@.anchored()
        &&& as_ints(self.linestarts@) == line_starts(self@.text)
    }

    /// What no movement and no edit changes: the name, the flags and
    /// the syntax.
    pub open spec fn same_setting(&self, other: &Buffer) -> bool {
        &&& self.name == other.name
        &&& self.readonly == other.readonly
        &&& self.opened_readonly == other.opened_readonly
        &&& self.syntax == other.syntax
    }

    /// A buffer that holds `content`, with the cursor at its start.
    pub fn from_string(content: String) -> (buffer: Buffer)
        ensures
            buffer.wf(),
            buffer@.settled(),
            buffer@.text == bytes_of(&content),
            buffer@.position == 0,
            buffer@.top == 0,
            buffer@.prefered_col is None,
            buffer@.highlights.len() == 0,
            buffer@.cache.dom() == Set::<usize>::empty(),
            buffer@.undo == (UndoView { history: Seq::empty(), index: 0, inhibited: false }),
            buffer@ == fresh_view(buffer@.text),
            buffer.cursor == (Cursor { x: 0, y: 0 }),
            buffer.name is None,
            buffer.syntax is None,
            !buffer.readonly,
            !buffer.opened_readonly,
    {
        let linestarts = generate_linestarts(content.as_str());
        let mut buffer = Buffer {
            name: None,
            content,
            position: 0,
            cursor: Cursor { x: 0, y: 0 },
            linestarts,
            readonly: false,
            opened_readonly: false,
            top: 0,
            prefered_col: None,
            parse_cache: ParseCache::new(),
            syntax: None,
            highlights: Vec::new(),
            undo: UndoState::new(),
        };
        let len = byte_len(buffer.content.as_str());
        proof {
            assert(buffer@.text.len() == len);
            encode_utf8_valid_utf8(buffer.content@);
            lemma_char_boundary(buffer@.text, 0);
            lemma_line_starts_shape(buffer@.text);
            lemma_cursor_at_start(buffer@.text);
        }
        buffer.update_cursor();
        assert(buffer@.cache =~= Map::empty());
        assert(buffer@.highlights =~= Seq::empty());
        buffer
    }

    /// A buffer without content and without a name.
    pub fn empty() -> (buffer: Buffer)
        ensures
            buffer.wf(),
            buffer@.settled(),
            buffer@.text == Seq::<u8>::empty(),
            buffer@.position == 0,
            buffer@.top == 0,
            buffer@.prefered_col is None,
            buffer@.highlights.len() == 0,
            buffer@.cache.dom() == Set::<usize>::empty(),
            buffer@.undo == (UndoView { history: Seq::empty(), index: 0, inhibited: false }),
            buffer@ == fresh_view(buffer@.text),
            buffer.cursor == (Cursor { x: 0, y: 0 }),
            buffer.name is None,
            buffer.syntax is None,
            !buffer.readonly,
            !buffer.opened_readonly,
    {
        let content = String::new();
        assert(bytes_of(&content) =~= Seq::<u8>::empty());
        Buffer::from_string(content)
    }

    /// A buffer for the file `name`, whose content was read as `content`.
    /// `readonly` tells that the file could not be opened for writing.
    pub fn new(name: String, content: String, readonly: bool) -> (buffer: Buffer)
        ensures
            buffer.wf(),
            buffer@.settled(),
            buffer@.text == bytes_of(&content),
            buffer@.position == 0,
            buffer@.top == 0,
            buffer@.prefered_col is None,
            buffer@.highlights.len() == 0,
            buffer@.cache.dom() == Set::<usize>::empty(),
            buffer@.undo == (UndoView { history: Seq::empty(), index: 0, inhibited: false }),
            buffer@ == fresh_view(buffer@.text),
            buffer.cursor == (Cursor { x: 0, y: 0 }),
            buffer.name == Some(name),
            buffer.syntax is None,
            !buffer.readonly,
            buffer.opened_readonly == readonly,
    {
        let mut buffer = Buffer::from_string(content);
        buffer.name = Some(name);
        buffer.opened_readonly = readonly;
        buffer
    }

    /// Where the byte offset `byte_offset`, a character boundary of the
    /// content, is on screen: the line that holds it, and the columns that
    /// the grapheme clusters of the line before it take.
    pub fn visual_position(&self, byte_offset: usize) -> (cursor: Cursor)
        requires
            self.anchored(),
            is_char_boundary(self@.text, byte_offset as int),
        ensures
            cursor == cursor_at(self@.text, byte_offset as int),
            cursor.y + 1 <= self@.line_count(),
    {
        let ghost table = self@.table();
        proof {
            lemma_line_starts_shape(self@.text);
            lemma_char_boundary(self@.text, byte_offset as int);
            lemma_line_at(table, byte_offset as int, 0);
        }
        let n = self.linestarts.len();
        let mut y: usize = 0;
        while y + 2 < n && self.linestarts[y + 1] <= byte_offset
            invariant
                n == table.len(),
                n >= 2,
                y + 2 <= n,
                as_ints(self.linestarts@) == table,
                table[y as int] <= byte_offset,
                line_at(table, byte_offset as int, 0) == line_at(
                    table,
                    byte_offset as int,
                    y as int,
                ),
            decreases n - y,
        {
            assert(as_ints(self.linestarts@)[y + 1] == self.linestarts@[y + 1]);
            y = y + 1;
        }
        proof {
            assert(as_ints(self.linestarts@)[y + 1] == self.linestarts@[y + 1]);
            assert(as_ints(self.linestarts@)[y as int] == self.linestarts@[y as int]);
            assert(line_at(table, byte_offset as int, y as int) == y);
            lemma_line_bounds(self@.text, y as int);
        }
        let start = self.linestarts[y];
        let x = str_column_length(slice(self.content.as_str(), start, byte_offset));
        Cursor { x, y }
    }

    /// The byte offset of column `x` of line `y`, and the column there:
    /// the boundary of the first grapheme cluster of the line at or behind
    /// the column, or the end of the line, before its line break.
    pub fn byte_offset(&self, y: usize, x: usize) -> (found: (usize, usize))
        requires
            self.anchored(),
            y + 1 <= self@.line_count(),
        ensures
            found == offset_at(self@.text, y, x),
            is_char_boundary(self@.text, found.0 as int),
    {
        let ghost at = BufferView { cursor: Cursor { x, y }, ..self@ };
        proof {
            lemma_with_position_wf(at);
            lemma_line_bounds(self@.text, y as int);
            axiom_spec_len(&self.linestarts);
            assert(as_ints(self.linestarts@).len() == self.linestarts@.len());
            assert(as_ints(self.linestarts@)[y as int] == self.linestarts@[y as int]);
            assert(as_ints(self.linestarts@)[y + 1] == self.linestarts@[y + 1]);
        }
        let start = self.linestarts[y];
        let end = self.linestarts[y + 1];
        let found = walk_line(trim_line_end(slice(self.content.as_str(), start, end)), x);
        (start + found.0, found.1)
    }

    /// update cursor based on the byte position
    pub fn update_cursor(&mut self)
        requires
            old(self).anchored(),
        ensures
            final(self).wf(),
            final(self)@ == old(self)@.with_cursor(),
            final(self)@.settled(),
            final(self).same_setting(old(self)),
    {
        self.cursor = self.visual_position(self.position);
    }

    /// current line start and end using only self.cursor.y
    pub fn current_line(&self) -> (span: (usize, usize))
        requires
            self.wf(),
        ensures
            span.0 == self@.table()[self.cursor.y as int],
            span.1 == self@.table()[self.cursor.y + 1],
            span.0 <= span.1 <= self@.text.len(),
            is_char_boundary(self@.text, span.0 as int),
            is_char_boundary(self@.text, span.1 as int),
    {
        proof {
            lemma_line_bounds(self@.text, self.cursor.y as int);
            axiom_spec_len(&self.linestarts);
            assert(as_ints(self.linestarts@).len() == self.linestarts@.len());
            assert(as_ints(self.linestarts@)[self.cursor.y as int]
                == self.linestarts@[self.cursor.y as int]);
            assert(as_ints(self.linestarts@)[self.cursor.y + 1]
                == self.linestarts@[self.cursor.y + 1]);
        }
        (self.linestarts[self.cursor.y], self.linestarts[self.cursor.y + 1])
    }

    /// length of current line in bytes
    pub fn current_line_length(&self) -> (n: usize)
        requires
            self.wf(),
        ensures
            n == self@.line(self.cursor.y as int).len(),
    {
        let (start, end) = self.current_line();
        end - start
    }

    /// The current line, its line break included.
    pub fn current_line_str(&self) -> (line: &str)
        requires
            self.wf(),
        ensures
            line.spec_bytes() == self@.line(self.cursor.y as int),
    {
        let (start, end) = self.current_line();
        slice(self.content.as_str(), start, end)
    }

    /// Whether the cursor stands on the first line.
    pub fn is_first_line(&self) -> (first: bool)
        ensures
            first == (self.cursor.y == 0),
    {
        self.cursor.y == 0
    }

    /// Whether the cursor stands on the last line.
    pub fn is_last_line(&self) -> (last: bool)
        requires
            self.wf(),
        ensures
            last == (self.cursor.y + 1 == self@.line_count()),
    {
        proof {
            lemma_line_starts_shape(self@.text);
            assert(as_ints(self.linestarts@).len() == self.linestarts@.len());
        }
        let n = self.linestarts.len();
        self.cursor.y + 2 == n
    }

    /// Forbids or allows edits.
    pub fn set_readonly(&mut self, ro: bool)
        ensures
            final(self).readonly == ro,
            final(self)@ == old(self)@,
            final(self).name == old(self).name,
            final(self).syntax == old(self).syntax,
            final(self).opened_readonly == old(self).opened_readonly,
            final(self).linestarts == old(self).linestarts,
            old(self).wf() ==> final(self).wf(),
    {
        self.readonly = ro;
    }

    /// update byte position based on the cursor
    /// the cursor must be within bounds, but if it sits on a tab (or similar)
    /// it will move to the right
    pub fn update_position(&mut self)
        requires
            old(self).wf(),
        ensures
            final(self).wf(),
            final(self)@ == old(self)@.with_position(),
            final(self).same_setting(old(self)),
    {
        let y = self.cursor.y;
        let found = self.byte_offset(y, self.cursor.x);
        self.cursor = Cursor { x: found.1, y };
        self.position = found.0;
    }

    /// Moves the position to byte offset `pos` and the cursor with it. An
    /// offset that is no character boundary of the content moves nothing.
    pub fn set_position(&mut self, pos: usize)
        requires
            old(self).wf(),
        ensures
            final(self).wf(),
            final(self)@ == old(self)@.positioned(pos),
            final(self).same_setting(old(self)),
    {
        if self.content.as_str().is_char_boundary(pos) {
            self.position = pos;
            self.update_cursor();
        }
    }

    /// The grapheme cluster before the position and the offset at which it
    /// starts. There is none at the start of the text.
    pub fn prev_grapheme(&self) -> (found: Option<(&str, usize)>)
        requires
            self.wf(),
        ensures
            match found {
                Some((cluster, start)) => stop_before(self@.text, self.position as int) == Some(
                    start as int,
                ) && is_stop_before(self@.text, self.position as int, start as int)
                    && cluster.spec_bytes() == self@.text.subrange(
                    start as int,
                    self.position as int,
                ),
                None => stop_before(self@.text, self.position as int) is None,
            },
            found is None <==> self.position == 0,
    {
        match prev_boundary(self.content.as_str(), self.position) {
            Some(start) => {
                proof {
                    lemma_stop_before(self@.text, self.position as int, start as int);
                }
                Some((slice(self.content.as_str(), start, self.position), start))
            },
            None => None,
        }
    }

    /// The grapheme cluster at the position and the offset at which it
    /// ends. There is none at the end of the text.
    pub fn cur_grapheme(&self) -> (found: Option<(&str, usize)>)
        requires
            self.wf(),
        ensures
            match found {
                Some((cluster, end)) => stop_after(self@.text, self.position as int) == Some(
                    end as int,
                ) && is_stop_after(self@.text, self.position as int, end as int)
                    && cluster.spec_bytes() == self@.text.subrange(
                    self.position as int,
                    end as int,
                ),
                None => stop_after(self@.text, self.position as int) is None,
            },
            found is None <==> self.position == self@.text.len(),
    {
        match next_boundary(self.content.as_str(), self.position) {
            Some(end) => {
                proof {
                    lemma_stop_after(self@.text, self.position as int, end as int);
                }
                Some((slice(self.content.as_str(), self.position, end), end))
            },
            None => {
                proof {
                    lemma_char_boundary(self@.text, self.position as int);
                }
                None
            },
        }
    }

    /// move left to previous grapheme cluster
    pub fn move_left(&mut self)
        requires
            old(self).wf(),
        ensures
            final(self).wf(),
            final(self)@ == old(self)@.moved_left(),
            old(self).position > 0 ==> final(self).position < old(self).position,
            final(self).same_setting(old(self)),
    {
        let found = match self.prev_grapheme() {
            Some((_, start)) => Some(start),
            None => None,
        };
        if let Some(start) = found {
            self.position = start;
            self.prefered_col = None;
            self.update_cursor();
        }
    }

    /// move to next grapheme cluster
    pub fn move_right(&mut self)
        requires
            old(self).wf(),
        ensures
            final(self).wf(),
            final(self)@ == old(self)@.moved_right(),
            old(self).position < old(self)@.text.len() ==> final(self).position > old(
                self,
            ).position,
            final(self).same_setting(old(self)),
    {
        let found = match self.cur_grapheme() {
            Some((_, end)) => Some(end),
            None => None,
        };
        if let Some(end) = found {
            self.position = end;
            self.prefered_col = None;
            self.update_cursor();
        }
    }

    /// place the x cursor anywhere on the line,
    /// assuming cursor.y is set this will move it to position or eol
    /// and handle the preferred_col
    pub fn place_cursor_x(&mut self, x: usize)
        requires
            old(self).wf(),
        ensures
            final(self).wf(),
            final(self)@ == old(self)@.placed(x),
            final(self).same_setting(old(self)),
    {
        let line_length = str_column_length_no_lb(self.current_line_str());
        let want = match self.prefered_col {
            Some(col) => col,
            None => x,
        };
        self.prefered_col = Some(want);
        self.cursor = Cursor { x: smaller(want, line_length), y: self.cursor.y };
    }

    /// Jumps to the start of the cursor's line.
    pub fn goto_start_of_line(&mut self)
        requires
            old(self).wf(),
        ensures
            final(self).wf(),
            final(self)@ == old(self)@.at_line_start(),
            final(self).same_setting(old(self)),
    {
        self.cursor = Cursor { x: 0, y: self.cursor.y };
        self.prefered_col = None;
        self.update_position();
    }

    /// Jumps to the end of the cursor's line, before its line break.
    pub fn goto_end_of_line(&mut self)
        requires
            old(self).wf(),
        ensures
            final(self).wf(),
            final(self)@ == old(self)@.at_line_end(),
            final(self).same_setting(old(self)),
    {
        let x = str_column_length_no_lb(self.current_line_str());
        self.cursor = Cursor { x, y: self.cursor.y };
        self.prefered_col = None;
        self.update_position();
    }

    /// move up a row
    pub fn move_up(&mut self)
        requires
            old(self).wf(),
        ensures
            final(self).wf(),
            final(self)@ == old(self)@.moved_up(),
            final(self).same_setting(old(self)),
    {
        if self.is_first_line() {
            self.goto_start_of_line();
            return ;
        }
        let x = self.cursor.x;
        self.cursor = Cursor { x, y: self.cursor.y - 1 };
        self.place_cursor_x(x);
        self.update_position();
    }

    /// move down a row
    pub fn move_down(&mut self)
        requires
            old(self).wf(),
        ensures
            final(self).wf(),
            final(self)@ == old(self)@.moved_down(),
            final(self).same_setting(old(self)),
    {
        if self.is_last_line() {
            self.goto_end_of_line();
            return ;
        }
        proof {
            lemma_line_starts_shape(self@.text);
            axiom_spec_len(&self.linestarts);
            assert(as_ints(self.linestarts@).len() == self.linestarts@.len());
        }
        let x = self.cursor.x;
        self.cursor = Cursor { x, y: self.cursor.y + 1 };
        self.place_cursor_x(x);
        self.update_position();
    }

    /// Scrolls and moves up by `height` lines.
    pub fn page_up(&mut self, height: usize)
        requires
            old(self).wf(),
        ensures
            final(self).wf(),
            final(self)@ == old(self)@.paged_up(height),
            final(self).same_setting(old(self)),
    {
        let x = self.cursor.x;
        self.top = self.top.saturating_sub(height);
        self.cursor = Cursor { x, y: self.cursor.y.saturating_sub(height) };
        self.place_cursor_x(x);
        self.update_position();
    }

    /// Scrolls and moves down by `height` lines.
    pub fn page_down(&mut self, height: usize)
        requires
            old(self).wf(),
        ensures
            final(self).wf(),
            final(self)@ == old(self)@.paged_down(height),
            final(self).same_setting(old(self)),
    {
        proof {
            lemma_line_starts_shape(self@.text);
            assert(as_ints(self.linestarts@).len() == self.linestarts@.len());
        }
        let x = self.cursor.x;
        let entries = self.linestarts.len();
        self.top = smaller(self.top.saturating_add(height), entries.saturating_sub(height));
        self.cursor = Cursor { x, y: smaller(self.cursor.y.saturating_add(height), entries - 2) };
        self.place_cursor_x(x);
        self.update_position();
    }

    /// Set the position into the buffer based on a location on the viewport
    pub fn set_viewport_cursor_pos(&mut self, x: u16, y: u16)
        requires
            old(self).wf(),
        ensures
            final(self).wf(),
            final(self)@ == old(self)@.clicked(x, y),
            final(self).same_setting(old(self)),
    {
        proof {
            lemma_line_starts_shape(self@.text);
            assert(as_ints(self.linestarts@).len() == self.linestarts@.len());
        }
        let entries = self.linestarts.len();
        self.cursor = Cursor {
            x: self.cursor.x,
            y: smaller(self.top.saturating_add(y as usize), entries - 2),
        };
        self.prefered_col = Some(x as usize);
        self.place_cursor_x(x as usize);
        self.update_position();
    }

    /// Jumps to the start of the text.
    pub fn to_top(&mut self)
        requires
            old(self).wf(),
        ensures
            final(self).wf(),
            final(self)@ == old(self)@.at_top(),
            final(self).same_setting(old(self)),
            final(self).position == 0,
            final(self).cursor == (Cursor { x: 0, y: 0 }),
    {
        proof {
            lemma_char_boundary(self@.text, 0);
            lemma_cursor_at_start(self@.text);
        }
        self.position = 0;
        self.prefered_col = None;
        self.update_cursor();
    }

    /// Jumps to the end of the text.
    pub fn to_bottom(&mut self)
        requires
            old(self).wf(),
        ensures
            final(self).wf(),
            final(self)@ == old(self)@.at_bottom(),
            final(self).same_setting(old(self)),
            final(self).position == old(self)@.text.len(),
            final(self).cursor.y + 2 == final(self).linestarts@.len(),
    {
        let end = byte_len(self.content.as_str());
        proof {
            lemma_char_boundary(self@.text, end as int);
            lemma_cursor_at_end(self@.text);
        }
        self.position = end;
        self.prefered_col = None;
        self.update_cursor();
    }

    /// Rebuilds the line table, settles the cursor and drops the snapshots
    /// of the highlighter from the first visible row on.
    fn settle(&mut self)
        requires
            old(self)@.anchored(),
        ensures
            final(self).wf(),
            final(self)@ == old(self)@.with_cursor().invalidated(),
            final(self)@.settled(),
            final(self).same_setting(old(self)),
    {
        self.linestarts = generate_linestarts(self.content.as_str());
        self.update_cursor();
        self.parse_cache.invalidate_from(self.top);
        assert(final(self)@.cache =~= old(self)@.with_cursor().invalidated().cache);
    }

    /// Inserts `chr` at the position, which moves behind it.
    pub fn insert(&mut self, chr: char)
        requires
            old(self).wf(),
        ensures
            final(self).wf(),
            final(self)@ == old(self)@.inserted(encode_utf8(seq![chr])),
            final(self).same_setting(old(self)),
    {
        let add = utf8_len(chr);
        let len = byte_len(self.content.as_str());
        if add > usize::MAX - len {
            return ;
        }
        proof {
            encode_utf8_valid_utf8(seq![chr]);
            lemma_inserted_wf(self@, encode_utf8(seq![chr]));
        }
        string_insert(&mut self.content, self.position, chr);
        self.position = self.position + add;
        self.settle();
    }

    /// Inserts `content` at the position, which moves behind it.
    pub fn insert_str(&mut self, content: &str)
        requires
            old(self).wf(),
        ensures
            final(self).wf(),
            final(self)@ == old(self)@.inserted(content.spec_bytes()),
            final(self).same_setting(old(self)),
    {
        let add = byte_len(content);
        let len = byte_len(self.content.as_str());
        if add > usize::MAX - len {
            return ;
        }
        proof {
            encode_utf8_valid_utf8(content@);
            lemma_inserted_wf(self@, content.spec_bytes());
        }
        string_insert_str(&mut self.content, self.position, content);
        self.position = self.position + add;
        self.settle();
    }

    /// Inserts `content` at the position, which moves behind it, and
    /// forgets the preferred column.
    pub fn paste(&mut self, content: &str)
        requires
            old(self).wf(),
        ensures
            final(self).wf(),
            final(self)@ == old(self)@.pasted(content.spec_bytes()),
            final(self).same_setting(old(self)),
    {
        self.prefered_col = None;
        self.insert_str(content);
    }

    /// Removes the grapheme cluster before the position and returns it.
    /// At the start of the text nothing is removed.
    pub fn backspace(&mut self) -> (taken: String)
        requires
            old(self).wf(),
        ensures
            final(self).wf(),
            final(self)@ == old(self)@.backspaced(),
            bytes_of(&taken) == old(self)@.before_position(),
            old(self).position > 0 ==> bytes_of(&taken).len() > 0,
            final(self).same_setting(old(self)),
    {
        let found = match self.prev_grapheme() {
            Some((cluster, start)) => Some((cluster.to_owned(), start)),
            None => None,
        };
        match found {
            Some((taken, start)) => {
                proof {
                    lemma_drained_wf(self@, start, self.position);
                }
                string_remove_range(&mut self.content, start, self.position);
                self.position = start;
                self.prefered_col = None;
                self.settle();
                taken
            },
            None => {
                let taken = String::new();
                assert(bytes_of(&taken) =~= Seq::<u8>::empty());
                taken
            },
        }
    }

    /// Removes the grapheme cluster at the position and returns it. At the
    /// end of the text nothing is removed.
    pub fn delete(&mut self) -> (taken: String)
        requires
            old(self).wf(),
        ensures
            final(self).wf(),
            final(self)@ == old(self)@.deleted(),
            bytes_of(&taken) == old(self)@.at_position(),
            old(self).position < old(self)@.text.len() ==> bytes_of(&taken).len() > 0,
            final(self).same_setting(old(self)),
    {
        let found = match self.cur_grapheme() {
            Some((cluster, end)) => Some((cluster.to_owned(), end)),
            None => None,
        };
        match found {
            Some((taken, end)) => {
                proof {
                    lemma_drained_wf(self@, self.position, end);
                }
                string_remove_range(&mut self.content, self.position, end);
                self.settle();
                taken
            },
            None => {
                let taken = String::new();
                assert(bytes_of(&taken) =~= Seq::<u8>::empty());
                taken
            },
        }
    }

    /// Removes the bytes of `range` and returns them. The position follows
    /// the text it stood in. A range that does not lie between two
    /// character boundaries of the content removes nothing.
    pub fn drain(&mut self, range: Range<usize>) -> (taken: String)
        requires
            old(self).wf(),
        ensures
            final(self).wf(),
            final(self)@ == old(self)@.drained(range.start, range.end),
            bytes_of(&taken) == old(self)@.between(range.start, range.end),
            final(self).same_setting(old(self)),
    {
        let from = range.start;
        let to = range.end;
        if from > to || !self.content.as_str().is_char_boundary(from)
            || !self.content.as_str().is_char_boundary(to) {
            let taken = String::new();
            assert(bytes_of(&taken) =~= Seq::<u8>::empty());
            return taken;
        }
        proof {
            lemma_drained_wf(self@, from, to);
        }
        let taken = slice(self.content.as_str(), from, to).to_owned();
        string_remove_range(&mut self.content, from, to);
        self.position = if self.position <= from {
            self.position
        } else if self.position >= to {
            self.position - (to - from)
        } else {
            from
        };
        self.settle();
        taken
    }

    /// Highlights every occurrence of `query` in the content. The cursor
    /// stays where it is.
    pub fn find(&mut self, query: String)
        requires
            old(self).wf(),
        ensures
            final(self).wf(),
            final(self)@ == old(self)@.found(bytes_of(&query)),
            final(self).same_setting(old(self)),
    {
        let text = self.content.as_str();
        let bytes = text.as_bytes();
        let wanted = query.as_str().as_bytes();
        let n = bytes.len();
        let m = wanted.len();
        let mut matches: Vec<(usize, usize)> = Vec::new();
        if m <= n {
            let mut i: usize = 0;
            while i <= n - m
                invariant_except_break
                    matches@ + occurrences(bytes@, wanted@, i as int) == occurrences(
                        bytes@,
                        wanted@,
                        0,
                    ),
                invariant
                    bytes@ == self@.text,
                    text.spec_bytes() == self@.text,
                    wanted@ == bytes_of(&query),
                    n == bytes@.len(),
                    m == wanted@.len(),
                    m <= n,
                ensures
                    matches@ == occurrences(bytes@, wanted@, 0),
                decreases n + 1 - i,
            {
                let ghost rest = occurrences(bytes@, wanted@, i as int);
                if text.is_char_boundary(i) && bytes_at(bytes, wanted, i) {
                    matches.push((i, i + m));
                    let step = if m == 0 {
                        1
                    } else {
                        m
                    };
                    proof {
                        assert(matches_at(bytes@, wanted@, i as int));
                        let after = occurrences(bytes@, wanted@, i + step);
                        assert(rest == seq![(i, (i + m) as usize)] + after);
                        assert(matches@ + after =~= matches@.drop_last() + rest);
                    }
                    if step > n - i {
                        proof {
                            assert(occurrences(bytes@, wanted@, i + step) =~= Seq::empty());
                        }
                        break ;
                    }
                    i = i + step;
                } else {
                    proof {
                        assert(rest == occurrences(bytes@, wanted@, i + 1));
                    }
                    if i == n {
                        proof {
                            assert(occurrences(bytes@, wanted@, i + 1) =~= Seq::empty());
                        }
                        break ;
                    }
                    i = i + 1;
                }
            }
        }
        self.highlights = matches;
    }

    /// Moves to the first highlight at or behind the position, or else
    /// round to the first of all.
    pub fn jump_next_highlight(&mut self)
        requires
            old(self).wf(),
        ensures
            final(self).wf(),
            final(self)@ == old(self)@.jumped_next(),
            final(self).same_setting(old(self)),
    {
        let n = self.highlights.len();
        let mut target: Option<usize> = None;
        let mut i: usize = 0;
        while i < n && target.is_none()
            invariant
                n == self.highlights@.len(),
                i <= n,
                match target {
                    Some(start) => first_from(self.highlights@, self.position, 0) == Some(start),
                    None => first_from(self.highlights@, self.position, 0) == first_from(
                        self.highlights@,
                        self.position,
                        i as int,
                    ),
                },
            decreases n - i, target.is_none() as int,
        {
            if self.highlights[i].0 >= self.position {
                target = Some(self.highlights[i].0);
            } else {
                i = i + 1;
            }
        }
        if target.is_none() && n > 0 {
            target = Some(self.highlights[0].0);
        }
        if let Some(start) = target {
            self.set_position(start);
        }
    }

    /// Moves to the last highlight before the position, or else round to
    /// the last of all.
    pub fn jump_previous_highlight(&mut self)
        requires
            old(self).wf(),
        ensures
            final(self).wf(),
            final(self)@ == old(self)@.jumped_previous(),
            final(self).same_setting(old(self)),
    {
        let n = self.highlights.len();
        let mut target: Option<usize> = None;
        let mut i: usize = n;
        while i > 0 && target.is_none()
            invariant
                n == self.highlights@.len(),
                i <= n,
                match target {
                    Some(start) => last_before(self.highlights@, self.position, n as int) == Some(
                        start,
                    ),
                    None => last_before(self.highlights@, self.position, n as int) == last_before(
                        self.highlights@,
                        self.position,
                        i as int,
                    ),
                },
            decreases i, target.is_none() as int,
        {
            if self.highlights[i - 1].0 < self.position {
                target = Some(self.highlights[i - 1].0);
            } else {
                i = i - 1;
            }
        }
        if target.is_none() && n > 0 {
            target = Some(self.highlights[n - 1].0);
        }
        if let Some(start) = target {
            self.set_position(start);
        }
    }

    /// Skips the run of grapheme clusters that are of the kind of the one
    /// at the position. The run ends before a line break.
    pub fn move_word_right(&mut self)
        requires
            old(self).wf(),
        ensures
            final(self).wf(),
            final(self)@ == old(self)@.moved_word_right(),
            final(self).same_setting(old(self)),
    {
        let text = self.content.as_str();
        let ghost bytes = self@.text;
        let start = self.position;
        let mut at: usize = start;
        if let Some(first) = next_boundary(text, at) {
            proof {
                lemma_stop_after(bytes, at as int, first as int);
            }
            let class = classify(slice(text, at, first));
            let mut more = true;
            while more
                invariant
                    bytes == text.spec_bytes(),
                    valid_utf8(bytes),
                    is_char_boundary(bytes, at as int),
                    more ==> run_end(bytes, at as int, class) == run_end(bytes, start as int, class),
                    !more ==> at == run_end(bytes, start as int, class),
                decreases bytes.len() - at, more as int,
            {
                proof {
                    lemma_char_boundary(bytes, at as int);
                }
                match next_boundary(text, at) {
                    Some(next) => {
                        proof {
                            lemma_stop_after(bytes, at as int, next as int);
                        }
                        if is_in_run(slice(text, at, next), class) {
                            at = next;
                        } else {
                            more = false;
                        }
                    },
                    None => {
                        more = false;
                    },
                }
            }
        }
        self.position = at;
        self.prefered_col = None;
        self.update_cursor();
    }

    /// Skips back over the run of grapheme clusters that are of the kind
    /// of the one before the position. The run starts behind a line break.
    pub fn move_word_left(&mut self)
        requires
            old(self).wf(),
        ensures
            final(self).wf(),
            final(self)@ == old(self)@.moved_word_left(),
            final(self).same_setting(old(self)),
    {
        let text = self.content.as_str();
        let ghost bytes = self@.text;
        let start = self.position;
        let mut at: usize = start;
        if let Some(first) = prev_boundary(text, at) {
            proof {
                lemma_stop_before(bytes, at as int, first as int);
            }
            let class = classify(slice(text, first, at));
            let mut more = true;
            while more
                invariant
                    bytes == text.spec_bytes(),
                    valid_utf8(bytes),
                    is_char_boundary(bytes, at as int),
                    more ==> run_start(bytes, at as int, class) == run_start(
                        bytes,
                        start as int,
                        class,
                    ),
                    !more ==> at == run_start(bytes, start as int, class),
                decreases at, more as int,
            {
                match prev_boundary(text, at) {
                    Some(prev) => {
                        proof {
                            lemma_stop_before(bytes, at as int, prev as int);
                        }
                        if is_in_run(slice(text, prev, at), class) {
                            at = prev;
                        } else {
                            more = false;
                        }
                    },
                    None => {
                        more = false;
                    },
                }
            }
        }
        self.position = at;
        self.prefered_col = None;
        self.update_cursor();
    }

    /// Scrolls so that the cursor is among the `height` rows shown.
    pub fn scroll_view(&mut self, height: usize)
        requires
            old(self).wf(),
        ensures
            final(self).wf(),
            final(self)@ == old(self)@.scrolled(height),
            final(self).same_setting(old(self)),
    {
        proof {
            lemma_line_starts_shape(self@.text);
            axiom_spec_len(&self.linestarts);
            assert(as_ints(self.linestarts@).len() == self.linestarts@.len());
        }
        let y = self.cursor.y;
        if y < self.top {
            self.top = y;
        } else if height <= y && y - height >= self.top {
            self.top = y - height + 1;
        }
    }

    /// Scrolls so that the cursor is in the middle of the `height` rows
    /// shown.
    pub fn center_view(&mut self, height: usize)
        requires
            old(self).wf(),
        ensures
            final(self).wf(),
            final(self)@ == old(self)@.centered(height),
            final(self).same_setting(old(self)),
    {
        self.top = self.cursor.y.saturating_sub(height / 2);
    }

    /// Scrolls down by two rows, unless the end of the text is in view on
    /// a screen of `rows` rows.
    pub fn scroll_down(&mut self, rows: usize)
        requires
            old(self).wf(),
        ensures
            final(self).wf(),
            final(self)@ == old(self)@.scrolled_down(rows),
            final(self).same_setting(old(self)),
    {
        proof {
            lemma_line_starts_shape(self@.text);
            assert(as_ints(self.linestarts@).len() == self.linestarts@.len());
            assert(as_ints(self.linestarts@)[self.linestarts@.len() - 2] == self.linestarts@[
                self.linestarts@.len() - 2
            ]);
        }
        let entries = self.linestarts.len();
        let len = byte_len(self.content.as_str());
        let filled = if self.linestarts[entries - 2] == len {
            entries - 2
        } else {
            entries - 1
        };
        if filled + 1 > rows && filled + 1 - rows > self.top {
            self.top = self.top.saturating_add(2);
        }
    }

    /// Scrolls up by two rows.
    pub fn scroll_up(&mut self)
        requires
            old(self).wf(),
        ensures
            final(self).wf(),
            final(self)@ == old(self)@.scrolled_up(),
            final(self).same_setting(old(self)),
    {
        self.top = self.top.saturating_sub(2);
    }

    /// Whether the buffer can be saved, and if not, why. Saving writes
    /// the content byte for byte and changes nothing of the buffer.
    pub fn save(&self) -> (r: Result<(), SaveError>)
        ensures
            r == (if self.name is None {
                Err::<(), SaveError>(SaveError::NoPath)
            } else if self.readonly {
                Err(SaveError::ReadOnly)
            } else if self.opened_readonly {
                Err(SaveError::NoWritePermission)
            } else {
                Ok(())
            }),
    {
        if self.name.is_none() {
            Err(SaveError::NoPath)
        } else if self.readonly {
            Err(SaveError::ReadOnly)
        } else if self.opened_readonly {
            Err(SaveError::NoWritePermission)
        } else {
            Ok(())
        }
    }

    /// Whether the content differs from what is stored: from `stored`,
    /// the content of the file behind the buffer, or, for a buffer without
    /// a file, from nothing.
    pub fn dirty(&self, stored: Option<&String>) -> (differs: bool)
        ensures
            differs == (match stored {
                Some(text) => text@ != self.content@,
                None => self.content@.len() > 0,
            }),
    {
        match stored {
            Some(text) => *text != self.content,
            None => !self.content.as_str().is_empty(),
        }
    }

    /// length of current line in grapheme clusters
    pub fn current_line_grapheme_count(&self) -> (n: usize)
        requires
            self.wf(),
        ensures
            n == cluster_count(self@.line(self.cursor.y as int), 0),
    {
        count_clusters(self.current_line_str())
    }

    /// The current line up to the position. Where the position does not
    /// stand in the current line, nothing.
    pub fn current_line_str_before_cursor(&self) -> (part: &str)
        requires
            self.wf(),
        ensures
            part.spec_bytes() == (if self@.table()[self.cursor.y as int] <= self.position {
                self@.text.subrange(self@.table()[self.cursor.y as int], self.position as int)
            } else {
                Seq::empty()
            }),
    {
        let (start, _) = self.current_line();
        if start <= self.position {
            slice(self.content.as_str(), start, self.position)
        } else {
            proof {
                lemma_char_boundary(self@.text, 0);
            }
            let part = slice(self.content.as_str(), 0, 0);
            assert(part.spec_bytes() =~= Seq::<u8>::empty());
            part
        }
    }

    /// number of excess bytes between two points caused
    /// by multi-byte graphemes: the bytes between two character boundaries
    /// less the grapheme clusters between them. Nothing for a range that
    /// does not lie between two character boundaries.
    pub fn excess_bytes(&self, start: usize, end: usize) -> (excess: usize)
        requires
            self.wf(),
        ensures
            excess == (if self@.can_drain(start, end) {
                end - start - cluster_count(self@.text.subrange(start as int, end as int), 0)
            } else {
                0
            }),
    {
        if start > end || !self.content.as_str().is_char_boundary(start)
            || !self.content.as_str().is_char_boundary(end) {
            return 0;
        }
        let chunk = slice(self.content.as_str(), start, end);
        byte_len(chunk) - count_clusters(chunk)
    }

    /// The syntax that fits this buffer among those of `set`: that of the
    /// extension of the name, or else that which knows the first line of
    /// the content. A buffer without a name has none.
    pub open spec fn fitting_syntax(&self, set: SyntaxSet) -> Option<SyntaxReference> {
        match self.name {
            Some(name) => {
                let by_extension = extension_syntax(set, extension_of(bytes_of(&name)));
                if by_extension is Some {
                    by_extension
                } else {
                    match first_line_of(self@.text) {
                        Some(line) => first_line_syntax(set, line),
                        None => None,
                    }
                }
            },
            None => None,
        }
    }

    /// Tries to find and set a syntax: that of the extension of the name,
    /// or else that which knows the first line of the content. A buffer
    /// without a name gets none. What is found is kept and handed out;
    /// where nothing is found the buffer keeps the syntax that it has.
    pub fn find_syntax<'a>(&mut self, grammars: &'a Grammars) -> (found: Option<Grammar<'a>>)
        ensures
            final(self)@ == old(self)@,
            final(self).linestarts == old(self).linestarts,
            final(self).name == old(self).name,
            final(self).readonly == old(self).readonly,
            final(self).opened_readonly == old(self).opened_readonly,
            found is Some <==> old(self).fitting_syntax(grammars.set()) is Some,
            found is Some ==> found->Some_0.is_of(grammars) && found->Some_0.syntax() == old(
                self,
            ).fitting_syntax(grammars.set())->Some_0,
            final(self).syntax == (if found is Some {
                old(self).fitting_syntax(grammars.set())
            } else {
                old(self).syntax
            }),
    {
        let by_extension = match &self.name {
            Some(name) => grammars.by_extension(extension(name.as_str())),
            None => None,
        };
        let by_first_line = if self.name.is_some() && by_extension.is_none() {
            match first_line(self.content.as_str()) {
                Some(line) => grammars.by_first_line(line),
                None => None,
            }
        } else {
            None
        };
        self.keep_syntax(by_extension, by_first_line)
    }

    /// gets the amount of excess bytes preceding the position due to
    /// multi-byte graphemes, which no longer count: nothing.
    pub fn magic_unicode_offset_bug_fix(&self) -> (excess: usize)
        ensures
            excess == 0,
    {
        0
    }

    /// Takes what the set of syntaxes found for the extension of the name
    /// and for the first line of the content: the syntax of the extension
    /// wins, that of the first line stands in where the extension is not
    /// known. A copy of the winner's definition is kept as the syntax of
    /// the buffer, and the winner is handed out. Where neither was found
    /// the buffer keeps the syntax that it has.
    pub fn keep_syntax<'a>(
        &mut self,
        by_extension: Option<Grammar<'a>>,
        by_first_line: Option<Grammar<'a>>,
    ) -> (kept: Option<Grammar<'a>>)
        ensures
            kept == (if by_extension is Some {
                by_extension
            } else {
                by_first_line
            }),
            final(self).syntax == (match kept {
                Some(grammar) => Some(grammar.syntax()),
                None => old(self).syntax,
            }),
            final(self)@ == old(self)@,
            final(self).linestarts == old(self).linestarts,
            final(self).name == old(self).name,
            final(self).readonly == old(self).readonly,
            final(self).opened_readonly == old(self).opened_readonly,
    {
        let kept = match by_extension {
            Some(grammar) => Some(grammar),
            None => by_first_line,
        };
        match &kept {
            Some(grammar) => {
                self.syntax = Some(grammar.definition());
            },
            None => {},
        }
        kept
    }
}

} // verus!
