//! What holds of the buffer and its history whatever the text.

use crate::buffer::Buffer;
use crate::buffer::BufferView;
use crate::buffer::lemma_inserted_wf;
use crate::buffer::lemma_line_bounds;
use crate::grapheme::is_cursor_stop;
use crate::grapheme::is_stop_after;
use crate::grapheme::is_stop_before;
use crate::grapheme::lemma_stop_after;
use crate::grapheme::lemma_stop_before;
use crate::grapheme::stop_after;
use crate::grapheme::stop_before;
use crate::lines::as_ints;
use crate::lines::is_line_table;
use crate::lines::lemma_line_starts_shape;
use crate::model::backspace_inverse;
use crate::model::backspaced;
use crate::model::cut;
use crate::model::cut_from;
use crate::model::cut_to;
use crate::model::deleted;
use crate::model::inhibiting;
use crate::model::insertion_inverse;
use crate::model::MessageView;
use crate::model::pasted;
use crate::model::removal_inverse;
use crate::model::Screen;
use crate::model::step;
use crate::model::step_all;
use crate::model::typed;
use crate::model::uninserted;
use crate::text::lemma_char_boundary;
use crate::text::lemma_removed_boundary;
use crate::text::lemma_removed_valid;
use crate::text::lemma_spliced_boundary;
use crate::text::lemma_spliced_valid;
use crate::text::removed;
use crate::text::spliced;
use crate::undo::ActionView;
use crate::undo::GROUP_TIME_SPAN;
use crate::undo::GroupView;
use crate::undo::undo_replay;
use crate::undo::UndoView;
use vstd::prelude::*;
use vstd::utf8::*;

verus! {

/// A step to the right followed by a step to the left leads back: from a
/// position between two grapheme clusters from which a step to the right is
/// possible, the two moves restore the position and, where the cursor
/// stood where the position is, the cursor.
pub proof fn law_right_then_left(v: BufferView)
    requires
        v.wf(),
        is_cursor_stop(v.text, v.position as int),
        stop_after(v.text, v.position as int) is Some,
    ensures
        v.moved_right().moved_left().position == v.position,
        v.moved_right().moved_left().text == v.text,
        v.settled() ==> v.moved_right().moved_left().cursor == v.cursor,
{
    let right = stop_after(v.text, v.position as int)->Some_0;
    assert(is_stop_after(v.text, v.position as int, right));
    let there = v.moved_right();
    assert(there.position == right);
    assert(is_stop_before(v.text, right, v.position as int)) by {
        assert forall|q: int| v.position < q < right implies !is_cursor_stop(v.text, q) by {}
    }
    lemma_stop_before(v.text, right, v.position as int);
}

/// A step to the left followed by a step to the right leads back: from a
/// position between two grapheme clusters from which a step to the left is
/// possible, the two moves restore the position and, where the cursor
/// stood where the position is, the cursor.
pub proof fn law_left_then_right(v: BufferView)
    requires
        v.wf(),
        is_cursor_stop(v.text, v.position as int),
        stop_before(v.text, v.position as int) is Some,
    ensures
        v.moved_left().moved_right().position == v.position,
        v.moved_left().moved_right().text == v.text,
        v.settled() ==> v.moved_left().moved_right().cursor == v.cursor,
{
    let left = stop_before(v.text, v.position as int)->Some_0;
    assert(is_stop_before(v.text, v.position as int, left));
    let there = v.moved_left();
    assert(there.position == left);
    assert(is_stop_after(v.text, left, v.position as int)) by {
        assert forall|q: int| left < q < v.position implies !is_cursor_stop(v.text, q) by {}
    }
    lemma_stop_after(v.text, left, v.position as int);
}

/// The line table of a well-formed buffer starts at zero, ends at the
/// length of the content and never falls.
pub proof fn law_line_table(buffer: &Buffer)
    requires
        buffer.wf(),
    ensures
        is_line_table(as_ints(buffer.linestarts@), buffer@.text.len() as int),
        buffer.linestarts@.len() >= 2,
        buffer.linestarts@[0] == 0,
        buffer.linestarts@[buffer.linestarts@.len() - 1] == buffer@.text.len(),
        forall|i: int, j: int|
            0 <= i <= j < buffer.linestarts@.len() ==> buffer.linestarts@[i]
                <= buffer.linestarts@[j],
{
    lemma_line_starts_shape(buffer@.text);
    let table = as_ints(buffer.linestarts@);
    assert(table.len() == buffer.linestarts@.len());
    assert(table[0] == buffer.linestarts@[0]);
    assert(table[table.len() - 1] == buffer.linestarts@[buffer.linestarts@.len() - 1]);
    assert forall|i: int, j: int| 0 <= i <= j < buffer.linestarts@.len() implies buffer.linestarts@[i]
        <= buffer.linestarts@[j] by {
        assert(table[i] == buffer.linestarts@[i]);
        assert(table[j] == buffer.linestarts@[j]);
    }
}

/// Inserting a character puts its bytes between what stood before the
/// position and what stood behind it, moves the position behind them, and
/// leaves no snapshot of the highlighter for the first visible row or a
/// later one.
pub proof fn law_insert(v: BufferView, c: char)
    requires
        v.wf(),
        v.text.len() + encode_utf8(seq![c]).len() <= usize::MAX,
    ensures
        ({
            let after = v.inserted(encode_utf8(seq![c]));
            &&& after.text == v.text.subrange(0, v.position as int) + encode_utf8(seq![c])
                + v.text.subrange(v.position as int, v.text.len() as int)
            &&& after.position == v.position + encode_utf8(seq![c]).len()
            &&& forall|line: usize| after.cache.dom().contains(line) ==> line < v.top
            &&& after.wf()
            &&& after.settled()
        }),
{
    encode_utf8_valid_utf8(seq![c]);
    lemma_inserted_wf(v, encode_utf8(seq![c]));
}

/// Two actions recorded less than the grouping window apart, of which the
/// first starts a group, form one group, and one undo takes both back. At
/// the grouping window or more apart they form two groups, and it takes two
/// undos.
pub proof fn law_grouping(u: UndoView, first: u128, second: u128, a: ActionView, b: ActionView)
    requires
        u.wf(),
        !u.inhibited,
        first <= second,
        u.index == 0 || !u.history[u.index - 1].still_valid(first),
    ensures
        ({
            let both = u.recorded(first, a).recorded(second, b);
            &&& both.wf()
            &&& second - first < GROUP_TIME_SPAN ==> {
                &&& both.index == u.index + 1
                &&& both.history.len() == both.index
                &&& both.history[u.index].actions == seq![a, b]
                &&& both.undo_messages() == undo_replay(seq![a, b])
                &&& both.undone().index == u.index
            }
            &&& second - first >= GROUP_TIME_SPAN ==> {
                &&& both.index == u.index + 2
                &&& both.history.len() == both.index
                &&& both.history[u.index].actions == seq![a]
                &&& both.history[u.index + 1].actions == seq![b]
                &&& both.undo_messages() == undo_replay(seq![b])
                &&& both.undone().undo_messages() == undo_replay(seq![a])
                &&& both.undone().undone().index == u.index
            }
        }),
{
    let one = u.recorded(first, a);
    assert(one.history[u.index] == GroupView { start_time: first, actions: seq![a] });
    let both = one.recorded(second, b);
    if second - first < GROUP_TIME_SPAN {
        assert(both.history[u.index].actions =~= seq![a, b]);
    } else {
        assert(both.history[u.index] == one.history[u.index]);
    }
}

/// Undo with nothing to undo hands out no command and changes nothing,
/// and so does redo with nothing to redo.
pub proof fn law_undo_at_boundary(u: UndoView)
    requires
        u.wf(),
    ensures
        u.index == 0 ==> u.undo_messages() == Seq::<MessageView>::empty() && u.undone() == u,
        u.index == u.history.len() ==> u.redo_messages() == Seq::<MessageView>::empty()
            && u.redone() == u,
{
}

/// The buffer after an undo and the replay that the undo hands out.
pub open spec fn undone(v: BufferView, later: u128, screen: Screen) -> BufferView {
    step(
        step(v, MessageView::Undo, later, screen),
        MessageView::Many(v.undo.undo_messages()),
        later,
        screen,
    )
}

/// Whether two views show the same text, position and cursor.
pub open spec fn same_place(a: BufferView, b: BufferView) -> bool {
    a.text == b.text && a.position == b.position && a.cursor == b.cursor
}

/// Whether the next action recorded at `now` starts a group of its own.
pub open spec fn starts_group(u: UndoView, now: u128) -> bool {
    !u.inhibited && (u.index == 0 || !u.history[u.index - 1].still_valid(now))
}

/// The replay of a group of one action is a jump to where the action was
/// made and its inverse, carried out without recording.
proof fn lemma_replay_one(v: BufferView, action: ActionView, later: u128, screen: Screen)
    requires
        0 < v.undo.index <= v.undo.history.len(),
        v.undo.history[v.undo.index - 1].actions == seq![action],
    ensures
        undone(v, later, screen) == inhibiting(
            step(
                inhibiting(
                    BufferView { undo: v.undo.undone(), ..v }.positioned(
                        action.position_before,
                    ).centered(screen.buffer_rows),
                    true,
                ),
                action.inverse,
                later,
                screen,
            ),
            false,
        ),
{
    reveal_with_fuel(step, 2);
    let replay = v.undo.undo_messages();
    assert(seq![action].drop_last() =~= Seq::<ActionView>::empty());
    assert(undo_replay(seq![action]) =~= seq![
        MessageView::JumpPosition(action.position_before),
        MessageView::InhibitUndo(Box::new(action.inverse)),
    ]) by {
        reveal_with_fuel(undo_replay, 2);
    }
    let start = step(v, MessageView::Undo, later, screen);
    assert(start == BufferView { undo: v.undo.undone(), ..v });
    let first = step(start, replay[0], later, screen);
    let second = step(first, replay[1], later, screen);
    assert(step_all(start, replay, 0, later, screen) == second) by {
        reveal_with_fuel(step_all, 3);
    }
    assert(undone(v, later, screen) == second);
}

/// What the inverse of an insertion does.
proof fn lemma_step_insertion_inverse(
    s: BufferView,
    after: usize,
    count: usize,
    later: u128,
    screen: Screen,
)
    ensures
        step(s, insertion_inverse(after, count), later, screen) == uninserted(
            s.positioned(after).centered(screen.buffer_rows),
            count,
        ),
{
    reveal_with_fuel(step, 2);
    let steps = insertion_inverse(after, count)->Many_0;
    let s1 = step(s, steps[0], later, screen);
    let s2 = step(s1, steps[1], later, screen);
    assert(step_all(s, steps, 0, later, screen) == s2) by {
        reveal_with_fuel(step_all, 3);
    }
}

/// What the inverse of a backspace does.
proof fn lemma_step_backspace_inverse(
    s: BufferView,
    after: usize,
    taken: Seq<u8>,
    later: u128,
    screen: Screen,
)
    ensures
        step(s, backspace_inverse(after, taken), later, screen) == pasted(
            s.positioned(after).centered(screen.buffer_rows),
            decode_utf8(taken),
            later,
        ),
{
    reveal_with_fuel(step, 2);
    let steps = backspace_inverse(after, taken)->Many_0;
    let s1 = step(s, steps[0], later, screen);
    let s2 = step(s1, steps[1], later, screen);
    assert(step_all(s, steps, 0, later, screen) == s2) by {
        reveal_with_fuel(step_all, 3);
    }
}

/// What the inverse of a removal does.
proof fn lemma_step_removal_inverse(
    s: BufferView,
    from: usize,
    taken: Seq<u8>,
    before: usize,
    later: u128,
    screen: Screen,
)
    ensures
        step(s, removal_inverse(from, taken, before), later, screen) == s.positioned(
            from,
        ).centered(screen.buffer_rows).inserted(encode_utf8(decode_utf8(taken))).positioned(
            before,
        ).centered(screen.buffer_rows),
{
    reveal_with_fuel(step, 2);
    let steps = removal_inverse(from, taken, before)->Many_0;
    let s1 = step(s, steps[0], later, screen);
    let s2 = step(s1, steps[1], later, screen);
    let s3 = step(s2, steps[2], later, screen);
    assert(step_all(s, steps, 0, later, screen) == s3) by {
        reveal_with_fuel(step_all, 4);
    }
}

/// Taking out what was put in leads back to where it was put in.
proof fn lemma_insertion_undone(v: BufferView, part: Seq<u8>, s: BufferView, rows: usize)
    requires
        v.wf(),
        valid_utf8(part),
        s.text == v.inserted(part).text,
    ensures
        same_place(
            uninserted(
                s.positioned(v.inserted(part).position).centered(rows),
                (v.inserted(part).position - v.position) as usize,
            ),
            v.with_cursor(),
        ),
{
    let p = v.position;
    let after = v.inserted(part).position;
    let count = (after - p) as usize;
    lemma_char_boundary(v.text, p as int);
    if v.text.len() + part.len() <= usize::MAX {
        lemma_spliced_valid(v.text, p as int, part);
        lemma_spliced_boundary(v.text, p as int, part, p as int);
        assert(removed(spliced(v.text, p as int, part), p as int, p + part.len()) =~= v.text);
    } else {
        assert(removed(v.text, p as int, p as int) =~= v.text);
    }
    let s1 = s.positioned(after).centered(rows);
    assert(s1.position == after && s1.text == s.text);
    assert(s1.can_drain(p, after));
}

/// Pasting what a backspace took out leads back to where the backspace
/// was made.
proof fn lemma_backspace_undone(v: BufferView, s: BufferView, later: u128, rows: usize)
    requires
        v.wf(),
        s.text == v.backspaced().text,
    ensures
        same_place(
            pasted(
                s.positioned(v.backspaced().position).centered(rows),
                decode_utf8(v.before_position()),
                later,
            ),
            v.with_cursor(),
        ),
{
    let p = v.position;
    let after = v.backspaced().position;
    let taken = v.before_position();
    lemma_char_boundary(v.text, p as int);
    match stop_before(v.text, p as int) {
        Some(stop) => {
            assert(is_stop_before(v.text, p as int, stop));
            lemma_char_boundary(v.text, stop);
            lemma_removed_valid(v.text, stop, p as int);
            lemma_removed_boundary(v.text, stop as usize, p, stop as usize);
            assert(spliced(removed(v.text, stop, p as int), stop, taken) =~= v.text);
        },
        None => {
            assert(taken =~= Seq::<u8>::empty());
            assert(spliced(v.text, p as int, taken) =~= v.text);
        },
    }
    decode_utf8_encode_utf8(taken);
    let s1 = s.positioned(after).centered(rows);
    assert(s1.position == after && s1.text == s.text);
}

/// Putting back what was taken out leads back to where the removal was
/// asked for.
proof fn lemma_removal_undone(v: BufferView, from: usize, to: usize, s: BufferView, rows: usize)
    requires
        v.wf(),
        v.can_drain(from, to),
        s.text == removed(v.text, from as int, to as int),
    ensures
        same_place(
            s.positioned(from).centered(rows).inserted(
                encode_utf8(decode_utf8(v.text.subrange(from as int, to as int))),
            ).positioned(v.position).centered(rows),
            v.with_cursor(),
        ),
{
    let p = v.position;
    let taken = v.text.subrange(from as int, to as int);
    lemma_char_boundary(v.text, p as int);
    lemma_char_boundary(v.text, from as int);
    lemma_char_boundary(v.text, to as int);
    lemma_removed_valid(v.text, from as int, to as int);
    lemma_removed_boundary(v.text, from, to, from);
    assert(spliced(removed(v.text, from as int, to as int), from as int, taken) =~= v.text);
    decode_utf8_encode_utf8(taken);
    let s1 = s.positioned(from).centered(rows);
    assert(s1.position == from && s1.text == s.text);
    let s2 = s1.inserted(taken);
    assert(s2.text == v.text);
}

/// Whether `op` is a single edit: a character typed, a text pasted, a
/// backspace, a delete or the cut of a line.
pub open spec fn is_single_edit(op: MessageView) -> bool {
    match op {
        MessageView::InsertChar(_) => true,
        MessageView::Enter => true,
        MessageView::Tab => true,
        MessageView::Paste(_) => true,
        MessageView::Backspace => true,
        MessageView::Delete => true,
        MessageView::CutLine => true,
        _ => false,
    }
}

/// What the edit `op` records in a buffer `v` as its own inverse.
pub open spec fn inverse_of(v: BufferView, op: MessageView) -> MessageView {
    match op {
        MessageView::InsertChar(c) => insertion_inverse(
            v.inserted(encode_utf8(seq![c])).position,
            (v.inserted(encode_utf8(seq![c])).position - v.position) as usize,
        ),
        MessageView::Enter => insertion_inverse(
            v.inserted(encode_utf8(seq!['\n'])).position,
            (v.inserted(encode_utf8(seq!['\n'])).position - v.position) as usize,
        ),
        MessageView::Tab => insertion_inverse(
            v.inserted(encode_utf8(seq!['\t'])).position,
            (v.inserted(encode_utf8(seq!['\t'])).position - v.position) as usize,
        ),
        MessageView::Paste(text) => insertion_inverse(
            v.pasted(encode_utf8(text)).position,
            (v.pasted(encode_utf8(text)).position - v.position) as usize,
        ),
        MessageView::Backspace => backspace_inverse(v.backspaced().position, v.before_position()),
        MessageView::Delete => removal_inverse(v.position, v.at_position(), v.position),
        MessageView::CutLine => removal_inverse(
            cut_from(v),
            v.between(cut_from(v), cut_to(v)),
            v.position,
        ),
        _ => MessageView::NoMessage,
    }
}

/// The text that the edit `op` leaves of a buffer `v`.
pub open spec fn text_after(v: BufferView, op: MessageView) -> Seq<u8> {
    match op {
        MessageView::InsertChar(c) => v.inserted(encode_utf8(seq![c])).text,
        MessageView::Enter => v.inserted(encode_utf8(seq!['\n'])).text,
        MessageView::Tab => v.inserted(encode_utf8(seq!['\t'])).text,
        MessageView::Paste(text) => v.inserted(encode_utf8(text)).text,
        MessageView::Backspace => v.backspaced().text,
        MessageView::Delete => v.deleted().text,
        MessageView::CutLine => v.drained(cut_from(v), cut_to(v)).text,
        _ => v.text,
    }
}

/// An edit that starts a group leaves a history whose last group holds
/// this edit alone, made at the position of the buffer before it.
#[verifier::rlimit(60)]
proof fn lemma_edit_recorded(v: BufferView, op: MessageView, now: u128, screen: Screen)
    requires
        v.wf(),
        is_single_edit(op),
        starts_group(v.undo, now),
    ensures
        ({
            let done = step(v, op, now, screen);
            &&& done.text == text_after(v, op)
            &&& 0 < done.undo.index <= done.undo.history.len()
            &&& done.undo.history[done.undo.index - 1].actions.len() == 1
            &&& done.undo.history[done.undo.index - 1].actions[0].position_before == v.position
            &&& done.undo.history[done.undo.index - 1].actions[0].inverse == inverse_of(v, op)
        }),
{
    reveal_with_fuel(step, 1);
}

/// Undo takes a single edit back exactly: after an edit that started a
/// group of its own, an undo and the replay that it hands out restore the
/// text and the position, and leave the cursor where the position is: where
/// it was before the edit, if it stood where the position was.
pub proof fn law_undo_restores(
    v: BufferView,
    op: MessageView,
    now: u128,
    later: u128,
    screen: Screen,
)
    requires
        v.wf(),
        is_single_edit(op),
        starts_group(v.undo, now),
    ensures
        same_place(undone(step(v, op, now, screen), later, screen), v.with_cursor()),
        v.settled() ==> same_place(undone(step(v, op, now, screen), later, screen), v),
{
    let done = step(v, op, now, screen);
    lemma_edit_recorded(v, op, now, screen);
    let action = done.undo.history[done.undo.index - 1].actions[0];
    assert(done.undo.history[done.undo.index - 1].actions =~= seq![action]);
    lemma_replay_one(done, action, later, screen);
    let rows = screen.buffer_rows;
    let s = inhibiting(
        BufferView { undo: done.undo.undone(), ..done }.positioned(
            action.position_before,
        ).centered(rows),
        true,
    );
    assert(s.text == text_after(v, op));
    let back = step(s, action.inverse, later, screen);
    assert(undone(done, later, screen) == inhibiting(back, false));
    match op {
        MessageView::InsertChar(c) => {
            let part = encode_utf8(seq![c]);
            encode_utf8_valid_utf8(seq![c]);
            lemma_step_insertion_inverse(
                s,
                v.inserted(part).position,
                (v.inserted(part).position - v.position) as usize,
                later,
                screen,
            );
            lemma_insertion_undone(v, part, s, rows);
        },
        MessageView::Enter => {
            let part = encode_utf8(seq!['\n']);
            encode_utf8_valid_utf8(seq!['\n']);
            lemma_step_insertion_inverse(
                s,
                v.inserted(part).position,
                (v.inserted(part).position - v.position) as usize,
                later,
                screen,
            );
            lemma_insertion_undone(v, part, s, rows);
        },
        MessageView::Tab => {
            let part = encode_utf8(seq!['\t']);
            encode_utf8_valid_utf8(seq!['\t']);
            lemma_step_insertion_inverse(
                s,
                v.inserted(part).position,
                (v.inserted(part).position - v.position) as usize,
                later,
                screen,
            );
            lemma_insertion_undone(v, part, s, rows);
        },
        MessageView::Paste(text) => {
            let part = encode_utf8(text);
            encode_utf8_valid_utf8(text);
            lemma_step_insertion_inverse(
                s,
                v.inserted(part).position,
                (v.inserted(part).position - v.position) as usize,
                later,
                screen,
            );
            lemma_insertion_undone(v, part, s, rows);
        },
        MessageView::Backspace => {
            lemma_step_backspace_inverse(
                s,
                v.backspaced().position,
                v.before_position(),
                later,
                screen,
            );
            lemma_backspace_undone(v, s, later, rows);
        },
        MessageView::Delete => {
            lemma_char_boundary(v.text, v.position as int);
            lemma_step_removal_inverse(s, v.position, v.at_position(), v.position, later, screen);
            match stop_after(v.text, v.position as int) {
                Some(stop) => {
                    assert(is_stop_after(v.text, v.position as int, stop));
                    lemma_removal_undone(v, v.position, stop as usize, s, rows);
                },
                None => {
                    assert(removed(v.text, v.position as int, v.position as int) =~= v.text);
                    assert(v.text.subrange(v.position as int, v.position as int) =~= Seq::<
                        u8,
                    >::empty());
                    lemma_removal_undone(v, v.position, v.position, s, rows);
                },
            }
        },
        MessageView::CutLine => {
            lemma_line_bounds(v.text, v.cursor.y as int);
            lemma_step_removal_inverse(
                s,
                cut_from(v),
                v.between(cut_from(v), cut_to(v)),
                v.position,
                later,
                screen,
            );
            lemma_removal_undone(v, cut_from(v), cut_to(v), s, rows);
        },
        _ => {},
    }
}

} // verus!
