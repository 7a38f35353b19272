use atto::buffer::Buffer;
use atto::model::Request;
use atto::model::Message;
use atto::model::Screen;
use atto::undo::UndoGroup;
use atto::undo::UndoState;
use atto::undo::GROUP_TIME_SPAN;

fn shown(messages: &Vec<Message>) -> String {
    format!("{:?}", messages)
}

fn screen() -> Screen {
    Screen { rows: 24, buffer_rows: 23 }
}

/// Carries out a command and everything that it leaves to be carried out.
fn run(buffer: &mut Buffer, msg: &Message, now: u128) -> Vec<String> {
    let mut clipboard = Vec::new();
    for effect in buffer.update_at(msg, now, screen()) {
        match effect {
            Request::Dispatch(next) => clipboard.extend(run(buffer, &next, now)),
            Request::Clipboard(text) => clipboard.push(text),
            other => panic!("{:?}", other),
        }
    }
    clipboard
}

#[test]
fn undo_with_empty_history_changes_nothing() {
    let mut undo = UndoState::new();
    assert!(undo.undo().is_empty());
    assert!(undo.redo().is_empty());
    assert_eq!(undo.index, 0);
    assert!(undo.history.is_empty());
    assert!(!undo.inhibited);
    let mut buffer = Buffer::from_string(String::from("abc"));
    buffer.set_position(2);
    let effects = buffer.update_at(&Message::Undo, 0, screen());
    assert!(effects.is_empty());
    assert_eq!(buffer.content, "abc");
    assert_eq!(buffer.position, 2);
    assert_eq!(buffer.undo.index, 0);
}

#[test]
fn actions_within_the_window_share_a_group() {
    let mut undo = UndoState::new();
    undo.record_at(1_000, 0, 1, Message::InsertChar('a'), Message::UndoInsertion(1));
    undo.record_at(1_000 + GROUP_TIME_SPAN - 1, 1, 2, Message::InsertChar('b'), Message::UndoInsertion(1));
    assert_eq!(undo.index, 1);
    assert_eq!(undo.history.len(), 1);
    assert_eq!(undo.history[0].actions.len(), 2);
    let replay = undo.undo();
    assert_eq!(
        shown(&replay),
        "[JumpPosition(1), InhibitUndo(UndoInsertion(1)), JumpPosition(0), InhibitUndo(UndoInsertion(1))]"
    );
    assert_eq!(undo.index, 0);
    assert!(undo.undo().is_empty());
}

#[test]
fn actions_beyond_the_window_start_a_group() {
    let mut undo = UndoState::new();
    undo.record_at(1_000, 0, 1, Message::InsertChar('a'), Message::UndoInsertion(1));
    undo.record_at(1_000 + GROUP_TIME_SPAN, 1, 2, Message::InsertChar('b'), Message::UndoInsertion(1));
    assert_eq!(undo.index, 2);
    assert_eq!(undo.history.len(), 2);
    assert_eq!(shown(&undo.undo()), "[JumpPosition(1), InhibitUndo(UndoInsertion(1))]");
    assert_eq!(shown(&undo.undo()), "[JumpPosition(0), InhibitUndo(UndoInsertion(1))]");
    assert!(undo.undo().is_empty());
    assert_eq!(shown(&undo.redo()), "[JumpPosition(0), InhibitUndo(InsertChar('a'))]");
    assert_eq!(shown(&undo.redo()), "[JumpPosition(1), InhibitUndo(InsertChar('b'))]");
    assert!(undo.redo().is_empty());
}

#[test]
fn a_new_action_gives_up_what_could_be_redone() {
    let mut undo = UndoState::new();
    undo.record_at(0, 0, 1, Message::InsertChar('a'), Message::UndoInsertion(1));
    undo.record_at(GROUP_TIME_SPAN, 1, 2, Message::InsertChar('b'), Message::UndoInsertion(1));
    let _ = undo.undo();
    undo.record_at(3 * GROUP_TIME_SPAN, 1, 2, Message::InsertChar('c'), Message::UndoInsertion(1));
    assert_eq!(undo.index, 2);
    assert_eq!(undo.history.len(), 2);
    assert!(undo.redo().is_empty());
    assert_eq!(shown(&undo.undo()), "[JumpPosition(1), InhibitUndo(UndoInsertion(1))]");
}

#[test]
fn nothing_is_recorded_while_inhibited() {
    let mut undo = UndoState::new();
    undo.inhibited = true;
    undo.record_at(0, 0, 1, Message::InsertChar('a'), Message::UndoInsertion(1));
    assert_eq!(undo.index, 0);
    assert!(undo.history.is_empty());
}

#[test]
fn a_group_is_valid_for_less_than_the_window() {
    let group = UndoGroup::new(10);
    assert!(group.still_valid(10));
    assert!(group.still_valid(5));
    assert!(group.still_valid(10 + GROUP_TIME_SPAN - 1));
    assert!(!group.still_valid(10 + GROUP_TIME_SPAN));
    assert_eq!(GROUP_TIME_SPAN, 500_000_000);
}

#[test]
fn the_clock_groups_what_is_made_at_once() {
    let mut undo = UndoState::new();
    undo.record(0, 1, Message::InsertChar('a'), Message::UndoInsertion(1));
    undo.record(1, 2, Message::InsertChar('b'), Message::UndoInsertion(1));
    assert_eq!(undo.index, 1);
    assert_eq!(undo.history[0].actions.len(), 2);
}

fn undone_exactly(content: &str, position: usize, op: Message) {
    let mut buffer = Buffer::from_string(String::from(content));
    buffer.set_position(position);
    assert_eq!(buffer.position, position);
    let cursor = buffer.cursor;
    run(&mut buffer, &op, 0);
    run(&mut buffer, &Message::Undo, 10);
    assert_eq!(buffer.content, content, "after {:?}", op);
    assert_eq!(buffer.position, position, "after {:?}", op);
    assert_eq!(buffer.cursor, cursor, "after {:?}", op);
    assert!(!buffer.undo.inhibited);
    assert_eq!(buffer.undo.index, 0);
}

#[test]
fn undo_takes_a_single_edit_back() {
    let text = "one\ntw☃o\nthree";
    for position in [0usize, 2, 4, 6, 9, 11, 16] {
        undone_exactly(text, position, Message::InsertChar('x'));
        undone_exactly(text, position, Message::InsertChar('☃'));
        undone_exactly(text, position, Message::Enter);
        undone_exactly(text, position, Message::Tab);
        undone_exactly(text, position, Message::Paste(String::from("a\nb👻")));
        undone_exactly(text, position, Message::Backspace);
        undone_exactly(text, position, Message::Delete);
        undone_exactly(text, position, Message::CutLine);
    }
    undone_exactly("", 0, Message::Backspace);
    undone_exactly("", 0, Message::Delete);
    undone_exactly("", 0, Message::CutLine);
}

#[test]
fn redo_does_an_edit_again() {
    let mut buffer = Buffer::from_string(String::from("ab"));
    buffer.set_position(1);
    run(&mut buffer, &Message::InsertChar('x'), 0);
    run(&mut buffer, &Message::InsertChar('y'), 1);
    assert_eq!(buffer.content, "axyb");
    run(&mut buffer, &Message::Undo, 2);
    assert_eq!(buffer.content, "ab");
    assert_eq!(buffer.position, 1);
    run(&mut buffer, &Message::Redo, 3);
    assert_eq!(buffer.content, "axyb");
    assert_eq!(buffer.position, 3);
    assert_eq!(buffer.undo.index, 1);
}

#[test]
fn two_groups_take_two_undos() {
    let mut buffer = Buffer::from_string(String::new());
    run(&mut buffer, &Message::InsertChar('a'), 0);
    run(&mut buffer, &Message::InsertChar('b'), GROUP_TIME_SPAN + 1);
    run(&mut buffer, &Message::Undo, 0);
    assert_eq!(buffer.content, "a");
    run(&mut buffer, &Message::Undo, 0);
    assert_eq!(buffer.content, "");
}

#[test]
fn a_cut_line_goes_to_the_clipboard() {
    let mut buffer = Buffer::from_string(String::from("one\ntwo\nthree"));
    buffer.set_position(5);
    let clipboard = run(&mut buffer, &Message::CutLine, 0);
    assert_eq!(clipboard, vec![String::from("two\n")]);
    assert_eq!(buffer.content, "one\nthree");
    assert_eq!(buffer.position, 4);
}

#[test]
fn commands_for_the_controller_are_handed_on() {
    let mut buffer = Buffer::empty();
    let effects = buffer.update_at(
        &Message::Double(Box::new(Message::Save), Box::new(Message::InsertChar('a'))),
        0,
        screen(),
    );
    assert_eq!(effects.len(), 1);
    assert!(matches!(effects[0], Request::Dispatch(Message::Save)));
    assert_eq!(buffer.content, "a");
    assert!(Message::Undo.is_buffer_command());
    assert!(!Message::Quit.is_buffer_command());
    let effects = buffer.update(&Message::MoveLeft, screen());
    assert!(effects.is_empty());
    assert_eq!(buffer.position, 0);
}

#[test]
fn find_jumps_to_the_first_occurrence() {
    let mut buffer = Buffer::from_string(String::from("abcabc"));
    run(&mut buffer, &Message::Find(String::from("bc")), 0);
    assert_eq!(buffer.highlights, vec![(1, 3), (4, 6)]);
    assert_eq!(buffer.position, 1);
}

#[test]
fn scrolling_follows_the_cursor() {
    let mut buffer = Buffer::from_string(String::from("a\nb\nc\nd\ne\nf"));
    let small = Screen { rows: 3, buffer_rows: 2 };
    for _ in 0..3 {
        buffer.update_at(&Message::MoveDown, 0, small);
    }
    assert_eq!(buffer.cursor.y, 3);
    assert_eq!(buffer.top, 2);
    buffer.update_at(&Message::ToTop, 0, small);
    assert_eq!(buffer.top, 0);
    buffer.update_at(&Message::ScrollDown, 0, small);
    assert_eq!(buffer.top, 2);
    buffer.update_at(&Message::ScrollUp, 0, small);
    assert_eq!(buffer.top, 0);
    buffer.update_at(&Message::JumpPosition(10), 0, small);
    assert_eq!(buffer.cursor.y, 5);
    assert_eq!(buffer.top, 4);
}

#[test]
fn a_copy_of_a_command_says_the_same() {
    let msg = Message::Many(vec![
        Message::Paste(String::from("x")),
        Message::InhibitUndo(Box::new(Message::JumpPosition(3))),
        Message::Double(Box::new(Message::Save), Box::new(Message::Quit)),
    ]);
    assert_eq!(format!("{:?}", msg.duplicate()), format!("{:?}", msg));
}
