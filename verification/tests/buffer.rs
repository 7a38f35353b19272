use atto::buffer::str_column_length;
use atto::buffer::str_column_length_no_lb;
use atto::buffer::Buffer;
use atto::grapheme::width;

#[test]
fn snowman() {
    let mut buf = Buffer::empty();
    buf.paste("here is ☃ snowman");
    buf.position = 0;
    for _ in 0..12 {
        buf.move_right();
    }
    assert!(buf.position == 12 + String::from("☃").len() - 1);
}

#[test]
fn step_over_y() {
    let mut buf = Buffer::empty();
    let y = "y̆";
    buf.paste(y);
    buf.position = 0;
    buf.move_right();
    assert!(buf.position == 3);
}

#[test]
fn step_over_flags() {
    let mut buf = Buffer::empty();
    let flags: &str = "🇷🇺🇸🇹";
    buf.paste(flags);
    buf.position = 0;
    buf.move_right();
    assert!(buf.position == 8);
    assert!(buf.cursor.x == 2);
}

#[test]
fn step_over_ghosts() {
    let mut buf = Buffer::empty();
    let ghosts: &str = "👻👻👻";
    buf.paste(ghosts);
    buf.position = 0;
    buf.move_right();
    assert!(buf.position == 4);
    assert!(buf.cursor.x == 2);
}

#[test]
fn linestarts() {
    let mut buf = Buffer::empty();
    buf.paste(
"123
123
");
    println!("{:?}", buf.linestarts);
    assert!(buf.linestarts == vec![0,4,8,8]);
}

#[test]
fn linestarts_snowman() {
    let mut buf = Buffer::empty();
    buf.paste(
"1☃3
123
");
    println!("{:?}", buf.linestarts);
    assert!(buf.linestarts == vec![0,6,10,10]);
}

#[test]
fn linestarts_no_lb() {
    let mut buf = Buffer::empty();
    buf.paste(
"123");
    println!("{:?}", buf.linestarts);
    assert!(buf.linestarts == vec![0,3]);
}

#[test]
fn linestarts_empty() {
    let buf = Buffer::empty();
    println!("{:?}", buf.linestarts);
    assert!(buf.linestarts == vec![0,0]);
}

#[test]
fn right_then_left_returns() {
    let mut buf = Buffer::from_string(String::from("a👻y̆\nb"));
    let stops = [0usize, 1, 5, 8, 9];
    for at in stops {
        buf.set_position(at);
        assert_eq!(buf.position, at);
        let cursor = buf.cursor;
        buf.move_right();
        buf.move_left();
        assert_eq!(buf.position, at);
        assert_eq!(buf.cursor, cursor);
    }
}

#[test]
fn moves_are_clamped_at_the_ends() {
    let mut buf = Buffer::from_string(String::from("ab"));
    buf.move_left();
    assert_eq!(buf.position, 0);
    buf.set_position(2);
    buf.move_right();
    assert_eq!(buf.position, 2);
}

#[test]
fn insert_puts_the_character_at_the_position() {
    let mut buf = Buffer::from_string(String::from("ab"));
    buf.set_position(1);
    buf.insert('☃');
    assert_eq!(buf.content, "a☃b");
    assert_eq!(buf.position, 1 + '☃'.len_utf8());
    assert_eq!(buf.cursor.x, 2);
    assert_eq!(buf.cursor.y, 0);
    assert_eq!(buf.linestarts, vec![0, 5]);
}

#[test]
fn insert_str_moves_behind_what_it_inserts() {
    let mut buf = Buffer::from_string(String::from("ab"));
    buf.set_position(1);
    buf.insert_str("x\ny");
    assert_eq!(buf.content, "ax\nyb");
    assert_eq!(buf.position, 4);
    assert_eq!(buf.cursor.y, 1);
    assert_eq!(buf.cursor.x, 1);
    assert_eq!(buf.linestarts, vec![0, 3, 5]);
}

#[test]
fn backspace_removes_a_whole_cluster() {
    let mut buf = Buffer::from_string(String::from("ay̆b"));
    buf.set_position(4);
    let taken = buf.backspace();
    assert_eq!(taken, "y̆");
    assert_eq!(buf.content, "ab");
    assert_eq!(buf.position, 1);
    let nothing = Buffer::empty().backspace();
    assert_eq!(nothing, "");
}

#[test]
fn delete_removes_the_cluster_at_the_position() {
    let mut buf = Buffer::from_string(String::from("a👻b"));
    buf.set_position(1);
    let taken = buf.delete();
    assert_eq!(taken, "👻");
    assert_eq!(buf.content, "ab");
    assert_eq!(buf.position, 1);
    buf.set_position(2);
    assert_eq!(buf.delete(), "");
    assert_eq!(buf.content, "ab");
}

#[test]
fn drain_takes_a_range_out_and_the_position_follows() {
    let mut buf = Buffer::from_string(String::from("one\ntwo\nthree"));
    buf.set_position(9);
    let taken = buf.drain(4..8);
    assert_eq!(taken, "two\n");
    assert_eq!(buf.content, "one\nthree");
    assert_eq!(buf.position, 5);
    assert_eq!(buf.cursor.y, 1);
    assert_eq!(buf.linestarts, vec![0, 4, 9]);
    let mut split = Buffer::from_string(String::from("☃"));
    assert_eq!(split.drain(1..3), "");
    assert_eq!(split.content, "☃");
    assert_eq!(split.drain(2..1), "");
}

#[test]
fn find_lists_the_occurrences() {
    let mut buf = Buffer::from_string(String::from("abcabc"));
    buf.find(String::from("bc"));
    assert_eq!(buf.highlights, vec![(1, 3), (4, 6)]);
    assert_eq!(buf.position, 0);
    buf.find(String::from("aa"));
    assert!(buf.highlights.is_empty());
}

#[test]
fn find_does_not_overlap() {
    let mut buf = Buffer::from_string(String::from("aaaa"));
    buf.find(String::from("aa"));
    assert_eq!(buf.highlights, vec![(0, 2), (2, 4)]);
    buf.find(String::from(""));
    assert_eq!(buf.highlights, vec![(0, 0), (1, 1), (2, 2), (3, 3), (4, 4)]);
}

#[test]
fn jumps_wrap_around() {
    let mut buf = Buffer::from_string(String::from("abcabc"));
    buf.find(String::from("bc"));
    buf.jump_next_highlight();
    assert_eq!(buf.position, 1);
    buf.set_position(2);
    buf.jump_next_highlight();
    assert_eq!(buf.position, 4);
    buf.set_position(5);
    buf.jump_next_highlight();
    assert_eq!(buf.position, 1);
    buf.jump_previous_highlight();
    assert_eq!(buf.position, 4);
    buf.jump_previous_highlight();
    assert_eq!(buf.position, 1);
}

#[test]
fn vertical_moves_keep_the_preferred_column() {
    let mut buf = Buffer::from_string(String::from("abcdef\nab\nabcdef"));
    buf.set_position(5);
    buf.move_down();
    assert_eq!((buf.cursor.x, buf.cursor.y), (2, 1));
    assert_eq!(buf.position, 9);
    assert_eq!(buf.prefered_col, Some(5));
    buf.move_down();
    assert_eq!((buf.cursor.x, buf.cursor.y), (5, 2));
    assert_eq!(buf.position, 15);
    buf.move_down();
    assert_eq!(buf.position, 16);
    assert_eq!(buf.prefered_col, None);
    buf.move_up();
    buf.move_up();
    buf.move_up();
    assert_eq!(buf.position, 0);
}

#[test]
fn tabs_take_four_columns() {
    assert_eq!(str_column_length("\ta"), 5);
    assert_eq!(str_column_length_no_lb("ab\r\n"), 2);
    assert_eq!(str_column_length("👻"), 2);
    let mut buf = Buffer::from_string(String::from("\tab"));
    buf.cursor.x = 2;
    buf.update_position();
    assert_eq!(buf.position, 1);
    assert_eq!(buf.cursor.x, 4);
}

#[test]
fn click_maps_rows_and_columns() {
    let mut buf = Buffer::from_string(String::from("abc\ndef\nghi"));
    buf.top = 1;
    buf.set_viewport_cursor_pos(2, 1);
    assert_eq!(buf.cursor.y, 2);
    assert_eq!(buf.position, 10);
    buf.set_viewport_cursor_pos(9, 9);
    assert_eq!(buf.cursor.y, 2);
    assert_eq!(buf.position, 11);
}

#[test]
fn pages_are_clamped() {
    let mut buf = Buffer::from_string(String::from("a\nb\nc\nd\ne"));
    buf.page_down(3);
    assert_eq!(buf.cursor.y, 3);
    assert_eq!(buf.top, 3);
    buf.page_down(3);
    assert_eq!(buf.cursor.y, 4);
    buf.page_up(10);
    assert_eq!(buf.cursor.y, 0);
    assert_eq!(buf.top, 0);
}

#[test]
fn word_jumps_skip_one_kind() {
    let mut buf = Buffer::from_string(String::from("foo_1  bar\n.. x"));
    buf.move_word_right();
    assert_eq!(buf.position, 5);
    buf.move_word_right();
    assert_eq!(buf.position, 7);
    buf.move_word_right();
    assert_eq!(buf.position, 10);
    buf.move_word_right();
    assert_eq!(buf.position, 10);
    buf.set_position(13);
    buf.move_word_left();
    assert_eq!(buf.position, 11);
    buf.move_word_left();
    assert_eq!(buf.position, 11);
}

#[test]
fn ends_of_the_text() {
    let mut buf = Buffer::from_string(String::from("ab\ncd☃"));
    buf.to_bottom();
    assert_eq!(buf.position, 8);
    assert_eq!(buf.cursor.y, 1);
    buf.to_top();
    assert_eq!(buf.position, 0);
    buf.goto_end_of_line();
    assert_eq!(buf.position, 2);
    buf.move_down();
    buf.goto_start_of_line();
    assert_eq!(buf.position, 3);
    let mut empty = Buffer::empty();
    empty.to_bottom();
    assert_eq!(empty.position, 0);
}

#[test]
fn a_fresh_buffer_starts_at_the_top() {
    let empty = Buffer::empty();
    assert_eq!(empty.content, "");
    assert_eq!((empty.position, empty.top), (0, 0));
    assert_eq!((empty.cursor.x, empty.cursor.y), (0, 0));
    assert_eq!(empty.prefered_col, None);
    assert!(empty.highlights.is_empty());
    assert!(!empty.readonly);
    let filled = Buffer::from_string(String::from("\tab\ncd"));
    assert_eq!(filled.position, 0);
    assert_eq!((filled.cursor.x, filled.cursor.y), (0, 0));
    let named = Buffer::new(String::from("a.txt"), String::from("\n\n"), true);
    assert_eq!((named.cursor.x, named.cursor.y), (0, 0));
    assert!(named.opened_readonly);
    assert_eq!(width(""), 0);
    assert_eq!(str_column_length(""), 0);
}

#[test]
fn the_bottom_is_the_end_of_the_text() {
    let mut buf = Buffer::from_string(String::from("one\ntwo\n"));
    buf.move_down();
    buf.to_bottom();
    assert_eq!(buf.position, 8);
    assert_eq!((buf.cursor.x, buf.cursor.y), (0, 2));
    assert_eq!(buf.prefered_col, None);
    let mut line = Buffer::from_string(String::from("a👻y̆"));
    line.to_bottom();
    assert_eq!(line.position, line.content.len());
    assert_eq!(line.cursor.y, 0);
}

#[test]
fn a_bad_position_moves_nothing() {
    let mut buf = Buffer::from_string(String::from("☃"));
    buf.set_position(1);
    assert_eq!(buf.position, 0);
    buf.set_position(7);
    assert_eq!(buf.position, 0);
    buf.set_position(3);
    assert_eq!(buf.position, 3);
}

#[test]
fn offsets_and_visual_positions() {
    let buf = Buffer::from_string(String::from("ab\n\tc👻d\nlast"));
    assert_eq!(buf.visual_position(0), atto::buffer::Cursor { x: 0, y: 0 });
    assert_eq!(buf.visual_position(2), atto::buffer::Cursor { x: 2, y: 0 });
    assert_eq!(buf.visual_position(3), atto::buffer::Cursor { x: 0, y: 1 });
    assert_eq!(buf.visual_position(5), atto::buffer::Cursor { x: 5, y: 1 });
    assert_eq!(buf.visual_position(9), atto::buffer::Cursor { x: 7, y: 1 });
    assert_eq!(buf.visual_position(15), atto::buffer::Cursor { x: 4, y: 2 });
    assert_eq!(buf.byte_offset(0, 0), (0, 0));
    assert_eq!(buf.byte_offset(0, 9), (2, 2));
    assert_eq!(buf.byte_offset(1, 1), (4, 4));
    assert_eq!(buf.byte_offset(1, 4), (4, 4));
    assert_eq!(buf.byte_offset(1, 6), (9, 7));
    assert_eq!(buf.byte_offset(1, 99), (10, 8));
    assert_eq!(buf.byte_offset(2, 2), (13, 2));
}
