use atto::buffer::classify;
use atto::buffer::count_clusters;
use atto::buffer::is_in_run;
use atto::buffer::trim_line_end;
use atto::buffer::walk_line;
use atto::buffer::CharClass;
use atto::grapheme::is_boundary;
use atto::grapheme::next_boundary;
use atto::grapheme::prev_boundary;
use atto::grapheme::width;
use atto::lines::generate_linestarts;
use atto::text::byte_len;
use atto::text::slice;
use atto::text::utf8_len;

#[test]
fn boundaries_of_clusters() {
    let text = "ay̆👻\r\nb";
    assert_eq!(next_boundary(text, 0), Some(1));
    assert_eq!(next_boundary(text, 1), Some(4));
    assert_eq!(next_boundary(text, 4), Some(8));
    assert_eq!(next_boundary(text, 8), Some(10));
    assert_eq!(next_boundary(text, 10), Some(11));
    assert_eq!(next_boundary(text, 11), None);
    assert_eq!(next_boundary(text, 12), None);
    assert_eq!(next_boundary(text, 3), None);
    assert_eq!(next_boundary(text, 2), Some(4));
    assert_eq!(prev_boundary(text, 11), Some(10));
    assert_eq!(prev_boundary(text, 10), Some(8));
    assert_eq!(prev_boundary(text, 8), Some(4));
    assert_eq!(prev_boundary(text, 4), Some(1));
    assert_eq!(prev_boundary(text, 1), Some(0));
    assert_eq!(prev_boundary(text, 0), None);
    assert_eq!(prev_boundary(text, 5), None);
    assert!(is_boundary(text, 0));
    assert!(is_boundary(text, 4));
    assert!(is_boundary(text, 11));
    assert!(!is_boundary(text, 2));
    assert!(!is_boundary(text, 9));
    assert!(!is_boundary(text, 3));
    assert!(!is_boundary(text, 12));
    assert!(is_boundary("", 0));
}

#[test]
fn widths() {
    assert_eq!(width(""), 0);
    assert_eq!(width("abc"), 3);
    assert_eq!(width("👻"), 2);
    assert_eq!(width("y̆"), 1);
    assert_eq!(count_clusters("ay̆👻\r\nb"), 5);
    assert_eq!(count_clusters(""), 0);
}

#[test]
fn the_line_table() {
    assert_eq!(generate_linestarts(""), vec![0, 0]);
    assert_eq!(generate_linestarts("\n"), vec![0, 1, 1]);
    assert_eq!(generate_linestarts("a\n\nb"), vec![0, 2, 3, 4]);
    assert_eq!(generate_linestarts("1☃3\r\n"), vec![0, 7, 7]);
}

#[test]
fn slices_and_lengths() {
    assert_eq!(slice("a☃b", 1, 4), "☃");
    assert_eq!(slice("a☃b", 0, 0), "");
    assert_eq!(byte_len("a☃b"), 5);
    assert_eq!(utf8_len('a'), 1);
    assert_eq!(utf8_len('é'), 2);
    assert_eq!(utf8_len('☃'), 3);
    assert_eq!(utf8_len('👻'), 4);
    assert_eq!(trim_line_end("ab\r\n\n"), "ab");
    assert_eq!(trim_line_end("ab \t"), "ab \t");
    assert_eq!(trim_line_end("\n"), "");
}

#[test]
fn walking_a_line() {
    assert_eq!(walk_line("a\tb👻c", 0), (0, 0));
    assert_eq!(walk_line("a\tb👻c", 1), (1, 1));
    assert_eq!(walk_line("a\tb👻c", 3), (2, 5));
    assert_eq!(walk_line("a\tb👻c", 7), (7, 8));
    assert_eq!(walk_line("a\tb👻c", 100), (8, 9));
    assert_eq!(walk_line("", 3), (0, 0));
}

#[test]
fn kinds_of_clusters() {
    assert_eq!(classify(" "), CharClass::Whitespace);
    assert_eq!(classify("\u{2003}"), CharClass::Whitespace);
    assert_eq!(classify("a"), CharClass::Word);
    assert_eq!(classify("é"), CharClass::Word);
    assert_eq!(classify("_"), CharClass::Word);
    assert_eq!(classify("7"), CharClass::Word);
    assert_eq!(classify("."), CharClass::Other);
    assert_eq!(classify("👻"), CharClass::Other);
    assert!(is_in_run("a", CharClass::Word));
    assert!(!is_in_run("a", CharClass::Other));
    assert!(!is_in_run("\n", CharClass::Whitespace));
    assert!(!is_in_run("", CharClass::Whitespace));
}
