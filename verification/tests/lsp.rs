use atto::lsp::content_length;
use atto::lsp::frame;
use atto::lsp::parse_length;
use atto::lsp::parse_number;
use atto::lsp::push_decimal;

#[test]
fn a_header_tells_the_length() {
    assert_eq!(content_length("Content-Length: 42\r\n"), Some(42));
    assert_eq!(content_length("Content-Length: 0"), Some(0));
    assert_eq!(content_length("Content-Length: +7 \t\r\n"), Some(7));
    assert_eq!(content_length("Content-Length: 007\n"), Some(7));
    assert_eq!(content_length("Content-Length: \r\n"), None);
    assert_eq!(content_length("Content-Length:  5\r\n"), None);
    assert_eq!(content_length("Content-Length: 5x\r\n"), None);
    assert_eq!(content_length("Content-Length: -5\r\n"), None);
    assert_eq!(content_length("content-length: 5\r\n"), None);
    assert_eq!(content_length("Content-Type: 5\r\n"), None);
    assert_eq!(content_length("Content-Length:"), None);
    assert_eq!(content_length(""), None);
    assert_eq!(content_length("Content-Length: ٣\r\n"), None);
}

#[test]
fn lengths_fit_a_machine_integer() {
    assert_eq!(parse_length("18446744073709551615"), Some(usize::MAX));
    assert_eq!(parse_length("18446744073709551616"), None);
    assert_eq!(parse_length("99999999999999999999999"), None);
    assert_eq!(parse_length("+"), None);
    assert_eq!(parse_length("++1"), None);
    assert_eq!(parse_number("+1"), None);
    assert_eq!(parse_number("10"), Some(10));
    assert_eq!(parse_number(""), None);
}

#[test]
fn a_message_is_framed() {
    assert_eq!(frame("{}"), "Content-Length: 2\r\n\r\n{}");
    assert_eq!(frame(""), "Content-Length: 0\r\n\r\n");
    assert_eq!(frame("{\"☃\":1234567}"), "Content-Length: 15\r\n\r\n{\"☃\":1234567}");
    let body = "x".repeat(120);
    let message = frame(&body);
    assert!(message.starts_with("Content-Length: 120\r\n\r\n"));
    assert_eq!(content_length(message.lines().next().unwrap()), Some(120));
    let mut digits = String::from(">");
    push_decimal(&mut digits, 9050);
    assert_eq!(digits, ">9050");
}
