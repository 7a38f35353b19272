use atto::buffer::Buffer;
use atto::model::Message;
use atto::model::Model;
use atto::model::Request;
use atto::model::Size;
use atto::notification::Color;
use atto::utilities::UtilityWindow;

fn editor(content: &str) -> Model {
    Model::new(vec![Buffer::from_string(String::from(content))], Size { width: 80, height: 24 }, 23)
}

/// Carries out what the editor asks for, with a disk that takes every write and a clipboard
/// that holds `clipboard`.
fn settle(model: &mut Model, requests: Vec<Request>, clipboard: &mut String) {
    for request in requests {
        let more = match request {
            Request::Dispatch(msg) => model.update_inner(&msg, 0),
            Request::DispatchIfOk(msg) => {
                if model.may_go_on() {
                    model.update_inner(&msg, 0)
                } else {
                    Vec::new()
                }
            },
            Request::Clipboard(text) => {
                *clipboard = text;
                Vec::new()
            },
            Request::PasteClipboard => model.clipboard_read(Ok(clipboard.clone())),
            Request::Dirty => {
                let dirty = model.current_buffer().dirty(None);
                model.quit(Some(dirty));
                Vec::new()
            },
            Request::Save => {
                model.saved(None);
                Vec::new()
            },
            Request::SaveAs { path, previous } => {
                model.saved_as(path, previous, None);
                Vec::new()
            },
            Request::SaveAsRoot => {
                model.saved_as_root(Some(String::from("denied")));
                Vec::new()
            },
            Request::RunShell(_) => {
                model.shell_finished(true);
                Vec::new()
            },
            Request::Suspend | Request::MouseCapture(_) => Vec::new(),
        };
        settle(model, more, clipboard);
    }
}

fn input(model: &mut Model, msg: Message, clipboard: &mut String) {
    let requests = model.update_at(msg, 0, false);
    settle(model, requests, clipboard);
}

#[test]
fn typing_reaches_the_buffer() {
    let mut model = editor("ab");
    let mut clipboard = String::new();
    input(&mut model, Message::InsertChar('x'), &mut clipboard);
    input(&mut model, Message::Enter, &mut clipboard);
    assert_eq!(model.buffers[0].content, "x\nab");
    input(&mut model, Message::Undo, &mut clipboard);
    assert_eq!(model.buffers[0].content, "ab");
    assert_eq!(model.buffers[0].position, 0);
    input(&mut model, Message::Redo, &mut clipboard);
    assert_eq!(model.buffers[0].content, "x\nab");
    assert!(model.running);
}

#[test]
fn the_find_window_searches_the_buffer() {
    let mut model = editor("abcabc");
    let mut clipboard = String::new();
    input(&mut model, Message::OpenFind, &mut clipboard);
    input(&mut model, Message::InsertChar('b'), &mut clipboard);
    input(&mut model, Message::InsertChar('c'), &mut clipboard);
    assert_eq!(model.buffers[0].content, "abcabc");
    assert_eq!(model.buffers[0].highlights, vec![(1, 3), (4, 6)]);
    assert_eq!(model.buffers[0].position, 1);
    match &model.utility {
        Some(UtilityWindow::Find(find)) => {
            assert_eq!(find.entry.text, "bc");
            assert_eq!(find.occurences, Some(2));
        },
        _ => panic!("the find window is open"),
    }
    input(&mut model, Message::Escape, &mut clipboard);
    assert!(model.utility.is_none());
}

#[test]
fn quitting_asks_where_there_are_changes() {
    let mut model = editor("");
    let mut clipboard = String::new();
    input(&mut model, Message::Quit, &mut clipboard);
    assert!(!model.running);
    let mut model = editor("changed");
    input(&mut model, Message::Quit, &mut clipboard);
    assert!(model.running);
    assert!(matches!(model.utility, Some(UtilityWindow::Confirm(_))));
    input(&mut model, Message::InsertChar('n'), &mut clipboard);
    assert!(!model.running);
    assert!(model.utility.is_none());
    assert_eq!(model.buffers[0].content, "changed");
}

#[test]
fn saving_without_a_name_asks_for_one() {
    let mut model = editor("text");
    let mut clipboard = String::new();
    input(&mut model, Message::Save, &mut clipboard);
    assert!(matches!(model.utility, Some(UtilityWindow::SaveAs(_))));
    input(&mut model, Message::Paste(String::from("a.txt")), &mut clipboard);
    assert_eq!(model.buffers[0].content, "text");
    input(&mut model, Message::Enter, &mut clipboard);
    assert!(model.utility.is_none());
    assert_eq!(model.buffers[0].name, Some(String::from("a.txt")));
    assert_eq!(model.notification.as_ref().map(|n| n.content.as_str()), Some("Saved as a.txt"));
    assert!(!model.last_error);
    input(&mut model, Message::Save, &mut clipboard);
    assert_eq!(model.notification.as_ref().map(|n| n.content.as_str()), Some("Saved"));
}

#[test]
fn a_failed_save_stops_what_waits_for_it() {
    let mut model = editor("text");
    let mut clipboard = String::new();
    model.buffers[0].name = Some(String::from("a.txt"));
    model.buffers[0].set_readonly(true);
    input(
        &mut model,
        Message::Double(Box::new(Message::Save), Box::new(Message::QuitNoSave)),
        &mut clipboard,
    );
    assert!(model.running);
    assert!(model.last_error);
    let notice = model.notification.as_ref().unwrap();
    assert_eq!(notice.content, "Buffer is readonly");
    assert_eq!(notice.style.bg, Some(Color::Rgb(200, 0, 0)));
    input(&mut model, Message::SaveAs(String::from("b.txt")), &mut clipboard);
    assert_eq!(model.buffers[0].name, Some(String::from("a.txt")));
    assert!(model.last_error);
    let requests = model.update_inner(&Message::SaveAsRoot, 0);
    assert!(matches!(requests[..], [Request::SaveAsRoot]));
    settle(&mut model, requests, &mut clipboard);
    assert_eq!(model.notification.as_ref().unwrap().content, "denied");
    assert!(model.last_error);
}

#[test]
fn a_failed_save_as_brings_the_name_back() {
    let mut model = editor("text");
    let requests = model.update_inner(&Message::SaveAs(String::from("b.txt")), 0);
    assert_eq!(requests.len(), 1);
    assert_eq!(model.buffers[0].name, Some(String::from("b.txt")));
    match requests.into_iter().next() {
        Some(Request::SaveAs { path, previous }) => {
            assert_eq!(path, "b.txt");
            assert_eq!(previous, None);
            model.saved_as(path, previous, Some(String::from("disk full")));
        },
        other => panic!("{:?}", other),
    }
    assert_eq!(model.buffers[0].name, None);
    assert!(model.last_error);
    assert_eq!(model.notification.as_ref().unwrap().content, "disk full");
}

#[test]
fn buffers_are_walked_round() {
    let mut model = editor("one");
    let mut clipboard = String::new();
    input(&mut model, Message::NewEmptyBuffer, &mut clipboard);
    assert_eq!(model.buffers.len(), 2);
    assert_eq!(model.selected, 1);
    input(&mut model, Message::NextBuffer, &mut clipboard);
    assert_eq!(model.selected, 0);
    input(&mut model, Message::PreviousBuffer, &mut clipboard);
    assert_eq!(model.selected, 1);
    input(&mut model, Message::InsertChar('x'), &mut clipboard);
    assert_eq!(model.buffers[1].content, "x");
    assert_eq!(model.buffers[0].content, "one");
    assert_eq!(model.current_buffer().content, "x");
    model.current_buffer_mut().set_readonly(true);
    assert!(model.buffers[1].readonly);
}

#[test]
fn the_clipboard_takes_a_cut_line_and_gives_it_back() {
    let mut model = editor("one\ntwo\n");
    let mut clipboard = String::new();
    input(&mut model, Message::CutLine, &mut clipboard);
    assert_eq!(clipboard, "one\n");
    assert_eq!(model.buffers[0].content, "two\n");
    input(&mut model, Message::PasteClipboard, &mut clipboard);
    assert_eq!(model.buffers[0].content, "one\ntwo\n");
    let requests = model.clipboard_read(Err(String::from("clipboard unavailable")));
    assert!(requests.is_empty());
    assert_eq!(model.notification.as_ref().unwrap().content, "clipboard unavailable");
    assert!(!model.last_error);
}

#[test]
fn windows_and_settings() {
    let mut model = editor("");
    let mut clipboard = String::new();
    input(&mut model, Message::OpenHelp, &mut clipboard);
    assert!(matches!(model.utility, Some(UtilityWindow::Help(_))));
    input(&mut model, Message::DeveloperKey, &mut clipboard);
    assert!(matches!(model.utility, Some(UtilityWindow::Developer(_))));
    input(&mut model, Message::InsertChar('m'), &mut clipboard);
    assert!(!model.mouse_capture);
    input(&mut model, Message::InsertChar('n'), &mut clipboard);
    assert_eq!(model.buffers.len(), 2);
    input(&mut model, Message::CloseUtility, &mut clipboard);
    input(&mut model, Message::SaveAsRootConfirmation, &mut clipboard);
    match &model.utility {
        Some(UtilityWindow::Confirm(confirm)) => {
            assert_eq!(confirm.msg, "Do you want to save this file using run0?");
            assert_eq!(confirm.choices.len(), 2);
        },
        _ => panic!("the confirm window is open"),
    }
    input(&mut model, Message::InsertChar('n'), &mut clipboard);
    assert!(model.utility.is_none());
    input(&mut model, Message::Resize(100, 40), &mut clipboard);
    assert_eq!(model.viewport, Size { width: 100, height: 40 });
    assert_eq!(model.screen().rows, 40);
    input(&mut model, Message::OpenShell, &mut clipboard);
    input(&mut model, Message::Paste(String::from("ls")), &mut clipboard);
    let requests = model.update_at(Message::Enter, 0, false);
    assert!(matches!(&requests[..], [Request::RunShell(command)] if command == "ls"));
    settle(&mut model, requests, &mut clipboard);
    assert_eq!(model.shell_history, vec![String::from("ls")]);
    model.notify(String::from("hello"), atto::notification::warning_style());
    let _ = model.update_at(Message::NoMessage, 0, true);
    assert!(model.notification.is_none());
    let _ = model.update(Message::NoMessage);
    assert!(model.running);
}
