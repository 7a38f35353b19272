use atto::buffer::extension;
use atto::buffer::first_line;
use atto::buffer::Buffer;
use atto::buffer::SaveError;
use atto::handle_event::handle_key;
use atto::handle_event::handle_mouse;
use atto::handle_event::EventState;
use atto::handle_event::KeyCode;
use atto::handle_event::KeyEvent;
use atto::handle_event::KeyEventKind;
use atto::handle_event::MouseEvent;
use atto::handle_event::MouseEventKind;
use atto::help::help_buffer;
use atto::model::find::FindUtility;
use atto::model::Message;
use atto::notification::error_style;
use atto::notification::success_style;
use atto::notification::warning_style;
use atto::notification::Color;
use atto::notification::Notification;
use atto::notification::TIMEOUT_BASE;
use atto::parse::Grammars;
use atto::utilities::confirm::ConfirmModel;
use atto::utilities::developer::DeveloperModel;
use atto::utilities::find::FindModel;
use atto::utilities::help::HelpModel;
use atto::utilities::help::HELP_TEXT;
use atto::utilities::save_as::SaveAsModel;
use atto::utilities::UtilityAction;
use atto::utilities::shell::report;
use atto::utilities::shell::ShellModel;
use atto::utilities::shell::ShellOutput;
use atto::utilities::EntryModel;

fn shown(message: &Option<Message>) -> String {
    format!("{:?}", message)
}

fn press(code: KeyCode) -> KeyEvent {
    KeyEvent { code, kind: KeyEventKind::Press, alt: false, control: false }
}

#[test]
fn an_entry_takes_what_is_typed() {
    let mut entry = EntryModel::new();
    assert!(entry.update(Message::InsertChar('a')).is_none());
    assert!(entry.update(Message::Paste(String::from("b☃"))).is_none());
    assert_eq!(entry.text, "ab☃");
    assert!(entry.update(Message::Backspace).is_none());
    assert_eq!(entry.text, "ab");
    assert_eq!(shown(&entry.update(Message::Enter)), "Some(Enter)");
    assert_eq!(entry.text, "ab");
    let mut empty = EntryModel::new();
    assert!(empty.update(Message::Backspace).is_none());
    assert_eq!(empty.text, "");
}

#[test]
fn the_find_window_searches_as_one_types() {
    let mut find = FindModel::new();
    assert!(find.occurences.is_none());
    assert_eq!(shown(&find.update(Message::InsertChar('a'))), "Some(Find(\"a\"))");
    assert_eq!(shown(&find.update(Message::InsertChar('b'))), "Some(Find(\"ab\"))");
    assert_eq!(shown(&find.update(Message::Backspace)), "Some(Find(\"a\"))");
    assert_eq!(shown(&find.update(Message::Backspace)), "None");
    assert_eq!(shown(&find.update(Message::Backspace)), "None");
    assert_eq!(shown(&find.update(Message::Enter)), "Some(JumpNextHighlight)");
    assert_eq!(shown(&find.update(Message::OpenFind)), "Some(JumpNextHighlight)");
    assert_eq!(shown(&find.update(Message::MoveLeft)), "Some(MoveLeft)");
    let mut old = atto::find::FindModel::new();
    assert_eq!(shown(&old.update(Message::InsertChar('x'))), "Some(Find(\"x\"))");
    assert_eq!(shown(&old.update(Message::MoveLeft)), "None");
    assert_eq!(old.entry, "x");
    let mut utility = FindUtility::new();
    assert!(utility.update(Message::InsertChar('q')).is_none());
    assert_eq!(utility.query, "q");
    assert_eq!(utility.position, 1);
    assert!(utility.update(Message::InsertChar('s')).is_none());
    utility.position = 1;
    assert!(utility.update(Message::InsertChar('r')).is_none());
    assert_eq!(utility.query, "qrs");
    assert_eq!(utility.position, 2);
}

#[test]
fn the_confirm_window_answers_to_its_keys() {
    let mut confirm = ConfirmModel::new(
        String::from("Save?"),
        vec![('y', Message::Save), ('n', Message::QuitNoSave), ('y', Message::Quit)],
    );
    assert_eq!(shown(&confirm.update(Message::InsertChar('y'))), "Some(Double(CloseUtility, Save))");
    assert_eq!(
        shown(&confirm.update(Message::InsertChar('n'))),
        "Some(Double(CloseUtility, QuitNoSave))"
    );
    assert_eq!(shown(&confirm.update(Message::InsertChar('x'))), "None");
    assert_eq!(shown(&confirm.update(Message::Escape)), "Some(Escape)");
    assert_eq!(confirm.find_choice('n'), 1);
    assert_eq!(confirm.find_choice('z'), 3);
    assert_eq!(confirm.msg, "Save?");
}

#[test]
fn the_save_as_window_saves_on_enter() {
    let mut save_as = SaveAsModel::new();
    assert_eq!(shown(&save_as.update(Message::Enter)), "None");
    assert_eq!(shown(&save_as.update(Message::InsertChar('a'))), "None");
    assert_eq!(shown(&save_as.update(Message::Paste(String::from(".txt")))), "None");
    assert_eq!(
        shown(&save_as.update(Message::Enter)),
        "Some(Double(CloseUtility, SaveAs(\"a.txt\")))"
    );
    assert_eq!(shown(&save_as.update(Message::Escape)), "Some(Escape)");
}

#[test]
fn the_developer_window_answers_to_its_keys() {
    let mut developer = DeveloperModel();
    assert_eq!(shown(&developer.update(Message::InsertChar('n'))), "Some(NewEmptyBuffer)");
    assert_eq!(shown(&developer.update(Message::InsertChar('m'))), "Some(ToggleMouseCapture)");
    assert_eq!(
        shown(&developer.update(Message::InsertChar('z'))),
        "Some(Double(Suspend, CloseUtility))"
    );
    assert_eq!(shown(&developer.update(Message::InsertChar('q'))), "None");
    assert_eq!(shown(&developer.update(Message::Undo)), "Some(Undo)");
    match developer.update(Message::InsertChar('e')) {
        Some(Message::Notification(text, style)) => {
            assert!(text.starts_with("warning: unused variable"));
            assert_eq!(style.bg, Some(Color::Red));
            assert_eq!(style.fg, None);
        },
        other => panic!("{:?}", other),
    }
    let mut help = HelpModel();
    assert_eq!(shown(&help.update(Message::InsertChar('e'))), "Some(InsertChar('e'))");
}

#[test]
fn the_shell_window_walks_its_history() {
    let mut history = vec![String::from("ls"), String::from("pwd")];
    let mut shell = ShellModel::new();
    assert!(matches!(shell.update(Message::MoveDown, &history), UtilityAction::Nothing));
    assert_eq!((shell.entry.as_str(), shell.history_i), ("pwd", 1));
    assert!(matches!(shell.update(Message::MoveDown, &history), UtilityAction::Nothing));
    assert_eq!((shell.entry.as_str(), shell.history_i), ("", 2));
    assert!(matches!(shell.update(Message::MoveUp, &history), UtilityAction::Nothing));
    assert_eq!((shell.entry.as_str(), shell.history_i), ("pwd", 1));
    shell.update(Message::MoveUp, &history);
    shell.update(Message::MoveUp, &history);
    assert_eq!((shell.entry.as_str(), shell.history_i), ("ls", 0));
    shell.update(Message::InsertChar(' '), &history);
    shell.update(Message::Paste(String::from("-la")), &history);
    shell.update(Message::InsertChar('x'), &history);
    shell.update(Message::Backspace, &history);
    assert_eq!(shell.entry, "ls -la");
    match shell.update(Message::Enter, &history) {
        UtilityAction::Run(command) => assert_eq!(command, "ls -la"),
        _ => panic!("enter runs the entry"),
    }
    assert!(matches!(shell.update(Message::Quit, &history), UtilityAction::Forward(Message::Quit)));
    shell.finished(&mut history, true);
    assert_eq!(history, vec![String::from("ls"), String::from("pwd"), String::from("ls -la")]);
    assert_eq!((shell.entry.as_str(), shell.history_i), ("", 3));
    shell.update(Message::Paste(String::from("ls")), &history);
    shell.finished(&mut history, true);
    assert_eq!(history, vec![String::from("pwd"), String::from("ls -la"), String::from("ls")]);
    shell.update(Message::Paste(String::from("nope")), &history);
    shell.finished(&mut history, false);
    assert_eq!(history.len(), 3);
    assert_eq!(shell.entry, "");
}

#[test]
fn keys_stand_for_commands() {
    let mut state = EventState::default();
    assert_eq!(shown(&handle_key(press(KeyCode::Char('a')), &mut state)), "Some(InsertChar('a'))");
    assert_eq!(shown(&handle_key(press(KeyCode::Enter), &mut state)), "Some(Enter)");
    assert_eq!(shown(&handle_key(press(KeyCode::F(12)), &mut state)), "Some(DeveloperKey)");
    assert_eq!(shown(&handle_key(press(KeyCode::F(1)), &mut state)), "None");
    assert_eq!(shown(&handle_key(press(KeyCode::Other), &mut state)), "None");
    let release = KeyEvent { code: KeyCode::Char('a'), kind: KeyEventKind::Release, alt: false, control: false };
    assert_eq!(shown(&handle_key(release, &mut state)), "None");
    let control = |code| KeyEvent { code, kind: KeyEventKind::Press, alt: false, control: true };
    assert_eq!(shown(&handle_key(control(KeyCode::Char('q')), &mut state)), "Some(Quit)");
    assert_eq!(shown(&handle_key(control(KeyCode::Right), &mut state)), "Some(NextBuffer)");
    assert_eq!(shown(&handle_key(control(KeyCode::Char('x')), &mut state)), "None");
    let alt = |code| KeyEvent { code, kind: KeyEventKind::Press, alt: true, control: false };
    assert_eq!(shown(&handle_key(alt(KeyCode::Char('u')), &mut state)), "Some(PageUp)");
    assert_eq!(shown(&handle_key(alt(KeyCode::Char('a')), &mut state)), "Some(JumpStartOfLine)");
    assert_eq!(shown(&handle_key(alt(KeyCode::Char('j')), &mut state)), "Some(MoveRight)");
    assert_eq!(state.movement_key_down, Some('j'));
    assert_eq!(shown(&handle_key(alt(KeyCode::Char(' ')), &mut state)), "Some(JumpWordRight)");
    assert!(state.space_down);
    assert_eq!(shown(&handle_key(alt(KeyCode::Char('f')), &mut state)), "Some(JumpWordLeft)");
    let up = KeyEvent { code: KeyCode::Char(' '), kind: KeyEventKind::Release, alt: true, control: false };
    assert_eq!(shown(&handle_key(up, &mut state)), "None");
    assert!(!state.space_down);
    assert_eq!(shown(&handle_key(alt(KeyCode::Char('f')), &mut state)), "Some(MoveLeft)");
    let both = KeyEvent { code: KeyCode::Char('j'), kind: KeyEventKind::Repeat, alt: true, control: true };
    assert_eq!(shown(&handle_key(both, &mut state)), "Some(JumpWordRight)");
    assert_eq!(state.movement_key_down, Some('f'));
}

#[test]
fn the_mouse_stands_for_commands() {
    let at = |kind| MouseEvent { kind, column: 3, row: 4 };
    assert_eq!(shown(&handle_mouse(at(MouseEventKind::ScrollDown))), "Some(ScrollDown)");
    assert_eq!(shown(&handle_mouse(at(MouseEventKind::ScrollUp))), "Some(ScrollUp)");
    assert_eq!(shown(&handle_mouse(at(MouseEventKind::LeftDown))), "Some(MouseLeft(3, 4))");
    assert_eq!(shown(&handle_mouse(at(MouseEventKind::Other))), "None");
}

#[test]
fn notices_time_out() {
    assert_eq!(TIMEOUT_BASE, 1_000_000_000);
    assert!(!Notification::timed_out(0));
    assert!(!Notification::timed_out(TIMEOUT_BASE));
    assert!(Notification::timed_out(TIMEOUT_BASE + 1));
    let notice = Notification::new(String::from("Saved"), success_style());
    assert!(!notice.expired());
    assert_eq!(notice.content, "Saved");
    assert_eq!(notice.top, 0);
    assert_eq!(notice.style.bg, Some(Color::Rgb(0, 180, 0)));
    assert_eq!(error_style().bg, Some(Color::Rgb(200, 0, 0)));
    assert_eq!(warning_style().bg, Some(Color::Yellow));
    assert_eq!(warning_style().fg, Some(Color::White));
}

#[test]
fn saving_needs_a_name_and_the_right_to_write() {
    let mut buffer = Buffer::empty();
    assert_eq!(buffer.save(), Err(SaveError::NoPath));
    assert_eq!(SaveError::NoPath.message(), "no path specified");
    buffer.name = Some(String::from("a.txt"));
    assert_eq!(buffer.save(), Ok(()));
    buffer.opened_readonly = true;
    assert_eq!(buffer.save(), Err(SaveError::NoWritePermission));
    assert_eq!(SaveError::NoWritePermission.message(), "No write permission to file");
    buffer.set_readonly(true);
    assert_eq!(buffer.save(), Err(SaveError::ReadOnly));
    assert_eq!(SaveError::ReadOnly.message(), "Buffer is readonly");
    let named = Buffer::new(String::from("b.txt"), String::from("x"), true);
    assert_eq!(named.save(), Err(SaveError::NoWritePermission));
    assert_eq!(named.name, Some(String::from("b.txt")));
}

#[test]
fn a_buffer_is_dirty_where_it_differs_from_what_is_stored() {
    let mut buffer = Buffer::from_string(String::from("abc"));
    assert!(!buffer.dirty(Some(&String::from("abc"))));
    assert!(buffer.dirty(Some(&String::from("ab"))));
    assert!(buffer.dirty(None));
    assert!(!Buffer::empty().dirty(None));
    buffer.insert('x');
    assert!(buffer.dirty(Some(&String::from("abc"))));
}

#[test]
fn the_help_buffer_cannot_be_edited() {
    let help = help_buffer();
    assert!(help.readonly);
    assert_eq!(help.content, HELP_TEXT);
    assert!(help.content.starts_with("Welcome to Atto!"));
    assert_eq!(help.position, 0);
}

#[test]
fn lines_and_clusters_of_the_current_line() {
    let mut buffer = Buffer::from_string(String::from("ab\ny̆👻z\n"));
    buffer.set_position(6);
    assert_eq!(buffer.current_line(), (3, 12));
    assert_eq!(buffer.current_line_length(), 9);
    assert_eq!(buffer.current_line_str(), "y̆👻z\n");
    assert_eq!(buffer.current_line_str_before_cursor(), "y̆");
    assert_eq!(buffer.current_line_grapheme_count(), 4);
    assert_eq!(buffer.excess_bytes(3, 11), 5);
    assert_eq!(buffer.excess_bytes(4, 11), 4);
    assert_eq!(buffer.excess_bytes(5, 11), 0);
    assert_eq!(buffer.excess_bytes(11, 3), 0);
    assert!(!buffer.is_first_line());
    assert!(!buffer.is_last_line());
    assert_eq!(buffer.prev_grapheme(), Some(("y̆", 3)));
    assert_eq!(buffer.cur_grapheme(), Some(("👻", 10)));
    buffer.to_top();
    assert!(buffer.is_first_line());
    assert_eq!(buffer.prev_grapheme(), None);
}

#[test]
fn the_shell_reports_what_was_written() {
    let output = |success, stdout: Option<&str>, stderr: Option<&str>| ShellOutput {
        success,
        code: String::from("Some(2)"),
        stdout: stdout.map(String::from),
        stderr: stderr.map(String::from),
    };
    match report(&output(true, Some(" out \n"), Some(""))) {
        Message::Notification(text, style) => {
            assert_eq!(text, "out");
            assert_eq!((style.fg, style.bg), (Some(Color::Black), Some(Color::White)));
        },
        other => panic!("{:?}", other),
    }
    match report(&output(false, Some("out\n"), Some("\terr\n"))) {
        Message::Notification(text, style) => {
            assert_eq!(text, "out\nerr");
            assert_eq!((style.fg, style.bg), (Some(Color::White), Some(Color::Red)));
        },
        other => panic!("{:?}", other),
    }
    match report(&output(false, Some(""), Some("err"))) {
        Message::Notification(text, _) => assert_eq!(text, "err"),
        other => panic!("{:?}", other),
    }
    match report(&output(true, None, Some("err"))) {
        Message::Notification(text, style) => {
            assert_eq!(text, "Command executed succesfully, but output was not utf8");
            assert_eq!((style.fg, style.bg), (Some(Color::White), Some(Color::Green)));
        },
        other => panic!("{:?}", other),
    }
    match report(&output(false, Some("out"), None)) {
        Message::Notification(text, style) => {
            assert_eq!(text, "Command failed with code Some(2), output was not utf8");
            assert_eq!((style.fg, style.bg), (Some(Color::White), Some(Color::Red)));
        },
        other => panic!("{:?}", other),
    }
}

#[test]
fn the_syntax_goes_by_the_name_or_the_first_line() {
    assert_eq!(extension("a.tar.gz"), "gz");
    assert_eq!(extension("Makefile"), "Makefile");
    assert_eq!(extension("dir.d/"), "d/");
    assert_eq!(extension("end."), "");
    assert_eq!(extension(""), "");
    assert_eq!(extension("☃.rs"), "rs");
    assert_eq!(first_line(""), None);
    assert_eq!(first_line("one"), Some("one"));
    assert_eq!(first_line("one\r"), Some("one\r"));
    assert_eq!(first_line("one\ntwo"), Some("one"));
    assert_eq!(first_line("one\r\ntwo"), Some("one"));
    assert_eq!(first_line("\nrest"), Some(""));
    assert_eq!(first_line("\r\n"), Some(""));
    let grammars = Grammars::packaged();
    let mut by_name = Buffer::new(String::from("main.rs"), String::from("fn main() {}"), false);
    assert_eq!(
        by_name.find_syntax(&grammars).map(|g| g.definition().name),
        Some(String::from("Rust"))
    );
    assert_eq!(by_name.syntax.as_ref().map(|s| s.name.clone()), Some(String::from("Rust")));
    let mut by_line = Buffer::new(String::from("script"), String::from("#!/bin/bash\nls\n"), false);
    assert!(by_line.find_syntax(&grammars).is_some());
    let mut unknown = Buffer::new(String::from("notes.unknown"), String::from("text"), false);
    assert!(unknown.find_syntax(&grammars).is_none());
    assert!(unknown.syntax.is_none());
    let mut unnamed = Buffer::from_string(String::from("#!/bin/bash\n"));
    assert!(unnamed.find_syntax(&grammars).is_none());
    assert!(unnamed.syntax.is_none());
    assert!(grammars.by_name("No Such Syntax").is_none());
    assert!(grammars.by_first_line("text").is_none());
    let rust = grammars.by_extension("rs");
    let plain = grammars.by_name("Plain Text");
    assert_eq!(
        unnamed.keep_syntax(rust, plain).map(|g| g.definition().name),
        Some(String::from("Rust"))
    );
    assert_eq!(unnamed.syntax.as_ref().map(|s| s.name.clone()), Some(String::from("Rust")));
    assert_eq!(
        unnamed.keep_syntax(None, grammars.by_name("Plain Text")).map(|g| g.definition().name),
        Some(String::from("Plain Text"))
    );
    assert_eq!(unnamed.syntax.as_ref().map(|s| s.name.clone()), Some(String::from("Plain Text")));
    assert!(unnamed.keep_syntax(None, None).is_none());
    assert_eq!(unnamed.syntax.as_ref().map(|s| s.name.clone()), Some(String::from("Plain Text")));
    assert_eq!(unnamed.magic_unicode_offset_bug_fix(), 0);
}
