//! A utility for testing

use crate::model::Message;
use crate::model::MessageView;
use crate::notification::Color;
use crate::notification::Style;
use vstd::prelude::*;
use vstd::string::StringExecFns;

verus! {

/// The developer window. It holds nothing.
pub struct DeveloperModel();

/// The notice that the key `e` makes.
pub const SAMPLE_WARNING: &'static str =
    "warning: unused variable: `width`\n--> src/view.rs:139:21\n    |\n139 |                 let width = wrapped_content.lines();\n    |                     ^^^^^ help: if this is intentional, prefix it with an underscore: `_width`\n    |\n    = note: `#[warn(unused_variables)]` on by default";

/// What the developer window shows.
pub const DEVELOPER_TEXT: &'static str =
    "* e - create an error notification\n* z - experiemntal suspend option\n* n - new buffer\n* m - toggle mouse capture\n";

/// What the developer window makes of the command `msg`: `e` raises a
/// notice, `z` suspends and closes the window, `n` opens a buffer, `m`
/// toggles the capture of the mouse; every other key is swallowed and every
/// other command handed on.
pub open spec fn developer_answer(msg: MessageView) -> Option<MessageView> {
    match msg {
        MessageView::InsertChar(c) => if c == 'e' {
            Some(
                MessageView::Notification(
                    SAMPLE_WARNING@,
                    Style { fg: None, bg: Some(Color::Red) },
                ),
            )
        } else if c == 'z' {
            Some(
                MessageView::Double(
                    Box::new(MessageView::Suspend),
                    Box::new(MessageView::CloseUtility),
                ),
            )
        } else if c == 'n' {
            Some(MessageView::NewEmptyBuffer)
        } else if c == 'm' {
            Some(MessageView::ToggleMouseCapture)
        } else {
            None
        },
        _ => Some(msg),
    }
}

impl DeveloperModel {
    /// Answers the keys of the window and hands every other command on.
    pub fn update(&mut self, msg: Message) -> (rest: Option<Message>)
        ensures
            match rest {
                Some(answer) => developer_answer(msg@) == Some(answer@),
                None => developer_answer(msg@) is None,
            },
    {
        proof {
            reveal_with_fuel(Message::model, 2);
        }
        match msg {
            Message::InsertChar(c) => {
                if c == 'e' {
                    Some(
                        Message::Notification(
                            String::from_str(SAMPLE_WARNING),
                            Style { fg: None, bg: Some(Color::Red) },
                        ),
                    )
                } else if c == 'z' {
                    Some(
                        Message::Double(Box::new(Message::Suspend), Box::new(Message::CloseUtility)),
                    )
                } else if c == 'n' {
                    Some(Message::NewEmptyBuffer)
                } else if c == 'm' {
                    Some(Message::ToggleMouseCapture)
                } else {
                    None
                }
            },
            other => Some(other),
        }
    }
}

} // verus!
