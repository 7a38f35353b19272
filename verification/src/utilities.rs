//! The utility windows: what each of them does with a command.

pub mod confirm;
pub mod developer;
pub mod find;
pub mod help;
pub mod save_as;
pub mod shell;

use crate::model::Message;
use crate::model::MessageView;
use crate::text::string_pop;
use crate::text::string_push;
use vstd::prelude::*;
use vstd::string::StringExecFns;

verus! {

/// A line of text that the user types into a utility window.
pub struct EntryModel {
    pub text: String,
}

/// What an entry that holds `text` holds after the command `msg`.
pub open spec fn entry_after(text: Seq<char>, msg: MessageView) -> Seq<char> {
    match msg {
        MessageView::InsertChar(c) => text.push(c),
        MessageView::Paste(pasted) => text + pasted,
        MessageView::Backspace => if text.len() > 0 {
            text.drop_last()
        } else {
            text
        },
        _ => text,
    }
}

/// Whether an entry takes the command `msg` for itself.
pub open spec fn entry_takes(msg: MessageView) -> bool {
    msg is InsertChar || msg is Paste || msg is Backspace
}

impl EntryModel {
    /// An empty entry.
    pub fn new() -> (entry: EntryModel)
        ensures
            entry.text@ == Seq::<char>::empty(),
    {
        EntryModel { text: String::new() }
    }

    /// Takes what is typed, pasted or rubbed out, and hands every other
    /// command on.
    pub fn update(&mut self, msg: Message) -> (rest: Option<Message>)
        ensures
            final(self).text@ == entry_after(old(self).text@, msg@),
            entry_takes(msg@) ==> rest is None,
            !entry_takes(msg@) ==> rest == Some(msg),
    {
        match msg {
            Message::InsertChar(c) => {
                string_push(&mut self.text, c);
                None
            },
            Message::Paste(pasted) => {
                self.text.append(pasted.as_str());
                None
            },
            Message::Backspace => {
                let _ = string_pop(&mut self.text);
                None
            },
            other => Some(other),
        }
    }
}

/// What a utility window makes of a command.
#[derive(Debug)]
pub enum UtilityAction {
    /// Nothing: the window took the command for itself.
    Nothing,
    /// This command is to be carried out.
    Forward(Message),
    /// This is to be run in the shell.
    Run(String),
}

/// What a utility window makes of a command, as the controller reads it.
pub enum UtilityActionView {
    Nothing,
    Forward(MessageView),
    Run(Seq<char>),
}

impl View for UtilityAction {
    type V = UtilityActionView;

    open spec fn view(&self) -> UtilityActionView {
        match self {
            UtilityAction::Nothing => UtilityActionView::Nothing,
            UtilityAction::Forward(message) => UtilityActionView::Forward(message@),
            UtilityAction::Run(command) => UtilityActionView::Run(command@),
        }
    }
}

/// The top right window
pub enum UtilityWindow {
    Help(help::HelpModel),
    Find(find::FindModel),
    Confirm(confirm::ConfirmModel),
    Developer(developer::DeveloperModel),
    Shell(shell::ShellModel),
    SaveAs(save_as::SaveAsModel),
}

/// What a utility window holds.
pub enum UtilityView {
    Help,
    /// The text searched for and how often it was found.
    Find(Seq<char>, Option<usize>),
    /// The question and the keys that answer it.
    Confirm(Seq<char>, Seq<(char, MessageView)>),
    Developer,
    /// The command typed and the place in the history.
    Shell(Seq<char>, usize),
    /// The path typed.
    SaveAs(Seq<char>),
}

impl View for UtilityWindow {
    type V = UtilityView;

    open spec fn view(&self) -> UtilityView {
        match self {
            UtilityWindow::Help(_) => UtilityView::Help,
            UtilityWindow::Find(find) => UtilityView::Find(find.entry.text@, find.occurences),
            UtilityWindow::Confirm(confirm) => UtilityView::Confirm(
                confirm.msg@,
                confirm::choice_views(confirm.choices@),
            ),
            UtilityWindow::Developer(_) => UtilityView::Developer,
            UtilityWindow::Shell(shell) => UtilityView::Shell(shell.entry@, shell.history_i),
            UtilityWindow::SaveAs(save_as) => UtilityView::SaveAs(save_as.entry.text@),
        }
    }
}

/// What is to be carried out of an answer.
pub open spec fn answered(answer: Option<MessageView>) -> UtilityActionView {
    match answer {
        Some(message) => UtilityActionView::Forward(message),
        None => UtilityActionView::Nothing,
    }
}

/// What a utility window holds after the command `msg`.
pub open spec fn utility_after(window: UtilityView, msg: MessageView, history: Seq<String>) -> UtilityView {
    match window {
        UtilityView::Find(text, occurences) => UtilityView::Find(
            entry_after(text, msg),
            occurences,
        ),
        UtilityView::Shell(entry, at) => UtilityView::Shell(
            shell::shell_entry_after(entry, at, history, msg),
            shell::shell_place_after(at, history, msg),
        ),
        UtilityView::SaveAs(text) => UtilityView::SaveAs(entry_after(text, msg)),
        _ => window,
    }
}

/// What a utility window makes of the command `msg`.
pub open spec fn utility_action(window: UtilityView, msg: MessageView) -> UtilityActionView {
    match window {
        UtilityView::Help => UtilityActionView::Forward(msg),
        UtilityView::Find(text, _) => answered(find::find_answer(text, msg)),
        UtilityView::Confirm(_, choices) => answered(confirm::confirm_answer(choices, msg)),
        UtilityView::Developer => answered(developer::developer_answer(msg)),
        UtilityView::Shell(entry, _) => if shell::shell_takes(msg) {
            UtilityActionView::Nothing
        } else if msg is Enter {
            UtilityActionView::Run(entry)
        } else {
            UtilityActionView::Forward(msg)
        },
        UtilityView::SaveAs(text) => answered(save_as::save_as_answer(text, msg)),
    }
}

/// An answer as what is to be carried out of it.
pub fn as_action(answer: Option<Message>) -> (action: UtilityAction)
    ensures
        action@ == answered(
            match answer {
                Some(message) => Some(message@),
                None => None,
            },
        ),
{
    match answer {
        Some(message) => UtilityAction::Forward(message),
        None => UtilityAction::Nothing,
    }
}

impl UtilityWindow {
    /// Hands the command `msg` to the window, which may take it for
    /// itself, hand it on or put another in its place.
    pub fn update(&mut self, msg: Message, history: &Vec<String>) -> (action: UtilityAction)
        ensures
            final(self)@ == utility_after(old(self)@, msg@, history@),
            action@ == utility_action(old(self)@, msg@),
    {
        match self {
            UtilityWindow::Help(help) => as_action(help.update(msg)),
            UtilityWindow::Find(find) => as_action(find.update(msg)),
            UtilityWindow::Confirm(confirm) => as_action(confirm.update(msg)),
            UtilityWindow::Developer(developer) => as_action(developer.update(msg)),
            UtilityWindow::Shell(shell) => shell.update(msg, history),
            UtilityWindow::SaveAs(save_as) => as_action(save_as.update(msg)),
        }
    }
}

} // verus!
