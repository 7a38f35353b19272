//! The window that takes a shell command.

use crate::model::Message;
use crate::model::MessageView;
use crate::notification::Color;
use crate::notification::Style;
use crate::text::string_pop;
use crate::text::string_push;
use crate::text::trim;
use crate::text::trimmed;
use crate::utilities::UtilityAction;
use vstd::prelude::*;
use vstd::string::StringExecFns;

verus! {

/// The shell window: the command typed so far and the place in the
/// history of commands.
#[derive(Debug)]
pub struct ShellModel {
    pub entry: String,
    pub history_i: usize,
}

/// The commands that were run and the entry after `msg`, for a window
/// whose entry holds `entry` and stands at `at` in `history`.
pub open spec fn shell_entry_after(
    entry: Seq<char>,
    at: usize,
    history: Seq<String>,
    msg: MessageView,
) -> Seq<char> {
    match msg {
        MessageView::InsertChar(c) => entry.push(c),
        MessageView::Paste(pasted) => entry + pasted,
        MessageView::Backspace => if entry.len() > 0 {
            entry.drop_last()
        } else {
            entry
        },
        MessageView::MoveUp => if at.saturating_sub(1) < history.len() {
            history[at.saturating_sub(1) as int]@
        } else {
            entry
        },
        MessageView::MoveDown => if shell_down(at, history) < history.len() {
            history[shell_down(at, history) as int]@
        } else {
            Seq::empty()
        },
        _ => entry,
    }
}

/// The place in the history one step down from `at`.
pub open spec fn shell_down(at: usize, history: Seq<String>) -> usize {
    if at.saturating_add(1) <= history.len() {
        at.saturating_add(1)
    } else {
        history.len() as usize
    }
}

/// The place in the history after `msg`.
pub open spec fn shell_place_after(at: usize, history: Seq<String>, msg: MessageView) -> usize {
    match msg {
        MessageView::MoveUp => at.saturating_sub(1),
        MessageView::MoveDown => shell_down(at, history),
        _ => at,
    }
}

/// Whether the shell window takes the command `msg` for itself.
pub open spec fn shell_takes(msg: MessageView) -> bool {
    msg is InsertChar || msg is Paste || msg is Backspace || msg is MoveUp || msg is MoveDown
}

impl ShellModel {
    /// A shell window with an empty entry.
    pub fn new() -> (model: ShellModel)
        ensures
            model.entry@ == Seq::<char>::empty(),
            model.history_i == 0,
    {
        ShellModel { entry: String::new(), history_i: 0 }
    }

    /// Takes what is typed, pasted or rubbed out; walks the history of
    /// commands with up and down; asks for the entry to be run on enter;
    /// hands every other command on.
    pub fn update(&mut self, msg: Message, history: &Vec<String>) -> (action: UtilityAction)
        ensures
            final(self).entry@ == shell_entry_after(
                old(self).entry@,
                old(self).history_i,
                history@,
                msg@,
            ),
            final(self).history_i == shell_place_after(old(self).history_i, history@, msg@),
            shell_takes(msg@) ==> action is Nothing,
            msg@ is Enter ==> action is Run && action->Run_0@ == old(self).entry@,
            !shell_takes(msg@) && !(msg@ is Enter) ==> action == UtilityAction::Forward(msg),
    {
        match msg {
            Message::InsertChar(c) => {
                string_push(&mut self.entry, c);
                UtilityAction::Nothing
            },
            Message::Paste(pasted) => {
                self.entry.append(pasted.as_str());
                UtilityAction::Nothing
            },
            Message::Backspace => {
                let _ = string_pop(&mut self.entry);
                UtilityAction::Nothing
            },
            Message::Enter => UtilityAction::Run(self.entry.clone()),
            Message::MoveUp => {
                self.history_i = self.history_i.saturating_sub(1);
                if self.history_i < history.len() {
                    self.entry = history[self.history_i].clone();
                }
                UtilityAction::Nothing
            },
            Message::MoveDown => {
                let down = self.history_i.saturating_add(1);
                self.history_i = if down <= history.len() {
                    down
                } else {
                    history.len()
                };
                if self.history_i < history.len() {
                    self.entry = history[self.history_i].clone();
                } else {
                    self.entry = String::new();
                }
                UtilityAction::Nothing
            },
            other => UtilityAction::Forward(other),
        }
    }

    /// Takes note that the entry was run: it becomes the last of the
    /// history, in which it stands once, and the window starts anew behind
    /// it. Where it failed to run, the history stays as it is.
    pub fn finished(&mut self, history: &mut Vec<String>, ran: bool)
        ensures
            final(self).entry@ == Seq::<char>::empty(),
            !ran ==> final(history)@ == old(history)@ && final(self).history_i == old(
                self,
            ).history_i,
            ran ==> final(history)@ == without(old(history)@, old(self).entry@, 0).push(
                old(self).entry,
            ) && final(self).history_i == final(history)@.len(),
    {
        if ran {
            let mut kept: Vec<String> = Vec::new();
            let mut i: usize = 0;
            while i < history.len()
                invariant
                    i <= history@.len(),
                    history@ == old(history)@,
                    self.entry == old(self).entry,
                    kept@ + without(history@, self.entry@, i as int) == without(
                        history@,
                        self.entry@,
                        0,
                    ),
                decreases history@.len() - i,
            {
                let ghost rest = without(history@, self.entry@, i as int);
                if history[i] != self.entry {
                    kept.push(history[i].clone());
                    assert(kept@ + without(history@, self.entry@, i + 1) =~= kept@.drop_last()
                        + rest);
                }
                i = i + 1;
            }
            assert(kept@ + without(history@, self.entry@, i as int) =~= kept@);
            kept.push(self.entry.clone());
            self.history_i = kept.len();
            *history = kept;
        }
        self.entry = String::new();
    }
}

/// `history` from index `from` on without the entries that read `entry`.
pub open spec fn without(history: Seq<String>, entry: Seq<char>, from: int) -> Seq<String>
    decreases history.len() - from,
{
    if from < 0 || from >= history.len() {
        Seq::empty()
    } else if history[from]@ == entry {
        without(history, entry, from + 1)
    } else {
        seq![history[from]] + without(history, entry, from + 1)
    }
}

/// How a command of the shell ended.
pub struct ShellOutput {
    /// Whether the command reported success.
    pub success: bool,
    /// The exit code, as it is shown.
    pub code: String,
    /// What the command wrote, where that is text.
    pub stdout: Option<String>,
    /// What the command wrote of errors, where that is text.
    pub stderr: Option<String>,
}

/// The colours of the notice for a command that succeeded.
pub open spec fn calm_look() -> Style {
    Style { fg: Some(Color::Black), bg: Some(Color::White) }
}

/// The colours of the notice for a command that failed.
pub open spec fn alarm_look() -> Style {
    Style { fg: Some(Color::White), bg: Some(Color::Red) }
}

/// The colours of the notice for a command that succeeded with output
/// that is no text.
pub open spec fn relief_look() -> Style {
    Style { fg: Some(Color::White), bg: Some(Color::Green) }
}

/// The notice that tells how a command of the shell ended: what it wrote,
/// without the whitespace around it and with its errors on a line of their
/// own, or that what it wrote is no text.
pub open spec fn shell_notice(
    success: bool,
    code: Seq<char>,
    stdout: Option<Seq<char>>,
    stderr: Option<Seq<char>>,
) -> MessageView {
    match (stdout, stderr) {
        (Some(out), Some(err)) => MessageView::Notification(
            if err.len() == 0 || out.len() == 0 {
                trimmed(out) + trimmed(err)
            } else {
                trimmed(out) + seq!['\n'] + trimmed(err)
            },
            if success {
                calm_look()
            } else {
                alarm_look()
            },
        ),
        _ => if success {
            MessageView::Notification(
                "Command executed succesfully, but output was not utf8"@,
                relief_look(),
            )
        } else {
            MessageView::Notification(
                "Command failed with code "@ + code + ", output was not utf8"@,
                alarm_look(),
            )
        },
    }
}

/// What an optional text reads.
pub open spec fn read(text: Option<String>) -> Option<Seq<char>> {
    match text {
        Some(t) => Some(t@),
        None => None,
    }
}

/// The notice that tells how a command of the shell ended.
pub fn report(output: &ShellOutput) -> (notice: Message)
    ensures
        notice@ == shell_notice(
            output.success,
            output.code@,
            read(output.stdout),
            read(output.stderr),
        ),
{
    match (&output.stdout, &output.stderr) {
        (Some(out), Some(err)) => {
            let mut display = String::from_str(trim(out.as_str()));
            if !(err.as_str().is_empty() || out.as_str().is_empty()) {
                crate::text::string_push(&mut display, '\n');
            }
            display.append(trim(err.as_str()));
            let style = if output.success {
                Style { fg: Some(Color::Black), bg: Some(Color::White) }
            } else {
                Style { fg: Some(Color::White), bg: Some(Color::Red) }
            };
            proof {
                assert(trimmed(out@) + seq!['\n'] + trimmed(err@) =~= trimmed(out@).push('\n')
                    + trimmed(err@));
            }
            Message::Notification(display, style)
        },
        _ => {
            if output.success {
                Message::Notification(
                    String::from_str("Command executed succesfully, but output was not utf8"),
                    Style { fg: Some(Color::White), bg: Some(Color::Green) },
                )
            } else {
                let mut display = String::from_str("Command failed with code ");
                display.append(output.code.as_str());
                display.append(", output was not utf8");
                Message::Notification(
                    display,
                    Style { fg: Some(Color::White), bg: Some(Color::Red) },
                )
            }
        },
    }
}

} // verus!
