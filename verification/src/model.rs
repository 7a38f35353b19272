//! The commands of the editor and what they do to a buffer.

pub mod find;

use crate::buffer::Buffer;
use crate::buffer::BufferView;
use crate::buffer::fresh_view;
use crate::buffer::SaveError;
use crate::notification::Color;
use crate::notification::error_style;
use crate::notification::Notification;
use crate::notification::Style;
use crate::notification::success_style;
use crate::notification::warning_style;
use crate::text::bytes_of;
use crate::undo::ActionView;
use crate::undo::UndoView;
use crate::utilities::confirm::ConfirmModel;
use crate::utilities::developer::DeveloperModel;
use crate::utilities::find::FindModel;
use crate::utilities::help::HelpModel;
use crate::utilities::save_as::SaveAsModel;
use crate::utilities::shell::ShellModel;
use crate::utilities::shell::without;
use crate::utilities::utility_action;
use crate::utilities::utility_after;
use crate::utilities::UtilityAction;
use crate::utilities::UtilityActionView;
use crate::utilities::UtilityView;
use crate::utilities::UtilityWindow;
use vstd::prelude::*;
use vstd::std_specs::vec::axiom_vec_index_decreases;
use vstd::string::StringExecFns;
use vstd::utf8::*;

verus! {

/// A command.
#[derive(Debug)]
pub enum Message {
    NextBuffer,
    PreviousBuffer,
    /// Attempt to quit (but may be stopped)
    Quit,
    ScrollDown,
    ScrollUp,
    OpenHelp,
    OpenFind,
    Find(String),
    Escape,
    InsertChar(char),
    MoveLeft,
    MoveRight,
    MoveUp,
    MoveDown,
    PageUp,
    PageDown,
    Backspace,
    Delete,
    JumpWordLeft,
    JumpWordRight,
    JumpStartOfLine,
    JumpEndOfLine,
    Enter,
    Save,
    Resize(u16, u16),
    MouseLeft(u16, u16),
    Notification(String, Style),
    DeveloperKey,
    CloseUtility,
    /// Quit immediately
    QuitNoSave,
    /// Writes a string at cursor position.
    /// The user invokes this when using bracketed paste.
    /// For pasting the internal clipboard see [Self::PasteClipboard]
    Paste(String),
    PasteClipboard,
    OpenShell,
    /// Two messages
    Double(Box<Message>, Box<Message>),
    SaveAsRootConfirmation,
    SaveAsRoot,
    /// can be used just to force an update and a redraw
    NoMessage,
    ToTop,
    ToBottom,
    Tab,
    Suspend,
    NewEmptyBuffer,
    ToggleMouseCapture,
    DragMouseLeft,
    JumpNextHighlight,
    JumpPreviousHighlight,
    /// save under the following name, updating the buffer path
    SaveAs(String),
    /// undoes an insertion: removes this many bytes before the position
    UndoInsertion(usize),
    /// Insert a string at the position. It has no inverse of its own and is
    /// made by undo and redo only.
    InsertString(String),
    Undo,
    Redo,
    Many(Vec<Message>),
    /// jump to a byte position
    JumpPosition(usize),
    /// run a message while the active buffer's undo is inhibited.
    /// when using this make sure not to use a message that switches the buffer
    InhibitUndo(Box<Message>),
    /// Cut the current line to the clipboad
    CutLine,
}

/// What a command says, with texts as sequences of characters.
pub enum MessageView {
    NextBuffer,
    PreviousBuffer,
    Quit,
    ScrollDown,
    ScrollUp,
    OpenHelp,
    OpenFind,
    Find(Seq<char>),
    Escape,
    InsertChar(char),
    MoveLeft,
    MoveRight,
    MoveUp,
    MoveDown,
    PageUp,
    PageDown,
    Backspace,
    Delete,
    JumpWordLeft,
    JumpWordRight,
    JumpStartOfLine,
    JumpEndOfLine,
    Enter,
    Save,
    Resize(u16, u16),
    MouseLeft(u16, u16),
    Notification(Seq<char>, Style),
    DeveloperKey,
    CloseUtility,
    QuitNoSave,
    Paste(Seq<char>),
    PasteClipboard,
    OpenShell,
    Double(Box<MessageView>, Box<MessageView>),
    SaveAsRootConfirmation,
    SaveAsRoot,
    NoMessage,
    ToTop,
    ToBottom,
    Tab,
    Suspend,
    NewEmptyBuffer,
    ToggleMouseCapture,
    DragMouseLeft,
    JumpNextHighlight,
    JumpPreviousHighlight,
    SaveAs(Seq<char>),
    UndoInsertion(usize),
    InsertString(Seq<char>),
    Undo,
    Redo,
    Many(Seq<MessageView>),
    JumpPosition(usize),
    InhibitUndo(Box<MessageView>),
    CutLine,
}

impl View for Message {
    type V = MessageView;

    open spec fn view(&self) -> MessageView {
        self.model()
    }
}

/// What each of `messages` says.
pub open spec fn views_of(messages: Seq<Message>) -> Seq<MessageView> {
    Seq::new(messages.len(), |i: int| messages[i]@)
}

impl Message {
    /// What the command says.
    pub open spec fn model(&self) -> MessageView
        decreases self,
    {
        match self {
            Message::NextBuffer => MessageView::NextBuffer,
            Message::PreviousBuffer => MessageView::PreviousBuffer,
            Message::Quit => MessageView::Quit,
            Message::ScrollDown => MessageView::ScrollDown,
            Message::ScrollUp => MessageView::ScrollUp,
            Message::OpenHelp => MessageView::OpenHelp,
            Message::OpenFind => MessageView::OpenFind,
            Message::Find(query) => MessageView::Find(query@),
            Message::Escape => MessageView::Escape,
            Message::InsertChar(c) => MessageView::InsertChar(*c),
            Message::MoveLeft => MessageView::MoveLeft,
            Message::MoveRight => MessageView::MoveRight,
            Message::MoveUp => MessageView::MoveUp,
            Message::MoveDown => MessageView::MoveDown,
            Message::PageUp => MessageView::PageUp,
            Message::PageDown => MessageView::PageDown,
            Message::Backspace => MessageView::Backspace,
            Message::Delete => MessageView::Delete,
            Message::JumpWordLeft => MessageView::JumpWordLeft,
            Message::JumpWordRight => MessageView::JumpWordRight,
            Message::JumpStartOfLine => MessageView::JumpStartOfLine,
            Message::JumpEndOfLine => MessageView::JumpEndOfLine,
            Message::Enter => MessageView::Enter,
            Message::Save => MessageView::Save,
            Message::Resize(w, h) => MessageView::Resize(*w, *h),
            Message::MouseLeft(x, y) => MessageView::MouseLeft(*x, *y),
            Message::Notification(text, style) => MessageView::Notification(text@, *style),
            Message::DeveloperKey => MessageView::DeveloperKey,
            Message::CloseUtility => MessageView::CloseUtility,
            Message::QuitNoSave => MessageView::QuitNoSave,
            Message::Paste(text) => MessageView::Paste(text@),
            Message::PasteClipboard => MessageView::PasteClipboard,
            Message::OpenShell => MessageView::OpenShell,
            Message::Double(first, second) => MessageView::Double(
                Box::new(first.model()),
                Box::new(second.model()),
            ),
            Message::SaveAsRootConfirmation => MessageView::SaveAsRootConfirmation,
            Message::SaveAsRoot => MessageView::SaveAsRoot,
            Message::NoMessage => MessageView::NoMessage,
            Message::ToTop => MessageView::ToTop,
            Message::ToBottom => MessageView::ToBottom,
            Message::Tab => MessageView::Tab,
            Message::Suspend => MessageView::Suspend,
            Message::NewEmptyBuffer => MessageView::NewEmptyBuffer,
            Message::ToggleMouseCapture => MessageView::ToggleMouseCapture,
            Message::DragMouseLeft => MessageView::DragMouseLeft,
            Message::JumpNextHighlight => MessageView::JumpNextHighlight,
            Message::JumpPreviousHighlight => MessageView::JumpPreviousHighlight,
            Message::SaveAs(path) => MessageView::SaveAs(path@),
            Message::UndoInsertion(n) => MessageView::UndoInsertion(*n),
            Message::InsertString(text) => MessageView::InsertString(text@),
            Message::Undo => MessageView::Undo,
            Message::Redo => MessageView::Redo,
            Message::Many(messages) => MessageView::Many(
                Seq::new(
                    messages@.len(),
                    |i: int|
                        if 0 <= i < messages@.len() {
                            messages@[i].model()
                        } else {
                            MessageView::NoMessage
                        },
                ),
            ),
            Message::JumpPosition(position) => MessageView::JumpPosition(*position),
            Message::InhibitUndo(inner) => MessageView::InhibitUndo(Box::new(inner.model())),
            Message::CutLine => MessageView::CutLine,
        }
    }

    /// Whether the command puts text in.
    pub fn is_insertion(&self) -> (r: bool)
        ensures
            r == is_insertion(self@),
    {
        match self {
            Message::InsertChar(_) => true,
            Message::Enter => true,
            Message::Tab => true,
            Message::Paste(_) => true,
            Message::InsertString(_) => true,
            _ => false,
        }
    }

    /// Whether the command takes text out.
    pub fn is_removal(&self) -> (r: bool)
        ensures
            r == is_removal(self@),
    {
        match self {
            Message::Backspace => true,
            Message::Delete => true,
            Message::CutLine => true,
            Message::UndoInsertion(_) => true,
            _ => false,
        }
    }

    /// Whether the command changes the text.
    pub fn is_edit(&self) -> (r: bool)
        ensures
            r == is_edit(self@),
    {
        self.is_insertion() || self.is_removal()
    }

    /// Whether the command moves the cursor by a step or a page.
    pub fn is_step(&self) -> (r: bool)
        ensures
            r == is_step(self@),
    {
        match self {
            Message::MoveLeft => true,
            Message::MoveRight => true,
            Message::MoveUp => true,
            Message::MoveDown => true,
            Message::PageUp => true,
            Message::PageDown => true,
            _ => false,
        }
    }

    /// Whether the command moves the cursor by a jump.
    pub fn is_jump(&self) -> (r: bool)
        ensures
            r == is_jump(self@),
    {
        match self {
            Message::JumpWordLeft => true,
            Message::JumpWordRight => true,
            Message::JumpStartOfLine => true,
            Message::JumpEndOfLine => true,
            Message::ToTop => true,
            Message::ToBottom => true,
            Message::MouseLeft(_, _) => true,
            Message::JumpPosition(_) => true,
            _ => false,
        }
    }

    /// Whether the command moves the cursor.
    pub fn is_move(&self) -> (r: bool)
        ensures
            r == is_move(self@),
    {
        self.is_step() || self.is_jump()
    }

    /// Whether the command scrolls, searches or steps through the undo
    /// history.
    pub fn is_other(&self) -> (r: bool)
        ensures
            r == is_other(self@),
    {
        match self {
            Message::ScrollDown => true,
            Message::ScrollUp => true,
            Message::Find(_) => true,
            Message::JumpNextHighlight => true,
            Message::JumpPreviousHighlight => true,
            Message::Undo => true,
            Message::Redo => true,
            _ => false,
        }
    }

    /// Whether the command is made of other commands.
    pub fn is_compound(&self) -> (r: bool)
        ensures
            r == is_compound(self@),
    {
        match self {
            Message::InhibitUndo(_) => true,
            Message::Double(_, _) => true,
            Message::Many(_) => true,
            _ => false,
        }
    }

    /// Whether a buffer carries the command out itself.
    pub fn is_buffer_command(&self) -> (r: bool)
        ensures
            r == is_buffer_command(self@),
    {
        self.is_edit() || self.is_move() || self.is_other() || self.is_compound()
    }

    /// A copy that says the same.
    pub fn duplicate(&self) -> (copy: Message)
        ensures
            copy@ == self@,
        decreases self,
    {
        match self {
            Message::NextBuffer => Message::NextBuffer,
            Message::PreviousBuffer => Message::PreviousBuffer,
            Message::Quit => Message::Quit,
            Message::ScrollDown => Message::ScrollDown,
            Message::ScrollUp => Message::ScrollUp,
            Message::OpenHelp => Message::OpenHelp,
            Message::OpenFind => Message::OpenFind,
            Message::Find(query) => Message::Find(query.clone()),
            Message::Escape => Message::Escape,
            Message::InsertChar(c) => Message::InsertChar(*c),
            Message::MoveLeft => Message::MoveLeft,
            Message::MoveRight => Message::MoveRight,
            Message::MoveUp => Message::MoveUp,
            Message::MoveDown => Message::MoveDown,
            Message::PageUp => Message::PageUp,
            Message::PageDown => Message::PageDown,
            Message::Backspace => Message::Backspace,
            Message::Delete => Message::Delete,
            Message::JumpWordLeft => Message::JumpWordLeft,
            Message::JumpWordRight => Message::JumpWordRight,
            Message::JumpStartOfLine => Message::JumpStartOfLine,
            Message::JumpEndOfLine => Message::JumpEndOfLine,
            Message::Enter => Message::Enter,
            Message::Save => Message::Save,
            Message::Resize(w, h) => Message::Resize(*w, *h),
            Message::MouseLeft(x, y) => Message::MouseLeft(*x, *y),
            Message::Notification(text, style) => Message::Notification(text.clone(), *style),
            Message::DeveloperKey => Message::DeveloperKey,
            Message::CloseUtility => Message::CloseUtility,
            Message::QuitNoSave => Message::QuitNoSave,
            Message::Paste(text) => Message::Paste(text.clone()),
            Message::PasteClipboard => Message::PasteClipboard,
            Message::OpenShell => Message::OpenShell,
            Message::Double(first, second) => Message::Double(
                Box::new(first.duplicate()),
                Box::new(second.duplicate()),
            ),
            Message::SaveAsRootConfirmation => Message::SaveAsRootConfirmation,
            Message::SaveAsRoot => Message::SaveAsRoot,
            Message::NoMessage => Message::NoMessage,
            Message::ToTop => Message::ToTop,
            Message::ToBottom => Message::ToBottom,
            Message::Tab => Message::Tab,
            Message::Suspend => Message::Suspend,
            Message::NewEmptyBuffer => Message::NewEmptyBuffer,
            Message::ToggleMouseCapture => Message::ToggleMouseCapture,
            Message::DragMouseLeft => Message::DragMouseLeft,
            Message::JumpNextHighlight => Message::JumpNextHighlight,
            Message::JumpPreviousHighlight => Message::JumpPreviousHighlight,
            Message::SaveAs(path) => Message::SaveAs(path.clone()),
            Message::UndoInsertion(n) => Message::UndoInsertion(*n),
            Message::InsertString(text) => Message::InsertString(text.clone()),
            Message::Undo => Message::Undo,
            Message::Redo => Message::Redo,
            Message::Many(messages) => {
                let mut copies: Vec<Message> = Vec::new();
                let mut i: usize = 0;
                while i < messages.len()
                    invariant
                        *self == Message::Many(*messages),
                        i <= messages.len(),
                        copies@.len() == i,
                        forall|j: int| 0 <= j < i ==> copies@[j]@ == messages@[j]@,
                    decreases messages.len() - i,
                {
                    proof {
                        axiom_vec_index_decreases(*messages, i as int);
                        assert(self->Many_0 == *messages);
                        assert(decreases_to!(*self => self->Many_0));
                    }
                    copies.push(messages[i].duplicate());
                    i = i + 1;
                }
                let copy = Message::Many(copies);
                assert(copy@->Many_0 =~= self@->Many_0);
                copy
            },
            Message::JumpPosition(position) => Message::JumpPosition(*position),
            Message::InhibitUndo(inner) => Message::InhibitUndo(Box::new(inner.duplicate())),
            Message::CutLine => Message::CutLine,
        }
    }
}

/// What a list of commands says is what each of them says.
pub proof fn lemma_many_view(messages: Vec<Message>)
    ensures
        Message::Many(messages)@ == MessageView::Many(views_of(messages@)),
{
    assert(Message::Many(messages)@->Many_0 =~= views_of(messages@));
}

/// The size of what is shown.
#[derive(Debug, Clone, Copy, PartialEq, Eq, Structural)]
pub struct Screen {
    /// The rows of the terminal.
    pub rows: usize,
    /// The rows in which the buffer is shown.
    pub buffer_rows: usize,
}

/// What the controller has to do for the editor.
#[derive(Debug)]
pub enum Request {
    /// Carry this command out next, by `Model::update_inner`.
    Dispatch(Message),
    /// Carry this command out next, unless the one before it failed.
    DispatchIfOk(Message),
    /// Put this text on the clipboard.
    Clipboard(String),
    /// Read the clipboard and tell by `Model::clipboard_read`.
    PasteClipboard,
    /// Find out whether the current buffer differs from what is stored and
    /// tell by `Model::quit`.
    Dirty,
    /// Write the current buffer to its file and tell by `Model::saved`.
    Save,
    /// Write the current buffer to the file `path`, which is new to it,
    /// and tell by `Model::saved_as`.
    SaveAs { path: String, previous: Option<String> },
    /// Write the current buffer to its file with the rights of the
    /// administrator and tell by `Model::saved_as_root`.
    SaveAsRoot,
    /// Suspend the process.
    Suspend,
    /// Switch the capture of the mouse on or off.
    MouseCapture(bool),
    /// Run this in the shell and tell by `Model::shell_finished`.
    RunShell(String),
}

/// What a request says.
pub enum RequestView {
    Dispatch(MessageView),
    DispatchIfOk(MessageView),
    Clipboard(Seq<u8>),
    PasteClipboard,
    Dirty,
    Save,
    SaveAs { path: Seq<char>, previous: Option<Seq<char>> },
    SaveAsRoot,
    Suspend,
    MouseCapture(bool),
    RunShell(Seq<char>),
}

/// What an optional text reads.
pub open spec fn text_of(text: Option<String>) -> Option<Seq<char>> {
    match text {
        Some(t) => Some(t@),
        None => None,
    }
}

impl View for Request {
    type V = RequestView;

    open spec fn view(&self) -> RequestView {
        match self {
            Request::Dispatch(message) => RequestView::Dispatch(message@),
            Request::DispatchIfOk(message) => RequestView::DispatchIfOk(message@),
            Request::Clipboard(text) => RequestView::Clipboard(bytes_of(text)),
            Request::PasteClipboard => RequestView::PasteClipboard,
            Request::Dirty => RequestView::Dirty,
            Request::Save => RequestView::Save,
            Request::SaveAs { path, previous } => RequestView::SaveAs {
                path: path@,
                previous: text_of(*previous),
            },
            Request::SaveAsRoot => RequestView::SaveAsRoot,
            Request::Suspend => RequestView::Suspend,
            Request::MouseCapture(on) => RequestView::MouseCapture(*on),
            Request::RunShell(command) => RequestView::RunShell(command@),
        }
    }
}

/// What each of `requests` says.
pub open spec fn request_views(requests: Seq<Request>) -> Seq<RequestView> {
    Seq::new(requests.len(), |i: int| requests[i]@)
}

/// Each of `messages` as a command to carry out next.
pub open spec fn dispatches(messages: Seq<MessageView>) -> Seq<RequestView> {
    Seq::new(messages.len(), |i: int| RequestView::Dispatch(messages[i]))
}

/// The inverse of an insertion of `count` bytes that ended at `after`.
pub open spec fn insertion_inverse(after: usize, count: usize) -> MessageView {
    MessageView::Many(seq![MessageView::JumpPosition(after), MessageView::UndoInsertion(count)])
}

/// The inverse of a backspace that took `taken` out and ended at `after`.
pub open spec fn backspace_inverse(after: usize, taken: Seq<u8>) -> MessageView {
    MessageView::Many(
        seq![MessageView::JumpPosition(after), MessageView::Paste(decode_utf8(taken))],
    )
}

/// The inverse of the removal of `taken` at `from` by a command given at
/// `before`.
pub open spec fn removal_inverse(from: usize, taken: Seq<u8>, before: usize) -> MessageView {
    MessageView::Many(
        seq![
            MessageView::JumpPosition(from),
            MessageView::InsertString(decode_utf8(taken)),
            MessageView::JumpPosition(before),
        ],
    )
}

/// `edited`, which came about by `forward` given at position `before`,
/// with that recorded at time `now`.
pub open spec fn with_record(
    edited: BufferView,
    now: u128,
    forward: MessageView,
    inverse: MessageView,
    before: usize,
) -> BufferView {
    BufferView {
        undo: edited.undo.recorded(
            now,
            ActionView { forward, inverse, position_before: before, position_after: edited.position },
        ),
        ..edited
    }
}

/// After the character `c` was typed by the command `forward`.
pub open spec fn typed(v: BufferView, c: char, forward: MessageView, now: u128, screen: Screen) -> BufferView {
    let edited = v.inserted(encode_utf8(seq![c]));
    with_record(
        edited,
        now,
        forward,
        insertion_inverse(edited.position, (edited.position - v.position) as usize),
        v.position,
    ).scrolled(screen.buffer_rows)
}

/// After `text` was pasted.
pub open spec fn pasted(v: BufferView, text: Seq<char>, now: u128) -> BufferView {
    let edited = v.pasted(encode_utf8(text));
    with_record(
        edited,
        now,
        MessageView::Paste(text),
        insertion_inverse(edited.position, (edited.position - v.position) as usize),
        v.position,
    )
}

/// After a backspace.
pub open spec fn backspaced(v: BufferView, now: u128) -> BufferView {
    let edited = v.backspaced();
    with_record(
        edited,
        now,
        MessageView::Backspace,
        backspace_inverse(edited.position, v.before_position()),
        v.position,
    )
}

/// After a delete.
pub open spec fn deleted(v: BufferView, now: u128) -> BufferView {
    let edited = v.deleted();
    with_record(
        edited,
        now,
        MessageView::Delete,
        removal_inverse(v.position, v.at_position(), v.position),
        v.position,
    )
}

/// The first byte of the cursor's line.
pub open spec fn cut_from(v: BufferView) -> usize {
    v.table()[v.cursor.y as int] as usize
}

/// The byte behind the cursor's line.
pub open spec fn cut_to(v: BufferView) -> usize {
    v.table()[v.cursor.y + 1] as usize
}

/// After the cursor's line was cut.
pub open spec fn cut(v: BufferView, now: u128) -> BufferView {
    let edited = v.drained(cut_from(v), cut_to(v)).positioned(cut_from(v));
    with_record(
        edited,
        now,
        MessageView::CutLine,
        removal_inverse(cut_from(v), v.between(cut_from(v), cut_to(v)), v.position),
        v.position,
    )
}

/// After the `count` bytes before the position were taken out.
pub open spec fn uninserted(v: BufferView, count: usize) -> BufferView {
    let from = v.position.saturating_sub(count);
    v.drained(from, v.position).positioned(from)
}

/// With the recording of actions switched off or on.
pub open spec fn inhibiting(v: BufferView, inhibited: bool) -> BufferView {
    BufferView { undo: UndoView { inhibited, ..v.undo }, ..v }
}

/// The buffer after the command `msg`, given at time `now` on a screen
/// `screen`. A command that is not for the buffer leaves it as it is.
#[verifier::opaque]
pub open spec fn step(v: BufferView, msg: MessageView, now: u128, screen: Screen) -> BufferView
    decreases msg,
{
    match msg {
        MessageView::InsertChar(c) => typed(v, c, msg, now, screen),
        MessageView::Enter => typed(v, '\n', msg, now, screen),
        MessageView::Tab => typed(v, '\t', msg, now, screen),
        MessageView::Paste(text) => pasted(v, text, now),
        MessageView::InsertString(text) => v.inserted(encode_utf8(text)),
        MessageView::Backspace => backspaced(v, now),
        MessageView::Delete => deleted(v, now),
        MessageView::CutLine => cut(v, now),
        MessageView::UndoInsertion(count) => uninserted(v, count),
        MessageView::MoveLeft => v.moved_left().scrolled(screen.buffer_rows),
        MessageView::MoveRight => v.moved_right().scrolled(screen.buffer_rows),
        MessageView::MoveUp => v.moved_up().scrolled(screen.buffer_rows),
        MessageView::MoveDown => v.moved_down().scrolled(screen.buffer_rows),
        MessageView::PageUp => v.paged_up(screen.rows),
        MessageView::PageDown => v.paged_down(screen.rows),
        MessageView::JumpWordLeft => v.moved_word_left().scrolled(screen.buffer_rows),
        MessageView::JumpWordRight => v.moved_word_right().scrolled(screen.buffer_rows),
        MessageView::JumpStartOfLine => v.at_line_start(),
        MessageView::JumpEndOfLine => v.at_line_end(),
        MessageView::ToTop => v.at_top().scrolled(screen.buffer_rows),
        MessageView::ToBottom => v.at_bottom().scrolled(screen.buffer_rows),
        MessageView::MouseLeft(x, y) => v.clicked(x, y),
        MessageView::ScrollDown => v.scrolled_down(screen.rows),
        MessageView::ScrollUp => v.scrolled_up(),
        MessageView::Find(query) => v.found(encode_utf8(query)).jumped_next().centered(
            screen.buffer_rows,
        ),
        MessageView::JumpNextHighlight => v.jumped_next().centered(screen.buffer_rows),
        MessageView::JumpPreviousHighlight => v.jumped_previous().centered(screen.buffer_rows),
        MessageView::JumpPosition(position) => v.positioned(position).centered(
            screen.buffer_rows,
        ),
        MessageView::Undo => BufferView { undo: v.undo.undone(), ..v },
        MessageView::Redo => BufferView { undo: v.undo.redone(), ..v },
        MessageView::InhibitUndo(inner) => inhibiting(
            step(inhibiting(v, true), *inner, now, screen),
            false,
        ),
        MessageView::Double(first, second) => step(
            step(v, *first, now, screen),
            *second,
            now,
            screen,
        ),
        MessageView::Many(messages) => step_all(v, messages, 0, now, screen),
        _ => v,
    }
}

/// The buffer after the commands of `messages` from the one at `from` on.
pub open spec fn step_all(
    v: BufferView,
    messages: Seq<MessageView>,
    from: int,
    now: u128,
    screen: Screen,
) -> BufferView
    decreases messages, messages.len() - from,
{
    if 0 <= from < messages.len() {
        step_all(step(v, messages[from], now, screen), messages, from + 1, now, screen)
    } else {
        v
    }
}

/// Whether `msg` puts text in.
pub open spec fn is_insertion(msg: MessageView) -> bool {
    match msg {
        MessageView::InsertChar(_) => true,
        MessageView::Enter => true,
        MessageView::Tab => true,
        MessageView::Paste(_) => true,
        MessageView::InsertString(_) => true,
        _ => false,
    }
}

/// Whether `msg` takes text out.
pub open spec fn is_removal(msg: MessageView) -> bool {
    match msg {
        MessageView::Backspace => true,
        MessageView::Delete => true,
        MessageView::CutLine => true,
        MessageView::UndoInsertion(_) => true,
        _ => false,
    }
}

/// Whether `msg` changes the text.
pub open spec fn is_edit(msg: MessageView) -> bool {
    is_insertion(msg) || is_removal(msg)
}

/// Whether `msg` moves the cursor by a step or a page.
pub open spec fn is_step(msg: MessageView) -> bool {
    match msg {
        MessageView::MoveLeft => true,
        MessageView::MoveRight => true,
        MessageView::MoveUp => true,
        MessageView::MoveDown => true,
        MessageView::PageUp => true,
        MessageView::PageDown => true,
        _ => false,
    }
}

/// Whether `msg` moves the cursor by a jump.
pub open spec fn is_jump(msg: MessageView) -> bool {
    match msg {
        MessageView::JumpWordLeft => true,
        MessageView::JumpWordRight => true,
        MessageView::JumpStartOfLine => true,
        MessageView::JumpEndOfLine => true,
        MessageView::ToTop => true,
        MessageView::ToBottom => true,
        MessageView::MouseLeft(_, _) => true,
        MessageView::JumpPosition(_) => true,
        _ => false,
    }
}

/// Whether `msg` moves the cursor.
pub open spec fn is_move(msg: MessageView) -> bool {
    is_step(msg) || is_jump(msg)
}

/// Whether `msg` scrolls, searches or steps through the undo history.
pub open spec fn is_other(msg: MessageView) -> bool {
    match msg {
        MessageView::ScrollDown => true,
        MessageView::ScrollUp => true,
        MessageView::Find(_) => true,
        MessageView::JumpNextHighlight => true,
        MessageView::JumpPreviousHighlight => true,
        MessageView::Undo => true,
        MessageView::Redo => true,
        _ => false,
    }
}

/// Whether `msg` is made of other commands.
pub open spec fn is_compound(msg: MessageView) -> bool {
    match msg {
        MessageView::InhibitUndo(_) => true,
        MessageView::Double(_, _) => true,
        MessageView::Many(_) => true,
        _ => false,
    }
}

/// Whether the buffer carries out `msg` itself.
pub open spec fn is_buffer_command(msg: MessageView) -> bool {
    is_edit(msg) || is_move(msg) || is_other(msg) || is_compound(msg)
}

/// What the command `msg` leaves for the controller to do: the line that
/// was cut goes to the clipboard, the replay of an undo or redo and every
/// command that is not for the buffer are to be carried out next.
pub open spec fn effects_of(v: BufferView, msg: MessageView, now: u128, screen: Screen) -> Seq<
    RequestView,
>
    decreases msg,
{
    match msg {
        MessageView::CutLine => seq![RequestView::Clipboard(v.between(cut_from(v), cut_to(v)))],
        MessageView::Undo => dispatches(v.undo.undo_messages()),
        MessageView::Redo => dispatches(v.undo.redo_messages()),
        MessageView::InhibitUndo(inner) => effects_of(inhibiting(v, true), *inner, now, screen),
        MessageView::Double(first, second) => effects_of(v, *first, now, screen) + effects_of(
            step(v, *first, now, screen),
            *second,
            now,
            screen,
        ),
        MessageView::Many(messages) => effects_all(v, messages, 0, now, screen),
        _ => if is_buffer_command(msg) {
            Seq::empty()
        } else {
            seq![RequestView::Dispatch(msg)]
        },
    }
}

/// What the commands of `messages` from the one at `from` on leave for the
/// controller to do.
pub open spec fn effects_all(
    v: BufferView,
    messages: Seq<MessageView>,
    from: int,
    now: u128,
    screen: Screen,
) -> Seq<RequestView>
    decreases messages, messages.len() - from,
{
    if 0 <= from < messages.len() {
        effects_of(v, messages[from], now, screen) + effects_all(
            step(v, messages[from], now, screen),
            messages,
            from + 1,
            now,
            screen,
        )
    } else {
        Seq::empty()
    }
}

/// What the requests of two lists say, one list behind the other.
pub proof fn lemma_request_views_add(a: Seq<Request>, b: Seq<Request>)
    ensures
        request_views(a + b) == request_views(a) + request_views(b),
{
    assert(request_views(a + b) =~= request_views(a) + request_views(b));
}

/// Each of `messages` as a request to carry it out next.
fn as_dispatches(messages: &Vec<Message>) -> (effects: Vec<Request>)
    ensures
        request_views(effects@) == dispatches(views_of(messages@)),
{
    let mut effects: Vec<Request> = Vec::new();
    let mut i: usize = 0;
    while i < messages.len()
        invariant
            i <= messages.len(),
            effects@.len() == i,
            forall|j: int| 0 <= j < i ==> effects@[j]@ == RequestView::Dispatch(messages@[j]@),
        decreases messages.len() - i,
    {
        effects.push(Request::Dispatch(messages[i].duplicate()));
        i = i + 1;
    }
    assert(request_views(effects@) =~= dispatches(views_of(messages@)));
    effects
}

/// The command that undoes an insertion of `count` bytes that ended at
/// `after`.
fn make_insertion_inverse(after: usize, count: usize) -> (inverse: Message)
    ensures
        inverse@ == insertion_inverse(after, count),
{
    let mut parts: Vec<Message> = Vec::new();
    parts.push(Message::JumpPosition(after));
    parts.push(Message::UndoInsertion(count));
    proof {
        lemma_many_view(parts);
        assert(views_of(parts@) =~= seq![
            MessageView::JumpPosition(after),
            MessageView::UndoInsertion(count),
        ]);
    }
    Message::Many(parts)
}

/// The command that undoes a backspace that took `taken` out and ended at
/// `after`.
fn make_backspace_inverse(after: usize, taken: String) -> (inverse: Message)
    ensures
        inverse@ == backspace_inverse(after, bytes_of(&taken)),
{
    proof {
        encode_utf8_decode_utf8(taken@);
    }
    let ghost text = taken@;
    let mut parts: Vec<Message> = Vec::new();
    parts.push(Message::JumpPosition(after));
    parts.push(Message::Paste(taken));
    proof {
        lemma_many_view(parts);
        assert(views_of(parts@) =~= seq![
            MessageView::JumpPosition(after),
            MessageView::Paste(text),
        ]);
    }
    Message::Many(parts)
}

/// The command that undoes the removal of `taken` at `from` by a command
/// given at `before`.
fn make_removal_inverse(from: usize, taken: String, before: usize) -> (inverse: Message)
    ensures
        inverse@ == removal_inverse(from, bytes_of(&taken), before),
{
    proof {
        encode_utf8_decode_utf8(taken@);
    }
    let ghost text = taken@;
    let mut parts: Vec<Message> = Vec::new();
    parts.push(Message::JumpPosition(from));
    parts.push(Message::InsertString(taken));
    parts.push(Message::JumpPosition(before));
    proof {
        lemma_many_view(parts);
        assert(views_of(parts@) =~= seq![
            MessageView::JumpPosition(from),
            MessageView::InsertString(text),
            MessageView::JumpPosition(before),
        ]);
    }
    Message::Many(parts)
}

impl Buffer {
    /// Inserts `chr` for the command `msg` and records that.
    fn type_char(&mut self, chr: char, msg: &Message, now: u128, screen: Screen)
        requires
            old(self).wf(),
        ensures
            final(self).wf(),
            final(self)@ == typed(old(self)@, chr, msg@, now, screen),
            final(self).same_setting(old(self)),
    {
        let before = self.position;
        self.insert(chr);
        let after = self.position;
        let count = if after >= before {
            after - before
        } else {
            0
        };
        self.undo.record_at(now, before, after, msg.duplicate(), make_insertion_inverse(after, count));
        self.scroll_view(screen.buffer_rows);
    }

    /// Pastes the text of the command `msg` and records that.
    fn paste_text(&mut self, text: &String, now: u128)
        requires
            old(self).wf(),
        ensures
            final(self).wf(),
            final(self)@ == pasted(old(self)@, text@, now),
            final(self).same_setting(old(self)),
    {
        let before = self.position;
        self.paste(text.as_str());
        let after = self.position;
        let count = if after >= before {
            after - before
        } else {
            0
        };
        self.undo.record_at(
            now,
            before,
            after,
            Message::Paste(text.clone()),
            make_insertion_inverse(after, count),
        );
    }

    /// Cuts the cursor's line and records that. Gives the line.
    fn cut_line(&mut self, now: u128) -> (taken: String)
        requires
            old(self).wf(),
        ensures
            final(self).wf(),
            final(self)@ == cut(old(self)@, now),
            bytes_of(&taken) == old(self)@.between(cut_from(old(self)@), cut_to(old(self)@)),
            final(self).same_setting(old(self)),
    {
        let before = self.position;
        let (start, end) = self.current_line();
        let taken = self.drain(start..end);
        self.set_position(start);
        let after = self.position;
        self.undo.record_at(
            now,
            before,
            after,
            Message::CutLine,
            make_removal_inverse(start, taken.clone(), before),
        );
        taken
    }

    /// Carries out a command that puts text in.
    #[verifier::rlimit(40)]
    fn apply_insertion(&mut self, msg: &Message, now: u128, screen: Screen) -> (effects: Vec<
        Request,
    >)
        requires
            old(self).wf(),
            is_insertion(msg@),
        ensures
            final(self).wf(),
            final(self)@ == step(old(self)@, msg@, now, screen),
            request_views(effects@) == effects_of(old(self)@, msg@, now, screen),
            final(self).same_setting(old(self)),
    {
        reveal_with_fuel(step, 1);
        let effects: Vec<Request> = Vec::new();
        assert(request_views(effects@) =~= Seq::empty());
        match msg {
            Message::InsertChar(c) => {
                self.type_char(*c, msg, now, screen);
            },
            Message::Enter => {
                self.type_char('\n', msg, now, screen);
            },
            Message::Tab => {
                self.type_char('\t', msg, now, screen);
            },
            Message::Paste(text) => {
                self.paste_text(text, now);
            },
            Message::InsertString(text) => {
                self.insert_str(text.as_str());
            },
            _ => {},
        }
        effects
    }

    /// Carries out a command that takes text out.
    #[verifier::rlimit(40)]
    fn apply_removal(&mut self, msg: &Message, now: u128, screen: Screen) -> (effects: Vec<Request>)
        requires
            old(self).wf(),
            is_removal(msg@),
        ensures
            final(self).wf(),
            final(self)@ == step(old(self)@, msg@, now, screen),
            request_views(effects@) == effects_of(old(self)@, msg@, now, screen),
            final(self).same_setting(old(self)),
    {
        reveal_with_fuel(step, 1);
        let mut effects: Vec<Request> = Vec::new();
        assert(request_views(effects@) =~= Seq::empty());
        match msg {
            Message::Backspace => {
                let before = self.position;
                let taken = self.backspace();
                let after = self.position;
                self.undo.record_at(
                    now,
                    before,
                    after,
                    Message::Backspace,
                    make_backspace_inverse(after, taken),
                );
            },
            Message::Delete => {
                let before = self.position;
                let taken = self.delete();
                let after = self.position;
                self.undo.record_at(
                    now,
                    before,
                    after,
                    Message::Delete,
                    make_removal_inverse(before, taken, before),
                );
            },
            Message::CutLine => {
                let taken = self.cut_line(now);
                effects.push(Request::Clipboard(taken));
                assert(request_views(effects@) =~= effects_of(old(self)@, msg@, now, screen));
            },
            Message::UndoInsertion(count) => {
                let old_position = self.position;
                let from = old_position.saturating_sub(*count);
                let _ = self.drain(from..old_position);
                self.set_position(from);
            },
            _ => {},
        }
        effects
    }

    /// Carries out a command that moves the cursor by a step or a page.
    #[verifier::rlimit(40)]
    fn apply_move(&mut self, msg: &Message, now: u128, screen: Screen) -> (effects: Vec<Request>)
        requires
            old(self).wf(),
            is_step(msg@),
        ensures
            final(self).wf(),
            final(self)@ == step(old(self)@, msg@, now, screen),
            request_views(effects@) == effects_of(old(self)@, msg@, now, screen),
            final(self).same_setting(old(self)),
    {
        reveal_with_fuel(step, 1);
        let effects: Vec<Request> = Vec::new();
        assert(request_views(effects@) =~= Seq::empty());
        match msg {
            Message::MoveLeft => {
                self.move_left();
                self.scroll_view(screen.buffer_rows);
            },
            Message::MoveRight => {
                self.move_right();
                self.scroll_view(screen.buffer_rows);
            },
            Message::MoveUp => {
                self.move_up();
                self.scroll_view(screen.buffer_rows);
            },
            Message::MoveDown => {
                self.move_down();
                self.scroll_view(screen.buffer_rows);
            },
            Message::PageUp => {
                self.page_up(screen.rows);
            },
            Message::PageDown => {
                self.page_down(screen.rows);
            },
            _ => {},
        }
        effects
    }

    /// Carries out a command that moves the cursor by a jump.
    #[verifier::rlimit(40)]
    fn apply_jump(&mut self, msg: &Message, now: u128, screen: Screen) -> (effects: Vec<Request>)
        requires
            old(self).wf(),
            is_jump(msg@),
        ensures
            final(self).wf(),
            final(self)@ == step(old(self)@, msg@, now, screen),
            request_views(effects@) == effects_of(old(self)@, msg@, now, screen),
            final(self).same_setting(old(self)),
    {
        reveal_with_fuel(step, 1);
        let effects: Vec<Request> = Vec::new();
        assert(request_views(effects@) =~= Seq::empty());
        match msg {
            Message::JumpWordLeft => {
                self.move_word_left();
                self.scroll_view(screen.buffer_rows);
            },
            Message::JumpWordRight => {
                self.move_word_right();
                self.scroll_view(screen.buffer_rows);
            },
            Message::JumpStartOfLine => {
                self.goto_start_of_line();
            },
            Message::JumpEndOfLine => {
                self.goto_end_of_line();
            },
            Message::ToTop => {
                self.to_top();
                self.scroll_view(screen.buffer_rows);
            },
            Message::ToBottom => {
                self.to_bottom();
                self.scroll_view(screen.buffer_rows);
            },
            Message::MouseLeft(x, y) => {
                self.set_viewport_cursor_pos(*x, *y);
            },
            Message::JumpPosition(position) => {
                self.set_position(*position);
                self.center_view(screen.buffer_rows);
            },
            _ => {},
        }
        effects
    }

    /// Carries out a command that scrolls, searches or steps through the
    /// undo history.
    #[verifier::rlimit(40)]
    fn apply_other(&mut self, msg: &Message, now: u128, screen: Screen) -> (effects: Vec<Request>)
        requires
            old(self).wf(),
            is_other(msg@),
        ensures
            final(self).wf(),
            final(self)@ == step(old(self)@, msg@, now, screen),
            request_views(effects@) == effects_of(old(self)@, msg@, now, screen),
            final(self).same_setting(old(self)),
    {
        reveal_with_fuel(step, 1);
        let mut effects: Vec<Request> = Vec::new();
        assert(request_views(effects@) =~= Seq::empty());
        match msg {
            Message::ScrollDown => {
                self.scroll_down(screen.rows);
            },
            Message::ScrollUp => {
                self.scroll_up();
            },
            Message::Find(query) => {
                self.find(query.clone());
                self.jump_next_highlight();
                self.center_view(screen.buffer_rows);
            },
            Message::JumpNextHighlight => {
                self.jump_next_highlight();
                self.center_view(screen.buffer_rows);
            },
            Message::JumpPreviousHighlight => {
                self.jump_previous_highlight();
                self.center_view(screen.buffer_rows);
            },
            Message::Undo => {
                let replay = self.undo.undo();
                effects = as_dispatches(&replay);
            },
            Message::Redo => {
                let replay = self.undo.redo();
                effects = as_dispatches(&replay);
            },
            _ => {},
        }
        effects
    }

    /// Hands a command that is not for the buffer on to the controller.
    fn hand_on(&self, msg: &Message, now: u128, screen: Screen) -> (effects: Vec<Request>)
        requires
            !is_buffer_command(msg@),
        ensures
            self@ == step(self@, msg@, now, screen),
            request_views(effects@) == effects_of(self@, msg@, now, screen),
    {
        reveal_with_fuel(step, 1);
        let mut effects: Vec<Request> = Vec::new();
        effects.push(Request::Dispatch(msg.duplicate()));
        assert(request_views(effects@) =~= seq![RequestView::Dispatch(msg@)]);
        effects
    }

    /// Carries out the command `msg`, given at time `now` of the clock of
    /// the undo history, on a screen `screen`. Gives what is left for the
    /// controller to do.
    pub fn update_at(&mut self, msg: &Message, now: u128, screen: Screen) -> (effects: Vec<Request>)
        requires
            old(self).wf(),
        ensures
            final(self).wf(),
            final(self)@ == step(old(self)@, msg@, now, screen),
            request_views(effects@) == effects_of(old(self)@, msg@, now, screen),
            final(self).same_setting(old(self)),
        decreases msg,
    {
        reveal_with_fuel(step, 1);
        match msg {
            Message::InhibitUndo(inner) => {
                self.undo.inhibited = true;
                let effects = self.update_at(inner, now, screen);
                self.undo.inhibited = false;
                effects
            },
            Message::Double(first, second) => {
                let mut effects = self.update_at(first, now, screen);
                let ghost early = effects@;
                let mut more = self.update_at(second, now, screen);
                proof {
                    lemma_request_views_add(early, more@);
                }
                effects.append(&mut more);
                effects
            },
            Message::Many(messages) => {
                let mut effects: Vec<Request> = Vec::new();
                let ghost all = msg@->Many_0;
                let ghost start = self@;
                proof {
                    lemma_many_view(*messages);
                    assert(all == views_of(messages@));
                    assert(request_views(effects@) + effects_all(start, all, 0, now, screen)
                        =~= effects_all(start, all, 0, now, screen));
                }
                let mut i: usize = 0;
                while i < messages.len()
                    invariant
                        *msg == Message::Many(*messages),
                        all == views_of(messages@),
                        i <= messages.len(),
                        self.wf(),
                        self.same_setting(old(self)),
                        step_all(self@, all, i as int, now, screen) == step_all(
                            start,
                            all,
                            0,
                            now,
                            screen,
                        ),
                        request_views(effects@) + effects_all(self@, all, i as int, now, screen)
                            == effects_all(start, all, 0, now, screen),
                    decreases messages.len() - i,
                {
                    proof {
                        axiom_vec_index_decreases(*messages, i as int);
                        assert(msg->Many_0 == *messages);
                        assert(decreases_to!(*msg => msg->Many_0));
                    }
                    let ghost here = self@;
                    let ghost early = effects@;
                    let mut more = self.update_at(&messages[i], now, screen);
                    proof {
                        lemma_request_views_add(early, more@);
                        assert(all[i as int] == messages@[i as int]@);
                        reveal_with_fuel(step, 1);
                        assert(step_all(here, all, i as int, now, screen) == step_all(
                            step(here, all[i as int], now, screen),
                            all,
                            i + 1,
                            now,
                            screen,
                        ));
                        assert(request_views(early + more@) + effects_all(
                            self@,
                            all,
                            i + 1,
                            now,
                            screen,
                        ) =~= request_views(early) + effects_all(here, all, i as int, now, screen));
                    }
                    effects.append(&mut more);
                    i = i + 1;
                }
                proof {
                    assert(request_views(effects@) + effects_all(
                        self@,
                        all,
                        i as int,
                        now,
                        screen,
                    ) =~= request_views(effects@));
                }
                effects
            },
            _ => {
                if msg.is_insertion() {
                    self.apply_insertion(msg, now, screen)
                } else if msg.is_removal() {
                    self.apply_removal(msg, now, screen)
                } else if msg.is_step() {
                    self.apply_move(msg, now, screen)
                } else if msg.is_jump() {
                    self.apply_jump(msg, now, screen)
                } else if msg.is_other() {
                    self.apply_other(msg, now, screen)
                } else {
                    self.hand_on(msg, now, screen)
                }
            },
        }
    }

    /// Carries out the command `msg` at the time that the clock shows.
    /// Gives what is left for the controller to do.
    pub fn update(&mut self, msg: &Message, screen: Screen) -> (effects: Vec<Request>)
        requires
            old(self).wf(),
        ensures
            final(self).wf(),
            final(self).same_setting(old(self)),
            exists|now: u128|
                final(self)@ == step(old(self)@, msg@, now, screen) && request_views(effects@)
                    == effects_of(old(self)@, msg@, now, screen),
    {
        let now = self.undo.now();
        self.update_at(msg, now, screen)
    }
}

/// The size of the terminal.
#[derive(Debug, Clone, Copy, PartialEq, Eq, Structural)]
pub struct Size {
    pub width: u16,
    pub height: u16,
}

/// A notice as the user reads it.
pub struct NoticeView {
    pub content: Seq<char>,
    pub style: Style,
}

/// A buffer as the editor reads it.
pub struct BufferState {
    pub view: BufferView,
    pub name: Option<Seq<char>>,
    pub readonly: bool,
    pub opened_readonly: bool,
}

impl BufferState {
    /// Whether the buffer can be saved, and if not, why.
    pub open spec fn save_check(self) -> Result<(), SaveError> {
        if self.name is None {
            Err(SaveError::NoPath)
        } else if self.readonly {
            Err(SaveError::ReadOnly)
        } else if self.opened_readonly {
            Err(SaveError::NoWritePermission)
        } else {
            Ok(())
        }
    }
}

/// What a buffer holds, as the editor reads it.
pub open spec fn state_of(buffer: Buffer) -> BufferState {
    BufferState {
        view: buffer@,
        name: text_of(buffer.name),
        readonly: buffer.readonly,
        opened_readonly: buffer.opened_readonly,
    }
}

/// The state of the editor.
pub struct Model {
    /// What buffer is selected
    pub selected: usize,
    /// What buffers are open
    pub buffers: Vec<Buffer>,
    /// If we should close the application
    pub running: bool,
    /// The utility window
    pub utility: Option<UtilityWindow>,
    /// The name of the theme
    pub theme: String,
    pub viewport: Size,
    /// The rows in which the buffer is shown
    pub buffer_rows: usize,
    pub notification: Option<Notification>,
    /// visualize whitespace
    pub show_whitespace: bool,
    /// is mouse_capture enabled
    pub mouse_capture: bool,
    /// did the last message cause an error
    pub last_error: bool,
    /// The commands that were run in the shell
    pub shell_history: Vec<String>,
}

/// What the logic of the editor reads of its state.
pub struct ModelView {
    pub selected: usize,
    pub buffers: Seq<BufferState>,
    pub running: bool,
    pub utility: Option<UtilityView>,
    pub viewport: Size,
    pub buffer_rows: usize,
    pub notice: Option<NoticeView>,
    pub show_whitespace: bool,
    pub mouse_capture: bool,
    pub last_error: bool,
    pub shell_history: Seq<String>,
}

impl View for Model {
    type V = ModelView;

    open spec fn view(&self) -> ModelView {
        ModelView {
            selected: self.selected,
            buffers: Seq::new(self.buffers@.len(), |i: int| state_of(self.buffers@[i])),
            running: self.running,
            utility: match self.utility {
                Some(window) => Some(window@),
                None => None,
            },
            viewport: self.viewport,
            buffer_rows: self.buffer_rows,
            notice: match self.notification {
                Some(notice) => Some(NoticeView { content: notice.content@, style: notice.style }),
                None => None,
            },
            show_whitespace: self.show_whitespace,
            mouse_capture: self.mouse_capture,
            last_error: self.last_error,
            shell_history: self.shell_history@,
        }
    }
}

/// The question that is asked before an editor with unsaved changes
/// closes.
pub const UNSAVED_QUESTION: &'static str = "There are unsaved changes. Do you want to save?";

/// The question that is asked before a file is saved with the rights of
/// the administrator.
pub const ROOT_QUESTION: &'static str = "Do you want to save this file using run0?";

/// The keys that answer the question about unsaved changes.
pub open spec fn unsaved_choices() -> Seq<(char, MessageView)> {
    seq![
        (
            'y',
            MessageView::Double(Box::new(MessageView::Save), Box::new(MessageView::Quit)),
        ),
        ('n', MessageView::QuitNoSave),
    ]
}

/// The keys that answer the question about saving as administrator.
pub open spec fn root_choices() -> Seq<(char, MessageView)> {
    seq![('y', MessageView::SaveAsRoot), ('n', MessageView::NoMessage)]
}

impl ModelView {
    /// There is a buffer, and one of the buffers is selected.
    pub open spec fn wf(self) -> bool {
        &&& self.selected < self.buffers.len()
        &&& forall|i: int| 0 <= i < self.buffers.len() ==> (#[trigger] self.buffers[i]).view.wf()
    }

    /// The selected buffer.
    pub open spec fn current(self) -> BufferState {
        self.buffers[self.selected as int]
    }

    /// The size of what is shown.
    pub open spec fn screen(self) -> Screen {
        Screen { rows: self.viewport.height as usize, buffer_rows: self.buffer_rows }
    }

    /// With `state` in place of the selected buffer.
    pub open spec fn with_current(self, state: BufferState) -> ModelView {
        ModelView { buffers: self.buffers.update(self.selected as int, state), ..self }
    }

    /// With a notice that reads `content`.
    pub open spec fn noticed(self, content: Seq<char>, style: Style) -> ModelView {
        ModelView { notice: Some(NoticeView { content, style }), ..self }
    }

    /// With a notice that tells of a failure, which is taken note of.
    pub open spec fn failed(self, content: Seq<char>) -> ModelView {
        ModelView { last_error: true, ..self.noticed(content, error_look()) }
    }

    /// With the utility window `window` open.
    pub open spec fn showing(self, window: UtilityView) -> ModelView {
        ModelView { utility: Some(window), ..self }
    }

    /// After the buffer carried out the command `msg`. A search tells the
    /// find window how often it found.
    pub open spec fn buffer_stepped(self, msg: MessageView, now: u128) -> ModelView {
        let stepped = step(self.current().view, msg, now, self.screen());
        let after = self.with_current(BufferState { view: stepped, ..self.current() });
        match (msg, self.utility) {
            (MessageView::Find(_), Some(UtilityView::Find(text, _))) => after.showing(
                UtilityView::Find(text, Some(stepped.highlights.len() as usize)),
            ),
            _ => after,
        }
    }

    /// After a command to save under the name `path`.
    pub open spec fn saving_as(self, path: Seq<char>) -> ModelView {
        let renamed = BufferState { name: Some(path), ..self.current() };
        match renamed.save_check() {
            Ok(_) => self.with_current(renamed),
            Err(error) => self.failed(save_error_text(error)),
        }
    }

    /// After a command to save.
    pub open spec fn saving(self) -> ModelView {
        match self.current().save_check() {
            Ok(_) => self,
            Err(SaveError::NoPath) => self.showing(UtilityView::SaveAs(Seq::empty())),
            Err(error) => self.failed(save_error_text(error)),
        }
    }

    /// The editor after the command `msg`, given at time `now`, which no
    /// utility window stands before.
    pub open spec fn after(self, msg: MessageView, now: u128) -> ModelView {
        let m = ModelView { last_error: false, ..self };
        if is_buffer_command(msg) && !(msg is Double) && !(msg is Many) {
            m.buffer_stepped(msg, now)
        } else {
            match msg {
                MessageView::NextBuffer => ModelView {
                    selected: if m.selected + 1 < m.buffers.len() {
                        (m.selected + 1) as usize
                    } else {
                        0
                    },
                    ..m
                },
                MessageView::PreviousBuffer => ModelView {
                    selected: if m.selected > 0 {
                        (m.selected - 1) as usize
                    } else {
                        (m.buffers.len() - 1) as usize
                    },
                    ..m
                },
                MessageView::QuitNoSave => ModelView { running: false, ..m },
                MessageView::OpenHelp => m.showing(UtilityView::Help),
                MessageView::OpenFind => m.showing(UtilityView::Find(Seq::empty(), None)),
                MessageView::OpenShell => m.showing(UtilityView::Shell(Seq::empty(), 0)),
                MessageView::DeveloperKey => m.showing(UtilityView::Developer),
                MessageView::CloseUtility => ModelView { utility: None, ..m },
                MessageView::Save => m.saving(),
                MessageView::SaveAsRoot => if m.current().name is None {
                    m.failed(save_error_text(SaveError::NoPath))
                } else {
                    m
                },
                MessageView::SaveAs(path) => m.saving_as(path),
                MessageView::Resize(width, height) => ModelView {
                    viewport: Size { width, height },
                    ..m
                },
                MessageView::Notification(content, style) => m.noticed(content, style),
                MessageView::SaveAsRootConfirmation => m.showing(
                    UtilityView::Confirm(ROOT_QUESTION@, root_choices()),
                ),
                MessageView::NewEmptyBuffer => ModelView {
                    buffers: m.buffers.push(fresh_state()),
                    selected: m.buffers.len() as usize,
                    ..m
                },
                MessageView::ToggleMouseCapture => ModelView {
                    mouse_capture: !m.mouse_capture,
                    ..m
                },
                _ => m,
            }
        }
    }

    /// What the command `msg` leaves for the controller to do.
    pub open spec fn requests(self, msg: MessageView, now: u128) -> Seq<RequestView> {
        let m = ModelView { last_error: false, ..self };
        if is_buffer_command(msg) && !(msg is Double) && !(msg is Many) {
            effects_of(m.current().view, msg, now, m.screen())
        } else {
            match msg {
                MessageView::Quit => seq![RequestView::Dirty],
                MessageView::Escape => seq![RequestView::Dispatch(MessageView::CloseUtility)],
                MessageView::Save => if m.current().save_check() is Ok {
                    seq![RequestView::Save]
                } else {
                    Seq::empty()
                },
                MessageView::SaveAsRoot => if m.current().name is None {
                    Seq::empty()
                } else {
                    seq![RequestView::SaveAsRoot]
                },
                MessageView::SaveAs(path) => if (BufferState {
                    name: Some(path),
                    ..m.current()
                }).save_check() is Ok {
                    seq![RequestView::SaveAs { path, previous: m.current().name }]
                } else {
                    Seq::empty()
                },
                MessageView::PasteClipboard => seq![RequestView::PasteClipboard],
                MessageView::Suspend => seq![RequestView::Suspend],
                MessageView::ToggleMouseCapture => seq![
                    RequestView::MouseCapture(!m.mouse_capture),
                ],
                MessageView::Double(first, second) => seq![
                    RequestView::Dispatch(*first),
                    RequestView::DispatchIfOk(*second),
                ],
                MessageView::Many(messages) => dispatches(messages),
                _ => Seq::empty(),
            }
        }
    }

    /// After the controller told whether the current buffer differs from
    /// what is stored, or that it could not find out: with changes to save
    /// the user is asked, unless the window that asks for a name is open;
    /// else the editor closes.
    pub open spec fn quitting(self, dirty: Option<bool>) -> ModelView {
        if dirty == Some(true) {
            match self.utility {
                Some(UtilityView::SaveAs(_)) => self,
                _ => self.showing(UtilityView::Confirm(UNSAVED_QUESTION@, unsaved_choices())),
            }
        } else {
            ModelView { running: false, ..self }
        }
    }

    /// After the utility window, if one is open, was handed the command
    /// `msg`.
    pub open spec fn routed(self, msg: MessageView) -> ModelView {
        match self.utility {
            Some(window) => ModelView {
                utility: Some(utility_after(window, msg, self.shell_history)),
                ..self
            },
            None => self,
        }
    }

    /// What the utility window, if one is open, makes of the command
    /// `msg`.
    pub open spec fn routing(self, msg: MessageView) -> UtilityActionView {
        match self.utility {
            Some(window) => utility_action(window, msg),
            None => UtilityActionView::Forward(msg),
        }
    }

    /// Without the notice, if that has expired.
    pub open spec fn expiring(self, expired: bool) -> ModelView {
        if expired {
            ModelView { notice: None, ..self }
        } else {
            self
        }
    }

    /// The editor after the command `msg` of the user, given at time
    /// `now`, when the notice had or had not `expired`.
    pub open spec fn after_input(self, msg: MessageView, now: u128, expired: bool) -> ModelView {
        let routed = self.expiring(expired).routed(msg);
        match self.expiring(expired).routing(msg) {
            UtilityActionView::Forward(rest) => routed.after(rest, now),
            _ => routed,
        }
    }

    /// What the command `msg` of the user leaves for the controller to do.
    pub open spec fn input_requests(self, msg: MessageView, now: u128, expired: bool) -> Seq<
        RequestView,
    > {
        let routed = self.expiring(expired).routed(msg);
        match self.expiring(expired).routing(msg) {
            UtilityActionView::Forward(rest) => routed.requests(rest, now),
            UtilityActionView::Run(command) => seq![RequestView::RunShell(command)],
            UtilityActionView::Nothing => Seq::empty(),
        }
    }
}

/// The colours of a notice that tells of a failure.
pub open spec fn error_look() -> Style {
    Style { fg: Some(Color::White), bg: Some(Color::Rgb(200, 0, 0)) }
}

/// What the user is told where a buffer cannot be saved.
pub open spec fn save_error_text(error: SaveError) -> Seq<char> {
    match error {
        SaveError::NoPath => "no path specified"@,
        SaveError::ReadOnly => "Buffer is readonly"@,
        SaveError::NoWritePermission => "No write permission to file"@,
    }
}

/// A buffer without content, name or history.
pub open spec fn fresh_state() -> BufferState {
    BufferState {
        view: fresh_view(Seq::empty()),
        name: None,
        readonly: false,
        opened_readonly: false,
    }
}

/// The keys that answer the question about unsaved changes.
fn make_unsaved_choices() -> (choices: Vec<(char, Message)>)
    ensures
        crate::utilities::confirm::choice_views(choices@) == unsaved_choices(),
{
    proof {
        reveal_with_fuel(Message::model, 2);
    }
    let mut choices: Vec<(char, Message)> = Vec::new();
    choices.push(('y', Message::Double(Box::new(Message::Save), Box::new(Message::Quit))));
    choices.push(('n', Message::QuitNoSave));
    assert(crate::utilities::confirm::choice_views(choices@) =~= unsaved_choices());
    choices
}

/// The keys that answer the question about saving as administrator.
fn make_root_choices() -> (choices: Vec<(char, Message)>)
    ensures
        crate::utilities::confirm::choice_views(choices@) == root_choices(),
{
    let mut choices: Vec<(char, Message)> = Vec::new();
    choices.push(('y', Message::SaveAsRoot));
    choices.push(('n', Message::NoMessage));
    assert(crate::utilities::confirm::choice_views(choices@) =~= root_choices());
    choices
}

impl Model {
    /// There is a buffer, one of the buffers is selected, and every buffer
    /// is well formed.
    pub open spec fn wf(&self) -> bool {
        &&& self.selected < self.buffers@.len()
        &&& forall|i: int| 0 <= i < self.buffers@.len() ==> (#[trigger] self.buffers@[i]).wf()
    }

    /// An editor that shows the first of `buffers` on a terminal of the
    /// size `viewport`, of which `buffer_rows` rows are for the buffer.
    pub fn new(buffers: Vec<Buffer>, viewport: Size, buffer_rows: usize) -> (model: Model)
        requires
            buffers@.len() > 0,
            forall|i: int| 0 <= i < buffers@.len() ==> (#[trigger] buffers@[i]).wf(),
        ensures
            model.wf(),
            model.buffers == buffers,
            model@.selected == 0,
            model@.running,
            model@.utility is None,
            model@.viewport == viewport,
            model@.buffer_rows == buffer_rows,
            model@.notice is None,
            !model@.show_whitespace,
            model@.mouse_capture,
            !model@.last_error,
            model@.shell_history.len() == 0,
    {
        Model {
            buffers,
            selected: 0,
            running: true,
            utility: None,
            theme: String::from_str("dracula"),
            viewport,
            buffer_rows,
            notification: None,
            show_whitespace: false,
            mouse_capture: true,
            last_error: false,
            shell_history: Vec::new(),
        }
    }

    /// The selected buffer.
    pub fn current_buffer(&self) -> (buffer: &Buffer)
        requires
            self.wf(),
        ensures
            *buffer == self.buffers@[self.selected as int],
    {
        &self.buffers[self.selected]
    }

    /// The selected buffer, to be changed.
    pub fn current_buffer_mut(&mut self) -> (buffer: &mut Buffer)
        requires
            old(self).wf(),
        ensures
            *buffer == old(self).buffers@[old(self).selected as int],
            final(self).buffers@ == old(self).buffers@.update(
                old(self).selected as int,
                *final(buffer),
            ),
            final(self).selected == old(self).selected,
            final(self)@.running == old(self)@.running,
            final(self)@.utility == old(self)@.utility,
            final(self)@.viewport == old(self)@.viewport,
            final(self)@.buffer_rows == old(self)@.buffer_rows,
            final(self)@.notice == old(self)@.notice,
            final(self)@.show_whitespace == old(self)@.show_whitespace,
            final(self)@.mouse_capture == old(self)@.mouse_capture,
            final(self)@.last_error == old(self)@.last_error,
            final(self)@.shell_history == old(self)@.shell_history,
    {
        &mut self.buffers[self.selected]
    }

    /// The size of what is shown.
    pub fn screen(&self) -> (screen: Screen)
        ensures
            screen == self@.screen(),
    {
        Screen { rows: self.viewport.height as usize, buffer_rows: self.buffer_rows }
    }

    /// Shows a notice.
    pub fn notify(&mut self, content: String, style: Style)
        ensures
            final(self)@ == old(self)@.noticed(content@, style),
            final(self).buffers == old(self).buffers,
    {
        self.notification = Some(Notification::new(content, style));
    }

    /// Shows a notice that tells of a failure, and takes note of the
    /// failure.
    pub fn fail(&mut self, content: String)
        ensures
            final(self)@ == old(self)@.failed(content@),
            final(self).buffers == old(self).buffers,
    {
        self.notify(content, error_style());
        self.last_error = true;
    }

    /// Carries out a command that is for the selected buffer.
    fn apply_to_buffer(&mut self, msg: &Message, now: u128) -> (requests: Vec<Request>)
        requires
            old(self).wf(),
            is_buffer_command(msg@),
            !(msg@ is Double),
            !(msg@ is Many),
        ensures
            final(self).wf(),
            final(self)@ == (ModelView { last_error: false, ..old(self)@ }).buffer_stepped(
                msg@,
                now,
            ),
            request_views(requests@) == effects_of(
                old(self)@.current().view,
                msg@,
                now,
                old(self)@.screen(),
            ),
    {
        self.last_error = false;
        let screen = self.screen();
        let ghost before = self@;
        let requests = self.buffers[self.selected].update_at(msg, now, screen);
        let found = self.buffers[self.selected].highlights.len();
        proof {
            assert(self@.buffers =~= before.buffers.update(
                before.selected as int,
                state_of(self.buffers@[self.selected as int]),
            ));
        }
        match msg {
            Message::Find(_) => {
                match &mut self.utility {
                    Some(UtilityWindow::Find(find)) => {
                        find.occurences = Some(found);
                    },
                    _ => {},
                }
            },
            _ => {},
        }
        requests
    }

    /// Carries out a command that opens or closes a utility window.
    fn apply_window(&mut self, msg: &Message, now: u128)
        requires
            old(self).wf(),
            msg@ is OpenHelp || msg@ is OpenFind || msg@ is OpenShell || msg@ is DeveloperKey
                || msg@ is CloseUtility || msg@ is SaveAsRootConfirmation,
        ensures
            final(self).wf(),
            final(self)@ == old(self)@.after(msg@, now),
            final(self).buffers == old(self).buffers,
    {
        self.last_error = false;
        match msg {
            Message::OpenHelp => {
                self.utility = Some(UtilityWindow::Help(HelpModel()));
            },
            Message::OpenFind => {
                self.utility = Some(UtilityWindow::Find(FindModel::new()));
            },
            Message::OpenShell => {
                self.utility = Some(UtilityWindow::Shell(ShellModel::new()));
            },
            Message::DeveloperKey => {
                self.utility = Some(UtilityWindow::Developer(DeveloperModel()));
            },
            Message::CloseUtility => {
                self.utility = None;
            },
            Message::SaveAsRootConfirmation => {
                self.utility = Some(
                    UtilityWindow::Confirm(
                        ConfirmModel::new(String::from_str(ROOT_QUESTION), make_root_choices()),
                    ),
                );
            },
            _ => {},
        }
    }

    /// Carries out a command to save.
    fn apply_save(&mut self, msg: &Message, now: u128) -> (requests: Vec<Request>)
        requires
            old(self).wf(),
            msg@ is Save || msg@ is SaveAs || msg@ is SaveAsRoot,
        ensures
            final(self).wf(),
            final(self)@ == old(self)@.after(msg@, now),
            request_views(requests@) == old(self)@.requests(msg@, now),
    {
        self.last_error = false;
        let mut requests: Vec<Request> = Vec::new();
        assert(request_views(requests@) =~= Seq::empty());
        let ghost before = self@;
        match msg {
            Message::Save => {
                match self.buffers[self.selected].save() {
                    Ok(_) => {
                        requests.push(Request::Save);
                        assert(request_views(requests@) =~= seq![RequestView::Save]);
                    },
                    Err(SaveError::NoPath) => {
                        self.utility = Some(UtilityWindow::SaveAs(SaveAsModel::new()));
                    },
                    Err(error) => {
                        self.fail(String::from_str(error.message()));
                    },
                }
            },
            Message::SaveAsRoot => {
                if self.buffers[self.selected].name.is_none() {
                    self.fail(String::from_str(SaveError::NoPath.message()));
                } else {
                    requests.push(Request::SaveAsRoot);
                    assert(request_views(requests@) =~= seq![RequestView::SaveAsRoot]);
                }
            },
            Message::SaveAs(path) => {
                let previous = self.buffers[self.selected].name.clone();
                assert(text_of(previous) == before.current().name);
                self.buffers[self.selected].name = Some(path.clone());
                match self.buffers[self.selected].save() {
                    Ok(_) => {
                        proof {
                            assert(self@.buffers =~= before.buffers.update(
                                before.selected as int,
                                BufferState { name: Some(path@), ..before.current() },
                            ));
                        }
                        requests.push(Request::SaveAs { path: path.clone(), previous });
                        assert(request_views(requests@) =~= seq![
                            RequestView::SaveAs { path: path@, previous: before.current().name },
                        ]);
                    },
                    Err(error) => {
                        self.buffers[self.selected].name = previous;
                        proof {
                            assert(self@.buffers =~= before.buffers);
                        }
                        self.fail(String::from_str(error.message()));
                    },
                }
            },
            _ => {},
        }
        requests
    }

    /// Carries out the command `msg`, given at time `now`, without asking
    /// the utility window. Gives what is left for the controller to do.
    pub fn update_inner(&mut self, msg: &Message, now: u128) -> (requests: Vec<Request>)
        requires
            old(self).wf(),
        ensures
            final(self).wf(),
            final(self)@ == old(self)@.after(msg@, now),
            request_views(requests@) == old(self)@.requests(msg@, now),
    {
        let buffer_level = msg.is_buffer_command();
        match msg {
            Message::Double(first, second) => {
                self.last_error = false;
                let mut requests: Vec<Request> = Vec::new();
                requests.push(Request::Dispatch(first.duplicate()));
                requests.push(Request::DispatchIfOk(second.duplicate()));
                assert(request_views(requests@) =~= old(self)@.requests(msg@, now));
                requests
            },
            Message::Many(messages) => {
                self.last_error = false;
                proof {
                    lemma_many_view(*messages);
                }
                as_dispatches(messages)
            },
            Message::OpenHelp | Message::OpenFind | Message::OpenShell | Message::DeveloperKey
            | Message::CloseUtility | Message::SaveAsRootConfirmation => {
                self.apply_window(msg, now);
                let requests: Vec<Request> = Vec::new();
                assert(request_views(requests@) =~= Seq::empty());
                requests
            },
            Message::Save | Message::SaveAs(_) | Message::SaveAsRoot => self.apply_save(msg, now),
            _ => {
                if buffer_level {
                    self.apply_to_buffer(msg, now)
                } else {
                    self.apply_rest(msg, now)
                }
            },
        }
    }

    /// Carries out one of the remaining commands.
    fn apply_rest(&mut self, msg: &Message, now: u128) -> (requests: Vec<Request>)
        requires
            old(self).wf(),
            !is_buffer_command(msg@),
            !(msg@ is OpenHelp || msg@ is OpenFind || msg@ is OpenShell || msg@ is DeveloperKey
                || msg@ is CloseUtility || msg@ is SaveAsRootConfirmation),
            !(msg@ is Save || msg@ is SaveAs || msg@ is SaveAsRoot),
        ensures
            final(self).wf(),
            final(self)@ == old(self)@.after(msg@, now),
            request_views(requests@) == old(self)@.requests(msg@, now),
    {
        self.last_error = false;
        let mut requests: Vec<Request> = Vec::new();
        assert(request_views(requests@) =~= Seq::empty());
        let ghost before = self@;
        match msg {
            Message::NextBuffer => {
                let count = self.buffers.len();
                self.selected = if self.selected + 1 < count {
                    self.selected + 1
                } else {
                    0
                };
            },
            Message::PreviousBuffer => {
                let count = self.buffers.len();
                self.selected = if self.selected > 0 {
                    self.selected - 1
                } else {
                    count - 1
                };
            },
            Message::QuitNoSave => {
                self.running = false;
            },
            Message::Quit => {
                requests.push(Request::Dirty);
                assert(request_views(requests@) =~= seq![RequestView::Dirty]);
            },
            Message::Escape => {
                requests.push(Request::Dispatch(Message::CloseUtility));
                assert(request_views(requests@) =~= seq![
                    RequestView::Dispatch(MessageView::CloseUtility),
                ]);
            },
            Message::Resize(width, height) => {
                self.viewport = Size { width: *width, height: *height };
            },
            Message::Notification(content, style) => {
                self.notify(content.clone(), *style);
            },
            Message::PasteClipboard => {
                requests.push(Request::PasteClipboard);
                assert(request_views(requests@) =~= seq![RequestView::PasteClipboard]);
            },
            Message::Suspend => {
                requests.push(Request::Suspend);
                assert(request_views(requests@) =~= seq![RequestView::Suspend]);
            },
            Message::NewEmptyBuffer => {
                self.buffers.push(Buffer::empty());
                self.selected = self.buffers.len() - 1;
                proof {
                    assert(self@.buffers =~= before.buffers.push(fresh_state()));
                }
            },
            Message::ToggleMouseCapture => {
                self.mouse_capture = !self.mouse_capture;
                requests.push(Request::MouseCapture(self.mouse_capture));
                assert(request_views(requests@) =~= seq![
                    RequestView::MouseCapture(self.mouse_capture),
                ]);
            },
            _ => {},
        }
        requests
    }

    /// Carries out the command `msg` of the user, given at time `now`,
    /// when the notice had or had not `expired`. The utility window, if
    /// one is open, gets the command first and may take it for itself or
    /// put another in its place.
    pub fn update_at(&mut self, msg: Message, now: u128, expired: bool) -> (requests: Vec<Request>)
        requires
            old(self).wf(),
        ensures
            final(self).wf(),
            final(self)@ == old(self)@.after_input(msg@, now, expired),
            request_views(requests@) == old(self)@.input_requests(msg@, now, expired),
    {
        if expired {
            self.notification = None;
        }
        let action = match &mut self.utility {
            Some(window) => window.update(msg, &self.shell_history),
            None => UtilityAction::Forward(msg),
        };
        match action {
            UtilityAction::Forward(rest) => self.update_inner(&rest, now),
            UtilityAction::Run(command) => {
                let mut requests: Vec<Request> = Vec::new();
                requests.push(Request::RunShell(command));
                assert(request_views(requests@) =~= seq![RequestView::RunShell(command@)]);
                requests
            },
            UtilityAction::Nothing => {
                let requests: Vec<Request> = Vec::new();
                assert(request_views(requests@) =~= Seq::empty());
                requests
            },
        }
    }

    /// Carries out the command `msg` of the user at the time that the
    /// clock shows.
    pub fn update(&mut self, msg: Message) -> (requests: Vec<Request>)
        requires
            old(self).wf(),
        ensures
            final(self).wf(),
            exists|now: u128, expired: bool|
                final(self)@ == old(self)@.after_input(msg@, now, expired)
                    && request_views(requests@) == old(self)@.input_requests(msg@, now, expired),
    {
        let expired = match &self.notification {
            Some(notice) => notice.expired(),
            None => false,
        };
        let now = self.buffers[self.selected].undo.now();
        self.update_at(msg, now, expired)
    }

    /// Takes note of whether the current buffer differs from what is
    /// stored, which a command to quit asked for: with changes to save the
    /// user is asked, else the editor closes. `None` says that it could
    /// not be found out.
    pub fn quit(&mut self, dirty: Option<bool>)
        ensures
            final(self)@ == old(self)@.quitting(dirty),
            final(self).buffers == old(self).buffers,
            final(self).selected == old(self).selected,
    {
        match dirty {
            Some(true) => {
                match &self.utility {
                    Some(UtilityWindow::SaveAs(_)) => {},
                    _ => {
                        self.utility = Some(
                            UtilityWindow::Confirm(
                                ConfirmModel::new(
                                    String::from_str(UNSAVED_QUESTION),
                                    make_unsaved_choices(),
                                ),
                            ),
                        );
                    },
                }
            },
            _ => {
                self.running = false;
            },
        }
    }

    /// Takes note of how saving went: of the success, or of the failure
    /// that `failure` tells of.
    pub fn saved(&mut self, failure: Option<String>)
        ensures
            final(self)@ == (match failure {
                Some(text) => old(self)@.failed(text@),
                None => old(self)@.noticed("Saved"@, success_look()),
            }),
            final(self).buffers == old(self).buffers,
    {
        match failure {
            Some(text) => self.fail(text),
            None => self.notify(String::from_str("Saved"), success_style()),
        }
    }

    /// Takes note of how saving with the rights of the administrator
    /// went.
    pub fn saved_as_root(&mut self, failure: Option<String>)
        ensures
            final(self)@ == (match failure {
                Some(text) => old(self)@.failed(text@),
                None => old(self)@.noticed("Saved as root"@, warning_look()),
            }),
            final(self).buffers == old(self).buffers,
    {
        match failure {
            Some(text) => self.fail(text),
            None => self.notify(String::from_str("Saved as root"), warning_style()),
        }
    }

    /// Takes note of how saving under the new name `path` went. After a
    /// failure the buffer has its name of before, `previous`, again.
    pub fn saved_as(&mut self, path: String, previous: Option<String>, failure: Option<String>)
        requires
            old(self).wf(),
        ensures
            final(self).wf(),
            final(self)@ == (match failure {
                Some(text) => old(self)@.with_current(
                    BufferState { name: text_of(previous), ..old(self)@.current() },
                ).failed(text@),
                None => old(self)@.noticed("Saved as "@ + path@, success_look()),
            }),
    {
        let ghost before = self@;
        match failure {
            Some(text) => {
                self.buffers[self.selected].name = previous;
                proof {
                    assert(self@.buffers =~= before.buffers.update(
                        before.selected as int,
                        BufferState { name: text_of(previous), ..before.current() },
                    ));
                }
                self.fail(text);
            },
            None => {
                let mut content = String::from_str("Saved as ");
                content.append(path.as_str());
                self.notify(content, success_style());
            },
        }
    }

    /// Takes what was read from the clipboard, to be pasted, or shows why
    /// it could not be read.
    pub fn clipboard_read(&mut self, contents: Result<String, String>) -> (requests: Vec<Request>)
        ensures
            final(self).buffers == old(self).buffers,
            match contents {
                Ok(text) => final(self)@ == old(self)@ && request_views(requests@) == seq![
                    RequestView::Dispatch(MessageView::Paste(text@)),
                ],
                Err(why) => final(self)@ == old(self)@.noticed(why@, error_look())
                    && request_views(requests@) == Seq::<RequestView>::empty(),
            },
    {
        let mut requests: Vec<Request> = Vec::new();
        match contents {
            Ok(text) => {
                let ghost read = text@;
                requests.push(Request::Dispatch(Message::Paste(text)));
                assert(request_views(requests@) =~= seq![
                    RequestView::Dispatch(MessageView::Paste(read)),
                ]);
            },
            Err(why) => {
                self.notify(why, error_style());
                assert(request_views(requests@) =~= Seq::<RequestView>::empty());
            },
        }
        requests
    }

    /// Takes note that the command of the shell window was run, or failed
    /// to run: the window starts anew, and a command that was run becomes
    /// the last of the history, in which it stands once. Without a shell
    /// window nothing changes.
    pub fn shell_finished(&mut self, ran: bool)
        ensures
            final(self).buffers == old(self).buffers,
            match old(self)@.utility {
                Some(UtilityView::Shell(entry, at)) => {
                    &&& ran ==> final(self)@.shell_history.len() > 0
                        && final(self)@.shell_history.last()@ == entry
                        && final(self)@.shell_history.drop_last() == without(
                        old(self)@.shell_history,
                        entry,
                        0,
                    )
                    &&& !ran ==> final(self)@.shell_history == old(self)@.shell_history
                    &&& final(self)@ == (ModelView {
                        utility: Some(
                            UtilityView::Shell(
                                Seq::empty(),
                                if ran {
                                    final(self)@.shell_history.len() as usize
                                } else {
                                    at
                                },
                            ),
                        ),
                        shell_history: final(self)@.shell_history,
                        ..old(self)@
                    })
                },
                _ => final(self)@ == old(self)@,
            },
    {
        let ghost before = self@;
        match &mut self.utility {
            Some(UtilityWindow::Shell(shell)) => {
                shell.finished(&mut self.shell_history, ran);
            },
            _ => {},
        }
        proof {
            if ran && before.utility is Some && before.utility->Some_0 is Shell {
                assert(self@.shell_history.drop_last() =~= without(
                    before.shell_history,
                    before.utility->Some_0->Shell_0,
                    0,
                ));
            }
        }
    }

    /// Whether a command that waits for the one before it to succeed is
    /// to be carried out.
    pub fn may_go_on(&self) -> (go: bool)
        ensures
            go == !self.last_error,
    {
        !self.last_error
    }
}

/// The colours of a notice that tells of a success.
pub open spec fn success_look() -> Style {
    Style { fg: Some(Color::White), bg: Some(Color::Rgb(0, 180, 0)) }
}

/// The colours of a notice that warns.
pub open spec fn warning_look() -> Style {
    Style { fg: Some(Color::White), bg: Some(Color::Yellow) }
}

} // verus!
