//! What the keys and the mouse mean.

use crate::model::Message;
use crate::model::MessageView;
use vstd::prelude::*;

verus! {

/// A key.
#[derive(Debug, Clone, Copy, PartialEq, Eq, Structural)]
pub enum KeyCode {
    Char(char),
    Esc,
    Enter,
    Left,
    Right,
    Up,
    Down,
    PageUp,
    PageDown,
    Backspace,
    Delete,
    /// A function key.
    F(u8),
    /// Any other key.
    Other,
}

/// What happened to a key.
#[derive(Debug, Clone, Copy, PartialEq, Eq, Structural)]
pub enum KeyEventKind {
    Press,
    Repeat,
    Release,
}

/// A key and what happened to it, with the modifiers held.
#[derive(Debug, Clone, Copy, PartialEq, Eq, Structural)]
pub struct KeyEvent {
    pub code: KeyCode,
    pub kind: KeyEventKind,
    pub alt: bool,
    pub control: bool,
}

/// What happened to the mouse.
#[derive(Debug, Clone, Copy, PartialEq, Eq, Structural)]
pub enum MouseEventKind {
    ScrollDown,
    ScrollUp,
    /// The left button went down.
    LeftDown,
    /// Anything else.
    Other,
}

/// What happened to the mouse, and where.
#[derive(Debug, Clone, Copy, PartialEq, Eq, Structural)]
pub struct MouseEvent {
    pub kind: MouseEventKind,
    pub column: u16,
    pub row: u16,
}

/// The keys that are held down.
#[derive(Debug, Clone, Copy, PartialEq, Eq, Structural)]
pub struct EventState {
    /// For word jumping
    pub space_down: bool,
    /// For reverse word jumping with space
    pub movement_key_down: Option<char>,
}

impl Default for EventState {
    fn default() -> (state: EventState)
        ensures
            state == (EventState { space_down: false, movement_key_down: None }),
    {
        EventState { space_down: false, movement_key_down: None }
    }
}

/// Whether the space key is held after `key`.
pub open spec fn space_after(key: KeyEvent, down: bool) -> bool {
    if key.code == KeyCode::Char(' ') {
        if key.kind == KeyEventKind::Release {
            false
        } else if key.kind == KeyEventKind::Press {
            true
        } else {
            down
        }
    } else {
        down
    }
}

/// Which of the movement keys `j` and `f` is held after `key`.
pub open spec fn movement_after(key: KeyEvent, held: Option<char>) -> Option<char> {
    match key.code {
        KeyCode::Char(c) => if c == 'j' || c == 'f' {
            if key.kind == KeyEventKind::Press {
                Some(c)
            } else if key.kind == KeyEventKind::Release && held == Some(c) {
                None
            } else {
                held
            }
        } else {
            held
        },
        _ => held,
    }
}

/// The keys held after `key`.
pub open spec fn state_after(key: KeyEvent, state: EventState) -> EventState {
    EventState {
        space_down: space_after(key, state.space_down),
        movement_key_down: movement_after(key, state.movement_key_down),
    }
}

/// What a key means that is pressed with alt, while the keys of `held`
/// are held.
pub open spec fn alt_message(key: KeyEvent, held: EventState) -> Option<MessageView> {
    match key.code {
        KeyCode::Char(c) => if c == 'u' {
            Some(MessageView::PageUp)
        } else if c == 'p' {
            Some(MessageView::PageDown)
        } else if c == 'i' {
            Some(MessageView::MoveUp)
        } else if c == 'n' {
            Some(MessageView::MoveDown)
        } else if c == 'j' {
            if held.space_down || key.control {
                Some(MessageView::JumpWordRight)
            } else {
                Some(MessageView::MoveRight)
            }
        } else if c == 'f' {
            if held.space_down || key.control {
                Some(MessageView::JumpWordLeft)
            } else {
                Some(MessageView::MoveLeft)
            }
        } else if c == 'a' {
            Some(MessageView::JumpStartOfLine)
        } else if c == 'e' {
            Some(MessageView::JumpEndOfLine)
        } else if c == ' ' {
            if held.movement_key_down == Some('j') {
                Some(MessageView::JumpWordRight)
            } else if held.movement_key_down == Some('f') {
                Some(MessageView::JumpWordLeft)
            } else {
                None
            }
        } else {
            None
        },
        _ => None,
    }
}

/// What a key means that is pressed with control.
pub open spec fn control_message(key: KeyEvent) -> Option<MessageView> {
    match key.code {
        KeyCode::Right => Some(MessageView::NextBuffer),
        KeyCode::Left => Some(MessageView::PreviousBuffer),
        KeyCode::Char(c) => if c == 'q' {
            Some(MessageView::Quit)
        } else if c == 's' {
            Some(MessageView::Save)
        } else if c == 'h' {
            Some(MessageView::OpenHelp)
        } else if c == 'f' {
            Some(MessageView::OpenFind)
        } else if c == 'b' {
            Some(MessageView::OpenShell)
        } else {
            None
        },
        _ => None,
    }
}

/// What a key means that is pressed alone.
pub open spec fn plain_message(key: KeyEvent) -> Option<MessageView> {
    match key.code {
        KeyCode::Esc => Some(MessageView::Escape),
        KeyCode::Char(c) => Some(MessageView::InsertChar(c)),
        KeyCode::Enter => Some(MessageView::Enter),
        KeyCode::Left => Some(MessageView::MoveLeft),
        KeyCode::Right => Some(MessageView::MoveRight),
        KeyCode::Up => Some(MessageView::MoveUp),
        KeyCode::Down => Some(MessageView::MoveDown),
        KeyCode::PageUp => Some(MessageView::PageUp),
        KeyCode::PageDown => Some(MessageView::PageDown),
        KeyCode::Backspace => Some(MessageView::Backspace),
        KeyCode::Delete => Some(MessageView::Delete),
        KeyCode::F(n) => if n == 12 {
            Some(MessageView::DeveloperKey)
        } else {
            None
        },
        KeyCode::Other => None,
    }
}

/// What `key` means while the keys of `held` are held: nothing for a key
/// that is let go, else what it means with alt, with control or alone.
pub open spec fn key_message(key: KeyEvent, held: EventState) -> Option<MessageView> {
    if key.kind == KeyEventKind::Release {
        None
    } else if key.alt {
        alt_message(key, held)
    } else if key.control {
        control_message(key)
    } else {
        plain_message(key)
    }
}

/// What a key means that is pressed with alt.
fn alt_key(key: KeyEvent, held: EventState) -> (message: Option<Message>)
    ensures
        match message {
            Some(m) => alt_message(key, held) == Some(m@),
            None => alt_message(key, held) is None,
        },
{
    match key.code {
        KeyCode::Char(c) => {
            if c == 'u' {
                Some(Message::PageUp)
            } else if c == 'p' {
                Some(Message::PageDown)
            } else if c == 'i' {
                Some(Message::MoveUp)
            } else if c == 'n' {
                Some(Message::MoveDown)
            } else if c == 'j' {
                if held.space_down || key.control {
                    Some(Message::JumpWordRight)
                } else {
                    Some(Message::MoveRight)
                }
            } else if c == 'f' {
                if held.space_down || key.control {
                    Some(Message::JumpWordLeft)
                } else {
                    Some(Message::MoveLeft)
                }
            } else if c == 'a' {
                Some(Message::JumpStartOfLine)
            } else if c == 'e' {
                Some(Message::JumpEndOfLine)
            } else if c == ' ' {
                match held.movement_key_down {
                    Some(m) => if m == 'j' {
                        Some(Message::JumpWordRight)
                    } else if m == 'f' {
                        Some(Message::JumpWordLeft)
                    } else {
                        None
                    },
                    None => None,
                }
            } else {
                None
            }
        },
        _ => None,
    }
}

/// What a key means that is pressed with control.
fn control_key(key: KeyEvent) -> (message: Option<Message>)
    ensures
        match message {
            Some(m) => control_message(key) == Some(m@),
            None => control_message(key) is None,
        },
{
    match key.code {
        KeyCode::Right => Some(Message::NextBuffer),
        KeyCode::Left => Some(Message::PreviousBuffer),
        KeyCode::Char(c) => {
            if c == 'q' {
                Some(Message::Quit)
            } else if c == 's' {
                Some(Message::Save)
            } else if c == 'h' {
                Some(Message::OpenHelp)
            } else if c == 'f' {
                Some(Message::OpenFind)
            } else if c == 'b' {
                Some(Message::OpenShell)
            } else {
                None
            }
        },
        _ => None,
    }
}

/// What a key means that is pressed alone.
fn plain_key(key: KeyEvent) -> (message: Option<Message>)
    ensures
        match message {
            Some(m) => plain_message(key) == Some(m@),
            None => plain_message(key) is None,
        },
{
    match key.code {
        KeyCode::Esc => Some(Message::Escape),
        KeyCode::Char(c) => Some(Message::InsertChar(c)),
        KeyCode::Enter => Some(Message::Enter),
        KeyCode::Left => Some(Message::MoveLeft),
        KeyCode::Right => Some(Message::MoveRight),
        KeyCode::Up => Some(Message::MoveUp),
        KeyCode::Down => Some(Message::MoveDown),
        KeyCode::PageUp => Some(Message::PageUp),
        KeyCode::PageDown => Some(Message::PageDown),
        KeyCode::Backspace => Some(Message::Backspace),
        KeyCode::Delete => Some(Message::Delete),
        KeyCode::F(n) => if n == 12 {
            Some(Message::DeveloperKey)
        } else {
            None
        },
        KeyCode::Other => None,
    }
}

/// Takes note of the keys that are held, and gives the command that the
/// key stands for.
pub fn handle_key(key: KeyEvent, state: &mut EventState) -> (message: Option<Message>)
    ensures
        *final(state) == state_after(key, *old(state)),
        match message {
            Some(m) => key_message(key, *final(state)) == Some(m@),
            None => key_message(key, *final(state)) is None,
        },
{
    match key.code {
        KeyCode::Char(c) => {
            if c == ' ' {
                if state.space_down && key.kind == KeyEventKind::Release {
                    state.space_down = false;
                }
                if !state.space_down && key.kind == KeyEventKind::Press {
                    state.space_down = true;
                }
            }
            if c == 'j' || c == 'f' {
                match key.kind {
                    KeyEventKind::Press => {
                        state.movement_key_down = Some(c);
                    },
                    KeyEventKind::Release => {
                        if state.movement_key_down == Some(c) {
                            state.movement_key_down = None;
                        }
                    },
                    KeyEventKind::Repeat => {},
                }
            }
        },
        _ => {},
    }
    if key.kind == KeyEventKind::Press || key.kind == KeyEventKind::Repeat {
        if key.alt {
            alt_key(key, *state)
        } else if key.control {
            control_key(key)
        } else {
            plain_key(key)
        }
    } else {
        None
    }
}

/// What the mouse means: the wheel scrolls, the left button places the
/// cursor.
pub open spec fn mouse_message(mouse: MouseEvent) -> Option<MessageView> {
    match mouse.kind {
        MouseEventKind::ScrollDown => Some(MessageView::ScrollDown),
        MouseEventKind::ScrollUp => Some(MessageView::ScrollUp),
        MouseEventKind::LeftDown => Some(MessageView::MouseLeft(mouse.column, mouse.row)),
        MouseEventKind::Other => None,
    }
}

/// Gives the command that the mouse asks for.
pub fn handle_mouse(mouse: MouseEvent) -> (message: Option<Message>)
    ensures
        match message {
            Some(m) => mouse_message(mouse) == Some(m@),
            None => mouse_message(mouse) is None,
        },
{
    match mouse.kind {
        MouseEventKind::ScrollDown => Some(Message::ScrollDown),
        MouseEventKind::ScrollUp => Some(Message::ScrollUp),
        MouseEventKind::LeftDown => Some(Message::MouseLeft(mouse.column, mouse.row)),
        MouseEventKind::Other => None,
    }
}

} // verus!
