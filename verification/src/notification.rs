//! Notices shown to the user, and the colours they come in.

use crate::clock::clock_nanos_since;
use crate::clock::clock_now;
use std::time::Instant;
use vstd::prelude::*;

verus! {

/// For how long a notice is shown, in nanoseconds.
pub const TIMEOUT_BASE: u128 = 1_000_000_000;

/// A terminal colour.
#[derive(Debug, Clone, Copy, PartialEq, Eq, Structural)]
pub enum Color {
    /// The colour of the terminal itself.
    Reset,
    Black,
    Red,
    Green,
    Yellow,
    White,
    /// Red, green and blue.
    Rgb(u8, u8, u8),
}

/// The colours of a piece of text: where one is `None`, nothing is asked
/// of the terminal.
#[derive(Debug, Clone, Copy, PartialEq, Eq, Structural)]
pub struct Style {
    pub fg: Option<Color>,
    pub bg: Option<Color>,
}

/// The colours of a notice that tells of a failure.
pub fn error_style() -> (style: Style)
    ensures
        style == (Style { fg: Some(Color::White), bg: Some(Color::Rgb(200, 0, 0)) }),
{
    Style { fg: Some(Color::White), bg: Some(Color::Rgb(200, 0, 0)) }
}

/// The colours of a notice that tells of a success.
pub fn success_style() -> (style: Style)
    ensures
        style == (Style { fg: Some(Color::White), bg: Some(Color::Rgb(0, 180, 0)) }),
{
    Style { fg: Some(Color::White), bg: Some(Color::Rgb(0, 180, 0)) }
}

/// The colours of a notice that warns.
pub fn warning_style() -> (style: Style)
    ensures
        style == (Style { fg: Some(Color::White), bg: Some(Color::Yellow) }),
{
    Style { fg: Some(Color::White), bg: Some(Color::Yellow) }
}

/// A notice to the user.
pub struct Notification {
    /// When the notice was made.
    pub timestamp: Instant,
    pub content: String,
    pub style: Style,
    pub top: usize,
}

impl Notification {
    /// A notice made now.
    pub fn new(content: String, style: Style) -> (notice: Notification)
        ensures
            notice.content == content,
            notice.style == style,
            notice.top == 0,
    {
        Notification { timestamp: clock_now(), content, style, top: 0 }
    }

    /// Whether a notice that was made `elapsed` nanoseconds ago is no
    /// longer shown.
    pub fn timed_out(elapsed: u128) -> (over: bool)
        ensures
            over == (elapsed > TIMEOUT_BASE),
    {
        elapsed > TIMEOUT_BASE
    }

    /// Whether the notice is no longer shown, by the clock of the machine.
    pub fn expired(&self) -> bool {
        Notification::timed_out(clock_nanos_since(&self.timestamp))
    }
}

} // verus!
