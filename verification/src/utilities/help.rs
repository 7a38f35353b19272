//! The window that lists the key bindings.

use crate::model::Message;
use vstd::prelude::*;

verus! {

/// The help window. It holds nothing.
pub struct HelpModel();

/// What the help window shows.
pub const HELP_TEXT: &'static str =
    "Welcome to Atto!\nHere is a list of keybinds:\nC-c Copy\nC-x Cut\nC-v Paste\nC-a Select All\nA-a Start\nA-e End\nA-j Right\nA-i Up\nA-f Left\nA-n Down\nC-f Find\nC-e Command\nC-b Shell\n";

impl HelpModel {
    /// Hands every command on.
    pub fn update(&mut self, msg: Message) -> (rest: Option<Message>)
        ensures
            rest == Some(msg),
    {
        Some(msg)
    }
}

} // verus!
