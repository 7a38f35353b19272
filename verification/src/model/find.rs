//! The find utility and widget

use crate::model::Message;
use crate::text::bytes_of;
use crate::text::spliced;
use crate::text::string_insert;
use vstd::prelude::*;
use vstd::utf8::*;

verus! {

/// The text searched for and the byte offset at which the next character
/// goes in.
pub struct FindUtility {
    pub query: String,
    pub position: usize,
}

impl FindUtility {
    /// A find utility with an empty query.
    pub fn new() -> (utility: FindUtility)
        ensures
            utility.query@ == Seq::<char>::empty(),
            utility.position == 0,
    {
        FindUtility { query: String::new(), position: 0 }
    }

    /// A character typed goes into the query at the position, which moves
    /// on by one. Every command is swallowed.
    pub fn update(&mut self, msg: Message) -> (rest: Option<Message>)
        requires
            msg@ is InsertChar,
            is_char_boundary(bytes_of(&old(self).query), old(self).position as int),
            old(self).position < usize::MAX,
        ensures
            bytes_of(&final(self).query) == spliced(
                bytes_of(&old(self).query),
                old(self).position as int,
                encode_utf8(seq![msg@->InsertChar_0]),
            ),
            final(self).position == old(self).position + 1,
            rest is None,
    {
        match msg {
            Message::InsertChar(chr) => {
                string_insert(&mut self.query, self.position, chr);
                self.position = self.position + 1;
            },
            _ => {},
        }
        None
    }
}

} // verus!
