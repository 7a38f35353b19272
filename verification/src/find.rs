//! A find window that searches as the user types.

use crate::model::Message;
use crate::model::MessageView;
use crate::text::string_push;
use vstd::prelude::*;

verus! {

/// The text searched for.
pub struct FindModel {
    pub entry: String,
}

impl FindModel {
    /// A find window with an empty entry.
    pub fn new() -> (model: FindModel)
        ensures
            model.entry@ == Seq::<char>::empty(),
    {
        FindModel { entry: String::new() }
    }

    /// A character typed joins the entry, which is then searched for.
    /// Every other command is swallowed.
    pub fn update(&mut self, msg: Message) -> (rest: Option<Message>)
        ensures
            match msg@ {
                MessageView::InsertChar(c) => final(self).entry@ == old(self).entry@.push(c)
                    && rest is Some && rest->Some_0@ == MessageView::Find(final(self).entry@),
                _ => final(self).entry@ == old(self).entry@ && rest is None,
            },
    {
        match msg {
            Message::InsertChar(c) => {
                string_push(&mut self.entry, c);
                Some(Message::Find(self.entry.clone()))
            },
            _ => None,
        }
    }
}

} // verus!
