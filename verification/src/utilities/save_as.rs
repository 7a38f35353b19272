//! The window that asks under which name to save.

use crate::model::Message;
use crate::model::MessageView;
use crate::utilities::entry_after;
use crate::utilities::entry_takes;
use crate::utilities::EntryModel;
use vstd::prelude::*;

verus! {

/// The save-as window: the path typed so far.
pub struct SaveAsModel {
    pub entry: EntryModel,
}

/// What the save-as window, whose entry holds `text`, makes of the command
/// `msg`: enter closes the window and saves under the path typed, unless
/// that is empty; what the entry took gives nothing; every other command is
/// handed on.
pub open spec fn save_as_answer(text: Seq<char>, msg: MessageView) -> Option<MessageView> {
    if entry_takes(msg) {
        None
    } else if msg is Enter {
        if text.len() > 0 {
            Some(
                MessageView::Double(
                    Box::new(MessageView::CloseUtility),
                    Box::new(MessageView::SaveAs(text)),
                ),
            )
        } else {
            None
        }
    } else {
        Some(msg)
    }
}

impl SaveAsModel {
    /// A save-as window with an empty entry.
    pub fn new() -> (model: SaveAsModel)
        ensures
            model.entry.text@ == Seq::<char>::empty(),
    {
        SaveAsModel { entry: EntryModel::new() }
    }

    /// Feeds the entry and answers as `save_as_answer` says.
    pub fn update(&mut self, msg: Message) -> (rest: Option<Message>)
        ensures
            final(self).entry.text@ == entry_after(old(self).entry.text@, msg@),
            match rest {
                Some(answer) => save_as_answer(old(self).entry.text@, msg@) == Some(answer@),
                None => save_as_answer(old(self).entry.text@, msg@) is None,
            },
    {
        proof {
            reveal_with_fuel(Message::model, 2);
        }
        match self.entry.update(msg) {
            Some(Message::Enter) => {
                if !self.entry.text.as_str().is_empty() {
                    Some(
                        Message::Double(
                            Box::new(Message::CloseUtility),
                            Box::new(Message::SaveAs(self.entry.text.clone())),
                        ),
                    )
                } else {
                    None
                }
            },
            Some(other) => Some(other),
            None => None,
        }
    }
}

} // verus!
