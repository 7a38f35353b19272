//! The find utility

use crate::model::Message;
use crate::model::MessageView;
use crate::utilities::entry_after;
use crate::utilities::entry_takes;
use crate::utilities::EntryModel;
use vstd::prelude::*;

verus! {

/// The find window: the text searched for and how often it was found.
pub struct FindModel {
    pub entry: EntryModel,
    pub occurences: Option<usize>,
}

/// What the find window, whose entry holds `text`, makes of the command
/// `msg`: a search for the new text where the text changed and is not
/// empty; a jump to the next occurrence for the key that opens the window
/// and for enter; nothing for what the entry took; every other command as
/// it is.
pub open spec fn find_answer(text: Seq<char>, msg: MessageView) -> Option<MessageView> {
    let after = entry_after(text, msg);
    if after != text && after.len() > 0 {
        Some(MessageView::Find(after))
    } else if entry_takes(msg) {
        None
    } else if msg is OpenFind || msg is Enter {
        Some(MessageView::JumpNextHighlight)
    } else {
        Some(msg)
    }
}

impl FindModel {
    /// A find window with an empty entry.
    pub fn new() -> (model: FindModel)
        ensures
            model.entry.text@ == Seq::<char>::empty(),
            model.occurences is None,
    {
        FindModel { entry: EntryModel::new(), occurences: None }
    }

    /// Feeds the entry and answers as `find_answer` says.
    pub fn update(&mut self, msg: Message) -> (rest: Option<Message>)
        ensures
            final(self).entry.text@ == entry_after(old(self).entry.text@, msg@),
            final(self).occurences == old(self).occurences,
            match rest {
                Some(answer) => find_answer(old(self).entry.text@, msg@) == Some(answer@),
                None => find_answer(old(self).entry.text@, msg@) is None,
            },
    {
        proof {
            reveal_with_fuel(Message::model, 2);
        }
        let old = self.entry.text.clone();
        let ghost given = msg@;
        let rest = self.entry.update(msg);
        if self.entry.text != old && !self.entry.text.as_str().is_empty() {
            return Some(Message::Find(self.entry.text.clone()));
        }
        match rest {
            None => None,
            Some(Message::OpenFind) => Some(Message::JumpNextHighlight),
            Some(Message::Enter) => Some(Message::JumpNextHighlight),
            Some(other) => Some(other),
        }
    }
}

} // verus!
