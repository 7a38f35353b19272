//! The window that asks the user to choose.

use crate::model::Message;
use crate::model::MessageView;
use vstd::prelude::*;

verus! {

/// A question and the keys that answer it, each with the command that it
/// stands for.
pub struct ConfirmModel {
    pub msg: String,
    pub choices: Vec<(char, Message)>,
}

/// What the choices of a list say.
pub open spec fn choice_views(choices: Seq<(char, Message)>) -> Seq<(char, MessageView)> {
    Seq::new(choices.len(), |i: int| (choices[i].0, choices[i].1@))
}

/// The index of the first of `choices` from `from` on that the key `c`
/// answers, or the number of choices.
pub open spec fn choice_of(choices: Seq<(char, MessageView)>, c: char, from: int) -> int
    decreases choices.len() - from,
{
    if from < 0 || from >= choices.len() {
        choices.len() as int
    } else if choices[from].0 == c {
        from
    } else {
        choice_of(choices, c, from + 1)
    }
}

/// What a confirm window with `choices` makes of the command `msg`: a key
/// that answers closes the window and gives the command that it stands
/// for; any other key is swallowed; every other command is handed on.
pub open spec fn confirm_answer(choices: Seq<(char, MessageView)>, msg: MessageView) -> Option<
    MessageView,
> {
    match msg {
        MessageView::InsertChar(c) => {
            let at = choice_of(choices, c, 0);
            if 0 <= at < choices.len() {
                Some(
                    MessageView::Double(
                        Box::new(MessageView::CloseUtility),
                        Box::new(choices[at].1),
                    ),
                )
            } else {
                None
            }
        },
        _ => Some(msg),
    }
}

impl ConfirmModel {
    /// A window that asks `msg` and offers `choices`.
    pub fn new(msg: String, choices: Vec<(char, Message)>) -> (model: ConfirmModel)
        ensures
            model.msg == msg,
            model.choices == choices,
    {
        ConfirmModel { msg, choices }
    }

    /// A key that answers closes the window and gives the command that it
    /// stands for; any other key is swallowed. Every other command is
    /// handed on.
    pub fn update(&mut self, msg: Message) -> (rest: Option<Message>)
        ensures
            final(self).msg == old(self).msg,
            final(self).choices == old(self).choices,
            match rest {
                Some(answer) => confirm_answer(choice_views(old(self).choices@), msg@) == Some(
                    answer@,
                ),
                None => confirm_answer(choice_views(old(self).choices@), msg@) is None,
            },
    {
        proof {
            reveal_with_fuel(Message::model, 2);
        }
        match msg {
            Message::InsertChar(c) => {
                let at = self.find_choice(c);
                if at < self.choices.len() {
                    Some(
                        Message::Double(
                            Box::new(Message::CloseUtility),
                            Box::new(self.choices[at].1.duplicate()),
                        ),
                    )
                } else {
                    None
                }
            },
            other => Some(other),
        }
    }

    /// The index of the first choice that the key `c` answers, or the
    /// number of choices.
    pub fn find_choice(&self, c: char) -> (at: usize)
        ensures
            at == choice_of(choice_views(self.choices@), c, 0),
            at <= self.choices@.len(),
    {
        let mut i: usize = 0;
        while i < self.choices.len() && self.choices[i].0 != c
            invariant
                i <= self.choices@.len(),
                choice_of(choice_views(self.choices@), c, 0) == choice_of(
                    choice_views(self.choices@),
                    c,
                    i as int,
                ),
            decreases self.choices@.len() - i,
        {
            i = i + 1;
        }
        i
    }
}

} // verus!
