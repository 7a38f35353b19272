//! The undo history: reversible actions, grouped by the time at which they
//! were made.

use crate::clock::clock_nanos_since;
use crate::clock::clock_now;
use crate::model::Message;
use crate::model::MessageView;
use crate::model::views_of;
use std::time::Instant;
use vstd::prelude::*;

verus! {

/// For how long a group takes up further actions, in nanoseconds.
pub const GROUP_TIME_SPAN: u128 = 500_000_000;

/// An action with instructions to reverse it.
#[derive(Debug)]
pub struct ReversableAction {
    pub forward: Message,
    pub inverse: Message,
    pub position_before: usize,
    pub position_after: usize,
}

/// What an action says.
pub struct ActionView {
    pub forward: MessageView,
    pub inverse: MessageView,
    pub position_before: usize,
    pub position_after: usize,
}

impl View for ReversableAction {
    type V = ActionView;

    open spec fn view(&self) -> ActionView {
        ActionView {
            forward: self.forward@,
            inverse: self.inverse@,
            position_before: self.position_before,
            position_after: self.position_after,
        }
    }
}

impl ReversableAction {
    /// The commands that do the action again: a jump to where it was made,
    /// and the action itself.
    pub fn redo(&self) -> (pair: (Message, Message))
        ensures
            pair.0@ == MessageView::JumpPosition(self.position_before),
            pair.1@ == self.forward@,
    {
        (Message::JumpPosition(self.position_before), self.forward.duplicate())
    }

    /// The commands that take the action back: a jump to where it was
    /// made, and its inverse.
    pub fn undo(&self) -> (pair: (Message, Message))
        ensures
            pair.0@ == MessageView::JumpPosition(self.position_before),
            pair.1@ == self.inverse@,
    {
        (Message::JumpPosition(self.position_before), self.inverse.duplicate())
    }
}

/// What the actions of a list say.
pub open spec fn action_views(actions: Seq<ReversableAction>) -> Seq<ActionView> {
    Seq::new(actions.len(), |i: int| actions[i]@)
}

/// The replay that takes `actions` back: from the last to the first, for
/// each a jump to where it was made and its inverse, which is not recorded.
pub open spec fn undo_replay(actions: Seq<ActionView>) -> Seq<MessageView>
    decreases actions.len(),
{
    if actions.len() == 0 {
        Seq::empty()
    } else {
        seq![
            MessageView::JumpPosition(actions.last().position_before),
            MessageView::InhibitUndo(Box::new(actions.last().inverse)),
        ] + undo_replay(actions.drop_last())
    }
}

/// The replay that does `actions` again: from the first to the last, for
/// each a jump to where it was made and the action, which is not recorded.
pub open spec fn redo_replay(actions: Seq<ActionView>) -> Seq<MessageView>
    decreases actions.len(),
{
    if actions.len() == 0 {
        Seq::empty()
    } else {
        redo_replay(actions.drop_last()) + seq![
            MessageView::JumpPosition(actions.last().position_before),
            MessageView::InhibitUndo(Box::new(actions.last().forward)),
        ]
    }
}

/// A group of actions performed in a short time span that
/// may be undone together.
#[derive(Debug)]
pub struct UndoGroup {
    /// When the group was started, in nanoseconds of the history's clock.
    pub start_time: u128,
    pub actions: Vec<ReversableAction>,
}

/// What a group says.
pub struct GroupView {
    pub start_time: u128,
    pub actions: Seq<ActionView>,
}

impl View for UndoGroup {
    type V = GroupView;

    open spec fn view(&self) -> GroupView {
        GroupView { start_time: self.start_time, actions: action_views(self.actions@) }
    }
}

impl GroupView {
    /// Whether the group still takes up actions at time `now`.
    pub open spec fn still_valid(self, now: u128) -> bool {
        now - self.start_time < GROUP_TIME_SPAN
    }
}

impl UndoGroup {
    /// A group without actions that starts at `start_time`.
    pub fn new(start_time: u128) -> (group: UndoGroup)
        ensures
            group@ == (GroupView { start_time, actions: Seq::empty() }),
    {
        let group = UndoGroup { start_time, actions: Vec::new() };
        assert(group@.actions =~= Seq::empty());
        group
    }

    /// Whether the group still takes up actions at time `now`.
    pub fn still_valid(&self, now: u128) -> (valid: bool)
        ensures
            valid == self@.still_valid(now),
    {
        now < self.start_time || now - self.start_time < GROUP_TIME_SPAN
    }

    /// Adds an action to the group.
    pub fn push(
        &mut self,
        position_before: usize,
        position_after: usize,
        msg: Message,
        inverse: Message,
    )
        ensures
            final(self)@ == (GroupView {
                start_time: old(self)@.start_time,
                actions: old(self)@.actions.push(
                    ActionView { forward: msg@, inverse: inverse@, position_before, position_after },
                ),
            }),
    {
        self.actions.push(
            ReversableAction { forward: msg, inverse, position_before, position_after },
        );
        assert(final(self)@.actions =~= old(self)@.actions.push(
            ActionView { forward: msg@, inverse: inverse@, position_before, position_after },
        ));
    }

    /// The replay that does the actions of the group again.
    pub fn redo(&self) -> (replay: Vec<Message>)
        ensures
            views_of(replay@) == redo_replay(self@.actions),
    {
        let n = self.actions.len();
        let mut replay: Vec<Message> = Vec::new();
        let mut i: usize = 0;
        while i < n
            invariant
                n == self.actions@.len(),
                i <= n,
                views_of(replay@) == redo_replay(self@.actions.take(i as int)),
            decreases n - i,
        {
            let (jump, msg) = self.actions[i].redo();
            let ghost before = views_of(replay@);
            replay.push(jump);
            let again = Message::InhibitUndo(Box::new(msg));
            replay.push(again);
            proof {
                let done = self@.actions.take(i as int + 1);
                assert(done.drop_last() =~= self@.actions.take(i as int));
                assert(done.last() == self.actions@[i as int]@);
                assert(views_of(replay@) =~= before + seq![jump@, again@]);
            }
            i = i + 1;
        }
        assert(self@.actions.take(n as int) =~= self@.actions);
        replay
    }

    /// The replay that takes the actions of the group back.
    pub fn undo(&self) -> (replay: Vec<Message>)
        ensures
            views_of(replay@) == undo_replay(self@.actions),
    {
        let n = self.actions.len();
        let mut replay: Vec<Message> = Vec::new();
        let mut i: usize = n;
        proof {
            assert(self@.actions.take(n as int) =~= self@.actions);
            assert(views_of(replay@) + undo_replay(self@.actions) =~= undo_replay(self@.actions));
        }
        while i > 0
            invariant
                n == self.actions@.len(),
                i <= n,
                views_of(replay@) + undo_replay(self@.actions.take(i as int)) == undo_replay(
                    self@.actions,
                ),
            decreases i,
        {
            let (jump, msg) = self.actions[i - 1].undo();
            let ghost before = views_of(replay@);
            replay.push(jump);
            let back = Message::InhibitUndo(Box::new(msg));
            replay.push(back);
            proof {
                let left = self@.actions.take(i as int);
                assert(left.drop_last() =~= self@.actions.take(i - 1));
                assert(left.last() == self.actions@[i - 1]@);
                assert(views_of(replay@) =~= before + seq![jump@, back@]);
                assert(views_of(replay@) + undo_replay(left.drop_last()) =~= before + undo_replay(
                    left,
                ));
            }
            i = i - 1;
        }
        proof {
            assert(views_of(replay@) + undo_replay(self@.actions.take(0)) =~= views_of(replay@));
        }
        replay
    }
}

/// What the groups of a list say.
pub open spec fn group_views(groups: Seq<UndoGroup>) -> Seq<GroupView> {
    Seq::new(groups.len(), |i: int| groups[i]@)
}

/// The history of a buffer.
#[derive(Debug)]
pub struct UndoState {
    pub history: Vec<UndoGroup>,
    /// index of the next group
    pub index: usize,
    /// if this is set to true, nothing is recorded
    pub inhibited: bool,
    /// From when the start times of the groups count.
    pub origin: Instant,
}

/// What a history says.
pub struct UndoView {
    pub history: Seq<GroupView>,
    pub index: int,
    pub inhibited: bool,
}

impl View for UndoState {
    type V = UndoView;

    open spec fn view(&self) -> UndoView {
        UndoView {
            history: group_views(self.history@),
            index: self.index as int,
            inhibited: self.inhibited,
        }
    }
}

impl UndoView {
    /// The index lies within the history: the groups before it can be
    /// undone, those from it on can be done again.
    pub open spec fn wf(self) -> bool {
        0 <= self.index <= self.history.len()
    }

    /// Without the groups that could be done again.
    pub open spec fn burned(self) -> UndoView {
        UndoView { history: self.history.take(self.index), ..self }
    }

    /// With `action` recorded at time `now`: nothing while inhibited; else
    /// what could be done again is given up, and the action joins the last
    /// group if that is still valid, or starts a group of its own.
    pub open spec fn recorded(self, now: u128, action: ActionView) -> UndoView {
        if self.inhibited {
            self
        } else if self.index > 0 && self.history[self.index - 1].still_valid(now) {
            let last = self.history[self.index - 1];
            UndoView {
                history: self.history.take(self.index - 1).push(
                    GroupView { start_time: last.start_time, actions: last.actions.push(action) },
                ),
                ..self
            }
        } else {
            UndoView {
                history: self.history.take(self.index).push(
                    GroupView { start_time: now, actions: seq![action] },
                ),
                index: self.index + 1,
                ..self
            }
        }
    }

    /// The replay that an undo hands out: that of the group before the
    /// index, or nothing.
    pub open spec fn undo_messages(self) -> Seq<MessageView> {
        if self.index > 0 {
            undo_replay(self.history[self.index - 1].actions)
        } else {
            Seq::empty()
        }
    }

    /// After an undo: one group back, if there is one.
    pub open spec fn undone(self) -> UndoView {
        if self.index > 0 {
            UndoView { index: self.index - 1, ..self }
        } else {
            self
        }
    }

    /// The replay that a redo hands out: that of the group at the index,
    /// or nothing.
    pub open spec fn redo_messages(self) -> Seq<MessageView> {
        if self.index < self.history.len() {
            redo_replay(self.history[self.index].actions)
        } else {
            Seq::empty()
        }
    }

    /// After a redo: one group on, if there is one.
    pub open spec fn redone(self) -> UndoView {
        if self.index < self.history.len() {
            UndoView { index: self.index + 1, ..self }
        } else {
            self
        }
    }
}

impl UndoState {
    /// An empty history.
    pub fn new() -> (state: UndoState)
        ensures
            state@ == (UndoView { history: Seq::empty(), index: 0, inhibited: false }),
    {
        let state = UndoState {
            history: Vec::new(),
            index: 0,
            inhibited: false,
            origin: clock_now(),
        };
        assert(state@.history =~= Seq::empty());
        state
    }

    /// The time that the clock of this history shows, in nanoseconds.
    pub fn now(&self) -> u128 {
        clock_nanos_since(&self.origin)
    }

    /// Records an action at the time that the clock shows.
    pub fn record(
        &mut self,
        position_before: usize,
        position_after: usize,
        msg: Message,
        inverse: Message,
    )
        requires
            old(self)@.wf(),
        ensures
            final(self)@.wf(),
            exists|now: u128|
                final(self)@ == old(self)@.recorded(
                    now,
                    ActionView { forward: msg@, inverse: inverse@, position_before, position_after },
                ),
    {
        let now = self.now();
        self.record_at(now, position_before, position_after, msg, inverse);
    }

    /// Records an action at time `now`, in nanoseconds of this history's
    /// clock. Nothing is recorded while the history is inhibited. Else the
    /// groups that could be done again are given up, and the action joins
    /// the last group if that was started less than `GROUP_TIME_SPAN`
    /// before, or starts a group of its own.
    pub fn record_at(
        &mut self,
        now: u128,
        position_before: usize,
        position_after: usize,
        msg: Message,
        inverse: Message,
    )
        requires
            old(self)@.wf(),
        ensures
            final(self)@.wf(),
            final(self)@ == old(self)@.recorded(
                now,
                ActionView { forward: msg@, inverse: inverse@, position_before, position_after },
            ),
    {
        if self.inhibited {
            return ;
        }
        let ghost before = self@;
        let ghost action = ActionView {
            forward: msg@,
            inverse: inverse@,
            position_before,
            position_after,
        };
        self.burn();
        let ghost kept = self.history@;
        proof {
            assert(group_views(kept) == before.history.take(before.index));
            assert forall|i: int| 0 <= i < before.index implies (#[trigger] kept[i])@
                == before.history[i] by {
                assert(group_views(kept)[i] == before.history.take(before.index)[i]);
            }
        }
        if self.index > 0 {
            let last = self.index - 1;
            assert(kept[last as int]@ == before.history[last as int]);
            if self.history[last].still_valid(now) {
                match self.history.pop() {
                    Some(group) => {
                        let mut group = group;
                        group.push(position_before, position_after, msg, inverse);
                        self.history.push(group);
                        proof {
                            let wanted = before.recorded(now, action).history;
                            assert(self.history@.len() == wanted.len());
                            assert forall|i: int| 0 <= i < wanted.len() implies self@.history[i]
                                == wanted[i] by {
                                if i < last {
                                    assert(self.history@[i] == kept[i]);
                                }
                            }
                            assert(self@.history =~= wanted);
                        }
                    },
                    None => {},
                }
                return ;
            }
        }
        let mut group = UndoGroup::new(now);
        group.push(position_before, position_after, msg, inverse);
        assert(group@.actions =~= seq![action]);
        self.history.push(group);
        self.index = self.history.len();
        proof {
            let wanted = before.recorded(now, action).history;
            assert(self.history@.len() == wanted.len());
            assert forall|i: int| 0 <= i < wanted.len() implies self@.history[i] == wanted[i] by {
                if i < before.index {
                    assert(self.history@[i] == kept[i]);
                }
            }
            assert(self@.history =~= wanted);
        }
    }

    /// Hands out the replay that takes the last group back, and steps one
    /// group back. With nothing to undo the replay is empty and nothing
    /// changes.
    pub fn undo(&mut self) -> (replay: Vec<Message>)
        requires
            old(self)@.wf(),
        ensures
            final(self)@.wf(),
            final(self)@ == old(self)@.undone(),
            views_of(replay@) == old(self)@.undo_messages(),
    {
        if self.index > 0 {
            let replay = self.history[self.index - 1].undo();
            self.index = self.index - 1;
            replay
        } else {
            let replay: Vec<Message> = Vec::new();
            assert(views_of(replay@) =~= Seq::empty());
            replay
        }
    }

    /// Hands out the replay that does the next group again, and steps one
    /// group on. With nothing to redo the replay is empty and nothing
    /// changes.
    pub fn redo(&mut self) -> (replay: Vec<Message>)
        requires
            old(self)@.wf(),
        ensures
            final(self)@.wf(),
            final(self)@ == old(self)@.redone(),
            views_of(replay@) == old(self)@.redo_messages(),
    {
        if self.index < self.history.len() {
            let replay = self.history[self.index].redo();
            self.index = self.index + 1;
            replay
        } else {
            let replay: Vec<Message> = Vec::new();
            assert(views_of(replay@) =~= Seq::empty());
            replay
        }
    }

    /// remove any future redo's
    fn burn(&mut self)
        requires
            old(self)@.wf(),
        ensures
            final(self)@ == old(self)@.burned(),
            final(self)@.wf(),
            final(self).history@.len() == final(self).index,
    {
        self.history.truncate(self.index);
        assert(self@.history =~= old(self)@.burned().history);
    }
}

} // verus!
