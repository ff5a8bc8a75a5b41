//! The bounded log of the conversation with the model.
use crate::message::{copy_messages, message_views, Message, MessageView};
use vstd::prelude::*;

verus! {

/// `h` after appending `m` under the bound `limit`: when the log grows past
/// the bound, its two oldest entries leave together.
pub open spec fn appended(h: Seq<MessageView>, m: MessageView, limit: nat) -> Seq<MessageView> {
    let grown = h.push(m);
    if grown.len() > limit {
        grown.subrange(2, grown.len() as int)
    } else {
        grown
    }
}

/// `h` after appending each of `ms` in turn.
pub open spec fn appended_all(h: Seq<MessageView>, ms: Seq<MessageView>, limit: nat) -> Seq<
    MessageView,
>
    decreases ms.len(),
{
    if ms.len() == 0 {
        h
    } else {
        appended(appended_all(h, ms.drop_last(), limit), ms.last(), limit)
    }
}

/// Appending keeps the log within its bound; when it trims, exactly the two
/// oldest entries leave, and the rest stays in order.
pub proof fn lemma_appended_bounded(h: Seq<MessageView>, m: MessageView, limit: nat)
    requires
        2 <= limit,
        h.len() <= limit,
    ensures
        appended(h, m, limit).len() <= limit,
        appended(h, m, limit).last() == m,
        appended(h, m, limit).len() == h.len() + 1 || (appended(h, m, limit).len() == h.len() - 1
            && appended(h, m, limit) == h.subrange(2, h.len() as int).push(m)),
        appended(h, m, limit).len() == h.len() + 1 ==> appended(h, m, limit) == h.push(m),
{
    let grown = h.push(m);
    if grown.len() > limit {
        assert(grown.subrange(2, grown.len() as int) =~= h.subrange(2, h.len() as int).push(m));
    }
}

/// Appending several messages keeps the log within its bound.
pub proof fn lemma_appended_all_bounded(h: Seq<MessageView>, ms: Seq<MessageView>, limit: nat)
    requires
        2 <= limit,
        h.len() <= limit,
    ensures
        appended_all(h, ms, limit).len() <= limit,
    decreases ms.len(),
{
    if ms.len() > 0 {
        lemma_appended_all_bounded(h, ms.drop_last(), limit);
        lemma_appended_bounded(appended_all(h, ms.drop_last(), limit), ms.last(), limit);
    }
}

/// An ordered log of messages that never holds more than its bound.
#[derive(Debug)]
pub struct ConversationHistory {
    entries: Vec<Message>,
    limit: usize,
}

impl View for ConversationHistory {
    type V = Seq<MessageView>;

    closed spec fn view(&self) -> Seq<MessageView> {
        message_views(self.entries@)
    }
}

impl ConversationHistory {
    /// The most entries this log holds.
    pub closed spec fn bound(&self) -> nat {
        self.limit as nat
    }

    /// The bound is at least two and is respected.
    pub closed spec fn wf(&self) -> bool {
        2 <= self.limit && self.entries@.len() <= self.limit
    }

    /// What well-formedness says of the view.
    pub proof fn lemma_wf(&self)
        requires
            self.wf(),
        ensures
            2 <= self.bound(),
            self@.len() <= self.bound(),
    {
    }

    /// An empty log that holds at most `limit` entries.
    pub fn new(limit: usize) -> (h: ConversationHistory)
        requires
            2 <= limit,
        ensures
            h.wf(),
            h@ == Seq::<MessageView>::empty(),
            h.bound() == limit,
    {
        let h = ConversationHistory { entries: Vec::new(), limit };
        assert(h@ =~= Seq::<MessageView>::empty());
        h
    }

    /// The most entries this log holds.
    pub fn limit(&self) -> (r: usize)
        ensures
            r == self.bound(),
    {
        self.limit
    }

    /// How many entries the log holds.
    pub fn len(&self) -> (r: usize)
        ensures
            r == self@.len(),
    {
        self.entries.len()
    }

    /// Appends `m`; when the log then exceeds its bound, its two oldest
    /// entries are removed together.
    pub fn append(&mut self, m: Message)
        requires
            old(self).wf(),
        ensures
            final(self).wf(),
            final(self).bound() == old(self).bound(),
            final(self)@ == appended(old(self)@, m@, old(self).bound()),
            final(self)@.len() <= final(self).bound(),
    {
        proof {
            assert(message_views(self.entries@.push(m)) =~= message_views(self.entries@).push(m@));
        }
        self.entries.push(m);
        if self.entries.len() > self.limit {
            let ghost grown = self.entries@;
            self.entries.remove(0);
            self.entries.remove(0);
            assert(self.entries@ =~= grown.subrange(2, grown.len() as int));
            assert(message_views(self.entries@) =~= message_views(grown).subrange(
                2,
                grown.len() as int,
            ));
        }
    }

    /// Copies of the entries, oldest first.
    pub fn snapshot(&self) -> (r: Vec<Message>)
        ensures
            message_views(r@) == self@,
    {
        copy_messages(&self.entries)
    }
}

} // verus!
