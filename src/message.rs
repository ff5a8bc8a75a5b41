//! Messages exchanged with the model.
use vstd::prelude::*;

verus! {

/// Who authored a message of the conversation.
#[derive(Clone, Copy, Debug, PartialEq, Eq, Structural)]
pub enum Role {
    System,
    User,
    Assistant,
}

/// One entry of the conversation: its author and its text.
#[derive(Clone, Debug)]
pub struct Message {
    pub role: Role,
    pub content: String,
}

/// A message with its text as a character sequence.
pub struct MessageView {
    pub role: Role,
    pub content: Seq<char>,
}

impl View for Message {
    type V = MessageView;

    open spec fn view(&self) -> MessageView {
        MessageView { role: self.role, content: self.content@ }
    }
}

/// The views of a sequence of messages.
pub open spec fn message_views(ms: Seq<Message>) -> Seq<MessageView> {
    ms.map_values(|m: Message| m@)
}

impl Message {
    /// A message with the given author and text.
    pub fn new(role: Role, content: String) -> (m: Message)
        ensures
            m@ == (MessageView { role, content: content@ }),
    {
        Message { role, content }
    }

    /// A message authored by the user, or written on the user's behalf.
    pub fn user(content: String) -> (m: Message)
        ensures
            m@ == (MessageView { role: Role::User, content: content@ }),
    {
        Message { role: Role::User, content }
    }

    /// A message authored by the model.
    pub fn assistant(content: String) -> (m: Message)
        ensures
            m@ == (MessageView { role: Role::Assistant, content: content@ }),
    {
        Message { role: Role::Assistant, content }
    }

    /// A copy of this message.
    pub fn duplicate(&self) -> (m: Message)
        ensures
            m@ == self@,
    {
        Message { role: self.role, content: self.content.clone() }
    }
}

/// Copies of the messages `ms`, in order.
pub fn copy_messages(ms: &Vec<Message>) -> (r: Vec<Message>)
    ensures
        message_views(r@) == message_views(ms@),
{
    let mut r: Vec<Message> = Vec::new();
    let mut i: usize = 0;
    while i < ms.len()
        invariant
            i <= ms@.len(),
            message_views(r@) == message_views(ms@.take(i as int)),
        decreases ms@.len() - i,
    {
        let m = ms[i].duplicate();
        proof {
            assert(message_views(r@.push(m)) =~= message_views(r@).push(m@));
            assert(message_views(ms@.take(i + 1)) =~= message_views(ms@.take(i as int)).push(
                ms@[i as int]@,
            ));
        }
        r.push(m);
        i = i + 1;
    }
    assert(ms@.take(i as int) =~= ms@);
    r
}

} // verus!
