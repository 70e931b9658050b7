//! A conversation, as long as the application runs.
use vstd::prelude::*;
use crate::message::{clone_messages, message_views, text_message, Message, MessageView, Role};

verus! {

/// The messages of a conversation.
#[derive(Debug)]
pub struct Session {
    messages: Vec<Message>,
}

impl View for Session {
    type V = Seq<MessageView>;

    closed spec fn view(&self) -> Seq<MessageView> {
        message_views(self.messages@)
    }
}

/// Whether neither the user nor the assistant has said anything in a conversation.
pub open spec fn nothing_said(messages: Seq<MessageView>) -> bool {
    !(exists|i: int|
        0 <= i < messages.len() && ((#[trigger] messages[i]).role == Role::User || messages[i].role
            == Role::Assistant))
}

impl Session {
    /// A conversation without messages.
    pub fn new() -> (r: Self)
        ensures
            r@ == Seq::<MessageView>::empty(),
    {
        let messages: Vec<Message> = Vec::new();
        assert(message_views(messages@) =~= Seq::<MessageView>::empty());
        Session { messages }
    }

    /// The conversation with these messages.
    pub fn from_messages(messages: Vec<Message>) -> (r: Self)
        ensures
            r@ == message_views(messages@),
    {
        Session { messages }
    }

    /// Whether there is no message of the user or of the assistant yet.
    pub fn is_empty(&self) -> (r: bool)
        ensures
            r == nothing_said(self@),
    {
        let mut i: usize = 0;
        while i < self.messages.len()
            invariant
                i <= self.messages.len(),
                forall|j: int|
                    0 <= j < i ==> (#[trigger] self@[j]).role != Role::User && self@[j].role
                        != Role::Assistant,
            decreases self.messages.len() - i,
        {
            let role = self.messages[i].role;
            assert(self@[i as int].role == role);
            if role == Role::User || role == Role::Assistant {
                return false;
            }
            i = i + 1;
        }
        true
    }

    /// A copy of the messages.
    pub fn history(&self) -> (r: Vec<Message>)
        ensures
            message_views(r@) == self@,
    {
        clone_messages(&self.messages)
    }

    /// Adds a message of the user.
    pub fn push_user(&mut self, content: &str)
        ensures
            final(self)@ == old(self)@.push(text_message(Role::User, content@)),
    {
        let ghost before = self.messages@;
        let m = Message::user(content);
        self.messages.push(m);
        assert(message_views(self.messages@) =~= message_views(before).push(m@));
    }

    /// Adds the messages of a turn.
    pub fn extend(&mut self, messages: Vec<Message>)
        ensures
            final(self)@ == old(self)@ + message_views(messages@),
    {
        let ghost before = self.messages@;
        let mut more = messages;
        self.messages.append(&mut more);
        assert(message_views(self.messages@) =~= message_views(before) + message_views(messages@));
    }
}

impl Default for Session {
    fn default() -> (r: Self)
        ensures
            r@ == Seq::<MessageView>::empty(),
    {
        Session::new()
    }
}

impl Clone for Session {
    fn clone(&self) -> (r: Self)
        ensures
            r@ == self@,
    {
        Session { messages: clone_messages(&self.messages) }
    }
}

/// A conversation in which the user or the assistant says something is one in which something was
/// said, whatever came before and behind; what the application says does not count.
pub proof fn what_is_said_counts(
    before: Seq<MessageView>,
    m: MessageView,
    behind: Seq<MessageView>,
)
    ensures
        m.role == Role::User || m.role == Role::Assistant ==> !nothing_said(
            before.push(m) + behind,
        ),
        nothing_said(before) && m.role == Role::System ==> nothing_said(before.push(m)),
        nothing_said(seq![]),
{
    let all = before.push(m) + behind;
    assert(all[before.len() as int] == m);
    if nothing_said(before) && m.role == Role::System {
        let t = before.push(m);
        assert forall|i: int| 0 <= i < t.len() implies (#[trigger] t[i]).role != Role::User
            && t[i].role != Role::Assistant by {
            if i < before.len() {
                assert(t[i] == before[i]);
            }
        }
    }
}

} // verus!
