//! The conversation log: who said what, in order.

use vstd::prelude::*;

verus! {

/// The speaker of a turn.
#[derive(Clone, Copy, Debug, PartialEq, Eq, Structural)]
pub enum Role {
    System,
    User,
    Assistant,
}

/// One turn of a conversation.
#[derive(Clone, Debug, PartialEq)]
pub struct Message {
    pub role: Role,
    pub content: String,
    pub name: Option<String>,
    pub tool_call_id: Option<String>,
}

/// The mathematical value of a [`Message`].
pub struct MessageView {
    pub role: Role,
    pub content: Seq<char>,
    pub name: Option<Seq<char>>,
    pub tool_call_id: Option<Seq<char>>,
}

/// The view of an optional text.
pub open spec fn opt_view(t: Option<String>) -> Option<Seq<char>> {
    match t {
        Some(s) => Some(s@),
        None => None,
    }
}

impl View for Message {
    type V = MessageView;

    open spec fn view(&self) -> MessageView {
        MessageView {
            role: self.role,
            content: self.content@,
            name: opt_view(self.name),
            tool_call_id: opt_view(self.tool_call_id),
        }
    }
}

/// A turn by `role` that says `content` and carries no name or call id.
pub open spec fn turn(role: Role, content: Seq<char>) -> MessageView {
    MessageView { role, content, name: None, tool_call_id: None }
}

/// The mathematical value of a log: the views of its turns, in order.
pub open spec fn log_of(messages: Seq<Message>) -> Seq<MessageView> {
    Seq::new(messages.len(), |i: int| messages[i]@)
}

/// A copy of an optional text.
pub fn copy_opt(t: &Option<String>) -> (r: Option<String>)
    ensures
        opt_view(r) == opt_view(*t),
{
    match t {
        Some(s) => Some(s.clone()),
        None => None,
    }
}

impl Message {
    /// A turn by `role` that says `content`.
    pub fn new(role: Role, content: String) -> (m: Message)
        ensures
            m@ == turn(role, content@),
    {
        Message { role, content, name: None, tool_call_id: None }
    }

    /// A system turn.
    pub fn system(content: String) -> (m: Message)
        ensures
            m@ == turn(Role::System, content@),
    {
        Message::new(Role::System, content)
    }

    /// A user turn.
    pub fn user(content: String) -> (m: Message)
        ensures
            m@ == turn(Role::User, content@),
    {
        Message::new(Role::User, content)
    }

    /// An assistant turn.
    pub fn assistant(content: String) -> (m: Message)
        ensures
            m@ == turn(Role::Assistant, content@),
    {
        Message::new(Role::Assistant, content)
    }

    /// A copy of the turn.
    pub fn copy(&self) -> (m: Message)
        ensures
            m@ == self@,
    {
        Message {
            role: self.role,
            content: self.content.clone(),
            name: copy_opt(&self.name),
            tool_call_id: copy_opt(&self.tool_call_id),
        }
    }
}

} // verus!
