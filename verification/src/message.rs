//! The messages of a conversation and the tool calls that they carry.
use vstd::prelude::*;
use crate::text::{opt_view, owned};

verus! {

/// The author of a message.
#[derive(Debug, Clone, Copy, PartialEq, Eq, Structural)]
pub enum Role {
    System,
    User,
    Assistant,
    /// The result of a tool, handed back to the model.
    Tool,
}

/// The name and the arguments (JSON, as text) of a tool call.
#[derive(Debug)]
pub struct FunctionCall {
    pub name: String,
    pub arguments: String,
}

/// What a [`FunctionCall`] holds.
pub struct FunctionCallView {
    pub name: Seq<char>,
    pub arguments: Seq<char>,
}

impl View for FunctionCall {
    type V = FunctionCallView;

    open spec fn view(&self) -> FunctionCallView {
        FunctionCallView { name: self.name@, arguments: self.arguments@ }
    }
}

impl Clone for FunctionCall {
    fn clone(&self) -> (r: Self)
        ensures
            r == *self,
    {
        FunctionCall { name: self.name.clone(), arguments: self.arguments.clone() }
    }
}

/// A tool call that the model asks for.
#[derive(Debug)]
pub struct ToolCall {
    pub id: String,
    pub kind: String,
    pub function: FunctionCall,
}

/// What a [`ToolCall`] holds.
pub struct ToolCallView {
    pub id: Seq<char>,
    pub kind: Seq<char>,
    pub function: FunctionCallView,
}

impl View for ToolCall {
    type V = ToolCallView;

    open spec fn view(&self) -> ToolCallView {
        ToolCallView { id: self.id@, kind: self.kind@, function: self.function@ }
    }
}

impl Clone for ToolCall {
    fn clone(&self) -> (r: Self)
        ensures
            r == *self,
    {
        ToolCall { id: self.id.clone(), kind: self.kind.clone(), function: self.function.clone() }
    }
}

/// The views of a list of tool calls.
pub open spec fn call_views(calls: Seq<ToolCall>) -> Seq<ToolCallView> {
    calls.map_values(|c: ToolCall| c@)
}

/// A message of the conversation.
///
/// A message of the assistant may carry `tool_calls`; one with the role [`Role::Tool`] carries a
/// result, tied to its call by `tool_call_id`. `reasoning` holds the chain of thought of models
/// that send it.
#[derive(Debug)]
pub struct Message {
    pub role: Role,
    pub content: String,
    pub tool_calls: Vec<ToolCall>,
    pub tool_call_id: Option<String>,
    pub reasoning: Option<String>,
}

/// What a [`Message`] holds.
#[verifier::ext_equal]
pub struct MessageView {
    pub role: Role,
    pub content: Seq<char>,
    pub tool_calls: Seq<ToolCallView>,
    pub tool_call_id: Option<Seq<char>>,
    pub reasoning: Option<Seq<char>>,
}

impl View for Message {
    type V = MessageView;

    open spec fn view(&self) -> MessageView {
        MessageView {
            role: self.role,
            content: self.content@,
            tool_calls: call_views(self.tool_calls@),
            tool_call_id: opt_view(self.tool_call_id),
            reasoning: opt_view(self.reasoning),
        }
    }
}

impl Clone for Message {
    fn clone(&self) -> (r: Self)
        ensures
            r@ == self@,
    {
        let tool_calls = clone_calls(&self.tool_calls);
        Message {
            role: self.role,
            content: self.content.clone(),
            tool_calls,
            tool_call_id: self.tool_call_id.clone(),
            reasoning: self.reasoning.clone(),
        }
    }
}

/// The views of a list of messages.
pub open spec fn message_views(messages: Seq<Message>) -> Seq<MessageView> {
    messages.map_values(|m: Message| m@)
}

/// A copy of a list of tool calls.
pub fn clone_calls(calls: &Vec<ToolCall>) -> (r: Vec<ToolCall>)
    ensures
        call_views(r@) == call_views(calls@),
{
    let mut out: Vec<ToolCall> = Vec::new();
    let mut i: usize = 0;
    while i < calls.len()
        invariant
            i <= calls.len(),
            out@.len() == i,
            forall|j: int| 0 <= j < i ==> out@[j] == calls@[j],
        decreases calls.len() - i,
    {
        out.push(calls[i].clone());
        i = i + 1;
    }
    assert(call_views(out@) =~= call_views(calls@));
    out
}

/// A copy of a list of messages.
pub fn clone_messages(messages: &Vec<Message>) -> (r: Vec<Message>)
    ensures
        message_views(r@) == message_views(messages@),
{
    let mut out: Vec<Message> = Vec::new();
    let mut i: usize = 0;
    while i < messages.len()
        invariant
            i <= messages.len(),
            out@.len() == i,
            forall|j: int| 0 <= j < i ==> out@[j]@ == messages@[j]@,
        decreases messages.len() - i,
    {
        out.push(messages[i].clone());
        i = i + 1;
    }
    assert(message_views(out@) =~= message_views(messages@));
    out
}

/// A message that holds nothing but a text.
pub open spec fn text_message(role: Role, content: Seq<char>) -> MessageView {
    MessageView { role, content, tool_calls: seq![], tool_call_id: None, reasoning: None }
}

/// A message of the assistant that asks for tools.
pub open spec fn calls_message(content: Seq<char>, tool_calls: Seq<ToolCallView>) -> MessageView {
    MessageView {
        role: Role::Assistant,
        content,
        tool_calls,
        tool_call_id: None,
        reasoning: None,
    }
}

/// A message with the result of a tool.
pub open spec fn result_message(tool_call_id: Seq<char>, content: Seq<char>) -> MessageView {
    MessageView {
        role: Role::Tool,
        content,
        tool_calls: seq![],
        tool_call_id: Some(tool_call_id),
        reasoning: None,
    }
}

/// `m` with `reasoning` put in, unless that is empty.
pub open spec fn reasoned(m: MessageView, reasoning: Seq<char>) -> MessageView {
    if reasoning.len() == 0 {
        m
    } else {
        MessageView { reasoning: Some(reasoning), ..m }
    }
}

impl Message {
    /// A message of the system.
    pub fn system(content: &str) -> (r: Self)
        ensures
            r@ == text_message(Role::System, content@),
    {
        Message::text(Role::System, content)
    }

    /// A message of the user.
    pub fn user(content: &str) -> (r: Self)
        ensures
            r@ == text_message(Role::User, content@),
    {
        Message::text(Role::User, content)
    }

    /// A message of the assistant.
    pub fn assistant(content: &str) -> (r: Self)
        ensures
            r@ == text_message(Role::Assistant, content@),
    {
        Message::text(Role::Assistant, content)
    }

    /// A message of the assistant that asks for tools.
    pub fn assistant_tool_calls(content: &str, tool_calls: Vec<ToolCall>) -> (r: Self)
        ensures
            r@ == calls_message(content@, call_views(tool_calls@)),
    {
        Message {
            role: Role::Assistant,
            content: owned(content),
            tool_calls,
            tool_call_id: None,
            reasoning: None,
        }
    }

    /// The result of the tool call `tool_call_id`.
    pub fn tool_result(tool_call_id: &str, content: &str) -> (r: Self)
        ensures
            r@ == result_message(tool_call_id@, content@),
    {
        Message {
            role: Role::Tool,
            content: owned(content),
            tool_calls: Vec::new(),
            tool_call_id: Some(owned(tool_call_id)),
            reasoning: None,
        }
    }

    /// The message with the chain of thought of its step. An empty text leaves it as it is.
    pub fn with_reasoning(self, reasoning: &str) -> (r: Self)
        ensures
            r@ == reasoned(self@, reasoning@),
    {
        let mut m = self;
        if !reasoning.is_empty() {
            m.reasoning = Some(owned(reasoning));
        }
        m
    }

    fn text(role: Role, content: &str) -> (r: Self)
        ensures
            r@ == text_message(role, content@),
    {
        Message {
            role,
            content: owned(content),
            tool_calls: Vec::new(),
            tool_call_id: None,
            reasoning: None,
        }
    }
}

} // verus!
