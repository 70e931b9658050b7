//! A provider that is reached over the interface that most of them share.
use vstd::prelude::*;
use crate::agent::ToolSpec;
use crate::message::{message_views, Message, MessageView, Role};
use crate::search::{contains, occurs_in};
use crate::text::{concat2, owned};

verus! {

/// Why a provider failed.
#[derive(Debug)]
pub enum Error {
    Http(String),
    Decode(String),
    Auth(String),
    Oauth(String),
}

/// What an [`Error`] holds.
pub enum ErrorView {
    Http(Seq<char>),
    Decode(Seq<char>),
    Auth(Seq<char>),
    Oauth(Seq<char>),
}

impl View for Error {
    type V = ErrorView;

    open spec fn view(&self) -> ErrorView {
        match self {
            Error::Http(s) => ErrorView::Http(s@),
            Error::Decode(s) => ErrorView::Decode(s@),
            Error::Auth(s) => ErrorView::Auth(s@),
            Error::Oauth(s) => ErrorView::Oauth(s@),
        }
    }
}

/// The text of an error.
pub open spec fn error_text(e: ErrorView) -> Seq<char> {
    match e {
        ErrorView::Http(s) => "error de transporte HTTP: "@ + s,
        ErrorView::Decode(s) => "error decodificando la respuesta del proveedor: "@ + s,
        ErrorView::Auth(s) => "error de auth: "@ + s,
        ErrorView::Oauth(s) => "error del flujo OAuth: "@ + s,
    }
}

impl Error {
    /// The text of the error.
    pub fn text(&self) -> (r: String)
        ensures
            r@ == error_text(self@),
    {
        match self {
            Error::Http(s) => concat2("error de transporte HTTP: ", s.as_str()),
            Error::Decode(s) => concat2(
                "error decodificando la respuesta del proveedor: ",
                s.as_str(),
            ),
            Error::Auth(s) => concat2("error de auth: ", s.as_str()),
            Error::Oauth(s) => concat2("error del flujo OAuth: ", s.as_str()),
        }
    }
}

// ── Requests ──────────────────────────────────────────────────────────────────

/// `m` with an empty chain of thought, where it is of the assistant and has none.
pub open spec fn thought_filled(m: MessageView) -> MessageView {
    if m.role == Role::Assistant && m.reasoning is None {
        MessageView { reasoning: Some(seq![]), ..m }
    } else {
        m
    }
}

/// The messages as the provider at `base_url` wants them: one of the providers insists on a chain
/// of thought in every message of the assistant.
pub open spec fn prepared(base_url: Seq<char>, messages: Seq<MessageView>) -> Seq<MessageView> {
    if occurs_in(base_url, "deepseek"@) {
        messages.map_values(|m: MessageView| thought_filled(m))
    } else {
        messages
    }
}

/// A request for a reply.
#[derive(Debug)]
pub struct ChatRequest {
    pub model: String,
    pub messages: Vec<Message>,
    /// Whether the reply is to come in pieces.
    pub stream: bool,
    /// The tools on offer; left out where there are none.
    pub tools: Option<Vec<ToolSpec>>,
}

/// A client for a provider.
#[derive(Debug)]
pub struct OpenAiCompatible {
    api_key: String,
    base_url: String,
}

/// What an [`OpenAiCompatible`] holds.
pub struct ClientView {
    pub api_key: Seq<char>,
    pub base_url: Seq<char>,
}

impl View for OpenAiCompatible {
    type V = ClientView;

    closed spec fn view(&self) -> ClientView {
        ClientView { api_key: self.api_key@, base_url: self.base_url@ }
    }
}

impl Clone for OpenAiCompatible {
    fn clone(&self) -> (r: Self)
        ensures
            r@ == self@,
    {
        OpenAiCompatible { api_key: self.api_key.clone(), base_url: self.base_url.clone() }
    }
}

impl OpenAiCompatible {
    /// A client for the provider at `base_url`.
    pub fn new(api_key: &str, base_url: &str) -> (r: Self)
        ensures
            r@ == (ClientView { api_key: api_key@, base_url: base_url@ }),
    {
        OpenAiCompatible { api_key: owned(api_key), base_url: owned(base_url) }
    }

    /// The key of the client.
    pub fn api_key(&self) -> (r: &str)
        ensures
            r@ == self@.api_key,
    {
        self.api_key.as_str()
    }

    /// Where a request is sent.
    pub fn endpoint(&self) -> (r: String)
        ensures
            r@ == self@.base_url + "/chat/completions"@,
    {
        concat2(self.base_url.as_str(), "/chat/completions")
    }

    /// The messages as the provider wants them.
    fn prepare(&self, messages: Vec<Message>) -> (r: Vec<Message>)
        ensures
            message_views(r@) == prepared(self@.base_url, message_views(messages@)),
    {
        if !contains(self.base_url.as_str(), "deepseek") {
            return messages;
        }
        let ghost want = prepared(self@.base_url, message_views(messages@));
        let mut out: Vec<Message> = Vec::new();
        let mut i: usize = 0;
        while i < messages.len()
            invariant
                i <= messages.len(),
                out@.len() == i,
                occurs_in(self@.base_url, "deepseek"@),
                want == prepared(self@.base_url, message_views(messages@)),
                forall|j: int| 0 <= j < i ==> (#[trigger] out@[j])@ == want[j],
            decreases messages.len() - i,
        {
            let mut m = messages[i].clone();
            if m.role == Role::Assistant && m.reasoning.is_none() {
                m.reasoning = Some(String::new());
                assert(m@.reasoning == Some(Seq::<char>::empty()));
            }
            assert(m@ =~= thought_filled(messages@[i as int]@));
            assert(m@ == want[i as int]);
            out.push(m);
            i = i + 1;
        }
        assert(message_views(out@) =~= want);
        out
    }

    /// The request for a reply of `model` to `messages`, with `tools` on offer.
    pub fn request(&self, model: &str, messages: Vec<Message>, tools: Vec<ToolSpec>) -> (r:
        ChatRequest)
        ensures
            r.model@ == model@,
            message_views(r.messages@) == prepared(self@.base_url, message_views(messages@)),
            r.stream,
            r.tools is None <==> tools@.len() == 0,
            r.tools matches Some(t) ==> t == tools,
    {
        ChatRequest {
            model: owned(model),
            messages: self.prepare(messages),
            stream: true,
            tools: if tools.len() == 0 {
                None
            } else {
                Some(tools)
            },
        }
    }
}

} // verus!
