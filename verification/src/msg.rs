//! What happens to the application.
use vstd::prelude::*;
use crate::agent::{AgentEvent, AgentEventView, AgentKind};
use crate::auth::{AuthInfo, AuthView};
use crate::history::{hash_views, row_messages};
use crate::message::{message_views, Message, MessageView};
use crate::snapshot::{Snapshots, SnapshotsView};
use crate::store::{meta_views, SessionMeta, SessionMetaView};
use crate::text::views;

verus! {

/// Something that happened: the user did it, or it was waited for.
#[derive(Debug)]
pub enum Msg {
    /// The project is known, and its sessions are loaded.
    Bootstrapped { project_id: i64, sessions: Vec<SessionMeta> },
    /// Snapshots of the worktree can be taken, or it is known that they cannot.
    SnapshotsReady(Snapshots),
    /// The user selected a row of the list of sessions.
    SelectIndex(usize),
    /// The messages of the session arrived, with snapshots and durations by message.
    SessionLoaded {
        messages: Vec<(i64, Message)>,
        snapshots: Vec<(i64, String)>,
        reasoning_ms: Vec<(i64, u64)>,
    },
    /// The user wants a new session.
    NewSession,
    /// The user folds or unfolds the list of sessions.
    ToggleSessionsSidebar,
    /// A session was created.
    SessionCreated(SessionMeta),
    /// The user wants to delete a session.
    DeleteSessionRequest(i64),
    /// The user meant it.
    DeleteSessionConfirmed(i64),
    /// A session was deleted.
    SessionDeleted(i64),
    /// A session got a title.
    Renamed { id: i64, title: String },
    /// The user chose a profile.
    AgentChanged(AgentKind),
    /// The user wants the other profile.
    ToggleAgent,
    /// The user wants to choose a model.
    OpenModelPicker,
    /// The user calls the palette, or sends it away.
    OpenCommandPalette,
    /// The palette is gone.
    CommandPaletteClosed,
    /// The user chose a model.
    ModelChanged(String),
    /// The user wants to see the accounts.
    OpenSettings,
    /// The user wants to connect a provider.
    OpenConnectProvider,
    /// The user chose a provider to connect.
    ConnectProvider(String),
    /// The user typed the key for a provider.
    ApiKeyEntered { provider_id: String, key: String },
    /// The account of the user is connected.
    OauthOpenAiCompleted(AuthInfo),
    /// It could not be connected.
    OauthOpenAiFailed(String),
    /// The user gives up an account.
    DisconnectProvider(String),
    /// The user shows or hides the chains of thought.
    ToggleReasoning(bool),
    /// The user sends a message.
    Send(String),
    /// A piece of the reply came.
    Delta(String),
    /// A piece of the chain of thought came.
    ReasoningDelta(String),
    /// The chain of thought is complete.
    ReasoningFinished { ms: u64 },
    /// The worktree was saved, for the message at this place of the turn.
    StepSnapshot { hash: String, message_index: usize },
    /// The snapshot of the turn is kept with its message.
    SnapshotPersisted { message_id: i64, hash: String },
    /// It is known what changed in the worktree.
    ChangesPatchLoaded(String),
    /// The user wants to see the file before.
    ChangesNavPrev,
    /// The user wants to see the next file.
    ChangesNavNext,
    /// The window has this width now.
    WindowWidthChanged(i32),
    /// A tool is about to run.
    ToolStarted { name: String, arguments: String },
    /// A tool ended.
    ToolFinished { output: String, ok: bool },
    /// A tool needs the consent of the user; the arguments of the call are laid out for display.
    PermissionRequested { tool_name: String, arguments: String },
    /// The turn is over; these are its messages.
    TurnFinished(Vec<Message>),
    /// The user wants to go back to before a message.
    Revert(i64),
    /// It is known which files that would change.
    RevertPreview { hash: String, files: Vec<String> },
    /// The worktree is as it was.
    RevertDone,
    /// Something failed.
    Failed(String),
    /// Something is to be said in passing.
    Toast(String),
    /// The user leaves.
    Quit,
}

/// What a [`Msg`] holds.
#[verifier::ext_equal]
pub enum MsgView {
    Bootstrapped { project_id: i64, sessions: Seq<SessionMetaView> },
    SnapshotsReady(SnapshotsView),
    SelectIndex(nat),
    SessionLoaded {
        messages: Seq<(i64, MessageView)>,
        snapshots: Seq<(i64, Seq<char>)>,
        reasoning_ms: Seq<(i64, u64)>,
    },
    NewSession,
    ToggleSessionsSidebar,
    SessionCreated(SessionMetaView),
    DeleteSessionRequest(i64),
    DeleteSessionConfirmed(i64),
    SessionDeleted(i64),
    Renamed { id: i64, title: Seq<char> },
    AgentChanged(AgentKind),
    ToggleAgent,
    OpenModelPicker,
    OpenCommandPalette,
    CommandPaletteClosed,
    ModelChanged(Seq<char>),
    OpenSettings,
    OpenConnectProvider,
    ConnectProvider(Seq<char>),
    ApiKeyEntered { provider_id: Seq<char>, key: Seq<char> },
    OauthOpenAiCompleted(AuthView),
    OauthOpenAiFailed(Seq<char>),
    DisconnectProvider(Seq<char>),
    ToggleReasoning(bool),
    Send(Seq<char>),
    Delta(Seq<char>),
    ReasoningDelta(Seq<char>),
    ReasoningFinished { ms: u64 },
    StepSnapshot { hash: Seq<char>, message_index: nat },
    SnapshotPersisted { message_id: i64, hash: Seq<char> },
    ChangesPatchLoaded(Seq<char>),
    ChangesNavPrev,
    ChangesNavNext,
    WindowWidthChanged(i32),
    ToolStarted { name: Seq<char>, arguments: Seq<char> },
    ToolFinished { output: Seq<char>, ok: bool },
    PermissionRequested { tool_name: Seq<char>, arguments: Seq<char> },
    TurnFinished(Seq<MessageView>),
    Revert(i64),
    RevertPreview { hash: Seq<char>, files: Seq<Seq<char>> },
    RevertDone,
    Failed(Seq<char>),
    Toast(Seq<char>),
    Quit,
}

impl View for Msg {
    type V = MsgView;

    open spec fn view(&self) -> MsgView {
        match self {
            Msg::Bootstrapped { project_id, sessions } => MsgView::Bootstrapped {
                project_id: *project_id,
                sessions: meta_views(sessions@),
            },
            Msg::SnapshotsReady(x) => MsgView::SnapshotsReady(x@),
            Msg::SelectIndex(x) => MsgView::SelectIndex(*x as nat),
            Msg::SessionLoaded { messages, snapshots, reasoning_ms } => MsgView::SessionLoaded {
                messages: row_messages(messages@),
                snapshots: hash_views(snapshots@),
                reasoning_ms: reasoning_ms@,
            },
            Msg::NewSession => MsgView::NewSession,
            Msg::ToggleSessionsSidebar => MsgView::ToggleSessionsSidebar,
            Msg::SessionCreated(x) => MsgView::SessionCreated(x@),
            Msg::DeleteSessionRequest(x) => MsgView::DeleteSessionRequest(*x),
            Msg::DeleteSessionConfirmed(x) => MsgView::DeleteSessionConfirmed(*x),
            Msg::SessionDeleted(x) => MsgView::SessionDeleted(*x),
            Msg::Renamed { id, title } => MsgView::Renamed {
                id: *id,
                title: title@,
            },
            Msg::AgentChanged(x) => MsgView::AgentChanged(*x),
            Msg::ToggleAgent => MsgView::ToggleAgent,
            Msg::OpenModelPicker => MsgView::OpenModelPicker,
            Msg::OpenCommandPalette => MsgView::OpenCommandPalette,
            Msg::CommandPaletteClosed => MsgView::CommandPaletteClosed,
            Msg::ModelChanged(x) => MsgView::ModelChanged(x@),
            Msg::OpenSettings => MsgView::OpenSettings,
            Msg::OpenConnectProvider => MsgView::OpenConnectProvider,
            Msg::ConnectProvider(x) => MsgView::ConnectProvider(x@),
            Msg::ApiKeyEntered { provider_id, key } => MsgView::ApiKeyEntered {
                provider_id: provider_id@,
                key: key@,
            },
            Msg::OauthOpenAiCompleted(x) => MsgView::OauthOpenAiCompleted(x@),
            Msg::OauthOpenAiFailed(x) => MsgView::OauthOpenAiFailed(x@),
            Msg::DisconnectProvider(x) => MsgView::DisconnectProvider(x@),
            Msg::ToggleReasoning(x) => MsgView::ToggleReasoning(*x),
            Msg::Send(x) => MsgView::Send(x@),
            Msg::Delta(x) => MsgView::Delta(x@),
            Msg::ReasoningDelta(x) => MsgView::ReasoningDelta(x@),
            Msg::ReasoningFinished { ms } => MsgView::ReasoningFinished {
                ms: *ms,
            },
            Msg::StepSnapshot { hash, message_index } => MsgView::StepSnapshot {
                hash: hash@,
                message_index: *message_index as nat,
            },
            Msg::SnapshotPersisted { message_id, hash } => MsgView::SnapshotPersisted {
                message_id: *message_id,
                hash: hash@,
            },
            Msg::ChangesPatchLoaded(x) => MsgView::ChangesPatchLoaded(x@),
            Msg::ChangesNavPrev => MsgView::ChangesNavPrev,
            Msg::ChangesNavNext => MsgView::ChangesNavNext,
            Msg::WindowWidthChanged(x) => MsgView::WindowWidthChanged(*x),
            Msg::ToolStarted { name, arguments } => MsgView::ToolStarted {
                name: name@,
                arguments: arguments@,
            },
            Msg::ToolFinished { output, ok } => MsgView::ToolFinished {
                output: output@,
                ok: *ok,
            },
            Msg::PermissionRequested { tool_name, arguments } => MsgView::PermissionRequested {
                tool_name: tool_name@,
                arguments: arguments@,
            },
            Msg::TurnFinished(x) => MsgView::TurnFinished(message_views(x@)),
            Msg::Revert(x) => MsgView::Revert(*x),
            Msg::RevertPreview { hash, files } => MsgView::RevertPreview {
                hash: hash@,
                files: views(files@),
            },
            Msg::RevertDone => MsgView::RevertDone,
            Msg::Failed(x) => MsgView::Failed(x@),
            Msg::Toast(x) => MsgView::Toast(x@),
            Msg::Quit => MsgView::Quit,
        }
    }
}

/// What an event of a turn is to the application.
pub open spec fn event_message(event: AgentEventView) -> MsgView {
    match event {
        AgentEventView::Delta(text) => MsgView::Delta(text),
        AgentEventView::ReasoningDelta(text) => MsgView::ReasoningDelta(text),
        AgentEventView::ReasoningFinished { duration_ms } => MsgView::ReasoningFinished {
            ms: duration_ms as u64,
        },
        AgentEventView::StepSnapshot { hash, message_index } => MsgView::StepSnapshot {
            hash,
            message_index,
        },
        AgentEventView::ToolStarted { name, arguments } => MsgView::ToolStarted {
            name,
            arguments,
        },
        AgentEventView::ToolFinished { output, ok, .. } => MsgView::ToolFinished { output, ok },
        AgentEventView::Turn(messages) => MsgView::TurnFinished(messages),
    }
}

/// What an event of a turn is to the application.
pub fn event_msg(event: AgentEvent) -> (r: Msg)
    ensures
        r@ == event_message(event@),
{
    match event {
        AgentEvent::Delta(text) => Msg::Delta(text),
        AgentEvent::ReasoningDelta(text) => Msg::ReasoningDelta(text),
        AgentEvent::ReasoningFinished { duration_ms } => Msg::ReasoningFinished {
            ms: duration_ms,
        },
        AgentEvent::StepSnapshot { hash, message_index } => Msg::StepSnapshot {
            hash,
            message_index,
        },
        AgentEvent::ToolStarted { name, arguments } => Msg::ToolStarted { name, arguments },
        AgentEvent::ToolFinished { output, ok, .. } => Msg::ToolFinished { output, ok },
        AgentEvent::Turn(messages) => Msg::TurnFinished(messages),
    }
}

} // verus!
