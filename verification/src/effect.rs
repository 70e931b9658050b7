//! What the application does.
use vstd::prelude::*;
use crate::agent::AgentKind;
use crate::dialogs::{opt_place, option_views, row_views, ModelOption, ModelOptionView, ProviderRow,
    ProviderRowView};
use crate::diff::{file_views, DiffFile, DiffFileView};
use crate::history::{history_views, HistoryRow, HistoryRowView};
use crate::message::{message_views, Message, MessageView, Role};
use crate::msg::{Msg, MsgView};
use crate::text::{opt_view, views};
use crate::uri::pair_views;

verus! {

/// Where a way back is offered: at the tool that was set aside, at the last tool, or at the end
/// of the chat.
#[derive(Debug, Clone, Copy, PartialEq, Eq, Structural)]
pub enum CardSlot {
    Held,
    Current,
    Chat,
}

/// A text with a place.
pub open spec fn opt_placed(p: Option<(String, usize)>) -> Option<(Seq<char>, nat)> {
    match p {
        Some((s, i)) => Some((s@, i as nat)),
        None => None,
    }
}

/// Something that is done outside: on the screen, in the database, with the model.
#[derive(Debug)]
pub enum Effect {
    /// Let this happen next.
    Post(Msg),
    /// Show the list of sessions anew, with this row selected.
    RebuildSessions { selected: Option<usize> },
    /// Prepare snapshots of `workdir`, kept in `git_dir`.
    OpenSnapshots { workdir: String, git_dir: String },
    /// Find out what changed: since this snapshot, or in the repository of the user.
    LoadPatch(Option<String>),
    /// Empty the chat.
    ClearChat,
    /// Empty the panel of changes.
    ClearChanges,
    /// Load the messages of a session.
    LoadSession(i64),
    /// Show these rows in the chat.
    RenderHistory(Vec<HistoryRow>),
    /// Create a session.
    CreateSession { project_id: i64, title: String, agent: AgentKind, preferred: Option<String> },
    /// Ask whether the session is to be deleted.
    ConfirmDelete { id: i64, body: String },
    /// Delete a session.
    DeleteSession(i64),
    /// Keep the profile of a session.
    StoreAgent { id: i64, agent: AgentKind },
    /// Keep the model of a session.
    StoreModel { id: i64, model: String },
    /// Let the user choose a model.
    PickModel { current: String, options: Vec<ModelOption> },
    /// Show the palette.
    OpenPalette { show_reasoning: bool },
    /// Send the palette away.
    ClosePalette,
    /// Let the user type.
    FocusEntry,
    /// Show the accounts: provider and kind.
    ShowSettings(Vec<(String, String)>),
    /// Let the user choose a provider.
    ShowConnect(Vec<ProviderRow>),
    /// Connect the account of the user by way of the browser.
    StartOauth,
    /// Ask for the key for a provider.
    AskApiKey(String),
    /// Keep the credentials, then say so.
    SaveAuth { toast: String },
    /// Add a text to the chat.
    Bubble { role: Role, text: String },
    /// Keep a message of the user, and with it the title of the session.
    SaveUserMessage { session_id: i64, text: String, new_title: Option<String> },
    /// Let the agent answer.
    RunTurn { agent: AgentKind, model: String, history: Vec<Message> },
    /// Add a reply to the chat.
    OpenBubble,
    /// Show the reply so far, as plain text.
    BubbleText(String),
    /// Show the whole reply, as Markdown.
    FillBubble(String),
    /// Show an error in place of the reply, as markup.
    BubbleError(String),
    /// Add a chain of thought to the chat.
    OpenThought { show: bool, summary: String },
    /// Show the chain of thought so far.
    ThoughtText(String),
    /// Show that the chain of thought is complete.
    CloseThought(String),
    /// Show or hide the chains of thought.
    ShowThoughts(bool),
    /// Add a tool to the chat.
    ToolCard { name: String, invocation: String, output: String },
    /// Show a text as what the tool says.
    ToolText(String),
    /// Show markup as what the tool says.
    ToolMarkup(String),
    /// Ask this in the chat, for consent.
    PermissionControls(String),
    /// Keep the messages of a turn, their durations, and the snapshot with the message at its
    /// place.
    SaveTurn {
        session_id: i64,
        messages: Vec<Message>,
        durations: Vec<Option<u64>>,
        snapshot: Option<(String, usize)>,
    },
    /// Set the last tool aside: a way back is about to be offered there.
    HoldCard,
    /// Offer the way back to before a message.
    AttachRevert { message_id: i64, slot: CardSlot },
    /// Show what changed.
    ShowChanges(Vec<DiffFile>),
    /// Show or hide the bar that leads from file to file.
    NavBar(bool),
    /// Show which file is in view, and whether there is one before and after.
    NavLabel { markup: String, prev: bool, next: bool },
    /// Bring a file into view.
    ScrollToFile(usize),
    /// Find out which files differ from a snapshot.
    PreviewRevert(String),
    /// Ask whether these files are to go back to a snapshot.
    ConfirmRevert { hash: String, files: Vec<String>, body: String },
    /// Say something in passing.
    Toast(String),
    /// Leave.
    Quit,
    /// Bring the controls up to date.
    Refresh,
    /// Bring the end of the chat into view.
    ScrollToBottom,
}

/// What an [`Effect`] holds.
#[verifier::ext_equal]
pub enum EffectView {
    Post(MsgView),
    RebuildSessions { selected: Option<nat> },
    OpenSnapshots { workdir: Seq<char>, git_dir: Seq<char> },
    LoadPatch(Option<Seq<char>>),
    ClearChat,
    ClearChanges,
    LoadSession(i64),
    RenderHistory(Seq<HistoryRowView>),
    CreateSession { project_id: i64, title: Seq<char>, agent: AgentKind, preferred: Option<Seq<char>> },
    ConfirmDelete { id: i64, body: Seq<char> },
    DeleteSession(i64),
    StoreAgent { id: i64, agent: AgentKind },
    StoreModel { id: i64, model: Seq<char> },
    PickModel { current: Seq<char>, options: Seq<ModelOptionView> },
    OpenPalette { show_reasoning: bool },
    ClosePalette,
    FocusEntry,
    ShowSettings(Seq<(Seq<char>, Seq<char>)>),
    ShowConnect(Seq<ProviderRowView>),
    StartOauth,
    AskApiKey(Seq<char>),
    SaveAuth { toast: Seq<char> },
    Bubble { role: Role, text: Seq<char> },
    SaveUserMessage { session_id: i64, text: Seq<char>, new_title: Option<Seq<char>> },
    RunTurn { agent: AgentKind, model: Seq<char>, history: Seq<MessageView> },
    OpenBubble,
    BubbleText(Seq<char>),
    FillBubble(Seq<char>),
    BubbleError(Seq<char>),
    OpenThought { show: bool, summary: Seq<char> },
    ThoughtText(Seq<char>),
    CloseThought(Seq<char>),
    ShowThoughts(bool),
    ToolCard { name: Seq<char>, invocation: Seq<char>, output: Seq<char> },
    ToolText(Seq<char>),
    ToolMarkup(Seq<char>),
    PermissionControls(Seq<char>),
    SaveTurn {
        session_id: i64,
        messages: Seq<MessageView>,
        durations: Seq<Option<u64>>,
        snapshot: Option<(Seq<char>, nat)>,
    },
    HoldCard,
    AttachRevert { message_id: i64, slot: CardSlot },
    ShowChanges(Seq<DiffFileView>),
    NavBar(bool),
    NavLabel { markup: Seq<char>, prev: bool, next: bool },
    ScrollToFile(nat),
    PreviewRevert(Seq<char>),
    ConfirmRevert { hash: Seq<char>, files: Seq<Seq<char>>, body: Seq<char> },
    Toast(Seq<char>),
    Quit,
    Refresh,
    ScrollToBottom,
}

impl View for Effect {
    type V = EffectView;

    open spec fn view(&self) -> EffectView {
        match self {
            Effect::Post(x) => EffectView::Post(x@),
            Effect::RebuildSessions { selected } => EffectView::RebuildSessions {
                selected: opt_place(*selected),
            },
            Effect::OpenSnapshots { workdir, git_dir } => EffectView::OpenSnapshots {
                workdir: workdir@,
                git_dir: git_dir@,
            },
            Effect::LoadPatch(x) => EffectView::LoadPatch(opt_view(*x)),
            Effect::ClearChat => EffectView::ClearChat,
            Effect::ClearChanges => EffectView::ClearChanges,
            Effect::LoadSession(x) => EffectView::LoadSession(*x),
            Effect::RenderHistory(x) => EffectView::RenderHistory(history_views(x@)),
            Effect::CreateSession { project_id, title, agent, preferred } => EffectView::CreateSession {
                project_id: *project_id,
                title: title@,
                agent: *agent,
                preferred: opt_view(*preferred),
            },
            Effect::ConfirmDelete { id, body } => EffectView::ConfirmDelete {
                id: *id,
                body: body@,
            },
            Effect::DeleteSession(x) => EffectView::DeleteSession(*x),
            Effect::StoreAgent { id, agent } => EffectView::StoreAgent {
                id: *id,
                agent: *agent,
            },
            Effect::StoreModel { id, model } => EffectView::StoreModel {
                id: *id,
                model: model@,
            },
            Effect::PickModel { current, options } => EffectView::PickModel {
                current: current@,
                options: option_views(options@),
            },
            Effect::OpenPalette { show_reasoning } => EffectView::OpenPalette {
                show_reasoning: *show_reasoning,
            },
            Effect::ClosePalette => EffectView::ClosePalette,
            Effect::FocusEntry => EffectView::FocusEntry,
            Effect::ShowSettings(x) => EffectView::ShowSettings(pair_views(x@)),
            Effect::ShowConnect(x) => EffectView::ShowConnect(row_views(x@)),
            Effect::StartOauth => EffectView::StartOauth,
            Effect::AskApiKey(x) => EffectView::AskApiKey(x@),
            Effect::SaveAuth { toast } => EffectView::SaveAuth {
                toast: toast@,
            },
            Effect::Bubble { role, text } => EffectView::Bubble {
                role: *role,
                text: text@,
            },
            Effect::SaveUserMessage { session_id, text, new_title } => EffectView::SaveUserMessage {
                session_id: *session_id,
                text: text@,
                new_title: opt_view(*new_title),
            },
            Effect::RunTurn { agent, model, history } => EffectView::RunTurn {
                agent: *agent,
                model: model@,
                history: message_views(history@),
            },
            Effect::OpenBubble => EffectView::OpenBubble,
            Effect::BubbleText(x) => EffectView::BubbleText(x@),
            Effect::FillBubble(x) => EffectView::FillBubble(x@),
            Effect::BubbleError(x) => EffectView::BubbleError(x@),
            Effect::OpenThought { show, summary } => EffectView::OpenThought {
                show: *show,
                summary: summary@,
            },
            Effect::ThoughtText(x) => EffectView::ThoughtText(x@),
            Effect::CloseThought(x) => EffectView::CloseThought(x@),
            Effect::ShowThoughts(x) => EffectView::ShowThoughts(*x),
            Effect::ToolCard { name, invocation, output } => EffectView::ToolCard {
                name: name@,
                invocation: invocation@,
                output: output@,
            },
            Effect::ToolText(x) => EffectView::ToolText(x@),
            Effect::ToolMarkup(x) => EffectView::ToolMarkup(x@),
            Effect::PermissionControls(x) => EffectView::PermissionControls(x@),
            Effect::SaveTurn { session_id, messages, durations, snapshot } => EffectView::SaveTurn {
                session_id: *session_id,
                messages: message_views(messages@),
                durations: durations@,
                snapshot: opt_placed(*snapshot),
            },
            Effect::HoldCard => EffectView::HoldCard,
            Effect::AttachRevert { message_id, slot } => EffectView::AttachRevert {
                message_id: *message_id,
                slot: *slot,
            },
            Effect::ShowChanges(x) => EffectView::ShowChanges(file_views(x@)),
            Effect::NavBar(x) => EffectView::NavBar(*x),
            Effect::NavLabel { markup, prev, next } => EffectView::NavLabel {
                markup: markup@,
                prev: *prev,
                next: *next,
            },
            Effect::ScrollToFile(x) => EffectView::ScrollToFile(*x as nat),
            Effect::PreviewRevert(x) => EffectView::PreviewRevert(x@),
            Effect::ConfirmRevert { hash, files, body } => EffectView::ConfirmRevert {
                hash: hash@,
                files: views(files@),
                body: body@,
            },
            Effect::Toast(x) => EffectView::Toast(x@),
            Effect::Quit => EffectView::Quit,
            Effect::Refresh => EffectView::Refresh,
            Effect::ScrollToBottom => EffectView::ScrollToBottom,
        }
    }
}

/// The views of a list of effects.
pub open spec fn effect_views(v: Seq<Effect>) -> Seq<EffectView> {
    v.map_values(|e: Effect| e@)
}

} // verus!
