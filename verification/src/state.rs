//! What the application knows.
use vstd::prelude::*;
use crate::agent::AgentKind;
use crate::catalog::{default_ref, is_reasoning, parsed_ref, ref_text, ModelRef};
use crate::dialogs::opt_place;
use crate::effect::opt_placed;
use crate::engine::{named_ref, Engine, EngineView};
use crate::history::{has_thought, hash_views};
use crate::message::{message_views, Message, MessageView, Role};
use crate::nav::{nav_of, Nav, NavView};
use crate::session::Session;
use crate::snapshot::{Snapshots, SnapshotsView};
use crate::store::{meta_views, SessionMeta, SessionMetaView};
use crate::text::{opt_view, owned, trim, trimmed, views};

verus! {

/// From which width on the window has room for the changes beside the chat.
pub const CHANGES_PANEL_BREAKPOINT: i32 = 1180;

/// What the application knows. Of what is on the screen it knows only whether it is there.
#[derive(Debug)]
pub struct AppState {
    pub engine: Engine,
    /// Whether there is a database.
    pub has_store: bool,
    pub snapshots: Option<Snapshots>,
    pub workdir: String,
    pub project_id: Option<i64>,
    /// The sessions of the project, in the order of their rows.
    pub sessions: Vec<SessionMeta>,
    pub current_session: Option<i64>,
    pub current_agent: AgentKind,
    pub current_model: String,
    /// The conversation of the session.
    pub session: Session,
    /// Whether a reply is on its way.
    pub streaming: bool,
    /// Whether a tool runs whose output is to be shown.
    pub tool_output: bool,
    /// Whether a tool of the turn is in the chat.
    pub tool_card: bool,
    /// Whether the last tool that came into the chat came there with a request for consent.
    pub asked_card: bool,
    /// Whether a tool was set aside for a way back.
    pub revertible_card: bool,
    /// The snapshot of the turn, and the place of its message there.
    pub pending_snapshot: Option<(String, usize)>,
    /// The snapshots by message.
    pub message_snapshots: Vec<(i64, String)>,
    /// The first snapshot of the session.
    pub base_snapshot: Option<String>,
    pub changes_patch: String,
    pub nav: Nav,
    /// Whether the window has room for the changes.
    pub wide_layout: bool,
    /// The reply so far.
    pub partial: String,
    pub show_reasoning: bool,
    /// Whether a chain of thought is on its way.
    pub reasoning_card: bool,
    /// The chain of thought so far.
    pub reasoning_partial: String,
    /// How long the chains of thought of the turn took.
    pub reasoning_ms_queue: Vec<u64>,
    pub sidebar_collapsed: bool,
    pub palette_open: bool,
    /// Whether a turn runs.
    pub busy: bool,
}

/// What an [`AppState`] holds.
pub struct AppView {
    pub engine: EngineView,
    pub has_store: bool,
    pub snapshots: Option<SnapshotsView>,
    pub workdir: Seq<char>,
    pub project_id: Option<i64>,
    pub sessions: Seq<SessionMetaView>,
    pub current_session: Option<i64>,
    pub current_agent: AgentKind,
    pub current_model: Seq<char>,
    pub session: Seq<MessageView>,
    pub streaming: bool,
    pub tool_output: bool,
    pub tool_card: bool,
    pub asked_card: bool,
    pub revertible_card: bool,
    pub pending_snapshot: Option<(Seq<char>, nat)>,
    pub message_snapshots: Seq<(i64, Seq<char>)>,
    pub base_snapshot: Option<Seq<char>>,
    pub changes_patch: Seq<char>,
    pub nav: NavView,
    pub wide_layout: bool,
    pub partial: Seq<char>,
    pub show_reasoning: bool,
    pub reasoning_card: bool,
    pub reasoning_partial: Seq<char>,
    pub reasoning_ms_queue: Seq<u64>,
    pub sidebar_collapsed: bool,
    pub palette_open: bool,
    pub busy: bool,
}

/// What is known of the snapshots.
pub open spec fn opt_snapshots(s: Option<Snapshots>) -> Option<SnapshotsView> {
    match s {
        Some(s) => Some(s@),
        None => None,
    }
}

impl View for AppState {
    type V = AppView;

    open spec fn view(&self) -> AppView {
        AppView {
            engine: self.engine@,
            has_store: self.has_store,
            snapshots: opt_snapshots(self.snapshots),
            workdir: self.workdir@,
            project_id: self.project_id,
            sessions: meta_views(self.sessions@),
            current_session: self.current_session,
            current_agent: self.current_agent,
            current_model: self.current_model@,
            session: self.session@,
            streaming: self.streaming,
            tool_output: self.tool_output,
            tool_card: self.tool_card,
            asked_card: self.asked_card,
            revertible_card: self.revertible_card,
            pending_snapshot: opt_placed(self.pending_snapshot),
            message_snapshots: hash_views(self.message_snapshots@),
            base_snapshot: opt_view(self.base_snapshot),
            changes_patch: self.changes_patch@,
            nav: self.nav@,
            wide_layout: self.wide_layout,
            partial: self.partial@,
            show_reasoning: self.show_reasoning,
            reasoning_card: self.reasoning_card,
            reasoning_partial: self.reasoning_partial@,
            reasoning_ms_queue: self.reasoning_ms_queue@,
            sidebar_collapsed: self.sidebar_collapsed,
            palette_open: self.palette_open,
            busy: self.busy,
        }
    }
}

/// The model to begin with, as text.
pub open spec fn default_text(e: EngineView, defined: Seq<Seq<char>>) -> Seq<char> {
    match default_ref(e.catalog, defined) {
        Some(r) => ref_text(r),
        None => seq![],
    }
}

/// What the application knows when it starts.
pub open spec fn initial(
    engine: EngineView,
    has_store: bool,
    workdir: Seq<char>,
    defined: Seq<Seq<char>>,
) -> AppView {
    AppView {
        engine,
        has_store,
        snapshots: None,
        workdir,
        project_id: None,
        sessions: seq![],
        current_session: None,
        current_agent: AgentKind::Build,
        current_model: default_text(engine, defined),
        session: seq![],
        streaming: false,
        tool_output: false,
        tool_card: false,
        asked_card: false,
        revertible_card: false,
        pending_snapshot: None,
        message_snapshots: seq![],
        base_snapshot: None,
        changes_patch: seq![],
        nav: nav_of(seq![]),
        wide_layout: false,
        partial: seq![],
        show_reasoning: false,
        reasoning_card: false,
        reasoning_partial: seq![],
        reasoning_ms_queue: seq![],
        sidebar_collapsed: false,
        palette_open: false,
        busy: false,
    }
}

/// A text without characters.
pub fn no_text() -> (r: String)
    ensures
        r@ == Seq::<char>::empty(),
{
    let s = String::new();
    assert(s@ =~= Seq::<char>::empty());
    s
}

impl AppState {
    /// What the application knows when it starts; `defined` are the variables of the environment.
    pub fn new(engine: Engine, has_store: bool, workdir: &str, defined: &Vec<String>) -> (r: Self)
        ensures
            r@ == initial(engine@, has_store, workdir@, views(defined@)),
    {
        let current_model = engine.default_model(defined);
        let sessions: Vec<SessionMeta> = Vec::new();
        let message_snapshots: Vec<(i64, String)> = Vec::new();
        let files: Vec<String> = Vec::new();
        assert(meta_views(sessions@) =~= seq![]);
        assert(hash_views(message_snapshots@) =~= seq![]);
        assert(views(files@) =~= seq![]);
        AppState {
            engine,
            has_store,
            snapshots: None,
            workdir: owned(workdir),
            project_id: None,
            sessions,
            current_session: None,
            current_agent: AgentKind::Build,
            current_model,
            session: Session::new(),
            streaming: false,
            tool_output: false,
            tool_card: false,
            asked_card: false,
            revertible_card: false,
            pending_snapshot: None,
            message_snapshots,
            base_snapshot: None,
            changes_patch: no_text(),
            nav: Nav::new(files),
            wide_layout: false,
            partial: no_text(),
            show_reasoning: false,
            reasoning_card: false,
            reasoning_partial: no_text(),
            reasoning_ms_queue: Vec::new(),
            sidebar_collapsed: false,
            palette_open: false,
            busy: false,
        }
    }
}

// ── Sessions ──────────────────────────────────────────────────────────────────

/// The row of the session `id`.
pub open spec fn place_of(sessions: Seq<SessionMetaView>, id: i64) -> Option<nat>
    decreases sessions.len(),
{
    if sessions.len() == 0 {
        None
    } else {
        match place_of(sessions.drop_last(), id) {
            Some(i) => Some(i),
            None => if sessions.last().id == id {
                Some((sessions.len() - 1) as nat)
            } else {
                None
            },
        }
    }
}

proof fn place_of_stays(sessions: Seq<SessionMetaView>, id: i64, n: int)
    requires
        0 <= n <= sessions.len(),
        place_of(sessions.take(n), id) is Some,
    ensures
        place_of(sessions, id) == place_of(sessions.take(n), id),
    decreases sessions.len() - n,
{
    if n == sessions.len() {
        assert(sessions.take(n) =~= sessions);
    } else {
        assert(sessions.take(n + 1).drop_last() =~= sessions.take(n));
        place_of_stays(sessions, id, n + 1);
    }
}

/// The row of the session `id`.
pub fn session_row(sessions: &Vec<SessionMeta>, id: i64) -> (r: Option<usize>)
    ensures
        opt_place(r) == place_of(meta_views(sessions@), id),
        r matches Some(i) ==> i < sessions@.len() && sessions@[i as int].id == id,
{
    let ghost all = meta_views(sessions@);
    let mut i: usize = 0;
    assert(all.take(0) =~= seq![]);
    while i < sessions.len()
        invariant
            i <= sessions.len(),
            all == meta_views(sessions@),
            place_of(all.take(i as int), id) is None,
        decreases sessions.len() - i,
    {
        assert(all.take(i + 1).drop_last() =~= all.take(i as int));
        assert(all.take(i + 1).last() == sessions@[i as int]@);
        if sessions[i].id == id {
            proof {
                place_of_stays(all, id, i + 1);
            }
            return Some(i);
        }
        i = i + 1;
    }
    assert(all.take(i as int) =~= all);
    None
}

/// The row of the session in use.
pub open spec fn current_place(s: AppView) -> Option<nat> {
    match s.current_session {
        Some(id) => place_of(s.sessions, id),
        None => None,
    }
}

/// The sessions without the session `id`.
pub open spec fn without(sessions: Seq<SessionMetaView>, id: i64) -> Seq<SessionMetaView>
    decreases sessions.len(),
{
    if sessions.len() == 0 {
        seq![]
    } else if sessions.last().id == id {
        without(sessions.drop_last(), id)
    } else {
        without(sessions.drop_last(), id).push(sessions.last())
    }
}

/// The sessions without the session `id`.
pub fn drop_session(sessions: &Vec<SessionMeta>, id: i64) -> (r: Vec<SessionMeta>)
    ensures
        meta_views(r@) == without(meta_views(sessions@), id),
{
    let ghost all = meta_views(sessions@);
    let mut out: Vec<SessionMeta> = Vec::new();
    assert(meta_views(out@) =~= seq![]);
    assert(all.take(0) =~= seq![]);
    let mut i: usize = 0;
    while i < sessions.len()
        invariant
            i <= sessions.len(),
            all == meta_views(sessions@),
            meta_views(out@) == without(all.take(i as int), id),
        decreases sessions.len() - i,
    {
        assert(all.take(i + 1).drop_last() =~= all.take(i as int));
        assert(all.take(i + 1).last() == sessions@[i as int]@);
        if sessions[i].id != id {
            let m = sessions[i].clone();
            let ghost before = out@;
            out.push(m);
            assert(meta_views(out@) =~= meta_views(before).push(m@));
        }
        i = i + 1;
    }
    assert(all.take(i as int) =~= all);
    out
}

/// A session that was dropped is gone; the others are there, in their order.
pub proof fn dropped_sessions_are_gone(sessions: Seq<SessionMetaView>, id: i64)
    ensures
        place_of(without(sessions, id), id) is None,
        forall|m: SessionMetaView|
            #![trigger sessions.contains(m)]
            m.id != id && sessions.contains(m) ==> without(sessions, id).contains(m),
        without(sessions, id).len() <= sessions.len(),
    decreases sessions.len(),
{
    if sessions.len() > 0 {
        let before = sessions.drop_last();
        dropped_sessions_are_gone(before, id);
        let kept = without(sessions, id);
        if sessions.last().id != id {
            assert(kept.drop_last() =~= without(before, id));
        }
        assert forall|m: SessionMetaView|
            #![trigger sessions.contains(m)]
            m.id != id && sessions.contains(m) implies kept.contains(m) by {
            let i = choose|i: int| 0 <= i < sessions.len() && sessions[i] == m;
            if i < before.len() {
                assert(before[i] == m);
                assert(before.contains(m));
                let j = choose|j: int|
                    0 <= j < without(before, id).len() && without(before, id)[j] == m;
                assert(kept[j] == m);
            } else {
                assert(kept[kept.len() - 1] == m);
            }
        }
    }
}

// ── Durations ─────────────────────────────────────────────────────────────────

/// How many of the messages are of the assistant and carry a chain of thought.
pub open spec fn thoughts_in(messages: Seq<MessageView>) -> nat
    decreases messages.len(),
{
    if messages.len() == 0 {
        0
    } else if is_thoughtful(messages.last()) {
        thoughts_in(messages.drop_last()) + 1
    } else {
        thoughts_in(messages.drop_last())
    }
}

/// Whether a message is of the assistant and carries a chain of thought.
pub open spec fn is_thoughtful(m: MessageView) -> bool {
    m.role == Role::Assistant && has_thought(m)
}

/// How long the chain of thought of each message took: the durations go to the messages that
/// carry one, in their order.
pub open spec fn assigned(messages: Seq<MessageView>, durations: Seq<u64>) -> Seq<Option<u64>> {
    Seq::new(
        messages.len(),
        |i: int|
            {
                let k = thoughts_in(messages.take(i));
                if is_thoughtful(messages[i]) && k < durations.len() {
                    Some(durations[k as int])
                } else {
                    None
                }
            },
    )
}

/// How long the chain of thought of each message took.
pub fn assign_durations(messages: &Vec<Message>, durations: &Vec<u64>) -> (r: Vec<Option<u64>>)
    ensures
        r@ == assigned(message_views(messages@), durations@),
{
    let ghost all = message_views(messages@);
    let mut out: Vec<Option<u64>> = Vec::new();
    let mut i: usize = 0;
    let mut k: usize = 0;
    assert(all.take(0) =~= seq![]);
    while i < messages.len()
        invariant
            i <= messages.len(),
            k <= i,
            all == message_views(messages@),
            k == thoughts_in(all.take(i as int)),
            out@.len() == i,
            forall|j: int| 0 <= j < i ==> out@[j] == assigned(all, durations@)[j],
        decreases messages.len() - i,
    {
        let m = &messages[i];
        assert(all[i as int] == m@);
        assert(all.take(i + 1).drop_last() =~= all.take(i as int));
        assert(all.take(i + 1).last() == m@);
        let thoughtful = m.role == Role::Assistant && (match &m.reasoning {
            Some(r) => !r.as_str().is_empty(),
            None => false,
        });
        if thoughtful && k < durations.len() {
            out.push(Some(durations[k]));
        } else {
            out.push(None);
        }
        if thoughtful {
            k = k + 1;
        }
        i = i + 1;
    }
    assert(out@ =~= assigned(all, durations@));
    out
}

// ── Controls ──────────────────────────────────────────────────────────────────

/// How the controls look.
#[derive(Debug)]
pub struct Controls {
    pub sidebar_collapsed: bool,
    /// Whether the changes are shown.
    pub show_changes: bool,
    /// Whether the user can send.
    pub ready: bool,
    /// Whether the user can choose a profile.
    pub toggles_enabled: bool,
    pub agent: AgentKind,
    pub model_label: String,
    /// Whether the user can choose a model.
    pub model_enabled: bool,
    /// Whether there is a button for the chains of thought.
    pub reasoning_visible: bool,
    pub show_reasoning: bool,
}

/// What a [`Controls`] holds.
#[verifier::ext_equal]
pub struct ControlsView {
    pub sidebar_collapsed: bool,
    pub show_changes: bool,
    pub ready: bool,
    pub toggles_enabled: bool,
    pub agent: AgentKind,
    pub model_label: Seq<char>,
    pub model_enabled: bool,
    pub reasoning_visible: bool,
    pub show_reasoning: bool,
}

impl View for Controls {
    type V = ControlsView;

    open spec fn view(&self) -> ControlsView {
        ControlsView {
            sidebar_collapsed: self.sidebar_collapsed,
            show_changes: self.show_changes,
            ready: self.ready,
            toggles_enabled: self.toggles_enabled,
            agent: self.agent,
            model_label: self.model_label@,
            model_enabled: self.model_enabled,
            reasoning_visible: self.reasoning_visible,
            show_reasoning: self.show_reasoning,
        }
    }
}

/// How the controls look. The user can send where there is a session and no turn runs; the model
/// can be chosen unless a turn runs, whether or not there is a key for it.
pub open spec fn controls_of(s: AppView) -> ControlsView {
    let ready = s.current_session is Some && !s.busy;
    ControlsView {
        sidebar_collapsed: s.sidebar_collapsed,
        show_changes: s.wide_layout && trimmed(s.changes_patch).len() > 0,
        ready,
        toggles_enabled: ready,
        agent: s.current_agent,
        model_label: if s.current_model.len() == 0 {
            "Modelo"@
        } else {
            match parsed_ref(s.current_model) {
                Some(r) => r.model_id,
                None => s.current_model,
            }
        },
        model_enabled: !s.busy,
        reasoning_visible: match named_ref(s.engine.catalog, s.current_model) {
            Some(r) => is_reasoning(s.engine.catalog, r),
            None => false,
        },
        show_reasoning: s.show_reasoning,
    }
}

impl AppState {
    /// How the controls look.
    pub fn controls(&self) -> (r: Controls)
        ensures
            r@ == controls_of(self@),
    {
        let ready = self.current_session.is_some() && !self.busy;
        let blank = trim(self.changes_patch.as_str()).as_str().is_empty();
        let model_label = if self.current_model.as_str().is_empty() {
            owned("Modelo")
        } else {
            match ModelRef::parse(self.current_model.as_str()) {
                Some(r) => r.model_id,
                None => self.current_model.clone(),
            }
        };
        let reasoning_visible = match self.engine.model_ref(self.current_model.as_str()) {
            Some(r) => self.engine.catalog().is_reasoning_model(&r),
            None => false,
        };
        Controls {
            sidebar_collapsed: self.sidebar_collapsed,
            show_changes: self.wide_layout && !blank,
            ready,
            toggles_enabled: ready,
            agent: self.current_agent,
            model_label,
            model_enabled: !self.busy,
            reasoning_visible,
            show_reasoning: self.show_reasoning,
        }
    }
}

} // verus!
