//! The application at work: every message changes what it knows, and has something done.
use vstd::prelude::*;
use crate::agent::AgentKind;
use crate::auth::AuthInfo;
use crate::dialogs::{any_provider_key_present, catalog_model_options, connectable_providers,
    connected_accounts, opt_place};
use crate::diff::{file_views, parse_patch_files};
use crate::dirs::snapshots_dir;
use crate::effect::{effect_views, CardSlot, Effect, EffectView};
use crate::engine::{variable, variable_names};
use crate::format::{delete_dialog_body, format_tool_invocation, reasoning_summary,
    revert_dialog_body, summarize_title, truncate, TOOL_OUTPUT_MAX};
use crate::history::{base_snapshot, hash_of, hash_views, plain_messages, render_history,
    row_messages};
use crate::markup::error_markup;
use crate::message::{clone_messages, message_views, Message, Role};
use crate::msg::Msg;
use crate::nav::Nav;
use crate::session::Session;
use crate::snapshot::Snapshots;
use crate::state::{assign_durations, current_place, drop_session, no_text, session_row, AppState,
    CHANGES_PANEL_BREAKPOINT};
use crate::step::{about_accounts, about_changes, about_choices, about_reply, about_sessions,
    about_start, about_turn, after, all_effects, card_effects, card_opened, closed_session,
    dropped, handled, handled_accounts, handled_changes, handled_choices, handled_reply,
    handled_sessions, handled_start, handled_turn, handled_window, loaded, next_state, notice,
    on_agent, on_bootstrapped, on_connect, on_created, on_credential, on_delete_confirmed,
    on_delete_request, on_deleted, on_delta, on_disconnect, on_failed, on_loaded, on_model,
    on_nav_next, on_nav_prev, on_new, on_palette, on_palette_closed, on_patch, on_permission,
    on_picker, on_preview, on_renamed, on_revert, on_revert_done, on_select, on_send,
    on_show_thoughts, on_snapshot_kept, on_snapshots_ready, on_thought, on_thought_end,
    on_toggle_agent, on_tool, on_tool_end, on_turn_end, other_agent, patch_request, paths_of,
    renamed, thought_end, turn_end_effects, turn_ended, welcome, Step, NEW_TITLE, NO_KEYS,
    NO_STORE, RUNNING, THINKING, WAITING};
use crate::store::{meta_views, SessionMeta};
use crate::text::{concat2, concat3, opt_str, opt_view, owned, str_eq, views};
use crate::ui_laws::the_engine_stays;
use crate::uri::pair_views;

verus! {

/// What is done for a message, and whether the message is quiet.
#[derive(Debug)]
pub struct Handled {
    effects: Vec<Effect>,
    quiet: bool,
}

impl Handled {
    /// Whether this is what `s` says is done.
    spec fn does(&self, s: Step) -> bool {
        effect_views(self.effects@) == s.effects && self.quiet == s.quiet
    }
}

/// Nothing.
fn nothing() -> (r: Handled)
    ensures
        effect_views(r.effects@) == Seq::<EffectView>::empty(),
        r.quiet,
{
    let effects: Vec<Effect> = Vec::new();
    assert(effect_views(effects@) =~= Seq::<EffectView>::empty());
    Handled { effects, quiet: true }
}

/// Nothing yet.
fn no_effects() -> (r: Vec<Effect>)
    ensures
        effect_views(r@) == Seq::<EffectView>::empty(),
{
    let effects: Vec<Effect> = Vec::new();
    assert(effect_views(effects@) =~= Seq::<EffectView>::empty());
    effects
}

/// Puts an effect behind the others.
fn push_effect(out: &mut Vec<Effect>, e: Effect)
    ensures
        effect_views(final(out)@) == effect_views(old(out)@).push(e@),
{
    let ghost before = out@;
    out.push(e);
    assert(effect_views(out@) =~= effect_views(before).push(e@));
}

/// One effect.
fn one(e: Effect) -> (r: Handled)
    ensures
        effect_views(r.effects@) == seq![e@],
        !r.quiet,
{
    let mut out = no_effects();
    push_effect(&mut out, e);
    assert(effect_views(out@) =~= seq![e@]);
    Handled { effects: out, quiet: false }
}

/// Two effects.
fn two(a: Effect, b: Effect) -> (r: Handled)
    ensures
        effect_views(r.effects@) == seq![a@, b@],
        !r.quiet,
{
    let mut out = no_effects();
    push_effect(&mut out, a);
    push_effect(&mut out, b);
    assert(effect_views(out@) =~= seq![a@, b@]);
    Handled { effects: out, quiet: false }
}

/// No effects, but not quiet either.
fn no_more() -> (r: Handled)
    ensures
        effect_views(r.effects@) == Seq::<EffectView>::empty(),
        !r.quiet,
{
    Handled { effects: no_effects(), quiet: false }
}

/// A text of the application in the chat.
fn system_note(text: String) -> (r: Effect)
    ensures
        r@ == notice(text@),
{
    Effect::Bubble { role: Role::System, text }
}

/// Puts a session in place of the one at the row `i`.
fn put_meta(sessions: &mut Vec<SessionMeta>, i: usize, meta: SessionMeta)
    requires
        i < old(sessions)@.len(),
    ensures
        meta_views(final(sessions)@) == meta_views(old(sessions)@).update(i as int, meta@),
        final(sessions)@.len() == old(sessions)@.len(),
{
    let ghost before = sessions@;
    sessions.set(i, meta);
    assert(meta_views(sessions@) =~= meta_views(before).update(i as int, meta@));
}

/// Puts a session before the others.
fn put_first(sessions: &mut Vec<SessionMeta>, meta: SessionMeta)
    ensures
        meta_views(final(sessions)@) == seq![meta@] + meta_views(old(sessions)@),
{
    let ghost before = sessions@;
    sessions.insert(0, meta);
    assert(meta_views(sessions@) =~= seq![meta@] + meta_views(before));
}

/// A value, where it is there.
fn as_str(s: &Option<String>) -> (r: Option<&str>)
    ensures
        opt_str(r) == opt_view(*s),
{
    match s {
        Some(v) => Some(v.as_str()),
        None => None,
    }
}

impl AppState {
    /// What is said at the start; `defined` are the variables of the environment.
    pub fn welcome(&self, defined: &Vec<String>) -> (r: Vec<Effect>)
        ensures
            effect_views(r@) == welcome(self@, views(defined@)),
    {
        let mut out = no_effects();
        if !any_provider_key_present(self.engine.catalog(), defined) {
            push_effect(&mut out, system_note(owned(NO_KEYS)));
        }
        if !self.has_store {
            push_effect(&mut out, system_note(owned(NO_STORE)));
        }
        assert(effect_views(out@) =~= welcome(self@, views(defined@)));
        out
    }

    /// Finding out what changed, where snapshots can tell.
    fn request_changes_patch(&self) -> (r: Effect)
        ensures
            r@ == patch_request(self@),
    {
        match &self.snapshots {
            Some(_) => Effect::LoadPatch(self.base_snapshot.clone()),
            None => Effect::Post(Msg::ChangesPatchLoaded(no_text())),
        }
    }

    /// The row of the session in use.
    fn current_row(&self) -> (r: Option<usize>)
        ensures
            opt_place(r) == current_place(self@),
            r matches Some(i) ==> i < self.sessions@.len(),
    {
        match self.current_session {
            Some(id) => session_row(&self.sessions, id),
            None => None,
        }
    }

    fn on_bootstrapped(
        &mut self,
        project_id: i64,
        sessions: Vec<SessionMeta>,
        env: &Vec<(String, String)>,
    ) -> (r: Handled)
        ensures
            final(self)@ == on_bootstrapped(
                old(self)@,
                project_id,
                meta_views(sessions@),
                pair_views(env@),
            ).state,
            r.does(
                on_bootstrapped(old(self)@, project_id, meta_views(sessions@), pair_views(env@)),
            ),
    {
        let first = if sessions.len() == 0 {
            Effect::Post(Msg::NewSession)
        } else {
            Effect::RebuildSessions { selected: Some(0) }
        };
        self.project_id = Some(project_id);
        self.sessions = sessions;
        let xdg = variable(env, "XDG_DATA_HOME");
        let home = variable(env, "HOME");
        let git_dir = snapshots_dir(project_id, as_str(&xdg), as_str(&home));
        two(first, Effect::OpenSnapshots { workdir: self.workdir.clone(), git_dir })
    }

    fn on_snapshots_ready(&mut self, snapshots: Snapshots) -> (r: Handled)
        ensures
            final(self)@ == on_snapshots_ready(old(self)@, snapshots@).state,
            r.does(on_snapshots_ready(old(self)@, snapshots@)),
    {
        self.snapshots = Some(snapshots);
        one(self.request_changes_patch())
    }

    fn on_select(&mut self, index: usize, env: &Vec<(String, String)>) -> (r: Handled)
        ensures
            final(self)@ == on_select(old(self)@, index as nat, pair_views(env@)).state,
            r.does(on_select(old(self)@, index as nat, pair_views(env@))),
    {
        if self.busy || index >= self.sessions.len() {
            return nothing();
        }
        assert(self@.sessions[index as int] == self.sessions@[index as int]@);
        let id = self.sessions[index].id;
        if self.current_session == Some(id) {
            return nothing();
        }
        let meta = self.sessions[index].clone();
        self.current_session = Some(id);
        self.current_agent = meta.agent;
        self.current_model = match meta.model {
            Some(m) => m,
            None => self.engine.default_model(&variable_names(env)),
        };
        self.streaming = false;
        self.tool_output = false;
        self.tool_card = false;
        self.revertible_card = false;
        self.pending_snapshot = None;
        self.message_snapshots = Vec::new();
        assert(hash_views(self.message_snapshots@) =~= seq![]);
        self.base_snapshot = None;
        self.changes_patch = no_text();
        self.partial = no_text();
        let mut out = no_effects();
        push_effect(&mut out, Effect::ClearChat);
        if self.has_store {
            push_effect(&mut out, Effect::LoadSession(id));
        }
        assert(effect_views(out@) =~= on_select(
            old(self)@,
            index as nat,
            pair_views(env@),
        ).effects);
        Handled { effects: out, quiet: false }
    }

    fn load(&mut self, messages: &Vec<(i64, Message)>, snapshots: Vec<(i64, String)>)
        ensures
            final(self)@ == loaded(
                old(self)@,
                row_messages(messages@),
                hash_views(snapshots@),
            ),
    {
        self.reasoning_card = false;
        self.reasoning_partial = no_text();
        self.reasoning_ms_queue = Vec::new();
        self.base_snapshot = base_snapshot(messages, &snapshots);
        if self.base_snapshot.is_none() {
            self.changes_patch = no_text();
        }
        self.message_snapshots = snapshots;
        self.session = Session::from_messages(without_ids(messages));
    }

    fn on_loaded(
        &mut self,
        messages: Vec<(i64, Message)>,
        snapshots: Vec<(i64, String)>,
        durations: Vec<(i64, u64)>,
    ) -> (r: Handled)
        ensures
            final(self)@ == on_loaded(
                old(self)@,
                row_messages(messages@),
                hash_views(snapshots@),
                durations@,
            ).state,
            r.does(
                on_loaded(
                    old(self)@,
                    row_messages(messages@),
                    hash_views(snapshots@),
                    durations@,
                ),
            ),
    {
        let rows = render_history(&messages, &snapshots, &durations);
        self.load(&messages, snapshots);
        let mut out = no_effects();
        push_effect(&mut out, Effect::ClearChat);
        if self.base_snapshot.is_none() {
            push_effect(&mut out, Effect::ClearChanges);
        }
        push_effect(&mut out, Effect::RenderHistory(rows));
        push_effect(&mut out, self.request_changes_patch());
        assert(effect_views(out@) =~= on_loaded(
            old(self)@,
            row_messages(messages@),
            hash_views(snapshots@),
            durations@,
        ).effects);
        Handled { effects: out, quiet: false }
    }
}

/// The messages without their identifiers.
fn without_ids(messages: &Vec<(i64, Message)>) -> (r: Vec<Message>)
    ensures
        message_views(r@) == plain_messages(row_messages(messages@)),
{
    let mut out: Vec<Message> = Vec::new();
    let mut i: usize = 0;
    while i < messages.len()
        invariant
            i <= messages.len(),
            out@.len() == i,
            forall|j: int| 0 <= j < i ==> (#[trigger] out@[j])@ == messages@[j].1@,
        decreases messages.len() - i,
    {
        out.push(messages[i].1.clone());
        i = i + 1;
    }
    assert(message_views(out@) =~= plain_messages(row_messages(messages@)));
    out
}

impl AppState {
    fn on_new(&mut self) -> (r: Handled)
        ensures
            final(self)@ == on_new(old(self)@).state,
            r.does(on_new(old(self)@)),
    {
        if !self.has_store {
            return nothing();
        }
        match self.project_id {
            Some(project_id) => one(
                Effect::CreateSession {
                    project_id,
                    title: owned(NEW_TITLE),
                    agent: self.current_agent,
                    preferred: if self.current_model.as_str().is_empty() {
                        None
                    } else {
                        Some(self.current_model.clone())
                    },
                },
            ),
            None => nothing(),
        }
    }

    #[verifier::spinoff_prover]
    #[verifier::rlimit(40)]
    fn on_created(&mut self, meta: SessionMeta) -> (r: Handled)
        ensures
            final(self)@ == on_created(old(self)@, meta@).state,
            r.does(on_created(old(self)@, meta@)),
    {
        let id = meta.id;
        self.current_agent = meta.agent;
        if let Some(m) = &meta.model {
            self.current_model = m.clone();
        }
        put_first(&mut self.sessions, meta);
        self.current_session = Some(id);
        self.session = Session::new();
        self.streaming = false;
        self.tool_output = false;
        self.partial = no_text();
        self.base_snapshot = None;
        self.changes_patch = no_text();
        let mut out = no_effects();
        push_effect(&mut out, Effect::ClearChanges);
        push_effect(&mut out, Effect::ClearChat);
        push_effect(&mut out, Effect::RebuildSessions { selected: Some(0) });
        assert(effect_views(out@) =~= on_created(old(self)@, meta@).effects);
        Handled { effects: out, quiet: false }
    }

    fn on_delete_request(&mut self, id: i64) -> (r: Handled)
        ensures
            final(self)@ == on_delete_request(old(self)@, id).state,
            r.does(on_delete_request(old(self)@, id)),
    {
        if self.busy {
            return nothing();
        }
        match session_row(&self.sessions, id) {
            Some(i) => {
                assert(self@.sessions[i as int] == self.sessions@[i as int]@);
                one(
                    Effect::ConfirmDelete {
                        id,
                        body: delete_dialog_body(self.sessions[i].title.as_str()),
                    },
                )
            },
            None => nothing(),
        }
    }

    fn on_delete_confirmed(&mut self, id: i64) -> (r: Handled)
        ensures
            final(self)@ == on_delete_confirmed(old(self)@, id).state,
            r.does(on_delete_confirmed(old(self)@, id)),
    {
        if self.has_store {
            one(Effect::DeleteSession(id))
        } else {
            nothing()
        }
    }

    fn close_session(&mut self)
        ensures
            final(self)@ == closed_session(old(self)@),
    {
        self.current_session = None;
        self.session = Session::new();
        self.streaming = false;
        self.tool_output = false;
        self.tool_card = false;
        self.revertible_card = false;
        self.pending_snapshot = None;
        self.message_snapshots = Vec::new();
        assert(hash_views(self.message_snapshots@) =~= seq![]);
        self.base_snapshot = None;
        self.changes_patch = no_text();
        self.partial = no_text();
    }

    fn drop_row(&mut self, id: i64)
        ensures
            final(self)@ == dropped(old(self)@, id),
    {
        self.sessions = drop_session(&self.sessions, id);
    }

    fn on_deleted(&mut self, id: i64) -> (r: Handled)
        ensures
            final(self)@ == on_deleted(old(self)@, id).state,
            r.does(on_deleted(old(self)@, id)),
    {
        let active = self.current_session == Some(id);
        self.drop_row(id);
        if !active {
            return one(Effect::RebuildSessions { selected: self.current_row() });
        }
        self.close_session();
        let mut out = no_effects();
        push_effect(&mut out, Effect::ClearChanges);
        push_effect(&mut out, Effect::ClearChat);
        if self.sessions.len() > 0 {
            push_effect(&mut out, Effect::RebuildSessions { selected: Some(0) });
            push_effect(&mut out, Effect::Post(Msg::SelectIndex(0)));
        } else {
            push_effect(&mut out, Effect::RebuildSessions { selected: None });
        }
        assert(effect_views(out@) =~= on_deleted(old(self)@, id).effects);
        Handled { effects: out, quiet: false }
    }

    fn rename(&mut self, id: i64, title: String)
        ensures
            final(self)@ == renamed(old(self)@, id, title@),
    {
        if let Some(i) = session_row(&self.sessions, id) {
            let mut meta = self.sessions[i].clone();
            meta.title = title;
            assert(self@.sessions[i as int] == self.sessions@[i as int]@);
            put_meta(&mut self.sessions, i, meta);
        }
    }

    fn on_renamed(&mut self, id: i64, title: String) -> (r: Handled)
        ensures
            final(self)@ == on_renamed(old(self)@, id, title@).state,
            r.does(on_renamed(old(self)@, id, title@)),
    {
        self.rename(id, title);
        let selected = match self.current_row() {
            Some(i) => i,
            None => 0usize,
        };
        one(Effect::RebuildSessions { selected: Some(selected) })
    }

    #[verifier::spinoff_prover]
    #[verifier::rlimit(40)]
    fn on_agent(&mut self, kind: AgentKind) -> (r: Handled)
        ensures
            final(self)@ == on_agent(old(self)@, kind).state,
            r.does(on_agent(old(self)@, kind)),
    {
        if self.current_agent == kind {
            return nothing();
        }
        self.current_agent = kind;
        if let Some(i) = self.current_row() {
            let mut meta = self.sessions[i].clone();
            meta.agent = kind;
            assert(self@.sessions[i as int] == self.sessions@[i as int]@);
            put_meta(&mut self.sessions, i, meta);
        }
        if !self.has_store {
            return no_more();
        }
        match self.current_session {
            Some(id) => one(Effect::StoreAgent { id, agent: kind }),
            None => no_more(),
        }
    }

    #[verifier::spinoff_prover]
    #[verifier::rlimit(40)]
    fn on_model(&mut self, model: String) -> (r: Handled)
        ensures
            final(self)@ == on_model(old(self)@, model@).state,
            r.does(on_model(old(self)@, model@)),
    {
        if str_eq(self.current_model.as_str(), model.as_str()) {
            return nothing();
        }
        self.current_model = model.clone();
        if let Some(i) = self.current_row() {
            let mut meta = self.sessions[i].clone();
            meta.model = Some(model.clone());
            assert(self@.sessions[i as int] == self.sessions@[i as int]@);
            put_meta(&mut self.sessions, i, meta);
        }
        if !self.has_store {
            return no_more();
        }
        match self.current_session {
            Some(id) => one(Effect::StoreModel { id, model }),
            None => no_more(),
        }
    }

    fn on_toggle_agent(&mut self) -> (r: Handled)
        ensures
            final(self)@ == on_toggle_agent(old(self)@).state,
            r.does(on_toggle_agent(old(self)@)),
    {
        one(Effect::Post(Msg::AgentChanged(swapped(self.current_agent))))
    }

    fn on_picker(&mut self) -> (r: Handled)
        ensures
            final(self)@ == on_picker(old(self)@).state,
            r.does(on_picker(old(self)@)),
    {
        one(
            Effect::PickModel {
                current: self.current_model.clone(),
                options: catalog_model_options(self.engine.catalog(), self.engine.auth()),
            },
        )
    }

    fn on_palette_closed(&mut self) -> (r: Handled)
        ensures
            final(self)@ == on_palette_closed(old(self)@).state,
            r.does(on_palette_closed(old(self)@)),
    {
        self.palette_open = false;
        one(Effect::FocusEntry)
    }

    fn on_show_thoughts(&mut self, active: bool) -> (r: Handled)
        ensures
            final(self)@ == on_show_thoughts(old(self)@, active).state,
            r.does(on_show_thoughts(old(self)@, active)),
    {
        self.show_reasoning = active;
        one(Effect::ShowThoughts(active))
    }

    fn on_palette(&mut self) -> (r: Handled)
        ensures
            final(self)@ == on_palette(old(self)@).state,
            r.does(on_palette(old(self)@)),
    {
        if self.palette_open {
            self.palette_open = false;
            let mut h = one(Effect::ClosePalette);
            h.quiet = true;
            h
        } else {
            self.palette_open = true;
            one(Effect::OpenPalette { show_reasoning: self.show_reasoning })
        }
    }

    fn on_connect(&mut self, provider: String) -> (r: Handled)
        ensures
            final(self)@ == on_connect(old(self)@, provider@).state,
            r.does(on_connect(old(self)@, provider@)),
    {
        if str_eq(provider.as_str(), "openai") {
            one(Effect::StartOauth)
        } else {
            one(Effect::AskApiKey(provider))
        }
    }

    fn on_credential(&mut self, provider: &str, info: AuthInfo, toast: String) -> (r: Handled)
        ensures
            final(self)@ == on_credential(old(self)@, provider@, info@, toast@).state,
            r.does(on_credential(old(self)@, provider@, info@, toast@)),
    {
        self.engine.connect(provider, info);
        one(Effect::SaveAuth { toast })
    }

    fn on_disconnect(&mut self, provider: String) -> (r: Handled)
        ensures
            final(self)@ == on_disconnect(old(self)@, provider@).state,
            r.does(on_disconnect(old(self)@, provider@)),
    {
        self.engine.disconnect(provider.as_str());
        one(Effect::SaveAuth { toast: concat3("«", provider.as_str(), "» desconectado") })
    }
}

impl AppState {
    fn on_send(&mut self, text: String) -> (r: Handled)
        ensures
            final(self)@ == on_send(old(self)@, text@).state,
            r.does(on_send(old(self)@, text@)),
    {
        if !self.has_store || self.busy {
            return nothing();
        }
        let session_id = match self.current_session {
            Some(id) => id,
            None => {
                return nothing();
            },
        };
        let new_title = if self.session.is_empty() {
            Some(summarize_title(text.as_str()))
        } else {
            None
        };
        self.session.push_user(text.as_str());
        self.streaming = false;
        self.tool_output = false;
        self.tool_card = false;
        self.pending_snapshot = None;
        self.partial = no_text();
        self.busy = true;
        let mut out = no_effects();
        push_effect(&mut out, Effect::Bubble { role: Role::User, text: text.clone() });
        push_effect(&mut out, Effect::SaveUserMessage { session_id, text, new_title });
        push_effect(
            &mut out,
            Effect::RunTurn {
                agent: self.current_agent,
                model: self.current_model.clone(),
                history: self.session.history(),
            },
        );
        assert(effect_views(out@) =~= on_send(old(self)@, text@).effects);
        Handled { effects: out, quiet: false }
    }

    fn on_delta(&mut self, delta: String) -> (r: Handled)
        ensures
            final(self)@ == on_delta(old(self)@, delta@).state,
            r.does(on_delta(old(self)@, delta@)),
    {
        let mut out = no_effects();
        self.partial.push_str(delta.as_str());
        if !self.streaming {
            push_effect(&mut out, Effect::OpenBubble);
        }
        self.streaming = true;
        push_effect(&mut out, Effect::BubbleText(self.partial.clone()));
        assert(effect_views(out@) =~= on_delta(old(self)@, delta@).effects);
        Handled { effects: out, quiet: false }
    }

    fn on_thought(&mut self, delta: String) -> (r: Handled)
        ensures
            final(self)@ == on_thought(old(self)@, delta@).state,
            r.does(on_thought(old(self)@, delta@)),
    {
        let mut out = no_effects();
        self.reasoning_partial.push_str(delta.as_str());
        if !self.reasoning_card {
            push_effect(
                &mut out,
                Effect::OpenThought { show: self.show_reasoning, summary: owned(THINKING) },
            );
        }
        self.reasoning_card = true;
        push_effect(&mut out, Effect::ThoughtText(self.reasoning_partial.clone()));
        assert(effect_views(out@) =~= on_thought(old(self)@, delta@).effects);
        Handled { effects: out, quiet: false }
    }

    /// Ends a chain of thought in the chat, where there is one.
    fn close_thought(&self, ms: u64, out: &mut Vec<Effect>)
        ensures
            effect_views(final(out)@) == effect_views(old(out)@) + thought_end(self@, ms as nat),
    {
        let ghost before = effect_views(out@);
        if self.reasoning_card {
            push_effect(out, Effect::CloseThought(reasoning_summary(ms)));
        }
        assert(effect_views(out@) =~= before + thought_end(self@, ms as nat));
    }

    fn on_thought_end(&mut self, ms: u64) -> (r: Handled)
        ensures
            final(self)@ == on_thought_end(old(self)@, ms).state,
            r.does(on_thought_end(old(self)@, ms)),
    {
        let mut out = no_effects();
        self.close_thought(ms, &mut out);
        self.reasoning_ms_queue.push(ms);
        self.reasoning_card = false;
        self.reasoning_partial = no_text();
        assert(effect_views(out@) =~= thought_end(old(self)@, ms as nat));
        Handled { effects: out, quiet: false }
    }

    fn open_card(
        &mut self,
        name: String,
        arguments: String,
        output: &str,
        asked: bool,
        out: &mut Vec<Effect>,
    )
        ensures
            final(self)@ == card_opened(old(self)@, asked),
            effect_views(final(out)@) == effect_views(old(out)@) + card_effects(
                old(self)@,
                name@,
                arguments@,
                output@,
            ),
    {
        let ghost before = effect_views(out@);
        if self.streaming && !self.partial.as_str().is_empty() {
            push_effect(out, Effect::FillBubble(self.partial.clone()));
        }
        self.streaming = false;
        self.partial = no_text();
        let invocation = format_tool_invocation(name.as_str(), arguments.as_str());
        push_effect(out, Effect::ToolCard { name, invocation, output: owned(output) });
        self.tool_output = true;
        self.tool_card = true;
        self.asked_card = asked;
        assert(effect_views(out@) =~= before + card_effects(
            old(self)@,
            name@,
            arguments@,
            output@,
        ));
    }

    fn on_tool(&mut self, name: String, arguments: String) -> (r: Handled)
        ensures
            final(self)@ == on_tool(old(self)@, name@, arguments@).state,
            r.does(on_tool(old(self)@, name@, arguments@)),
    {
        if self.tool_output && self.asked_card {
            self.asked_card = false;
            return one(Effect::ToolText(owned(RUNNING)));
        }
        let mut out = no_effects();
        self.open_card(name, arguments, RUNNING, false, &mut out);
        assert(effect_views(out@) =~= on_tool(old(self)@, name@, arguments@).effects);
        Handled { effects: out, quiet: false }
    }

    fn on_tool_end(&mut self, output: String, ok: bool) -> (r: Handled)
        ensures
            final(self)@ == on_tool_end(old(self)@, output@, ok).state,
            r.does(on_tool_end(old(self)@, output@, ok)),
    {
        if !self.tool_output {
            return no_more();
        }
        self.tool_output = false;
        let text = truncate(output.as_str(), TOOL_OUTPUT_MAX);
        if ok {
            one(Effect::ToolText(text))
        } else {
            one(Effect::ToolMarkup(error_markup(text.as_str())))
        }
    }

    fn on_permission(&mut self, tool_name: String, arguments: String) -> (r: Handled)
        ensures
            final(self)@ == on_permission(old(self)@, tool_name@, arguments@).state,
            r.does(on_permission(old(self)@, tool_name@, arguments@)),
    {
        let question = concat3("Permitir ejecutar ", tool_name.as_str(), "?");
        let mut out = no_effects();
        if self.tool_output {
            push_effect(&mut out, Effect::ToolText(owned(WAITING)));
        } else {
            self.open_card(tool_name, arguments, WAITING, true, &mut out);
        }
        push_effect(&mut out, Effect::PermissionControls(question));
        assert(effect_views(out@) =~= on_permission(
            old(self)@,
            tool_name@,
            arguments@,
        ).effects);
        Handled { effects: out, quiet: false }
    }

    fn end_turn(&mut self, messages: Vec<Message>)
        ensures
            final(self)@ == turn_ended(old(self)@, message_views(messages@)),
    {
        if self.pending_snapshot.is_some() {
            self.revertible_card = self.tool_card;
            self.tool_card = false;
        }
        self.pending_snapshot = None;
        self.streaming = false;
        self.partial = no_text();
        self.tool_output = false;
        self.reasoning_card = false;
        self.reasoning_partial = no_text();
        self.reasoning_ms_queue = Vec::new();
        self.busy = false;
        self.session.extend(messages);
    }

    fn turn_effects(&self, messages: &Vec<Message>) -> (r: Vec<Effect>)
        ensures
            effect_views(r@) == turn_end_effects(self@, message_views(messages@)),
    {
        let mut out = no_effects();
        if self.streaming {
            push_effect(&mut out, Effect::FillBubble(self.partial.clone()));
        }
        self.close_thought(0, &mut out);
        if self.pending_snapshot.is_some() {
            push_effect(&mut out, Effect::HoldCard);
        }
        if self.has_store {
            if let Some(session_id) = self.current_session {
                let durations = assign_durations(messages, &self.reasoning_ms_queue);
                let snapshot = match &self.pending_snapshot {
                    Some(p) => Some((p.0.clone(), p.1)),
                    None => None,
                };
                push_effect(
                    &mut out,
                    Effect::SaveTurn {
                        session_id,
                        messages: clone_messages(messages),
                        durations,
                        snapshot,
                    },
                );
            }
        }
        assert(effect_views(out@) =~= turn_end_effects(self@, message_views(messages@)));
        out
    }

    fn on_turn_end(&mut self, messages: Vec<Message>) -> (r: Handled)
        ensures
            final(self)@ == on_turn_end(old(self)@, message_views(messages@)).state,
            r.does(on_turn_end(old(self)@, message_views(messages@))),
    {
        let effects = self.turn_effects(&messages);
        self.end_turn(messages);
        Handled { effects, quiet: false }
    }

    #[verifier::spinoff_prover]
    #[verifier::rlimit(40)]
    fn on_snapshot_kept(&mut self, message_id: i64, hash: String) -> (r: Handled)
        ensures
            final(self)@ == on_snapshot_kept(old(self)@, message_id, hash@).state,
            r.does(on_snapshot_kept(old(self)@, message_id, hash@)),
    {
        let ghost before = self.message_snapshots@;
        if self.base_snapshot.is_none() {
            self.base_snapshot = Some(hash.clone());
        }
        self.message_snapshots.push((message_id, hash));
        assert(hash_views(self.message_snapshots@) =~= hash_views(before).push(
            (message_id, hash@),
        ));
        let slot = if self.revertible_card {
            self.revertible_card = false;
            CardSlot::Held
        } else if self.tool_card {
            self.tool_card = false;
            CardSlot::Current
        } else {
            CardSlot::Chat
        };
        two(Effect::AttachRevert { message_id, slot }, self.request_changes_patch())
    }

    fn on_failed(&mut self, error: String) -> (r: Handled)
        ensures
            final(self)@ == on_failed(old(self)@, error@).state,
            r.does(on_failed(old(self)@, error@)),
    {
        let mut out = no_effects();
        if self.streaming {
            push_effect(&mut out, Effect::BubbleError(error_markup(error.as_str())));
        } else {
            push_effect(&mut out, system_note(concat2("Error: ", error.as_str())));
        }
        self.close_thought(0, &mut out);
        self.streaming = false;
        self.tool_output = false;
        self.tool_card = false;
        self.reasoning_card = false;
        self.reasoning_partial = no_text();
        self.reasoning_ms_queue = Vec::new();
        self.partial = no_text();
        self.busy = false;
        assert(effect_views(out@) =~= on_failed(old(self)@, error@).effects);
        Handled { effects: out, quiet: false }
    }

    fn on_patch(&mut self, patch: String) -> (r: Handled)
        ensures
            final(self)@ == on_patch(old(self)@, patch@).state,
            r.does(on_patch(old(self)@, patch@)),
    {
        let files = parse_patch_files(patch.as_str());
        assert(file_views(files@).len() == files@.len());
        let mut paths: Vec<String> = Vec::new();
        let mut i: usize = 0;
        while i < files.len()
            invariant
                i <= files.len(),
                paths@.len() == i,
                forall|j: int| 0 <= j < i ==> (#[trigger] paths@[j])@ == files@[j].path@,
            decreases files.len() - i,
        {
            paths.push(files[i].path.clone());
            i = i + 1;
        }
        assert(views(paths@) =~= paths_of(file_views(files@)));
        let many = paths.len() > 1;
        self.changes_patch = patch;
        self.nav = Nav::new(paths);
        let mut out = no_effects();
        push_effect(&mut out, Effect::ShowChanges(files));
        push_effect(&mut out, Effect::NavBar(many));
        if many {
            push_effect(&mut out, self.nav.label());
        }
        assert(effect_views(out@) =~= on_patch(old(self)@, patch@).effects);
        Handled { effects: out, quiet: false }
    }

    fn on_nav_prev(&mut self) -> (r: Handled)
        ensures
            final(self)@ == on_nav_prev(old(self)@).state,
            r.does(on_nav_prev(old(self)@)),
    {
        if !self.nav.back() {
            return nothing();
        }
        two(self.nav.label(), Effect::ScrollToFile(self.nav.index()))
    }

    fn on_nav_next(&mut self) -> (r: Handled)
        ensures
            final(self)@ == on_nav_next(old(self)@).state,
            r.does(on_nav_next(old(self)@)),
    {
        if !self.nav.forward() {
            return nothing();
        }
        two(self.nav.label(), Effect::ScrollToFile(self.nav.index()))
    }

    fn on_revert(&mut self, message_id: i64) -> (r: Handled)
        ensures
            final(self)@ == on_revert(old(self)@, message_id).state,
            r.does(on_revert(old(self)@, message_id)),
    {
        if self.busy || self.snapshots.is_none() {
            return nothing();
        }
        match hash_of(&self.message_snapshots, message_id) {
            Some(hash) => one(Effect::PreviewRevert(hash)),
            None => nothing(),
        }
    }

    fn on_preview(&mut self, hash: String, files: Vec<String>) -> (r: Handled)
        ensures
            final(self)@ == on_preview(old(self)@, hash@, views(files@)).state,
            r.does(on_preview(old(self)@, hash@, views(files@))),
    {
        if self.snapshots.is_none() {
            return nothing();
        }
        let body = revert_dialog_body(&files);
        one(Effect::ConfirmRevert { hash, files, body })
    }

    fn on_revert_done(&mut self) -> (r: Handled)
        ensures
            final(self)@ == on_revert_done(old(self)@).state,
            r.does(on_revert_done(old(self)@)),
    {
        match self.current_row() {
            Some(i) => {
                self.current_session = None;
                one(Effect::Post(Msg::SelectIndex(i)))
            },
            None => no_more(),
        }
    }
}

impl AppState {
    /// What is done for a message, without what is done after every message.
    #[verifier::spinoff_prover]
    #[verifier::rlimit(40)]
    fn handle(&mut self, msg: Msg, env: &Vec<(String, String)>) -> (r: Handled)
        ensures
            final(self)@ == handled(old(self)@, msg@, pair_views(env@)).state,
            r.does(handled(old(self)@, msg@, pair_views(env@))),
    {
        proof {
            if about_start(msg@) {
                reveal(handled_start);
            }
        }
        match msg {
            Msg::Bootstrapped { project_id, sessions } => self.on_bootstrapped(
                project_id,
                sessions,
                env,
            ),
            Msg::SnapshotsReady(snapshots) => self.on_snapshots_ready(snapshots),
            Msg::SelectIndex(index) => self.on_select(index, env),
            Msg::SessionLoaded { messages, snapshots, reasoning_ms } => self.on_loaded(
                messages,
                snapshots,
                reasoning_ms,
            ),
            Msg::ToggleSessionsSidebar => {
                self.sidebar_collapsed = !self.sidebar_collapsed;
                no_more()
            },
            other => self.handle_sessions(other, env),
        }
    }

    /// What is done for a message about a session, or one of those that are left.
    #[verifier::spinoff_prover]
    #[verifier::rlimit(40)]
    fn handle_sessions(&mut self, msg: Msg, env: &Vec<(String, String)>) -> (r: Handled)
        requires
            !about_start(msg@),
        ensures
            final(self)@ == handled(old(self)@, msg@, pair_views(env@)).state,
            r.does(handled(old(self)@, msg@, pair_views(env@))),
    {
        proof {
            if about_sessions(msg@) {
                reveal(handled_sessions);
            }
        }
        match msg {
            Msg::NewSession => self.on_new(),
            Msg::SessionCreated(meta) => self.on_created(meta),
            Msg::DeleteSessionRequest(id) => self.on_delete_request(id),
            Msg::DeleteSessionConfirmed(id) => self.on_delete_confirmed(id),
            Msg::SessionDeleted(id) => self.on_deleted(id),
            Msg::Renamed { id, title } => self.on_renamed(id, title),
            other => self.handle_choices(other, env),
        }
    }

    /// What is done for a message about a choice of the user, or one of those that are left.
    #[verifier::spinoff_prover]
    #[verifier::rlimit(40)]
    fn handle_choices(&mut self, msg: Msg, env: &Vec<(String, String)>) -> (r: Handled)
        requires
            !about_start(msg@),
            !about_sessions(msg@),
        ensures
            final(self)@ == handled(old(self)@, msg@, pair_views(env@)).state,
            r.does(handled(old(self)@, msg@, pair_views(env@))),
    {
        proof {
            if about_choices(msg@) {
                reveal(handled_choices);
            }
        }
        match msg {
            Msg::AgentChanged(kind) => self.on_agent(kind),
            Msg::ToggleAgent => self.on_toggle_agent(),
            Msg::OpenModelPicker => self.on_picker(),
            Msg::OpenCommandPalette => self.on_palette(),
            Msg::CommandPaletteClosed => self.on_palette_closed(),
            Msg::ModelChanged(model) => self.on_model(model),
            Msg::ToggleReasoning(active) => self.on_show_thoughts(active),
            other => self.handle_accounts(other, env),
        }
    }

    /// What is done for a message about an account, or one of those that are left.
    #[verifier::spinoff_prover]
    #[verifier::rlimit(40)]
    fn handle_accounts(&mut self, msg: Msg, env: &Vec<(String, String)>) -> (r: Handled)
        requires
            !about_start(msg@),
            !about_sessions(msg@),
            !about_choices(msg@),
        ensures
            final(self)@ == handled(old(self)@, msg@, pair_views(env@)).state,
            r.does(handled(old(self)@, msg@, pair_views(env@))),
    {
        proof {
            if about_accounts(msg@) {
                reveal(handled_accounts);
            }
        }
        match msg {
            Msg::OpenSettings => one(
                Effect::ShowSettings(connected_accounts(self.engine.auth())),
            ),
            Msg::OpenConnectProvider => one(
                Effect::ShowConnect(
                    connectable_providers(self.engine.catalog(), self.engine.auth()),
                ),
            ),
            Msg::ConnectProvider(provider) => self.on_connect(provider),
            Msg::ApiKeyEntered { provider_id, key } => {
                let toast = concat3("Cuenta «", provider_id.as_str(), "» conectada");
                self.on_credential(
                    provider_id.as_str(),
                    AuthInfo::Api { key, metadata: None },
                    toast,
                )
            },
            Msg::OauthOpenAiCompleted(info) => self.on_credential(
                "openai",
                info,
                owned("Cuenta OpenAI conectada"),
            ),
            Msg::OauthOpenAiFailed(error) => one(
                system_note(concat2("La conexión con OpenAI falló: ", error.as_str())),
            ),
            Msg::DisconnectProvider(provider) => self.on_disconnect(provider),
            other => self.handle_reply(other, env),
        }
    }

    /// What is done for a message about a reply, or one of those that are left.
    #[verifier::spinoff_prover]
    #[verifier::rlimit(40)]
    fn handle_reply(&mut self, msg: Msg, env: &Vec<(String, String)>) -> (r: Handled)
        requires
            !about_start(msg@),
            !about_sessions(msg@),
            !about_choices(msg@),
            !about_accounts(msg@),
        ensures
            final(self)@ == handled(old(self)@, msg@, pair_views(env@)).state,
            r.does(handled(old(self)@, msg@, pair_views(env@))),
    {
        proof {
            if about_reply(msg@) {
                reveal(handled_reply);
            }
        }
        match msg {
            Msg::Send(text) => self.on_send(text),
            Msg::Delta(delta) => self.on_delta(delta),
            Msg::ReasoningDelta(delta) => self.on_thought(delta),
            Msg::ReasoningFinished { ms } => self.on_thought_end(ms),
            Msg::Failed(error) => self.on_failed(error),
            other => self.handle_turn(other, env),
        }
    }

    /// What is done for a message about the tools and the end of a turn, or one of those that are left.
    #[verifier::spinoff_prover]
    #[verifier::rlimit(40)]
    fn handle_turn(&mut self, msg: Msg, env: &Vec<(String, String)>) -> (r: Handled)
        requires
            !about_start(msg@),
            !about_sessions(msg@),
            !about_choices(msg@),
            !about_accounts(msg@),
            !about_reply(msg@),
        ensures
            final(self)@ == handled(old(self)@, msg@, pair_views(env@)).state,
            r.does(handled(old(self)@, msg@, pair_views(env@))),
    {
        proof {
            if about_turn(msg@) {
                reveal(handled_turn);
            }
        }
        match msg {
            Msg::StepSnapshot { hash, message_index } => {
                self.pending_snapshot = Some((hash, message_index));
                no_more()
            },
            Msg::SnapshotPersisted { message_id, hash } => self.on_snapshot_kept(message_id, hash),
            Msg::ToolStarted { name, arguments } => self.on_tool(name, arguments),
            Msg::ToolFinished { output, ok } => self.on_tool_end(output, ok),
            Msg::PermissionRequested { tool_name, arguments } => self.on_permission(
                tool_name,
                arguments,
            ),
            Msg::TurnFinished(messages) => self.on_turn_end(messages),
            other => self.handle_changes(other, env),
        }
    }

    /// What is done for a message about the changes, or one of those that are left.
    #[verifier::spinoff_prover]
    #[verifier::rlimit(40)]
    fn handle_changes(&mut self, msg: Msg, env: &Vec<(String, String)>) -> (r: Handled)
        requires
            !about_start(msg@),
            !about_sessions(msg@),
            !about_choices(msg@),
            !about_accounts(msg@),
            !about_reply(msg@),
            !about_turn(msg@),
        ensures
            final(self)@ == handled(old(self)@, msg@, pair_views(env@)).state,
            r.does(handled(old(self)@, msg@, pair_views(env@))),
    {
        proof {
            if about_changes(msg@) {
                reveal(handled_changes);
            }
        }
        match msg {
            Msg::ChangesPatchLoaded(patch) => self.on_patch(patch),
            Msg::ChangesNavPrev => self.on_nav_prev(),
            Msg::ChangesNavNext => self.on_nav_next(),
            Msg::Revert(message_id) => self.on_revert(message_id),
            Msg::RevertPreview { hash, files } => self.on_preview(hash, files),
            Msg::RevertDone => self.on_revert_done(),
            other => self.handle_window(other, env),
        }
    }

    /// What is done for a message about the window.
    #[verifier::spinoff_prover]
    #[verifier::rlimit(40)]
    fn handle_window(&mut self, msg: Msg, env: &Vec<(String, String)>) -> (r: Handled)
        requires
            !about_start(msg@),
            !about_sessions(msg@),
            !about_choices(msg@),
            !about_accounts(msg@),
            !about_reply(msg@),
            !about_turn(msg@),
            !about_changes(msg@),
        ensures
            final(self)@ == handled(old(self)@, msg@, pair_views(env@)).state,
            r.does(handled(old(self)@, msg@, pair_views(env@))),
    {
        proof {
            reveal(handled_window);
        }
        match msg {
            Msg::WindowWidthChanged(width) => {
                self.wide_layout = width >= CHANGES_PANEL_BREAKPOINT;
                no_more()
            },
            Msg::Toast(text) => one(Effect::Toast(text)),
            Msg::Quit => one(Effect::Quit),
            _ => nothing(),
        }
    }

    /// Takes in a message: what the application knows after it, and what is done. `env` holds the
    /// variables of the environment.
    pub fn update(&mut self, msg: Msg, env: &Vec<(String, String)>) -> (r: Vec<Effect>)
        ensures
            final(self)@ == next_state(old(self)@, msg@, pair_views(env@)),
            effect_views(r@) == all_effects(old(self)@, msg@, pair_views(env@)),
            final(self).engine.tools_view() == old(self).engine.tools_view(),
            final(self).engine.auth_file() == old(self).engine.auth_file(),
    {
        proof {
            the_engine_stays(self@, msg@, pair_views(env@));
        }
        let was_busy = self.busy;
        let handled = self.handle(msg, env);
        let mut out = handled.effects;
        if !handled.quiet {
            let ghost before = effect_views(out@);
            push_effect(&mut out, Effect::Refresh);
            if was_busy && !self.busy {
                push_effect(&mut out, Effect::FocusEntry);
            }
            push_effect(&mut out, Effect::ScrollToBottom);
            assert(effect_views(out@) =~= before + after(was_busy, self.busy));
        }
        out
    }
}

/// The other profile.
fn swapped(kind: AgentKind) -> (r: AgentKind)
    ensures
        r == other_agent(kind),
{
    match kind {
        AgentKind::Build => AgentKind::Plan,
        AgentKind::Plan => AgentKind::Build,
    }
}

} // verus!
