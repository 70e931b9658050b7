//! What the window shows and keeps of what happens.
use vstd::prelude::*;
use crate::agent::{AgentEventView, AgentKind};
use crate::auth::AuthView;
use crate::catalog::{is_reasoning, parsed_ref};
use crate::dialogs::{account_list, any_key, command_message, model_options, provider_rows,
    CommandPaletteAction};
use crate::diff::patch_files;
use crate::dirs::snapshots_path;
use crate::effect::EffectView;
use crate::engine::{named_ref, names, value_of, Environment};
use crate::format::{delete_text, revert_text, thought_summary};
use crate::history::{base_of, history_rows};
use crate::map::{keys_ascend, lookup, lookup_inserted, lookup_removed};
use crate::markup::escaped;
use crate::message::{MessageView, Role};
use crate::msg::{event_message, MsgView};
use crate::state::{assigned, controls_of, default_text, is_thoughtful, place_of, thoughts_in,
    without, AppView};
use crate::step::{all_effects, handled, handled_accounts, handled_changes, handled_choices,
    handled_reply, handled_sessions, handled_start, handled_turn, handled_window, next_state,
    welcome, NO_KEYS, NO_STORE};
use crate::store::SessionMetaView;
use crate::text::trimmed;
use crate::ui_laws::place_is_in_range;

verus! {

// ── Sessions ──────────────────────────────────────────────────────────────────

/// A session that the user selects is the one in use, with its profile and its model, or the model
/// to begin with where it has none. The chat is emptied of the other one, and its messages are
/// fetched.
pub proof fn a_selected_session_opens(s: AppView, index: nat, env: Environment)
    requires
        !s.busy,
        index < s.sessions.len(),
        s.current_session != Some(s.sessions[index as int].id),
        s.has_store,
    ensures
        ({
            let meta = s.sessions[index as int];
            let h = handled(s, MsgView::SelectIndex(index), env);
            let t = h.state;
            &&& t.current_session == Some(meta.id)
            &&& t.current_agent == meta.agent
            &&& t.current_model == match meta.model {
                Some(m) => m,
                None => default_text(s.engine, names(env)),
            }
            &&& t.sessions == s.sessions
            &&& t.partial.len() == 0 && !t.streaming && !t.tool_output && !t.tool_card
            &&& t.message_snapshots.len() == 0 && t.base_snapshot is None
                && t.pending_snapshot is None
            &&& h.effects == seq![EffectView::ClearChat, EffectView::LoadSession(meta.id)]
        }),
{
    reveal(handled_start);
    assert(handled(s, MsgView::SelectIndex(index), env).effects =~= seq![
        EffectView::ClearChat,
        EffectView::LoadSession(s.sessions[index as int].id),
    ]);
}

/// The messages that were fetched are the conversation, in their order, and the chat shows them
/// all; their snapshots are at hand, the first of them as the base.
pub proof fn a_loaded_session_is_shown(
    s: AppView,
    messages: Seq<(i64, MessageView)>,
    snapshots: Seq<(i64, Seq<char>)>,
    reasoning_ms: Seq<(i64, u64)>,
    env: Environment,
)
    ensures
        ({
            let h = handled(s, MsgView::SessionLoaded { messages, snapshots, reasoning_ms }, env);
            let t = h.state;
            let n = h.effects.len() as int;
            &&& t.session.len() == messages.len()
            &&& forall|i: int| 0 <= i < messages.len() ==> #[trigger] t.session[i] == messages[i].1
            &&& t.message_snapshots == snapshots
            &&& t.base_snapshot == base_of(messages, snapshots)
            &&& n >= 3
            &&& h.effects[0] == EffectView::ClearChat
            &&& h.effects[n - 2] == EffectView::RenderHistory(
                history_rows(messages, snapshots, reasoning_ms),
            )
        }),
{
    reveal(handled_start);
}

/// A new session takes over the profile and the model in use, and belongs to the project.
pub proof fn a_new_session_takes_over(s: AppView, project: i64, env: Environment)
    requires
        s.has_store,
        s.project_id == Some(project),
    ensures
        ({
            let h = handled(s, MsgView::NewSession, env);
            &&& h.state == s
            &&& h.effects.len() == 1
            &&& h.effects[0] matches EffectView::CreateSession {
                project_id,
                title,
                agent,
                preferred,
            } && project_id == project && title == "Nueva sesión"@ && agent == s.current_agent && (
            s.current_model.len() > 0 ==> preferred == Some(s.current_model)) && (
            s.current_model.len() == 0 ==> preferred is None)
        }),
{
    reveal(handled_sessions);
}

/// The sessions of the project are listed. A project without sessions gets one. Snapshots of the
/// worktree are kept in the directory of the project.
pub proof fn a_project_is_opened(
    s: AppView,
    project_id: i64,
    sessions: Seq<SessionMetaView>,
    env: Environment,
)
    ensures
        ({
            let h = handled(s, MsgView::Bootstrapped { project_id, sessions }, env);
            &&& h.state.project_id == Some(project_id)
            &&& h.state.sessions == sessions
            &&& h.effects.len() == 2
            &&& h.effects[0] == if sessions.len() == 0 {
                EffectView::Post(MsgView::NewSession)
            } else {
                EffectView::RebuildSessions { selected: Some(0nat) }
            }
            &&& h.effects[1] == EffectView::OpenSnapshots {
                workdir: s.workdir,
                git_dir: snapshots_path(
                    project_id,
                    value_of(env, "XDG_DATA_HOME"@),
                    value_of(env, "HOME"@),
                ),
            }
        }),
{
    reveal(handled_start);
}

/// Whether `t` has the rows of `s`, but for the row `i`.
pub open spec fn other_rows_stay(
    s: Seq<SessionMetaView>,
    t: Seq<SessionMetaView>,
    i: nat,
) -> bool {
    &&& t.len() == s.len()
    &&& forall|j: int| 0 <= j < s.len() && j != i ==> #[trigger] t[j] == s[j]
}

/// A new title goes to its session, and to no other.
pub proof fn a_session_is_renamed(s: AppView, id: i64, title: Seq<char>, i: nat, env: Environment)
    requires
        place_of(s.sessions, id) == Some(i),
    ensures
        ({
            let t = next_state(s, MsgView::Renamed { id, title }, env);
            &&& other_rows_stay(s.sessions, t.sessions, i)
            &&& i < s.sessions.len()
            &&& t.sessions[i as int].id == id
            &&& t.sessions[i as int].title == title
            &&& t.sessions[i as int].agent == s.sessions[i as int].agent
            &&& t.sessions[i as int].model == s.sessions[i as int].model
            &&& t.current_session == s.current_session
        }),
{
    reveal(handled_sessions);
    place_is_in_range(s.sessions, id);
}

/// The choice of a model counts from the next message on and is kept with the session in use, and
/// with no other.
pub proof fn a_model_is_kept(s: AppView, model: Seq<char>, id: i64, i: nat, env: Environment)
    requires
        s.current_session == Some(id),
        place_of(s.sessions, id) == Some(i),
        s.current_model != model,
        s.has_store,
    ensures
        ({
            let h = handled(s, MsgView::ModelChanged(model), env);
            let t = h.state;
            &&& t.current_model == model
            &&& other_rows_stay(s.sessions, t.sessions, i)
            &&& i < s.sessions.len()
            &&& t.sessions[i as int].id == id
            &&& t.sessions[i as int].model == Some(model)
            &&& t.sessions[i as int].title == s.sessions[i as int].title
            &&& h.effects == seq![EffectView::StoreModel { id, model }]
            &&& next_state(t, MsgView::ModelChanged(model), env) == t
        }),
{
    reveal(handled_choices);
    place_is_in_range(s.sessions, id);
}

/// The choice of a profile counts from the next message on and is kept with the session in use,
/// and with no other.
pub proof fn a_profile_is_kept_with_its_session(
    s: AppView,
    kind: AgentKind,
    id: i64,
    i: nat,
    env: Environment,
)
    requires
        s.current_session == Some(id),
        place_of(s.sessions, id) == Some(i),
        s.current_agent != kind,
        s.has_store,
    ensures
        ({
            let h = handled(s, MsgView::AgentChanged(kind), env);
            let t = h.state;
            &&& t.current_agent == kind
            &&& other_rows_stay(s.sessions, t.sessions, i)
            &&& i < s.sessions.len()
            &&& t.sessions[i as int].id == id
            &&& t.sessions[i as int].agent == kind
            &&& t.sessions[i as int].title == s.sessions[i as int].title
            &&& h.effects == seq![EffectView::StoreAgent { id, agent: kind }]
        }),
{
    reveal(handled_choices);
    place_is_in_range(s.sessions, id);
}

/// A session is deleted only after the user was asked, by its title.
pub proof fn deleting_asks_first(s: AppView, id: i64, i: nat, env: Environment)
    requires
        !s.busy,
        s.has_store,
        place_of(s.sessions, id) == Some(i),
    ensures
        ({
            let asked = handled(s, MsgView::DeleteSessionRequest(id), env);
            &&& asked.state == s
            &&& asked.effects == seq![
                EffectView::ConfirmDelete { id, body: delete_text(s.sessions[i as int].title) },
            ]
            &&& handled(s, MsgView::DeleteSessionConfirmed(id), env).effects == seq![
                EffectView::DeleteSession(id),
            ]
        }),
{
    reveal(handled_sessions);
}

/// A deleted session leaves the list; where it was the one in use, the first of those that are
/// left takes its place, and nothing of it stays in the chat.
pub proof fn a_deleted_session_is_gone(s: AppView, id: i64, env: Environment)
    ensures
        ({
            let h = handled(s, MsgView::SessionDeleted(id), env);
            let t = h.state;
            &&& t.sessions == without(s.sessions, id)
            &&& s.current_session != Some(id) ==> t.current_session == s.current_session
                && t.session == s.session
            &&& s.current_session == Some(id) ==> {
                &&& t.current_session is None
                &&& t.session.len() == 0 && t.partial.len() == 0
                &&& t.message_snapshots.len() == 0
                &&& h.effects.contains(EffectView::ClearChat)
                &&& t.sessions.len() > 0 ==> h.effects.contains(
                    EffectView::Post(MsgView::SelectIndex(0)),
                )
            }
        }),
{
    reveal(handled_sessions);
    let h = handled(s, MsgView::SessionDeleted(id), env);
    if s.current_session == Some(id) {
        assert(h.effects[1] == EffectView::ClearChat);
        if without(s.sessions, id).len() > 0 {
            assert(h.effects[3] == EffectView::Post(MsgView::SelectIndex(0)));
        }
    }
}

/// Dropping a session leaves the rows of the others, in their order.
pub proof fn dropping_keeps_the_order(
    before: Seq<SessionMetaView>,
    meta: SessionMetaView,
    behind: Seq<SessionMetaView>,
)
    requires
        forall|i: int| 0 <= i < before.len() ==> (#[trigger] before[i]).id != meta.id,
        forall|i: int| 0 <= i < behind.len() ==> (#[trigger] behind[i]).id != meta.id,
    ensures
        without(before.push(meta) + behind, meta.id) == before + behind,
    decreases behind.len(),
{
    if behind.len() == 0 {
        assert(before.push(meta) + behind =~= before.push(meta));
        assert(before.push(meta).drop_last() =~= before);
        nothing_to_drop(before, meta.id);
        assert(before + behind =~= before);
    } else {
        let front = behind.drop_last();
        assert forall|i: int| 0 <= i < front.len() implies (#[trigger] front[i]).id
            != meta.id by {
            assert(front[i] == behind[i]);
        }
        dropping_keeps_the_order(before, meta, front);
        let all = before.push(meta) + behind;
        assert(all.drop_last() =~= before.push(meta) + front);
        assert(all.last() == behind[behind.len() - 1]);
        assert((before + front).push(behind.last()) =~= before + behind);
    }
}

proof fn nothing_to_drop(sessions: Seq<SessionMetaView>, id: i64)
    requires
        forall|i: int| 0 <= i < sessions.len() ==> (#[trigger] sessions[i]).id != id,
    ensures
        without(sessions, id) == sessions,
    decreases sessions.len(),
{
    if sessions.len() > 0 {
        let front = sessions.drop_last();
        assert forall|i: int| 0 <= i < front.len() implies (#[trigger] front[i]).id != id by {
            assert(front[i] == sessions[i]);
        }
        nothing_to_drop(front, id);
        assert(sessions[sessions.len() - 1].id != id);
        assert(sessions =~= front.push(sessions.last()));
    } else {
        assert(without(sessions, id) =~= sessions);
    }
}

// ── A turn ────────────────────────────────────────────────────────────────────

/// What the user sends is in the chat and at the end of the conversation, word for word, and the
/// turn starts on the whole of it, with the profile and the model in use.
pub proof fn what_is_sent_is_what_was_typed(
    s: AppView,
    text: Seq<char>,
    id: i64,
    env: Environment,
)
    requires
        s.has_store,
        s.current_session == Some(id),
        !s.busy,
    ensures
        ({
            let h = handled(s, MsgView::Send(text), env);
            let t = h.state;
            let n = s.session.len() as int;
            &&& t.busy
            &&& t.session.len() == n + 1
            &&& t.session.take(n) == s.session
            &&& t.session[n].role == Role::User && t.session[n].content == text
            &&& t.session[n].tool_calls.len() == 0 && t.session[n].tool_call_id is None
            &&& h.effects.len() == 3
            &&& h.effects[0] == EffectView::Bubble { role: Role::User, text }
            &&& h.effects[1] matches EffectView::SaveUserMessage { session_id, text: kept, .. }
                && session_id == id && kept == text
            &&& h.effects[2] matches EffectView::RunTurn { agent, model, history } && agent
                == s.current_agent && model == s.current_model && history == t.session
        }),
{
    reveal(handled_reply);
    let t = next_state(s, MsgView::Send(text), env);
    assert(t.session.take(s.session.len() as int) =~= s.session);
}

/// A piece of a reply is put behind what came before, and the bubble shows the whole of it; the
/// first piece opens the bubble. A piece of a chain of thought is shown in the same way.
pub proof fn pieces_are_shown_as_they_come(s: AppView, piece: Seq<char>, env: Environment)
    ensures
        ({
            let h = handled(s, MsgView::Delta(piece), env);
            let n = h.effects.len() as int;
            &&& h.state.partial == s.partial + piece && h.state.streaming
            &&& n >= 1 && h.effects[n - 1] == EffectView::BubbleText(s.partial + piece)
            &&& s.streaming ==> n == 1
            &&& !s.streaming ==> n == 2 && h.effects[0] == EffectView::OpenBubble
        }),
        ({
            let h = handled(s, MsgView::ReasoningDelta(piece), env);
            let n = h.effects.len() as int;
            &&& h.state.reasoning_partial == s.reasoning_partial + piece && h.state.reasoning_card
            &&& n >= 1 && h.effects[n - 1] == EffectView::ThoughtText(s.reasoning_partial + piece)
            &&& s.reasoning_card ==> n == 1
            &&& !s.reasoning_card ==> n == 2 && (h.effects[0] matches EffectView::OpenThought {
                show,
                ..
            } && show == s.show_reasoning)
        }),
{
    reveal(handled_reply);
}

/// How long a chain of thought took stands over it, and waits for the message that it belongs to.
pub proof fn a_thought_ends_with_its_time(s: AppView, ms: u64, env: Environment)
    ensures
        ({
            let h = handled(s, MsgView::ReasoningFinished { ms }, env);
            &&& h.state.reasoning_ms_queue == s.reasoning_ms_queue.push(ms)
            &&& !h.state.reasoning_card && h.state.reasoning_partial.len() == 0
            &&& s.reasoning_card ==> h.effects == seq![
                EffectView::CloseThought(thought_summary(ms as nat)),
            ]
        }),
{
    reveal(handled_reply);
}

/// At its end the messages of a turn are put behind the conversation and kept with the session,
/// together with how long their chains of thought took and with the snapshot that was taken.
pub proof fn a_turn_is_kept(
    s: AppView,
    messages: Seq<MessageView>,
    id: i64,
    env: Environment,
)
    requires
        s.has_store,
        s.current_session == Some(id),
    ensures
        ({
            let h = handled(s, MsgView::TurnFinished(messages), env);
            let n = h.effects.len() as int;
            &&& h.state.session == s.session + messages
            &&& !h.state.busy && !h.state.streaming && h.state.partial.len() == 0
            &&& h.state.reasoning_ms_queue.len() == 0 && h.state.pending_snapshot is None
            &&& n >= 1
            &&& h.effects[n - 1] == EffectView::SaveTurn {
                session_id: id,
                messages,
                durations: assigned(messages, s.reasoning_ms_queue),
                snapshot: s.pending_snapshot,
            }
        }),
{
    reveal(handled_turn);
}

/// The snapshot that a turn takes waits for the end of the turn, with the place of its message.
pub proof fn a_snapshot_waits_for_the_end(
    s: AppView,
    hash: Seq<char>,
    message_index: nat,
    env: Environment,
)
    ensures
        next_state(s, MsgView::StepSnapshot { hash, message_index }, env).pending_snapshot == Some(
            (hash, message_index),
        ),
{
    reveal(handled_turn);
}

/// What a tool put out is shown at its card, as far as there is room; an error is shown in red.
pub proof fn the_output_of_a_tool_is_shown(s: AppView, output: Seq<char>, env: Environment)
    requires
        s.tool_output,
        output.len() <= 4000,
    ensures
        handled(s, MsgView::ToolFinished { output, ok: true }, env).effects == seq![
            EffectView::ToolText(output),
        ],
        handled(s, MsgView::ToolFinished { output, ok: false }, env).effects == seq![
            EffectView::ToolMarkup(
                "<span foreground=\"#e01b24\">"@ + escaped(output) + "</span>"@,
            ),
        ],
{
    reveal(handled_turn);
}

/// What failed is said in the chat, in the bubble of the reply where one is open, and the turn is
/// over.
pub proof fn a_failure_is_said(s: AppView, error: Seq<char>, env: Environment)
    ensures
        ({
            let h = handled(s, MsgView::Failed(error), env);
            &&& !h.state.busy && !h.state.streaming
            &&& h.state.session == s.session
            &&& h.effects.len() >= 1
            &&& h.effects[0] == if s.streaming {
                EffectView::BubbleError(
                    "<span foreground=\"#e01b24\">"@ + escaped(error) + "</span>"@,
                )
            } else {
                EffectView::Bubble { role: Role::System, text: "Error: "@ + error }
            }
        }),
{
    reveal(handled_reply);
}

/// The durations among those of the messages, in order.
pub open spec fn durations_given(d: Seq<Option<u64>>) -> Seq<u64>
    decreases d.len(),
{
    if d.len() == 0 {
        seq![]
    } else {
        match d.last() {
            Some(ms) => durations_given(d.drop_last()).push(ms),
            None => durations_given(d.drop_last()),
        }
    }
}

/// The durations go, in their order, to the messages of the assistant that carry a chain of
/// thought: the first to the first, and none is left out as long as there is such a message.
pub proof fn durations_go_to_their_thoughts(messages: Seq<MessageView>, durations: Seq<u64>)
    ensures
        assigned(messages, durations).len() == messages.len(),
        forall|i: int|
            0 <= i < messages.len() && (#[trigger] assigned(messages, durations)[i]) is Some
                ==> messages[i].role == Role::Assistant && (messages[i].reasoning matches Some(r)
                && r.len() > 0),
        durations_given(assigned(messages, durations)) == durations.take(
            if thoughts_in(messages) < durations.len() {
                thoughts_in(messages) as int
            } else {
                durations.len() as int
            },
        ),
    decreases messages.len(),
{
    let all = assigned(messages, durations);
    if messages.len() == 0 {
        assert(durations_given(all) =~= durations.take(0));
    } else {
        let front = messages.drop_last();
        durations_go_to_their_thoughts(front, durations);
        assert forall|i: int| 0 <= i < front.len() implies all[i] == assigned(
            front,
            durations,
        )[i] by {
            assert(front.take(i) =~= messages.take(i));
        }
        assert(all.drop_last() =~= assigned(front, durations));
        assert(messages.take(front.len() as int) =~= front);
        let k = thoughts_in(front) as int;
        if is_thoughtful(messages.last()) && k < durations.len() {
            assert(durations.take(k).push(durations[k]) =~= durations.take(k + 1));
        }
    }
}

// ── Changes ───────────────────────────────────────────────────────────────────

/// The changes that are shown are the files of the patch, and the first of them is in view.
pub proof fn the_changes_are_shown(s: AppView, patch: Seq<char>, env: Environment)
    ensures
        ({
            let h = handled(s, MsgView::ChangesPatchLoaded(patch), env);
            let files = patch_files(patch);
            &&& h.state.changes_patch == patch
            &&& h.state.nav.index == 0
            &&& h.state.nav.files.len() == files.len()
            &&& forall|i: int|
                0 <= i < files.len() ==> #[trigger] h.state.nav.files[i] == files[i].path
            &&& h.effects.len() >= 2
            &&& h.effects[0] == EffectView::ShowChanges(files)
            &&& h.effects[1] == EffectView::NavBar(files.len() > 1)
        }),
{
    reveal(handled_changes);
}

/// Going on to the next file, and back to the one before, shows that file.
pub proof fn another_file_comes_into_view(s: AppView, env: Environment)
    ensures
        s.nav.index + 1 < s.nav.files.len() ==> {
            let h = handled(s, MsgView::ChangesNavNext, env);
            &&& h.state.nav.index == s.nav.index + 1
            &&& h.state.nav.files == s.nav.files
            &&& h.effects.contains(EffectView::ScrollToFile(s.nav.index + 1))
        },
        0 < s.nav.index < s.nav.files.len() ==> {
            let h = handled(s, MsgView::ChangesNavPrev, env);
            &&& h.state.nav.index == s.nav.index - 1
            &&& h.state.nav.files == s.nav.files
            &&& h.effects.contains(EffectView::ScrollToFile((s.nav.index - 1) as nat))
        },
{
    reveal(handled_changes);
    if s.nav.index + 1 < s.nav.files.len() {
        let h = handled(s, MsgView::ChangesNavNext, env);
        assert(h.effects[1] == EffectView::ScrollToFile(s.nav.index + 1));
    }
    if 0 < s.nav.index < s.nav.files.len() {
        let h = handled(s, MsgView::ChangesNavPrev, env);
        assert(h.effects[1] == EffectView::ScrollToFile((s.nav.index - 1) as nat));
    }
}

/// Before going back the user is asked, with the files that would change.
pub proof fn going_back_asks_first(
    s: AppView,
    hash: Seq<char>,
    files: Seq<Seq<char>>,
    env: Environment,
)
    requires
        s.snapshots is Some,
    ensures
        handled(s, MsgView::RevertPreview { hash, files }, env).effects == seq![
            EffectView::ConfirmRevert { hash, files, body: revert_text(files) },
        ],
        handled(s, MsgView::RevertPreview { hash, files }, env).state == s,
{
    reveal(handled_changes);
}

// ── Accounts and dialogs ──────────────────────────────────────────────────────

/// A key that the user typed is the credential of its provider from there on, and is kept; giving
/// the provider up takes it away. The other providers keep theirs.
pub proof fn a_key_is_kept(
    s: AppView,
    provider_id: Seq<char>,
    key: Seq<char>,
    other: Seq<char>,
    env: Environment,
)
    requires
        keys_ascend(s.engine.auth),
        other != provider_id,
    ensures
        ({
            let h = handled(s, MsgView::ApiKeyEntered { provider_id, key }, env);
            &&& lookup(h.state.engine.auth, provider_id) == Some(
                AuthView::Api { key, metadata: None },
            )
            &&& lookup(h.state.engine.auth, other) == lookup(s.engine.auth, other)
            &&& h.effects.len() == 1 && h.effects[0] is SaveAuth
        }),
        ({
            let h = handled(s, MsgView::DisconnectProvider(provider_id), env);
            &&& lookup(h.state.engine.auth, provider_id) is None
            &&& lookup(h.state.engine.auth, other) == lookup(s.engine.auth, other)
            &&& h.effects.len() == 1 && h.effects[0] is SaveAuth
        }),
{
    reveal(handled_accounts);
    let info = AuthView::Api { key, metadata: None };
    lookup_inserted(s.engine.auth, provider_id, info, provider_id);
    lookup_inserted(s.engine.auth, provider_id, info, other);
    lookup_removed(s.engine.auth, provider_id, provider_id);
    lookup_removed(s.engine.auth, provider_id, other);
}

/// The account that was connected in the browser is the credential of its provider.
pub proof fn an_account_is_kept(s: AppView, info: AuthView, env: Environment)
    ensures
        lookup(
            next_state(s, MsgView::OauthOpenAiCompleted(info), env).engine.auth,
            "openai"@,
        ) == Some(info),
{
    reveal(handled_accounts);
    lookup_inserted(s.engine.auth, "openai"@, info, "openai"@);
}

/// The dialogs show what there is: the models of the connected providers with the one in use, the
/// providers, and the accounts. One provider is connected by its account, the others by a key.
pub proof fn dialogs_show_what_there_is(s: AppView, provider: Seq<char>, env: Environment)
    ensures
        handled(s, MsgView::OpenModelPicker, env).effects == seq![
            EffectView::PickModel {
                current: s.current_model,
                options: model_options(s.engine.catalog, s.engine.auth),
            },
        ],
        handled(s, MsgView::OpenConnectProvider, env).effects == seq![
            EffectView::ShowConnect(provider_rows(s.engine.catalog, s.engine.auth)),
        ],
        handled(s, MsgView::OpenSettings, env).effects == seq![
            EffectView::ShowSettings(account_list(s.engine.auth)),
        ],
        handled(s, MsgView::ConnectProvider(provider), env).effects == seq![
            if provider == "openai"@ {
                EffectView::StartOauth
            } else {
                EffectView::AskApiKey(provider)
            },
        ],
{
    reveal(handled_choices);
    reveal(handled_accounts);
}

/// Calling the palette a second time sends it away; showing the chains of thought shows them.
pub proof fn switches_switch(s: AppView, active: bool, env: Environment)
    ensures
        next_state(s, MsgView::OpenCommandPalette, env).palette_open == !s.palette_open,
        next_state(s, MsgView::ToggleSessionsSidebar, env).sidebar_collapsed
            == !s.sidebar_collapsed,
        next_state(s, MsgView::ToggleReasoning(active), env).show_reasoning == active,
        handled(s, MsgView::ToggleReasoning(active), env).effects == seq![
            EffectView::ShowThoughts(active),
        ],
        !next_state(s, MsgView::CommandPaletteClosed, env).palette_open,
{
    reveal(handled_start);
    reveal(handled_choices);
}

/// The command that shows or hides the chains of thought changes what is shown, whichever it is.
pub proof fn the_palette_turns_thoughts_around(s: AppView, env: Environment)
    ensures
        next_state(
            s,
            command_message(CommandPaletteAction::ToggleThinking, s.show_reasoning),
            env,
        ).show_reasoning == !s.show_reasoning,
        command_message(CommandPaletteAction::NewSession, s.show_reasoning)
            == MsgView::NewSession,
        command_message(CommandPaletteAction::SelectModel, s.show_reasoning)
            == MsgView::OpenModelPicker,
        command_message(CommandPaletteAction::ConnectProvider, s.show_reasoning)
            == MsgView::OpenConnectProvider,
        command_message(CommandPaletteAction::Quit, s.show_reasoning) == MsgView::Quit,
{
    reveal(handled_choices);
}

/// What a turn reports reaches the window with all that it says.
pub proof fn reports_reach_the_window(
    text: Seq<char>,
    name: Seq<char>,
    ok: bool,
    ms: u64,
    index: nat,
    messages: Seq<MessageView>,
)
    ensures
        event_message(AgentEventView::Delta(text)) == MsgView::Delta(text),
        event_message(AgentEventView::ReasoningDelta(text)) == MsgView::ReasoningDelta(text),
        event_message(AgentEventView::ReasoningFinished { duration_ms: ms as nat }) == (
        MsgView::ReasoningFinished { ms }),
        event_message(AgentEventView::StepSnapshot { hash: text, message_index: index }) == (
        MsgView::StepSnapshot { hash: text, message_index: index }),
        event_message(AgentEventView::ToolStarted { name, arguments: text }) == (
        MsgView::ToolStarted { name, arguments: text }),
        event_message(AgentEventView::ToolFinished { name, output: text, ok }) == (
        MsgView::ToolFinished { output: text, ok }),
        event_message(AgentEventView::Turn(messages)) == MsgView::TurnFinished(messages),
{
}

// ── Controls ──────────────────────────────────────────────────────────────────

/// The user can send and choose a profile where there is a session and no turn runs, and choose a
/// model unless a turn runs. The changes are shown where there are any and there is room. The
/// button for chains of thought is there for models that send them. The model is shown by its own
/// name.
pub proof fn controls_follow_the_state(s: AppView, provider: Seq<char>, model: Seq<char>)
    ensures
        ({
            let c = controls_of(s);
            &&& c.ready <==> s.current_session is Some && !s.busy
            &&& c.toggles_enabled <==> s.current_session is Some && !s.busy
            &&& c.model_enabled <==> !s.busy
            &&& c.show_changes <==> s.wide_layout && trimmed(s.changes_patch).len() > 0
            &&& c.agent == s.current_agent
            &&& c.sidebar_collapsed == s.sidebar_collapsed
            &&& c.show_reasoning == s.show_reasoning
            &&& c.reasoning_visible <==> (named_ref(
                s.engine.catalog,
                s.current_model,
            ) matches Some(r) && is_reasoning(s.engine.catalog, r))
            &&& s.current_model.len() == 0 ==> c.model_label == "Modelo"@
            &&& parsed_ref(s.current_model) matches Some(r) ==> c.model_label == r.model_id
            &&& s.current_model.len() > 0 && parsed_ref(s.current_model) is None ==> c.model_label
                == s.current_model
        }),
{
    if s.current_model.len() == 0 {
        crate::split::index_of_char_is(s.current_model, '/', 0);
    }
}

// ── Rows, notices and controls ────────────────────────────────────────────────

/// The row of a session is the first that holds it, and a session without a row is in none.
pub proof fn the_first_row_counts(sessions: Seq<SessionMetaView>, id: i64)
    ensures
        match place_of(sessions, id) {
            Some(i) => i < sessions.len() && sessions[i as int].id == id && forall|j: int|
                0 <= j < i ==> (#[trigger] sessions[j]).id != id,
            None => forall|j: int| 0 <= j < sessions.len() ==> (#[trigger] sessions[j]).id != id,
        },
    decreases sessions.len(),
{
    if sessions.len() > 0 {
        let before = sessions.drop_last();
        the_first_row_counts(before, id);
        assert forall|j: int| 0 <= j < before.len() implies before[j] == #[trigger] sessions[j] by {
        }
    }
}

/// After a session was renamed, or another one deleted, the row that is marked is that of the
/// session in use.
pub proof fn the_session_in_use_stays_marked(
    s: AppView,
    id: i64,
    title: Seq<char>,
    current: i64,
    env: Environment,
)
    requires
        s.current_session == Some(current),
    ensures
        ({
            let h = handled(s, MsgView::Renamed { id, title }, env);
            h.effects.len() == 1 && (h.effects[0] matches EffectView::RebuildSessions { selected }
                && (selected matches Some(k) && ((k < h.state.sessions.len()
                && h.state.sessions[k as int].id == current) || (k == 0 && forall|j: int|
                0 <= j < h.state.sessions.len() ==> (#[trigger] h.state.sessions[j]).id
                    != current))))
        }),
        id != current ==> {
            let h = handled(s, MsgView::SessionDeleted(id), env);
            h.effects.len() == 1 && (h.effects[0] matches EffectView::RebuildSessions { selected }
                && match selected {
                Some(k) => k < h.state.sessions.len() && h.state.sessions[k as int].id == current,
                None => forall|j: int|
                    0 <= j < h.state.sessions.len() ==> (#[trigger] h.state.sessions[j]).id
                        != current,
            })
        },
{
    reveal(handled_sessions);
    the_first_row_counts(handled(s, MsgView::Renamed { id, title }, env).state.sessions, current);
    the_first_row_counts(handled(s, MsgView::SessionDeleted(id), env).state.sessions, current);
}

/// At the start the user is told where no provider has a key, and where nothing can be kept; else
/// nothing is said.
pub proof fn what_is_missing_is_said(s: AppView, defined: Seq<Seq<char>>)
    ensures
        ({
            let said = welcome(s, defined);
            &&& any_key(s.engine.catalog, defined) && s.has_store ==> said.len() == 0
            &&& !any_key(s.engine.catalog, defined) ==> said.len() > 0 && said[0]
                == (EffectView::Bubble { role: Role::System, text: NO_KEYS@ })
            &&& !s.has_store ==> said.len() > 0 && said.last() == (EffectView::Bubble {
                role: Role::System,
                text: NO_STORE@,
            })
            &&& any_key(s.engine.catalog, defined) || s.has_store ==> said.len() <= 1
        }),
{
}

/// The changes that are shown are those since the first snapshot of the conversation: that stays
/// the base when later ones are kept, and the changes are fetched anew whenever it may be another.
pub proof fn changes_count_from_the_first_snapshot(
    s: AppView,
    message_id: i64,
    hash: Seq<char>,
    messages: Seq<(i64, MessageView)>,
    snapshots: Seq<(i64, Seq<char>)>,
    durations: Seq<(i64, u64)>,
    env: Environment,
)
    requires
        s.snapshots is Some,
    ensures
        ({
            let kept = handled(s, MsgView::SnapshotPersisted { message_id, hash }, env);
            let base = if s.base_snapshot is Some {
                s.base_snapshot
            } else {
                Some(hash)
            };
            &&& kept.state.base_snapshot == base
            &&& kept.effects.last() == EffectView::LoadPatch(base)
        }),
        ({
            let m = MsgView::SessionLoaded { messages, snapshots, reasoning_ms: durations };
            handled(s, m, env).effects.last() == EffectView::LoadPatch(base_of(messages, snapshots))
        }),
        handled(s, MsgView::SnapshotsReady(s.snapshots->0), env).effects == seq![
            EffectView::LoadPatch(s.base_snapshot),
        ],
{
    reveal(handled_start);
    reveal(handled_turn);
}

/// A session that was created brings its profile and its model; without a model of its own it
/// takes the one in use. It stands before the other sessions, and the chat is empty.
pub proof fn a_created_session_brings_its_model(s: AppView, meta: SessionMetaView, env: Environment)
    ensures
        ({
            let t = next_state(s, MsgView::SessionCreated(meta), env);
            &&& t.current_session == Some(meta.id)
            &&& t.current_agent == meta.agent
            &&& meta.model matches Some(m) ==> t.current_model == m
            &&& meta.model is None ==> t.current_model == s.current_model
            &&& t.sessions.len() == s.sessions.len() + 1 && t.sessions[0] == meta
            &&& t.sessions.skip(1) == s.sessions
            &&& t.session.len() == 0 && t.partial.len() == 0
        }),
{
    reveal(handled_sessions);
    let t = next_state(s, MsgView::SessionCreated(meta), env);
    assert(t.sessions.skip(1) =~= s.sessions);
}

/// What the reply said before a tool is taken up stays in its bubble, and what it says behind the
/// tool goes to another one.
pub proof fn a_tool_closes_the_bubble(
    s: AppView,
    name: Seq<char>,
    arguments: Seq<char>,
    env: Environment,
)
    requires
        s.streaming,
        s.partial.len() > 0,
        !s.tool_output,
    ensures
        ({
            let started = handled(s, MsgView::ToolStarted { name, arguments }, env);
            let asked = handled(
                s,
                MsgView::PermissionRequested { tool_name: name, arguments },
                env,
            );
            &&& started.effects.len() == 2
            &&& started.effects[0] == EffectView::FillBubble(s.partial)
            &&& started.effects[1] is ToolCard
            &&& !started.state.streaming && started.state.partial.len() == 0
            &&& asked.effects.len() == 3
            &&& asked.effects[0] == EffectView::FillBubble(s.partial)
            &&& asked.effects[1] is ToolCard
            &&& asked.effects[2] == EffectView::PermissionControls(
                "Permitir ejecutar "@ + name + "?"@,
            )
            &&& !asked.state.streaming && asked.state.partial.len() == 0
        }),
{
    reveal(handled_turn);
}

/// What became of an account is said, by the name of its provider.
pub proof fn accounts_are_spoken_of(
    s: AppView,
    provider: Seq<char>,
    key: Seq<char>,
    error: Seq<char>,
    env: Environment,
)
    ensures
        handled(s, MsgView::DisconnectProvider(provider), env).effects == seq![
            EffectView::SaveAuth { toast: "«"@ + provider + "» desconectado"@ },
        ],
        handled(s, MsgView::ApiKeyEntered { provider_id: provider, key }, env).effects == seq![
            EffectView::SaveAuth { toast: "Cuenta «"@ + provider + "» conectada"@ },
        ],
        handled(s, MsgView::OauthOpenAiFailed(error), env).effects == seq![
            EffectView::Bubble {
                role: Role::System,
                text: "La conexión con OpenAI falló: "@ + error,
            },
        ],
        handled(s, MsgView::OauthOpenAiFailed(error), env).state == s,
{
    reveal(handled_accounts);
}

/// The list of sessions is hidden and shown by turns, the changes have room from a width of 1180
/// on, and the profile is switched to the other one.
pub proof fn the_window_follows_the_user(s: AppView, width: i32, text: Seq<char>, env: Environment)
    ensures
        ({
            let once = next_state(s, MsgView::ToggleSessionsSidebar, env);
            &&& once.sidebar_collapsed != s.sidebar_collapsed
            &&& next_state(once, MsgView::ToggleSessionsSidebar, env) == s
        }),
        next_state(s, MsgView::WindowWidthChanged(width), env).wide_layout <==> width >= 1180,
        handled(s, MsgView::Toast(text), env).effects == seq![EffectView::Toast(text)],
        handled(s, MsgView::Quit, env).effects == seq![EffectView::Quit],
        handled(s, MsgView::ToggleAgent, env).effects.len() == 1,
        handled(s, MsgView::ToggleAgent, env).effects[0] matches EffectView::Post(
            MsgView::AgentChanged(kind),
        ) && kind != s.current_agent,
{
    reveal(handled_start);
    reveal(handled_choices);
    reveal(handled_window);
}

/// What is done for a message that counts comes first; then the window is brought up to date and
/// the end of the chat into view. Where a turn has just ended, the user can type again.
pub proof fn the_end_of_the_chat_is_in_view(s: AppView, m: MsgView, env: Environment)
    ensures
        ({
            let h = handled(s, m, env);
            let all = all_effects(s, m, env);
            let n = h.effects.len() as int;
            &&& h.effects.is_prefix_of(all)
            &&& h.quiet ==> all == h.effects
            &&& !h.quiet ==> all[n] == EffectView::Refresh && all.last()
                == EffectView::ScrollToBottom && all.len() == n + (if s.busy && !h.state.busy {
                3int
            } else {
                2
            })
            &&& !h.quiet && s.busy && !h.state.busy ==> all[n + 1] == EffectView::FocusEntry
        }),
{
}

/// A conversation without a snapshot shows no changes; one that has one keeps those in view until
/// its own come.
pub proof fn without_a_snapshot_no_changes_are_shown(
    s: AppView,
    messages: Seq<(i64, MessageView)>,
    snapshots: Seq<(i64, Seq<char>)>,
    durations: Seq<(i64, u64)>,
    env: Environment,
)
    ensures
        ({
            let m = MsgView::SessionLoaded { messages, snapshots, reasoning_ms: durations };
            let h = handled(s, m, env);
            &&& base_of(messages, snapshots) is None ==> h.state.changes_patch.len() == 0
                && h.effects.contains(EffectView::ClearChanges)
            &&& base_of(messages, snapshots) is Some ==> h.state.changes_patch == s.changes_patch
                && !h.effects.contains(EffectView::ClearChanges)
        }),
{
    reveal(handled_start);
    let m = MsgView::SessionLoaded { messages, snapshots, reasoning_ms: durations };
    let h = handled(s, m, env);
    if base_of(messages, snapshots) is None {
        assert(h.effects[1] == EffectView::ClearChanges);
    }
}

} // verus!
