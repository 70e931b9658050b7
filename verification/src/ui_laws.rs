//! What holds of the application, whatever happens to it.
use vstd::prelude::*;
use crate::auth::{AuthView, Credentials};
use crate::diff::patch_files;
use crate::effect::{CardSlot, EffectView};
use crate::engine::{EngineView, Environment};
use crate::format::{invocation, title_of};
use crate::history::{by_id, plain_messages};
use crate::json::json_object;
use crate::map::{inserted, removed};
use crate::message::{text_message, MessageView, Role};
use crate::msg::MsgView;
use crate::nav::{has_next, has_prev, nav_back, nav_forward, nav_of, nav_ok, NavView};
use crate::session::nothing_said;
use crate::state::{controls_of, place_of, AppView};
use crate::step::{about_accounts, about_changes, about_choices, about_reply, about_sessions,
    about_start, about_turn, after, all_effects, handled, handled_accounts, handled_changes,
    handled_choices, handled_reply, handled_sessions, handled_start, handled_turn, handled_window,
    ignored, next_state, on_permission, on_select, on_tool, on_tool_end, other_agent, paths_of,
    tool_end, RUNNING, WAITING};
use crate::store::SessionMetaView;

verus! {

/// Whether a turn runs after a message.
spec fn busy_after(s: AppView, m: MsgView) -> bool {
    match m {
        MsgView::Send(_) => s.busy || (s.has_store && s.current_session is Some),
        MsgView::TurnFinished(_) => false,
        MsgView::Failed(_) => false,
        _ => s.busy,
    }
}

/// The conversation after a message.
spec fn session_after(s: AppView, m: MsgView) -> Seq<MessageView> {
    match m {
        MsgView::Send(text) => if s.busy || !s.has_store || s.current_session is None {
            s.session
        } else {
            s.session.push(text_message(Role::User, text))
        },
        MsgView::TurnFinished(messages) => s.session + messages,
        MsgView::SessionLoaded { messages, .. } => plain_messages(messages),
        MsgView::SessionCreated(_) => seq![],
        MsgView::SessionDeleted(id) => if s.current_session == Some(id) {
            seq![]
        } else {
            s.session
        },
        _ => s.session,
    }
}

/// The file in view after a message.
spec fn nav_after(s: AppView, m: MsgView) -> NavView {
    match m {
        MsgView::ChangesPatchLoaded(patch) => nav_of(paths_of(patch_files(patch))),
        MsgView::ChangesNavPrev => if has_prev(s.nav) {
            nav_back(s.nav)
        } else {
            s.nav
        },
        MsgView::ChangesNavNext => if has_next(s.nav) {
            nav_forward(s.nav)
        } else {
            s.nav
        },
        _ => s.nav,
    }
}

/// The credentials after a message.
spec fn auth_after(s: AppView, m: MsgView) -> Credentials {
    match m {
        MsgView::ApiKeyEntered { provider_id, key } => inserted(
            s.engine.auth,
            provider_id,
            AuthView::Api { key, metadata: None },
        ),
        MsgView::OauthOpenAiCompleted(info) => inserted(s.engine.auth, "openai"@, info),
        MsgView::DisconnectProvider(provider) => removed(s.engine.auth, provider),
        _ => s.engine.auth,
    }
}

/// Whether `t` is what a message makes of the turn, the conversation, the file in view and the
/// engine.
spec fn comes_after(s: AppView, m: MsgView, t: AppView) -> bool {
    &&& t.busy == busy_after(s, m)
    &&& t.session == session_after(s, m)
    &&& t.nav == nav_after(s, m)
    &&& t.engine == (EngineView { auth: auth_after(s, m), ..s.engine })
}

#[verifier::spinoff_prover]
proof fn start_come_after(s: AppView, m: MsgView, env: Environment)
    requires
        about_start(m),
    ensures
        comes_after(s, m, next_state(s, m, env)),
{
    reveal(handled_start);
}

#[verifier::spinoff_prover]
proof fn sessions_come_after(s: AppView, m: MsgView, env: Environment)
    requires
        about_sessions(m),
    ensures
        comes_after(s, m, next_state(s, m, env)),
{
    reveal(handled_sessions);
}

#[verifier::spinoff_prover]
proof fn choices_come_after(s: AppView, m: MsgView, env: Environment)
    requires
        about_choices(m),
    ensures
        comes_after(s, m, next_state(s, m, env)),
{
    reveal(handled_choices);
}

#[verifier::spinoff_prover]
proof fn accounts_come_after(s: AppView, m: MsgView, env: Environment)
    requires
        about_accounts(m),
    ensures
        comes_after(s, m, next_state(s, m, env)),
{
    reveal(handled_accounts);
}

#[verifier::spinoff_prover]
proof fn reply_come_after(s: AppView, m: MsgView, env: Environment)
    requires
        about_reply(m),
    ensures
        comes_after(s, m, next_state(s, m, env)),
{
    reveal(handled_reply);
}

#[verifier::spinoff_prover]
proof fn turn_come_after(s: AppView, m: MsgView, env: Environment)
    requires
        about_turn(m),
    ensures
        comes_after(s, m, next_state(s, m, env)),
{
    reveal(handled_turn);
}

#[verifier::spinoff_prover]
proof fn changes_come_after(s: AppView, m: MsgView, env: Environment)
    requires
        about_changes(m),
    ensures
        comes_after(s, m, next_state(s, m, env)),
{
    reveal(handled_changes);
}

#[verifier::spinoff_prover]
proof fn window_come_after(s: AppView, m: MsgView, env: Environment)
    requires
        !about_start(m),
        !about_sessions(m),
        !about_choices(m),
        !about_accounts(m),
        !about_reply(m),
        !about_turn(m),
        !about_changes(m),
    ensures
        comes_after(s, m, next_state(s, m, env)),
{
    reveal(handled_window);
}

proof fn all_come_after(s: AppView, m: MsgView, env: Environment)
    ensures
        comes_after(s, m, next_state(s, m, env)),
{
    if about_start(m) {
        start_come_after(s, m, env);
    } else if about_sessions(m) {
        sessions_come_after(s, m, env);
    } else if about_choices(m) {
        choices_come_after(s, m, env);
    } else if about_accounts(m) {
        accounts_come_after(s, m, env);
    } else if about_reply(m) {
        reply_come_after(s, m, env);
    } else if about_turn(m) {
        turn_come_after(s, m, env);
    } else if about_changes(m) {
        changes_come_after(s, m, env);
    } else {
        window_come_after(s, m, env);
    }
}

/// What a message does to the turn.
proof fn the_turn_after(s: AppView, m: MsgView, env: Environment)
    ensures
        next_state(s, m, env).busy == busy_after(s, m),
{
    all_come_after(s, m, env);
}

/// What a message does to the conversation.
proof fn the_conversation_after(s: AppView, m: MsgView, env: Environment)
    ensures
        next_state(s, m, env).session == session_after(s, m),
{
    all_come_after(s, m, env);
}

/// What a message does to the file in view.
proof fn the_file_after(s: AppView, m: MsgView, env: Environment)
    ensures
        next_state(s, m, env).nav == nav_after(s, m),
{
    all_come_after(s, m, env);
}

/// Only connecting and disconnecting an account touches the engine.
proof fn engine_untouched(s: AppView, m: MsgView, env: Environment)
    requires
        !(m is ApiKeyEntered),
        !(m is OauthOpenAiCompleted),
        !(m is DisconnectProvider),
    ensures
        next_state(s, m, env).engine == s.engine,
{
    all_come_after(s, m, env);
}

/// No message changes the providers, the tools or the file that the credentials are kept in, and
/// only connecting and disconnecting an account changes the credentials.
pub proof fn the_engine_stays(s: AppView, m: MsgView, env: Environment)
    ensures
        next_state(s, m, env).engine.catalog == s.engine.catalog,
        next_state(s, m, env).engine.tools == s.engine.tools,
        next_state(s, m, env).engine.auth_file == s.engine.auth_file,
        next_state(s, m, env).engine.auth == (match m {
            MsgView::ApiKeyEntered { provider_id, key } => inserted(
                s.engine.auth,
                provider_id,
                AuthView::Api { key, metadata: None },
            ),
            MsgView::OauthOpenAiCompleted(info) => inserted(s.engine.auth, "openai"@, info),
            MsgView::DisconnectProvider(provider) => removed(s.engine.auth, provider),
            _ => s.engine.auth,
        }),
{
    match m {
        MsgView::ApiKeyEntered { .. } => {
            all_come_after(s, m, env);
        },
        MsgView::OauthOpenAiCompleted(_) => {
            all_come_after(s, m, env);
        },
        MsgView::DisconnectProvider(_) => {
            all_come_after(s, m, env);
        },
        _ => {
            engine_untouched(s, m, env);
        },
    }
}

/// While a turn runs, nothing is sent, no other session is opened, no way back is taken and no
/// session is deleted.
pub proof fn a_turn_is_not_disturbed(s: AppView, m: MsgView, env: Environment)
    requires
        s.busy,
        m is Send || m is SelectIndex || m is Revert || m is DeleteSessionRequest,
    ensures
        handled(s, m, env) == ignored(s),
{
    reveal(handled_start);
    reveal(handled_sessions);
    reveal(handled_reply);
    reveal(handled_changes);
    match m {
        MsgView::Send(_) => {},
        MsgView::SelectIndex(_) => {},
        MsgView::Revert(_) => {},
        MsgView::DeleteSessionRequest(_) => {},
        _ => {},
    }
}

/// Only sending starts a turn, and only where none runs: there is one turn at a time.
pub proof fn one_turn_at_a_time(s: AppView, m: MsgView, env: Environment)
    ensures
        next_state(s, m, env).busy && !s.busy ==> m is Send,
        s.busy && !next_state(s, m, env).busy ==> m is TurnFinished || m is Failed,
        m is TurnFinished || m is Failed ==> !next_state(s, m, env).busy,
{
    the_turn_after(s, m, env);
}

/// A message that can be sent is in the conversation, is kept, and goes to the model with all that
/// was said before. The first one names the session.
pub proof fn a_message_reaches_the_model(s: AppView, text: Seq<char>, env: Environment)
    requires
        controls_of(s).ready,
        s.has_store,
    ensures
        ({
            let t = next_state(s, MsgView::Send(text), env);
            let effects = all_effects(s, MsgView::Send(text), env);
            &&& t.busy
            &&& t.session == s.session.push(text_message(Role::User, text))
            &&& effects[1] matches EffectView::SaveUserMessage { session_id, text: kept, new_title }
                && Some(session_id) == s.current_session && kept == text && new_title == (
            if nothing_said(s.session) {
                Some(title_of(text))
            } else {
                None
            })
            &&& effects[2] == EffectView::RunTurn {
                agent: s.current_agent,
                model: s.current_model,
                history: t.session,
            }
        }),
{
    reveal(handled_reply);
}

/// No message of the conversation is lost, unless another session is loaded, created or closed.
pub proof fn the_conversation_grows(s: AppView, m: MsgView, env: Environment)
    requires
        !(m is SessionLoaded),
        !(m is SessionCreated),
        !(m is SessionDeleted),
    ensures
        s.session.len() <= next_state(s, m, env).session.len(),
        forall|i: int|
            0 <= i < s.session.len() ==> next_state(s, m, env).session[i] == #[trigger] s.session[i],
{
    the_conversation_after(s, m, env);
}

/// One of the files is in view, where there are files.
pub proof fn a_file_is_in_view(s: AppView, m: MsgView, env: Environment)
    requires
        nav_ok(s.nav),
    ensures
        nav_ok(next_state(s, m, env).nav),
{
    the_file_after(s, m, env);
}

/// The end of a turn lets the user type again.
pub proof fn the_end_gives_back_the_entry(s: AppView, m: MsgView, env: Environment)
    requires
        s.busy,
        m is TurnFinished || m is Failed,
    ensures
        ({
            let effects = all_effects(s, m, env);
            &&& effects.len() >= 3
            &&& effects[effects.len() - 2] == EffectView::FocusEntry
        }),
{
    reveal(handled_reply);
    reveal(handled_turn);
    let h = handled(s, m, env);
    let a = after(s.busy, h.state.busy);
    assert(a.len() == 3);
    assert((h.effects + a)[(h.effects + a).len() - 2] == a[1]);
}

/// The text of a reply is shown piece by piece, and whole at the end.
pub proof fn a_reply_is_shown_whole(
    s: AppView,
    a: Seq<char>,
    b: Seq<char>,
    messages: Seq<MessageView>,
    env: Environment,
)
    ensures
        ({
            let t = next_state(next_state(s, MsgView::Delta(a), env), MsgView::Delta(b), env);
            &&& t.partial == s.partial + a + b
            &&& t.streaming
            &&& all_effects(t, MsgView::TurnFinished(messages), env)[0] == EffectView::FillBubble(
                s.partial + a + b,
            )
        }),
{
    reveal(handled_reply);
    reveal(handled_turn);
}

/// A snapshot that is kept with a message can be gone back to.
pub proof fn a_kept_snapshot_can_be_reverted(
    s: AppView,
    message_id: i64,
    hash: Seq<char>,
    env: Environment,
)
    requires
        !s.busy,
        s.snapshots is Some,
    ensures
        ({
            let t = next_state(s, MsgView::SnapshotPersisted { message_id, hash }, env);
            all_effects(t, MsgView::Revert(message_id), env)[0] == EffectView::PreviewRevert(hash)
        }),
{
    reveal(handled_turn);
    reveal(handled_changes);
    let t = next_state(s, MsgView::SnapshotPersisted { message_id, hash }, env);
    assert(t.message_snapshots.last() == (message_id, hash));
    assert(by_id(t.message_snapshots, message_id) == Some(hash));
}

/// Without a snapshot of its own, a message offers no way back.
pub proof fn nothing_else_can_be_reverted(s: AppView, message_id: i64, env: Environment)
    requires
        by_id(s.message_snapshots, message_id) is None,
    ensures
        handled(s, MsgView::Revert(message_id), env) == ignored(s),
{
    reveal(handled_changes);
}

/// The way back is offered at the last tool of the turn, even where the user sends the next
/// message before the snapshot is kept.
pub proof fn the_way_back_survives_a_message(
    s: AppView,
    messages: Seq<MessageView>,
    text: Seq<char>,
    message_id: i64,
    hash: Seq<char>,
    env: Environment,
)
    requires
        s.pending_snapshot is Some,
        s.tool_card,
    ensures
        ({
            let ended = next_state(s, MsgView::TurnFinished(messages), env);
            let sent = next_state(ended, MsgView::Send(text), env);
            all_effects(sent, MsgView::SnapshotPersisted { message_id, hash }, env)[0]
                == EffectView::AttachRevert { message_id, slot: CardSlot::Held }
        }),
{
    reveal(handled_reply);
    reveal(handled_turn);
}

/// What is done for the messages about a tool.
proof fn tool_steps(s: AppView, m: MsgView, env: Environment)
    ensures
        m matches MsgView::PermissionRequested { tool_name, arguments } ==> handled(s, m, env)
            == on_permission(s, tool_name, arguments),
        m matches MsgView::ToolStarted { name, arguments } ==> handled(s, m, env) == on_tool(
            s,
            name,
            arguments,
        ),
        m matches MsgView::ToolFinished { output, ok } ==> handled(s, m, env) == on_tool_end(
            s,
            output,
            ok,
        ),
{
    reveal(handled_turn);
}

/// A call that needs consent is in the chat before the user is asked, and waits there.
pub proof fn the_user_sees_what_is_asked(
    s: AppView,
    tool_name: Seq<char>,
    arguments: Seq<char>,
    env: Environment,
)
    requires
        !s.tool_output,
    ensures
        ({
            let ask = MsgView::PermissionRequested { tool_name, arguments };
            let effects = handled(s, ask, env).effects;
            let n = effects.len();
            &&& n >= 2
            &&& effects[n - 2] == EffectView::ToolCard {
                name: tool_name,
                invocation: invocation(tool_name, arguments, json_object(arguments)),
                output: WAITING@,
            }
            &&& effects[n - 1] is PermissionControls
        }),
{
    tool_steps(s, MsgView::PermissionRequested { tool_name, arguments }, env);
}

/// A call that the user allows stays the one card that it was asked with, and ends there.
pub proof fn an_allowed_call_has_one_card(
    s: AppView,
    tool_name: Seq<char>,
    shown: Seq<char>,
    arguments: Seq<char>,
    output: Seq<char>,
    ok: bool,
    env: Environment,
)
    requires
        !s.tool_output,
    ensures
        ({
            let asked = next_state(
                s,
                MsgView::PermissionRequested { tool_name, arguments: shown },
                env,
            );
            let start = MsgView::ToolStarted { name: tool_name, arguments };
            let started = next_state(asked, start, env);
            let end = MsgView::ToolFinished { output, ok };
            &&& handled(asked, start, env).effects == seq![EffectView::ToolText(RUNNING@)]
            &&& handled(started, end, env).effects == tool_end(output, ok)
            &&& !next_state(started, end, env).tool_output
        }),
{
    let ask = MsgView::PermissionRequested { tool_name, arguments: shown };
    let start = MsgView::ToolStarted { name: tool_name, arguments };
    let end = MsgView::ToolFinished { output, ok };
    tool_steps(s, ask, env);
    let asked = next_state(s, ask, env);
    tool_steps(asked, start, env);
    tool_steps(next_state(asked, start, env), end, env);
}

/// A call that the user refuses ends at the card that it was asked with, and the next call gets
/// a card of its own.
pub proof fn a_refused_call_is_shown(
    s: AppView,
    tool_name: Seq<char>,
    shown: Seq<char>,
    output: Seq<char>,
    ok: bool,
    name: Seq<char>,
    arguments: Seq<char>,
    env: Environment,
)
    requires
        !s.tool_output,
    ensures
        ({
            let asked = next_state(
                s,
                MsgView::PermissionRequested { tool_name, arguments: shown },
                env,
            );
            let end = MsgView::ToolFinished { output, ok };
            let ended = next_state(asked, end, env);
            let next = handled(ended, MsgView::ToolStarted { name, arguments }, env).effects;
            &&& handled(asked, end, env).effects == tool_end(output, ok)
            &&& next == seq![
                EffectView::ToolCard {
                    name,
                    invocation: invocation(name, arguments, json_object(arguments)),
                    output: RUNNING@,
                },
            ]
        }),
{
    let ask = MsgView::PermissionRequested { tool_name, arguments: shown };
    let end = MsgView::ToolFinished { output, ok };
    tool_steps(s, ask, env);
    let asked = next_state(s, ask, env);
    tool_steps(asked, end, env);
    let ended = next_state(asked, end, env);
    tool_steps(ended, MsgView::ToolStarted { name, arguments }, env);
}

/// After going back, the session is loaded anew.
pub proof fn going_back_reloads_the_session(s: AppView, id: i64, env: Environment)
    requires
        !s.busy,
        s.has_store,
        s.current_session == Some(id),
        place_of(s.sessions, id) is Some,
    ensures
        ({
            let t = next_state(s, MsgView::RevertDone, env);
            let i = place_of(s.sessions, id)->0;
            &&& all_effects(s, MsgView::RevertDone, env)[0] == EffectView::Post(
                MsgView::SelectIndex(i),
            )
            &&& next_state(t, MsgView::SelectIndex(i), env).current_session == Some(id)
            &&& all_effects(t, MsgView::SelectIndex(i), env)[1] == EffectView::LoadSession(id)
        }),
{
    reveal(handled_start);
    reveal(handled_changes);
    place_is_in_range(s.sessions, id);
    let t = next_state(s, MsgView::RevertDone, env);
    let i = place_of(s.sessions, id)->0;
    assert(t.current_session is None);
    assert(t.sessions == s.sessions);
    assert(on_select(t, i, env).effects[1] == EffectView::LoadSession(id));
}

/// The row of a session is one of the rows, and holds it.
pub proof fn place_is_in_range(sessions: Seq<SessionMetaView>, id: i64)
    ensures
        place_of(sessions, id) matches Some(i) ==> i < sessions.len() && sessions[i as int].id
            == id,
    decreases sessions.len(),
{
    if sessions.len() > 0 {
        place_is_in_range(sessions.drop_last(), id);
    }
}

/// A session that was created is in use, and the first of the list.
pub proof fn a_new_session_is_in_use(s: AppView, meta: SessionMetaView, env: Environment)
    ensures
        ({
            let t = next_state(s, MsgView::SessionCreated(meta), env);
            &&& t.current_session == Some(meta.id)
            &&& t.sessions.len() == s.sessions.len() + 1
            &&& t.sessions[0] == meta
            &&& t.session.len() == 0
            &&& t.current_agent == meta.agent
        }),
{
    reveal(handled_sessions);
}

/// The choice of a profile is kept with the session in use.
pub proof fn a_profile_is_kept(s: AppView, env: Environment)
    requires
        s.has_store,
        s.current_session is Some,
    ensures
        ({
            let kind = other_agent(s.current_agent);
            let t = next_state(s, MsgView::AgentChanged(kind), env);
            &&& all_effects(s, MsgView::ToggleAgent, env)[0] == EffectView::Post(
                MsgView::AgentChanged(kind),
            )
            &&& t.current_agent == kind
            &&& all_effects(s, MsgView::AgentChanged(kind), env)[0] == EffectView::StoreAgent {
                id: s.current_session->0,
                agent: kind,
            }
            &&& handled(t, MsgView::AgentChanged(kind), env) == ignored(t)
        }),
{
    reveal(handled_choices);
}

} // verus!
