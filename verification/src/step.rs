//! What follows from what happens: the next state, and what is done.
use vstd::prelude::*;
use crate::agent::AgentKind;
use crate::auth::AuthView;
use crate::dialogs::{account_list, any_key, model_options, provider_rows};
use crate::diff::{patch_files, DiffFileView};
use crate::dirs::snapshots_path;
use crate::effect::{CardSlot, EffectView};
use crate::engine::{names, value_of, EngineView, Environment};
use crate::format::{delete_text, invocation, revert_text, thought_summary, title_of, truncated,
    TOOL_OUTPUT_MAX};
use crate::history::{base_of, by_id, history_rows, plain_messages};
use crate::json::json_object;
use crate::map::{inserted, removed};
use crate::markup::error_markup_of;
use crate::message::{text_message, MessageView, Role};
use crate::msg::MsgView;
use crate::nav::{has_next, has_prev, nav_back, nav_forward, nav_label, nav_of};
use crate::session::nothing_said;
use crate::snapshot::SnapshotsView;
use crate::state::{assigned, current_place, default_text, place_of, without, AppView,
    CHANGES_PANEL_BREAKPOINT};
use crate::store::SessionMetaView;

verus! {

/// What a message leads to. A `quiet` one leaves the controls and the chat as they are.
pub struct Step {
    pub state: AppView,
    pub effects: Seq<EffectView>,
    pub quiet: bool,
}

/// Nothing.
pub open spec fn ignored(s: AppView) -> Step {
    Step { state: s, effects: seq![], quiet: true }
}

/// The state `s`, and what is done.
pub open spec fn step(s: AppView, effects: Seq<EffectView>) -> Step {
    Step { state: s, effects, quiet: false }
}

/// Finding out what changed, where snapshots can tell.
pub open spec fn patch_request(s: AppView) -> EffectView {
    match s.snapshots {
        Some(_) => EffectView::LoadPatch(s.base_snapshot),
        None => EffectView::Post(MsgView::ChangesPatchLoaded(seq![])),
    }
}

// ── Starting ──────────────────────────────────────────────────────────────────

/// What is said at the start where no provider has a key.
pub const NO_KEYS: &'static str =
    "No hay ninguna clave de proveedor en el entorno. Puedes navegar el catálogo y elegir modelo; al enviar un mensaje, la app te indicará la variable que falta exportar.";

/// What is said at the start where there is no database.
pub const NO_STORE: &'static str =
    "No se pudo abrir el almacén de sesiones; el historial no se guardará.";

/// A text of the application in the chat.
pub open spec fn notice(text: Seq<char>) -> EffectView {
    EffectView::Bubble { role: Role::System, text }
}

/// What is said at the start.
pub open spec fn welcome(s: AppView, defined: Seq<Seq<char>>) -> Seq<EffectView> {
    (if any_key(s.engine.catalog, defined) {
        seq![]
    } else {
        seq![notice(NO_KEYS@)]
    }) + (if s.has_store {
        seq![]
    } else {
        seq![notice(NO_STORE@)]
    })
}

/// The project is known. One without sessions gets one.
pub open spec fn on_bootstrapped(
    s: AppView,
    project_id: i64,
    sessions: Seq<SessionMetaView>,
    env: Environment,
) -> Step {
    step(
        AppView { project_id: Some(project_id), sessions, ..s },
        seq![
            if sessions.len() == 0 {
                EffectView::Post(MsgView::NewSession)
            } else {
                EffectView::RebuildSessions { selected: Some(0nat) }
            },
            EffectView::OpenSnapshots {
                workdir: s.workdir,
                git_dir: snapshots_path(
                    project_id,
                    value_of(env, "XDG_DATA_HOME"@),
                    value_of(env, "HOME"@),
                ),
            },
        ],
    )
}

/// Snapshots can be taken, or it is known that they cannot.
pub open spec fn on_snapshots_ready(s: AppView, snapshots: SnapshotsView) -> Step {
    let t = AppView { snapshots: Some(snapshots), ..s };
    step(t, seq![patch_request(t)])
}

// ── Sessions ──────────────────────────────────────────────────────────────────

/// The session `meta` in use, with nothing of it loaded.
pub open spec fn opened(s: AppView, meta: SessionMetaView, defined: Seq<Seq<char>>) -> AppView {
    AppView {
        current_session: Some(meta.id),
        current_agent: meta.agent,
        current_model: match meta.model {
            Some(m) => m,
            None => default_text(s.engine, defined),
        },
        streaming: false,
        tool_output: false,
        tool_card: false,
        revertible_card: false,
        pending_snapshot: None,
        message_snapshots: seq![],
        base_snapshot: None,
        changes_patch: seq![],
        partial: seq![],
        ..s
    }
}

/// The user selected a session; not while a turn runs, and not the one in use.
pub open spec fn on_select(s: AppView, index: nat, env: Environment) -> Step {
    if s.busy || index >= s.sessions.len() || s.current_session == Some(
        s.sessions[index as int].id,
    ) {
        ignored(s)
    } else {
        let meta = s.sessions[index as int];
        step(
            opened(s, meta, names(env)),
            seq![EffectView::ClearChat] + (if s.has_store {
                seq![EffectView::LoadSession(meta.id)]
            } else {
                seq![]
            }),
        )
    }
}

/// The session with these messages and snapshots.
pub open spec fn loaded(
    s: AppView,
    messages: Seq<(i64, MessageView)>,
    snapshots: Seq<(i64, Seq<char>)>,
) -> AppView {
    let base = base_of(messages, snapshots);
    AppView {
        reasoning_card: false,
        reasoning_partial: seq![],
        reasoning_ms_queue: seq![],
        base_snapshot: base,
        changes_patch: if base is None {
            seq![]
        } else {
            s.changes_patch
        },
        message_snapshots: snapshots,
        session: plain_messages(messages),
        ..s
    }
}

/// The messages of the session arrived.
pub open spec fn on_loaded(
    s: AppView,
    messages: Seq<(i64, MessageView)>,
    snapshots: Seq<(i64, Seq<char>)>,
    durations: Seq<(i64, u64)>,
) -> Step {
    let t = loaded(s, messages, snapshots);
    step(
        t,
        seq![EffectView::ClearChat] + (if t.base_snapshot is None {
            seq![EffectView::ClearChanges]
        } else {
            seq![]
        }) + seq![
            EffectView::RenderHistory(history_rows(messages, snapshots, durations)),
            patch_request(t),
        ],
    )
}

/// The title of a session without messages.
pub const NEW_TITLE: &'static str = "Nueva sesión";

/// The user wants a new session. It takes over the profile and the model.
pub open spec fn on_new(s: AppView) -> Step {
    if s.has_store && s.project_id is Some {
        step(
            s,
            seq![
                EffectView::CreateSession {
                    project_id: s.project_id->0,
                    title: NEW_TITLE@,
                    agent: s.current_agent,
                    preferred: if s.current_model.len() == 0 {
                        None
                    } else {
                        Some(s.current_model)
                    },
                },
            ],
        )
    } else {
        ignored(s)
    }
}

/// A session was created. It is the first of the list, and in use.
pub open spec fn on_created(s: AppView, meta: SessionMetaView) -> Step {
    step(
        AppView {
            current_agent: meta.agent,
            current_model: match meta.model {
                Some(m) => m,
                None => s.current_model,
            },
            sessions: seq![meta] + s.sessions,
            current_session: Some(meta.id),
            session: seq![],
            streaming: false,
            tool_output: false,
            partial: seq![],
            base_snapshot: None,
            changes_patch: seq![],
            ..s
        },
        seq![
            EffectView::ClearChanges,
            EffectView::ClearChat,
            EffectView::RebuildSessions { selected: Some(0nat) },
        ],
    )
}

/// The user wants to delete a session; not while a turn runs.
pub open spec fn on_delete_request(s: AppView, id: i64) -> Step {
    match place_of(s.sessions, id) {
        Some(i) => if s.busy {
            ignored(s)
        } else {
            step(
                s,
                seq![
                    EffectView::ConfirmDelete { id, body: delete_text(s.sessions[i as int].title) },
                ],
            )
        },
        None => ignored(s),
    }
}

/// The user meant it.
pub open spec fn on_delete_confirmed(s: AppView, id: i64) -> Step {
    if s.has_store {
        step(s, seq![EffectView::DeleteSession(id)])
    } else {
        ignored(s)
    }
}

/// No session in use.
pub open spec fn closed_session(s: AppView) -> AppView {
    AppView {
        current_session: None,
        session: seq![],
        streaming: false,
        tool_output: false,
        tool_card: false,
        revertible_card: false,
        pending_snapshot: None,
        message_snapshots: seq![],
        base_snapshot: None,
        changes_patch: seq![],
        partial: seq![],
        ..s
    }
}

/// The session `id` out of the list.
pub open spec fn dropped(s: AppView, id: i64) -> AppView {
    AppView { sessions: without(s.sessions, id), ..s }
}

/// A session was deleted. Where it was the one in use, the first of the others takes its place.
pub open spec fn on_deleted(s: AppView, id: i64) -> Step {
    let left = dropped(s, id);
    if s.current_session == Some(id) {
        step(
            closed_session(left),
            seq![EffectView::ClearChanges, EffectView::ClearChat] + (if left.sessions.len() > 0 {
                seq![
                    EffectView::RebuildSessions { selected: Some(0nat) },
                    EffectView::Post(MsgView::SelectIndex(0)),
                ]
            } else {
                seq![EffectView::RebuildSessions { selected: None }]
            }),
        )
    } else {
        step(left, seq![EffectView::RebuildSessions { selected: current_place(left) }])
    }
}

/// The session `id` with the title `title`.
pub open spec fn renamed(s: AppView, id: i64, title: Seq<char>) -> AppView {
    AppView {
        sessions: match place_of(s.sessions, id) {
            Some(i) => s.sessions.update(
                i as int,
                SessionMetaView { title, ..s.sessions[i as int] },
            ),
            None => s.sessions,
        },
        ..s
    }
}

/// A session got a title.
pub open spec fn on_renamed(s: AppView, id: i64, title: Seq<char>) -> Step {
    let t = renamed(s, id, title);
    step(
        t,
        seq![
            EffectView::RebuildSessions {
                selected: Some(
                    match current_place(t) {
                        Some(i) => i,
                        None => 0,
                    },
                ),
            },
        ],
    )
}

// ── Choices ───────────────────────────────────────────────────────────────────

/// The other profile.
pub open spec fn other_agent(kind: AgentKind) -> AgentKind {
    match kind {
        AgentKind::Build => AgentKind::Plan,
        AgentKind::Plan => AgentKind::Build,
    }
}

/// The user chose a profile; it is kept with the session.
pub open spec fn on_agent(s: AppView, kind: AgentKind) -> Step {
    if s.current_agent == kind {
        ignored(s)
    } else {
        step(
            AppView {
                current_agent: kind,
                sessions: match current_place(s) {
                    Some(i) => s.sessions.update(
                        i as int,
                        SessionMetaView { agent: kind, ..s.sessions[i as int] },
                    ),
                    None => s.sessions,
                },
                ..s
            },
            if s.has_store && s.current_session is Some {
                seq![EffectView::StoreAgent { id: s.current_session->0, agent: kind }]
            } else {
                seq![]
            },
        )
    }
}

/// The user chose a model; it is kept with the session.
pub open spec fn on_model(s: AppView, model: Seq<char>) -> Step {
    if s.current_model == model {
        ignored(s)
    } else {
        step(
            AppView {
                current_model: model,
                sessions: match current_place(s) {
                    Some(i) => s.sessions.update(
                        i as int,
                        SessionMetaView { model: Some(model), ..s.sessions[i as int] },
                    ),
                    None => s.sessions,
                },
                ..s
            },
            if s.has_store && s.current_session is Some {
                seq![EffectView::StoreModel { id: s.current_session->0, model }]
            } else {
                seq![]
            },
        )
    }
}

/// The user wants the other profile.
pub open spec fn on_toggle_agent(s: AppView) -> Step {
    step(s, seq![EffectView::Post(MsgView::AgentChanged(other_agent(s.current_agent)))])
}

/// The user wants to choose a model.
pub open spec fn on_picker(s: AppView) -> Step {
    step(
        s,
        seq![
            EffectView::PickModel {
                current: s.current_model,
                options: model_options(s.engine.catalog, s.engine.auth),
            },
        ],
    )
}

/// The palette is gone: the user can type again.
pub open spec fn on_palette_closed(s: AppView) -> Step {
    step(AppView { palette_open: false, ..s }, seq![EffectView::FocusEntry])
}

/// The user shows or hides the chains of thought.
pub open spec fn on_show_thoughts(s: AppView, active: bool) -> Step {
    step(AppView { show_reasoning: active, ..s }, seq![EffectView::ShowThoughts(active)])
}

/// The user calls the palette, or sends it away.
pub open spec fn on_palette(s: AppView) -> Step {
    if s.palette_open {
        Step {
            state: AppView { palette_open: false, ..s },
            effects: seq![EffectView::ClosePalette],
            quiet: true,
        }
    } else {
        step(
            AppView { palette_open: true, ..s },
            seq![EffectView::OpenPalette { show_reasoning: s.show_reasoning }],
        )
    }
}

// ── Accounts ──────────────────────────────────────────────────────────────────

/// The user chose a provider to connect: one by its account, the others by a key.
pub open spec fn on_connect(s: AppView, provider: Seq<char>) -> Step {
    step(
        s,
        if provider == "openai"@ {
            seq![EffectView::StartOauth]
        } else {
            seq![EffectView::AskApiKey(provider)]
        },
    )
}

/// A credential for a provider is there.
pub open spec fn on_credential(
    s: AppView,
    provider: Seq<char>,
    info: AuthView,
    toast: Seq<char>,
) -> Step {
    step(
        AppView {
            engine: EngineView { auth: inserted(s.engine.auth, provider, info), ..s.engine },
            ..s
        },
        seq![EffectView::SaveAuth { toast }],
    )
}

/// The user gives up an account.
pub open spec fn on_disconnect(s: AppView, provider: Seq<char>) -> Step {
    step(
        AppView {
            engine: EngineView { auth: removed(s.engine.auth, provider), ..s.engine },
            ..s
        },
        seq![EffectView::SaveAuth { toast: "«"@ + provider + "» desconectado"@ }],
    )
}

// ── A turn ────────────────────────────────────────────────────────────────────

/// The user sends a message; not without a session, and not while a turn runs.
pub open spec fn on_send(s: AppView, text: Seq<char>) -> Step {
    if !s.has_store || s.current_session is None || s.busy {
        ignored(s)
    } else {
        let session = s.session.push(text_message(Role::User, text));
        step(
            AppView {
                session,
                streaming: false,
                tool_output: false,
                tool_card: false,
                pending_snapshot: None,
                partial: seq![],
                busy: true,
                ..s
            },
            seq![
                EffectView::Bubble { role: Role::User, text },
                EffectView::SaveUserMessage {
                    session_id: s.current_session->0,
                    text,
                    new_title: if nothing_said(s.session) {
                        Some(title_of(text))
                    } else {
                        None
                    },
                },
                EffectView::RunTurn {
                    agent: s.current_agent,
                    model: s.current_model,
                    history: session,
                },
            ],
        )
    }
}

/// A piece of the reply came.
pub open spec fn on_delta(s: AppView, delta: Seq<char>) -> Step {
    let partial = s.partial + delta;
    step(
        AppView { partial, streaming: true, ..s },
        (if s.streaming {
            seq![]
        } else {
            seq![EffectView::OpenBubble]
        }) + seq![EffectView::BubbleText(partial)],
    )
}

/// What stands over a chain of thought that is on its way.
pub const THINKING: &'static str = "Pensando…";

/// A piece of the chain of thought came.
pub open spec fn on_thought(s: AppView, delta: Seq<char>) -> Step {
    let partial = s.reasoning_partial + delta;
    step(
        AppView { reasoning_partial: partial, reasoning_card: true, ..s },
        (if s.reasoning_card {
            seq![]
        } else {
            seq![EffectView::OpenThought { show: s.show_reasoning, summary: THINKING@ }]
        }) + seq![EffectView::ThoughtText(partial)],
    )
}

/// The end of a chain of thought in the chat, where there is one.
pub open spec fn thought_end(s: AppView, ms: nat) -> Seq<EffectView> {
    if s.reasoning_card {
        seq![EffectView::CloseThought(thought_summary(ms))]
    } else {
        seq![]
    }
}

/// The chain of thought is complete.
pub open spec fn on_thought_end(s: AppView, ms: u64) -> Step {
    step(
        AppView {
            reasoning_ms_queue: s.reasoning_ms_queue.push(ms),
            reasoning_card: false,
            reasoning_partial: seq![],
            ..s
        },
        thought_end(s, ms as nat),
    )
}

/// What a tool says before it ends.
pub const RUNNING: &'static str = "Ejecutando…";

/// What a tool says while the user is asked.
pub const WAITING: &'static str = "Esperando permiso del usuario…";

/// A tool comes into the chat. The reply before it is complete.
pub open spec fn card_opened(s: AppView, asked: bool) -> AppView {
    AppView {
        streaming: false,
        partial: seq![],
        tool_output: true,
        tool_card: true,
        asked_card: asked,
        ..s
    }
}

/// What shows a tool in the chat: its call, and `output` in the place of its output.
pub open spec fn card_effects(
    s: AppView,
    name: Seq<char>,
    arguments: Seq<char>,
    output: Seq<char>,
) -> Seq<EffectView> {
    (if s.streaming && s.partial.len() > 0 {
        seq![EffectView::FillBubble(s.partial)]
    } else {
        seq![]
    }) + seq![
        EffectView::ToolCard {
            name,
            invocation: invocation(name, arguments, json_object(arguments)),
            output,
        },
    ]
}

/// A tool is about to run. One for which the user was asked is in the chat already.
pub open spec fn on_tool(s: AppView, name: Seq<char>, arguments: Seq<char>) -> Step {
    if s.tool_output && s.asked_card {
        step(AppView { asked_card: false, ..s }, seq![EffectView::ToolText(RUNNING@)])
    } else {
        step(card_opened(s, false), card_effects(s, name, arguments, RUNNING@))
    }
}

/// What shows how a tool ended. An error is shown as one.
pub open spec fn tool_end(output: Seq<char>, ok: bool) -> Seq<EffectView> {
    let text = truncated(output, TOOL_OUTPUT_MAX as nat);
    if ok {
        seq![EffectView::ToolText(text)]
    } else {
        seq![EffectView::ToolMarkup(error_markup_of(text))]
    }
}

/// A tool ended.
pub open spec fn on_tool_end(s: AppView, output: Seq<char>, ok: bool) -> Step {
    step(
        AppView { tool_output: false, ..s },
        if s.tool_output {
            tool_end(output, ok)
        } else {
            seq![]
        },
    )
}

/// A tool needs the consent of the user, who sees the call with the question.
pub open spec fn on_permission(s: AppView, tool_name: Seq<char>, arguments: Seq<char>) -> Step {
    let question = EffectView::PermissionControls("Permitir ejecutar "@ + tool_name + "?"@);
    if s.tool_output {
        step(s, seq![EffectView::ToolText(WAITING@), question])
    } else {
        step(
            card_opened(s, true),
            card_effects(s, tool_name, arguments, WAITING@) + seq![question],
        )
    }
}

/// No turn runs any more; where the worktree was saved, the last tool is set aside.
pub open spec fn turn_ended(s: AppView, messages: Seq<MessageView>) -> AppView {
    let held = s.pending_snapshot is Some;
    AppView {
        streaming: false,
        partial: seq![],
        tool_output: false,
        reasoning_card: false,
        reasoning_partial: seq![],
        reasoning_ms_queue: seq![],
        pending_snapshot: None,
        revertible_card: if held {
            s.tool_card
        } else {
            s.revertible_card
        },
        tool_card: s.tool_card && !held,
        busy: false,
        session: s.session + messages,
        ..s
    }
}

/// What is done at the end of a turn: its last reply is shown, its messages are kept.
pub open spec fn turn_end_effects(s: AppView, messages: Seq<MessageView>) -> Seq<EffectView> {
    (if s.streaming {
        seq![EffectView::FillBubble(s.partial)]
    } else {
        seq![]
    }) + thought_end(s, 0) + (if s.pending_snapshot is Some {
        seq![EffectView::HoldCard]
    } else {
        seq![]
    }) + (if s.has_store && s.current_session is Some {
        seq![
            EffectView::SaveTurn {
                session_id: s.current_session->0,
                messages,
                durations: assigned(messages, s.reasoning_ms_queue),
                snapshot: s.pending_snapshot,
            },
        ]
    } else {
        seq![]
    })
}

/// The turn is over.
pub open spec fn on_turn_end(s: AppView, messages: Seq<MessageView>) -> Step {
    step(turn_ended(s, messages), turn_end_effects(s, messages))
}

/// The snapshot of the turn is kept with its message: the way back is offered.
pub open spec fn on_snapshot_kept(s: AppView, message_id: i64, hash: Seq<char>) -> Step {
    let t = AppView {
        base_snapshot: match s.base_snapshot {
            Some(h) => Some(h),
            None => Some(hash),
        },
        message_snapshots: s.message_snapshots.push((message_id, hash)),
        revertible_card: false,
        tool_card: s.tool_card && s.revertible_card,
        ..s
    };
    step(
        t,
        seq![
            EffectView::AttachRevert {
                message_id,
                slot: if s.revertible_card {
                    CardSlot::Held
                } else if s.tool_card {
                    CardSlot::Current
                } else {
                    CardSlot::Chat
                },
            },
            patch_request(t),
        ],
    )
}

/// Something failed, and with it the turn.
pub open spec fn on_failed(s: AppView, error: Seq<char>) -> Step {
    step(
        AppView {
            streaming: false,
            tool_output: false,
            tool_card: false,
            reasoning_card: false,
            reasoning_partial: seq![],
            reasoning_ms_queue: seq![],
            partial: seq![],
            busy: false,
            ..s
        },
        seq![
            if s.streaming {
                EffectView::BubbleError(error_markup_of(error))
            } else {
                notice("Error: "@ + error)
            },
        ] + thought_end(s, 0),
    )
}

// ── Changes ───────────────────────────────────────────────────────────────────

/// The paths of the files of a patch.
pub open spec fn paths_of(files: Seq<DiffFileView>) -> Seq<Seq<char>> {
    files.map_values(|f: DiffFileView| f.path)
}

/// It is known what changed.
pub open spec fn on_patch(s: AppView, patch: Seq<char>) -> Step {
    let files = patch_files(patch);
    let nav = nav_of(paths_of(files));
    step(
        AppView { changes_patch: patch, nav, ..s },
        seq![EffectView::ShowChanges(files), EffectView::NavBar(files.len() > 1)] + (if files.len()
            > 1 {
            seq![nav_label(nav)]
        } else {
            seq![]
        }),
    )
}

/// The user wants to see the file before.
pub open spec fn on_nav_prev(s: AppView) -> Step {
    if has_prev(s.nav) {
        let nav = nav_back(s.nav);
        step(AppView { nav, ..s }, seq![nav_label(nav), EffectView::ScrollToFile(nav.index)])
    } else {
        ignored(s)
    }
}

/// The user wants to see the next file.
pub open spec fn on_nav_next(s: AppView) -> Step {
    if has_next(s.nav) {
        let nav = nav_forward(s.nav);
        step(AppView { nav, ..s }, seq![nav_label(nav), EffectView::ScrollToFile(nav.index)])
    } else {
        ignored(s)
    }
}

/// The user wants to go back to before a message; not while a turn runs.
pub open spec fn on_revert(s: AppView, message_id: i64) -> Step {
    match by_id(s.message_snapshots, message_id) {
        Some(hash) => if s.busy || s.snapshots is None {
            ignored(s)
        } else {
            step(s, seq![EffectView::PreviewRevert(hash)])
        },
        None => ignored(s),
    }
}

/// It is known which files would change: the user is asked.
pub open spec fn on_preview(s: AppView, hash: Seq<char>, files: Seq<Seq<char>>) -> Step {
    if s.snapshots is None {
        ignored(s)
    } else {
        step(s, seq![EffectView::ConfirmRevert { hash, files, body: revert_text(files) }])
    }
}

/// The worktree is as it was: the session is loaded anew.
pub open spec fn on_revert_done(s: AppView) -> Step {
    match current_place(s) {
        Some(i) => step(
            AppView { current_session: None, ..s },
            seq![EffectView::Post(MsgView::SelectIndex(i))],
        ),
        None => step(s, seq![]),
    }
}

// ── All together ──────────────────────────────────────────────────────────────

/// Whether a message is about the start and the list of sessions.
pub open spec fn about_start(m: MsgView) -> bool {
    ||| m is Bootstrapped
    ||| m is SnapshotsReady
    ||| m is SelectIndex
    ||| m is SessionLoaded
    ||| m is ToggleSessionsSidebar
}

/// Whether a message is about a session.
pub open spec fn about_sessions(m: MsgView) -> bool {
    ||| m is NewSession
    ||| m is SessionCreated
    ||| m is DeleteSessionRequest
    ||| m is DeleteSessionConfirmed
    ||| m is SessionDeleted
    ||| m is Renamed
}

/// Whether a message is about a choice of the user.
pub open spec fn about_choices(m: MsgView) -> bool {
    ||| m is AgentChanged
    ||| m is ToggleAgent
    ||| m is OpenModelPicker
    ||| m is OpenCommandPalette
    ||| m is CommandPaletteClosed
    ||| m is ModelChanged
    ||| m is ToggleReasoning
}

/// Whether a message is about an account.
pub open spec fn about_accounts(m: MsgView) -> bool {
    ||| m is OpenSettings
    ||| m is OpenConnectProvider
    ||| m is ConnectProvider
    ||| m is ApiKeyEntered
    ||| m is OauthOpenAiCompleted
    ||| m is OauthOpenAiFailed
    ||| m is DisconnectProvider
}

/// Whether a message is about a reply.
pub open spec fn about_reply(m: MsgView) -> bool {
    ||| m is Send
    ||| m is Delta
    ||| m is ReasoningDelta
    ||| m is ReasoningFinished
    ||| m is Failed
}

/// Whether a message is about the tools and the end of a turn.
pub open spec fn about_turn(m: MsgView) -> bool {
    ||| m is StepSnapshot
    ||| m is SnapshotPersisted
    ||| m is ToolStarted
    ||| m is ToolFinished
    ||| m is PermissionRequested
    ||| m is TurnFinished
}

/// Whether a message is about the changes.
pub open spec fn about_changes(m: MsgView) -> bool {
    ||| m is ChangesPatchLoaded
    ||| m is ChangesNavPrev
    ||| m is ChangesNavNext
    ||| m is Revert
    ||| m is RevertPreview
    ||| m is RevertDone
}

/// What a message about the start, or about the session that is opened leads to.
#[verifier::opaque]
pub open spec fn handled_start(s: AppView, m: MsgView, env: Environment) -> Step {
    match m {
        MsgView::Bootstrapped { project_id, sessions } => on_bootstrapped(
            s,
            project_id,
            sessions,
            env,
        ),
        MsgView::SnapshotsReady(snapshots) => on_snapshots_ready(s, snapshots),
        MsgView::SelectIndex(index) => on_select(s, index, env),
        MsgView::SessionLoaded { messages, snapshots, reasoning_ms } => on_loaded(
            s,
            messages,
            snapshots,
            reasoning_ms,
        ),
        MsgView::ToggleSessionsSidebar => step(
            AppView { sidebar_collapsed: !s.sidebar_collapsed, ..s },
            seq![],
        ),
        _ => ignored(s),
    }
}

/// What a message about a session leads to.
#[verifier::opaque]
pub open spec fn handled_sessions(s: AppView, m: MsgView, env: Environment) -> Step {
    match m {
        MsgView::NewSession => on_new(s),
        MsgView::SessionCreated(meta) => on_created(s, meta),
        MsgView::DeleteSessionRequest(id) => on_delete_request(s, id),
        MsgView::DeleteSessionConfirmed(id) => on_delete_confirmed(s, id),
        MsgView::SessionDeleted(id) => on_deleted(s, id),
        MsgView::Renamed { id, title } => on_renamed(s, id, title),
        _ => ignored(s),
    }
}

/// What a message about a choice of the user leads to.
#[verifier::opaque]
pub open spec fn handled_choices(s: AppView, m: MsgView, env: Environment) -> Step {
    match m {
        MsgView::AgentChanged(kind) => on_agent(s, kind),
        MsgView::ToggleAgent => on_toggle_agent(s),
        MsgView::OpenModelPicker => on_picker(s),
        MsgView::OpenCommandPalette => on_palette(s),
        MsgView::CommandPaletteClosed => on_palette_closed(s),
        MsgView::ModelChanged(model) => on_model(s, model),
        MsgView::ToggleReasoning(active) => on_show_thoughts(s, active),
        _ => ignored(s),
    }
}

/// What a message about an account leads to.
#[verifier::opaque]
pub open spec fn handled_accounts(s: AppView, m: MsgView, env: Environment) -> Step {
    match m {
        MsgView::OpenSettings => step(
            s,
            seq![EffectView::ShowSettings(account_list(s.engine.auth))],
        ),
        MsgView::OpenConnectProvider => step(
            s,
            seq![EffectView::ShowConnect(provider_rows(s.engine.catalog, s.engine.auth))],
        ),
        MsgView::ConnectProvider(provider) => on_connect(s, provider),
        MsgView::ApiKeyEntered { provider_id, key } => on_credential(
            s,
            provider_id,
            AuthView::Api { key, metadata: None },
            "Cuenta «"@ + provider_id + "» conectada"@,
        ),
        MsgView::OauthOpenAiCompleted(info) => on_credential(
            s,
            "openai"@,
            info,
            "Cuenta OpenAI conectada"@,
        ),
        MsgView::OauthOpenAiFailed(error) => step(
            s,
            seq![notice("La conexión con OpenAI falló: "@ + error)],
        ),
        MsgView::DisconnectProvider(provider) => on_disconnect(s, provider),
        _ => ignored(s),
    }
}

/// What a message about a reply leads to.
#[verifier::opaque]
pub open spec fn handled_reply(s: AppView, m: MsgView, env: Environment) -> Step {
    match m {
        MsgView::Send(text) => on_send(s, text),
        MsgView::Delta(delta) => on_delta(s, delta),
        MsgView::ReasoningDelta(delta) => on_thought(s, delta),
        MsgView::ReasoningFinished { ms } => on_thought_end(s, ms),
        MsgView::Failed(error) => on_failed(s, error),
        _ => ignored(s),
    }
}

/// What a message about the tools and the end of a turn leads to.
#[verifier::opaque]
pub open spec fn handled_turn(s: AppView, m: MsgView, env: Environment) -> Step {
    match m {
        MsgView::StepSnapshot { hash, message_index } => step(
            AppView { pending_snapshot: Some((hash, message_index)), ..s },
            seq![],
        ),
        MsgView::SnapshotPersisted { message_id, hash } => on_snapshot_kept(s, message_id, hash),
        MsgView::ToolStarted { name, arguments } => on_tool(s, name, arguments),
        MsgView::ToolFinished { output, ok } => on_tool_end(s, output, ok),
        MsgView::PermissionRequested { tool_name, arguments } => on_permission(
            s,
            tool_name,
            arguments,
        ),
        MsgView::TurnFinished(messages) => on_turn_end(s, messages),
        _ => ignored(s),
    }
}

/// What a message about the changes leads to.
#[verifier::opaque]
pub open spec fn handled_changes(s: AppView, m: MsgView, env: Environment) -> Step {
    match m {
        MsgView::ChangesPatchLoaded(patch) => on_patch(s, patch),
        MsgView::ChangesNavPrev => on_nav_prev(s),
        MsgView::ChangesNavNext => on_nav_next(s),
        MsgView::Revert(message_id) => on_revert(s, message_id),
        MsgView::RevertPreview { hash, files } => on_preview(s, hash, files),
        MsgView::RevertDone => on_revert_done(s),
        _ => ignored(s),
    }
}

/// What a message of those that are left leads to.
#[verifier::opaque]
pub open spec fn handled_window(s: AppView, m: MsgView, env: Environment) -> Step {
    match m {
        MsgView::WindowWidthChanged(width) => step(
            AppView { wide_layout: width >= CHANGES_PANEL_BREAKPOINT, ..s },
            seq![],
        ),
        MsgView::Toast(text) => step(s, seq![EffectView::Toast(text)]),
        MsgView::Quit => step(s, seq![EffectView::Quit]),
        _ => ignored(s),
    }
}

/// What a message leads to.
pub open spec fn handled(s: AppView, m: MsgView, env: Environment) -> Step {
    if about_start(m) {
        handled_start(s, m, env)
    } else if about_sessions(m) {
        handled_sessions(s, m, env)
    } else if about_choices(m) {
        handled_choices(s, m, env)
    } else if about_accounts(m) {
        handled_accounts(s, m, env)
    } else if about_reply(m) {
        handled_reply(s, m, env)
    } else if about_turn(m) {
        handled_turn(s, m, env)
    } else if about_changes(m) {
        handled_changes(s, m, env)
    } else {
        handled_window(s, m, env)
    }
}

/// What is done after every message that is not quiet: the controls are brought up to date, the
/// user can type again where a turn came to its end, and the end of the chat comes into view.
pub open spec fn after(was_busy: bool, busy: bool) -> Seq<EffectView> {
    seq![EffectView::Refresh] + (if was_busy && !busy {
        seq![EffectView::FocusEntry]
    } else {
        seq![]
    }) + seq![EffectView::ScrollToBottom]
}

/// The state after a message.
pub open spec fn next_state(s: AppView, m: MsgView, env: Environment) -> AppView {
    handled(s, m, env).state
}

/// All that a message has done.
pub open spec fn all_effects(s: AppView, m: MsgView, env: Environment) -> Seq<EffectView> {
    let h = handled(s, m, env);
    if h.quiet {
        h.effects
    } else {
        h.effects + after(s.busy, h.state.busy)
    }
}

} // verus!
