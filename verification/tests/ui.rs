use zhi::agent::{AgentEvent, AgentKind};
use zhi::auth::{AuthInfo, AuthStore};
use zhi::catalog::Catalog;
use zhi::dialogs::{
    account_label, any_provider_key_present, command_msg, command_needle, entered_text,
    first_matching_row, lower, palette_commands, picked_provider, provider_needle, row_matches, selected_option,
    selected_provider, taken_row, CommandPaletteAction,
};
use zhi::effect::{CardSlot, Effect};
use zhi::engine::Engine;
use zhi::history::{base_snapshot, duration_of, hash_of, render_history, tool_answer, HistoryRow};
use zhi::message::{FunctionCall, Message, Role, ToolCall};
use zhi::msg::{event_msg, Msg};
use zhi::nav::Nav;
use zhi::snapshot::Snapshots;
use zhi::state::{assign_durations, drop_session, session_row, AppState};
use zhi::store::SessionMeta;

fn meta(id: i64, title: &str, model: Option<&str>) -> SessionMeta {
    SessionMeta {
        id,
        title: title.to_string(),
        updated_at: String::new(),
        agent: AgentKind::Build,
        model: model.map(str::to_string),
    }
}

fn state() -> AppState {
    let engine =
        Engine::new(Catalog::embedded().openai_compatible(), AuthStore::load_at("p", None));
    AppState::new(engine, true, "/w", &Vec::new())
}

fn env() -> Vec<(String, String)> {
    vec![("HOME".to_string(), "/h".to_string())]
}

fn up(s: &mut AppState, msg: Msg) -> Vec<Effect> {
    s.update(msg, &env())
}

fn names(effects: &[Effect]) -> Vec<String> {
    effects
        .iter()
        .map(|e| {
            let text = format!("{e:?}");
            text.split([' ', '(']).next().unwrap().to_string()
        })
        .collect()
}

fn with_session() -> AppState {
    let mut s = state();
    up(&mut s, Msg::Bootstrapped { project_id: 3, sessions: vec![meta(7, "uno", None), meta(8, "dos", Some("x/y"))] });
    up(&mut s, Msg::SelectIndex(0));
    up(&mut s, Msg::SessionLoaded { messages: vec![], snapshots: vec![], reasoning_ms: vec![] });
    s
}

#[test]
fn the_start_says_what_is_missing() {
    let s = state();
    assert_eq!(s.current_model, "deepseek/deepseek-chat");
    let w = s.welcome(&Vec::new());
    assert_eq!(w.len(), 1);
    assert!(matches!(&w[0], Effect::Bubble { role: Role::System, text } if text.contains("ninguna clave")));
    assert!(s.welcome(&vec!["OPENAI_API_KEY".to_string()]).is_empty());
    let engine = Engine::new(Catalog::embedded(), AuthStore::load_at("p", None));
    let s = AppState::new(engine, false, "/w", &Vec::new());
    let w = s.welcome(&Vec::new());
    assert!(matches!(&w[1], Effect::Bubble { text, .. } if text.contains("almacén")));
}

#[test]
fn a_project_without_sessions_gets_one() {
    let mut s = state();
    let e = up(&mut s, Msg::Bootstrapped { project_id: 3, sessions: vec![] });
    assert_eq!(names(&e), ["Post", "OpenSnapshots", "Refresh", "ScrollToBottom"]);
    assert!(matches!(&e[0], Effect::Post(Msg::NewSession)));
    assert!(matches!(&e[1], Effect::OpenSnapshots { workdir, git_dir }
        if workdir == "/w" && git_dir == "/h/.local/share/xiě-code/snapshots/3"));
    let e = up(&mut s, Msg::NewSession);
    assert!(matches!(&e[0], Effect::CreateSession { project_id: 3, title, preferred: Some(m), .. }
        if title == "Nueva sesión" && m == "deepseek/deepseek-chat"));
    let e = up(&mut s, Msg::SessionCreated(meta(1, "Nueva sesión", None)));
    assert_eq!(names(&e), ["ClearChanges", "ClearChat", "RebuildSessions", "Refresh", "ScrollToBottom"]);
    assert_eq!(s.current_session, Some(1));
    assert_eq!(s.sessions.len(), 1);
}

#[test]
fn a_session_is_opened_and_loaded() {
    let mut s = state();
    let e = up(&mut s, Msg::Bootstrapped { project_id: 3, sessions: vec![meta(7, "uno", None), meta(8, "dos", Some("x/y"))] });
    assert!(matches!(&e[0], Effect::RebuildSessions { selected: Some(0) }));
    let e = up(&mut s, Msg::SelectIndex(1));
    assert_eq!(names(&e), ["ClearChat", "LoadSession", "Refresh", "ScrollToBottom"]);
    assert_eq!(s.current_model, "x/y");
    assert!(up(&mut s, Msg::SelectIndex(1)).is_empty());
    assert!(up(&mut s, Msg::SelectIndex(9)).is_empty());
    let messages = vec![(1, Message::user("hola")), (2, Message::assistant("qué"))];
    let e = up(&mut s, Msg::SessionLoaded { messages, snapshots: vec![(2, "h".to_string())], reasoning_ms: vec![] });
    assert_eq!(names(&e), ["ClearChat", "RenderHistory", "Post", "Refresh", "ScrollToBottom"]);
    assert_eq!(s.base_snapshot.as_deref(), Some("h"));
    assert_eq!(s.session.history().len(), 2);
    let e = up(&mut s, Msg::SnapshotsReady(Snapshots::new("/w", "/g", true)));
    assert!(matches!(&e[0], Effect::LoadPatch(Some(h)) if h == "h"));
    up(&mut s, Msg::SelectIndex(0));
    assert_eq!(s.current_model, "deepseek/deepseek-chat");
    let e = up(&mut s, Msg::SessionLoaded { messages: vec![], snapshots: vec![], reasoning_ms: vec![] });
    assert_eq!(names(&e), ["ClearChat", "ClearChanges", "RenderHistory", "LoadPatch", "Refresh", "ScrollToBottom"]);
}

#[test]
fn a_whole_turn() {
    let mut s = with_session();
    assert!(s.controls().ready);
    let e = up(&mut s, Msg::Send("hola mundo".to_string()));
    assert_eq!(names(&e), ["Bubble", "SaveUserMessage", "RunTurn", "Refresh", "ScrollToBottom"]);
    assert!(matches!(&e[1], Effect::SaveUserMessage { session_id: 7, new_title: Some(t), .. } if t == "hola mundo"));
    assert!(matches!(&e[2], Effect::RunTurn { history, model, .. }
        if history.len() == 1 && model == "deepseek/deepseek-chat"));
    assert!(s.busy && !s.controls().ready && !s.controls().model_enabled);
    assert!(up(&mut s, Msg::Send("otra".to_string())).is_empty());
    assert!(up(&mut s, Msg::SelectIndex(1)).is_empty());
    assert!(up(&mut s, Msg::DeleteSessionRequest(7)).is_empty());

    let e = up(&mut s, Msg::ReasoningDelta("mm".to_string()));
    assert_eq!(names(&e)[..2], ["OpenThought", "ThoughtText"]);
    let e = up(&mut s, Msg::ReasoningDelta("m".to_string()));
    assert!(matches!(&e[0], Effect::ThoughtText(t) if t == "mmm"));
    let e = up(&mut s, Msg::ReasoningFinished { ms: 1500 });
    assert!(matches!(&e[0], Effect::CloseThought(t) if t == "Pensamiento · 1.5 s"));

    let e = up(&mut s, Msg::Delta("ho".to_string()));
    assert_eq!(names(&e)[..2], ["OpenBubble", "BubbleText"]);
    let e = up(&mut s, Msg::Delta("la".to_string()));
    assert!(matches!(&e[0], Effect::BubbleText(t) if t == "hola"));
    up(&mut s, Msg::StepSnapshot { hash: "h".to_string(), message_index: 0 });
    let e = up(&mut s, Msg::ToolStarted { name: "bash".to_string(), arguments: "{\"command\":\"ls\"}".to_string() });
    assert!(matches!(&e[0], Effect::FillBubble(t) if t == "hola"));
    assert!(matches!(&e[1], Effect::ToolCard { invocation, output, .. }
        if invocation == "$ ls" && output == "Ejecutando…"));
    let e = up(&mut s, Msg::PermissionRequested { tool_name: "bash".to_string(), arguments: "{}".to_string() });
    assert_eq!(names(&e), ["ToolText", "PermissionControls", "Refresh", "ScrollToBottom"]);
    assert!(matches!(&e[0], Effect::ToolText(t) if t == "Esperando permiso del usuario…"));
    assert!(matches!(&e[1], Effect::PermissionControls(q) if q == "Permitir ejecutar bash?"));
    let e = up(&mut s, Msg::ToolFinished { output: "<mal>".to_string(), ok: false });
    assert!(matches!(&e[0], Effect::ToolMarkup(t) if t.contains("&lt;mal&gt;")));
    let e = up(&mut s, Msg::ToolFinished { output: "x".to_string(), ok: true });
    assert_eq!(names(&e), ["Refresh", "ScrollToBottom"]);

    let messages = vec![Message::assistant("hola").with_reasoning("mmm"), Message::tool_result("1", "x")];
    let e = up(&mut s, Msg::TurnFinished(messages));
    assert_eq!(names(&e), ["HoldCard", "SaveTurn", "Refresh", "FocusEntry", "ScrollToBottom"]);
    match &e[1] {
        Effect::SaveTurn { session_id, messages, durations, snapshot } => {
            assert_eq!(*session_id, 7);
            assert_eq!(messages.len(), 2);
            assert_eq!(durations, &vec![Some(1500), None]);
            assert_eq!(snapshot, &Some(("h".to_string(), 0)));
        }
        other => panic!("{other:?}"),
    }
    assert!(!s.busy);
    assert_eq!(s.session.history().len(), 3);

    up(&mut s, Msg::Send("sigue".to_string()));
    let e = up(&mut s, Msg::SnapshotPersisted { message_id: 5, hash: "h".to_string() });
    assert!(matches!(&e[0], Effect::AttachRevert { message_id: 5, slot: CardSlot::Held }));
    assert_eq!(s.base_snapshot.as_deref(), Some("h"));
    let e = up(&mut s, Msg::SnapshotPersisted { message_id: 6, hash: "i".to_string() });
    assert!(matches!(&e[0], Effect::AttachRevert { slot: CardSlot::Chat, .. }));
    assert_eq!(s.base_snapshot.as_deref(), Some("h"));
}

#[test]
fn a_failure_ends_the_turn() {
    let mut s = with_session();
    up(&mut s, Msg::Send("a".to_string()));
    let e = up(&mut s, Msg::Failed("red".to_string()));
    assert_eq!(names(&e), ["Bubble", "Refresh", "FocusEntry", "ScrollToBottom"]);
    assert!(matches!(&e[0], Effect::Bubble { text, .. } if text == "Error: red"));
    up(&mut s, Msg::Send("b".to_string()));
    up(&mut s, Msg::ReasoningDelta("m".to_string()));
    up(&mut s, Msg::Delta("medio".to_string()));
    let e = up(&mut s, Msg::Failed("<red>".to_string()));
    assert!(matches!(&e[0], Effect::BubbleError(m) if m.contains("&lt;red&gt;")));
    assert!(matches!(&e[1], Effect::CloseThought(t) if t == "Pensamiento"));
    assert!(!s.busy && s.partial.is_empty());
    let e = up(&mut s, Msg::Send("c".to_string()));
    assert!(matches!(&e[1], Effect::SaveUserMessage { new_title: None, .. }));
}

#[test]
fn sessions_are_deleted_and_renamed() {
    let mut s = with_session();
    let e = up(&mut s, Msg::DeleteSessionRequest(8));
    assert!(matches!(&e[0], Effect::ConfirmDelete { id: 8, body } if body.contains("«dos»")));
    assert!(up(&mut s, Msg::DeleteSessionRequest(99)).is_empty());
    let e = up(&mut s, Msg::DeleteSessionConfirmed(8));
    assert!(matches!(&e[0], Effect::DeleteSession(8)));
    let e = up(&mut s, Msg::Renamed { id: 8, title: "nuevo".to_string() });
    assert!(matches!(&e[0], Effect::RebuildSessions { selected: Some(0) }));
    assert_eq!(s.sessions[1].title, "nuevo");
    let e = up(&mut s, Msg::SessionDeleted(8));
    assert!(matches!(&e[0], Effect::RebuildSessions { selected: Some(0) }));
    assert_eq!(s.sessions.len(), 1);
    let e = up(&mut s, Msg::SessionDeleted(7));
    assert!(matches!(&e[2], Effect::RebuildSessions { selected: None }));
    assert_eq!(s.current_session, None);
    let mut s = with_session();
    let e = up(&mut s, Msg::SessionDeleted(7));
    assert_eq!(names(&e)[..4], ["ClearChanges", "ClearChat", "RebuildSessions", "Post"]);
    assert!(matches!(&e[3], Effect::Post(Msg::SelectIndex(0))));
    assert_eq!(session_row(&s.sessions, 8), Some(0));
    assert!(drop_session(&s.sessions, 8).is_empty());
}

#[test]
fn choices_are_kept() {
    let mut s = with_session();
    let e = up(&mut s, Msg::ToggleAgent);
    assert!(matches!(&e[0], Effect::Post(Msg::AgentChanged(AgentKind::Plan))));
    let e = up(&mut s, Msg::AgentChanged(AgentKind::Plan));
    assert!(matches!(&e[0], Effect::StoreAgent { id: 7, agent: AgentKind::Plan }));
    assert_eq!(s.sessions[0].agent, AgentKind::Plan);
    assert!(up(&mut s, Msg::AgentChanged(AgentKind::Plan)).is_empty());
    let e = up(&mut s, Msg::ModelChanged("deepseek/deepseek-reasoner".to_string()));
    assert!(matches!(&e[0], Effect::StoreModel { id: 7, .. }));
    assert_eq!(s.sessions[0].model.as_deref(), Some("deepseek/deepseek-reasoner"));
    assert!(up(&mut s, Msg::ModelChanged("deepseek/deepseek-reasoner".to_string())).is_empty());
    let c = s.controls();
    assert!(c.reasoning_visible && !c.show_reasoning);
    assert_eq!(c.model_label, "deepseek-reasoner");
    assert_eq!(c.agent, AgentKind::Plan);
    let e = up(&mut s, Msg::ToggleReasoning(true));
    assert!(matches!(&e[0], Effect::ShowThoughts(true)));
    assert!(s.controls().show_reasoning);
    up(&mut s, Msg::ToggleSessionsSidebar);
    assert!(s.controls().sidebar_collapsed);
}

#[test]
fn the_palette_comes_and_goes() {
    let mut s = with_session();
    let e = up(&mut s, Msg::OpenCommandPalette);
    assert_eq!(names(&e), ["OpenPalette", "Refresh", "ScrollToBottom"]);
    let e = up(&mut s, Msg::OpenCommandPalette);
    assert_eq!(names(&e), ["ClosePalette"]);
    let e = up(&mut s, Msg::CommandPaletteClosed);
    assert_eq!(names(&e), ["FocusEntry", "Refresh", "ScrollToBottom"]);
    let commands = palette_commands(true);
    let titles: Vec<&str> = commands.iter().map(|c| c.title).collect();
    assert_eq!(
        titles,
        ["Seleccionar Modelo", "Conectar Proveedor", "Nueva Sesión", "Ocultar Thinking", "Salir"]
    );
    assert_eq!(palette_commands(false)[3].title, "Mostrar Thinking");
    assert_eq!(commands[4].action, CommandPaletteAction::Quit);
    let rows: Vec<String> = commands.iter().map(command_needle).collect();
    assert_eq!(rows[2], "nueva sesión crear una conversación nueva");
    assert_eq!(first_matching_row(&rows, &lower("API KEY")), Some(1));
    assert_eq!(first_matching_row(&rows, "zzz"), None);
    assert_eq!(first_matching_row(&rows, ""), Some(0));
    assert!(row_matches("abc", "b") && row_matches("abc", "") && !row_matches("abc", "z"));
    assert_eq!(taken_row(&rows, "", Some(3)), Some(3));
    assert_eq!(taken_row(&rows, "salir", Some(3)), Some(4));
    assert_eq!(taken_row(&rows, "salir", Some(99)), Some(4));
    assert_eq!(taken_row(&rows, "zzz", Some(3)), None);
}

#[test]
fn accounts_come_and_go() {
    let mut s = with_session();
    let e = up(&mut s, Msg::OpenConnectProvider);
    match &e[0] {
        Effect::ShowConnect(rows) => {
            let ids: Vec<(&str, &str, bool)> =
                rows.iter().map(|r| (r.id.as_str(), r.method, r.connected)).collect();
            assert_eq!(
                ids,
                [
                    ("openai", "OAuth (cuenta ChatGPT Pro/Plus)", false),
                    ("deepseek", "API key", false)
                ]
            );
            assert_eq!(selected_provider(rows), Some(0));
            assert_eq!(picked_provider(rows, 1).as_deref(), Some("deepseek"));
            assert_eq!(picked_provider(rows, 9), None);
            assert_eq!(provider_needle(&rows[0]), "openai openai");
        }
        other => panic!("{other:?}"),
    }
    let e = up(&mut s, Msg::ConnectProvider("openai".to_string()));
    assert!(matches!(&e[0], Effect::StartOauth));
    let e = up(&mut s, Msg::ConnectProvider("deepseek".to_string()));
    assert!(matches!(&e[0], Effect::AskApiKey(p) if p == "deepseek"));
    assert_eq!(entered_text("  sk \n").as_deref(), Some("sk"));
    assert_eq!(entered_text(" \n"), None);
    let e = up(&mut s, Msg::ApiKeyEntered { provider_id: "deepseek".to_string(), key: "sk".to_string() });
    assert!(matches!(&e[0], Effect::SaveAuth { toast } if toast == "Cuenta «deepseek» conectada"));
    let e = up(&mut s, Msg::OpenModelPicker);
    match &e[0] {
        Effect::PickModel { current, options } => {
            assert_eq!(current, "deepseek/deepseek-chat");
            assert_eq!(options[0].value, "deepseek/deepseek-chat");
            assert_eq!(options[0].label, "DeepSeek Chat  ·  DeepSeek");
            assert_eq!(options.len(), 2);
            assert_eq!(selected_option(options, "deepseek/deepseek-reasoner"), Some(1));
            assert_eq!(selected_option(options, "otro"), Some(0));
            assert_eq!(selected_option(&Vec::new(), "otro"), None);
        }
        other => panic!("{other:?}"),
    }
    let info = AuthInfo::Oauth {
        refresh: String::new(),
        access: String::new(),
        expires_at_ms: 0,
        account_id: None,
    };
    let e = up(&mut s, Msg::OauthOpenAiCompleted(info));
    assert!(matches!(&e[0], Effect::SaveAuth { toast } if toast == "Cuenta OpenAI conectada"));
    let e = up(&mut s, Msg::OpenSettings);
    match &e[0] {
        Effect::ShowSettings(rows) => {
            assert_eq!(rows[0], ("deepseek".to_string(), "API key".to_string()));
            assert_eq!(rows[1], ("openai".to_string(), "OAuth (ChatGPT)".to_string()));
            assert_eq!(account_label(&rows[0].0, &rows[0].1), "deepseek · API key");
        }
        other => panic!("{other:?}"),
    }
    let e = up(&mut s, Msg::OpenConnectProvider);
    match &e[0] {
        Effect::ShowConnect(rows) => {
            assert!(rows.iter().all(|r| r.connected));
            assert_eq!(selected_provider(rows), None);
            assert_eq!(picked_provider(rows, 0), None);
        }
        other => panic!("{other:?}"),
    }
    let e = up(&mut s, Msg::DisconnectProvider("deepseek".to_string()));
    assert!(matches!(&e[0], Effect::SaveAuth { toast } if toast == "«deepseek» desconectado"));
    assert!(!s.engine.auth().has("deepseek"));
    let e = up(&mut s, Msg::OauthOpenAiFailed("x".to_string()));
    assert!(matches!(&e[0], Effect::Bubble { text, .. } if text == "La conexión con OpenAI falló: x"));
    assert!(any_provider_key_present(s.engine.catalog(), &vec!["DEEPSEEK_API_KEY".to_string()]));
    assert!(!any_provider_key_present(s.engine.catalog(), &vec!["ANTHROPIC_API_KEY".to_string()]));
}

#[test]
fn changes_are_shown_file_by_file() {
    let mut s = with_session();
    let patch = "diff --git a/x b/x\n@@ -1 +1 @@\n+a\ndiff --git b/<y> b/<y>\n@@ -1 +1 @@\n+b\n";
    let e = up(&mut s, Msg::ChangesPatchLoaded(patch.to_string()));
    assert_eq!(names(&e), ["ShowChanges", "NavBar", "NavLabel", "Refresh", "ScrollToBottom"]);
    assert!(matches!(&e[2], Effect::NavLabel { markup, prev: false, next: true } if markup == "<b>x</b> (1/2)"));
    assert!(up(&mut s, Msg::ChangesNavPrev).is_empty());
    let e = up(&mut s, Msg::ChangesNavNext);
    assert!(matches!(&e[0], Effect::NavLabel { markup, prev: true, next: false } if markup == "<b>&lt;y&gt;</b> (2/2)"));
    assert!(matches!(&e[1], Effect::ScrollToFile(1)));
    assert!(up(&mut s, Msg::ChangesNavNext).is_empty());
    let e = up(&mut s, Msg::ChangesNavPrev);
    assert!(matches!(&e[1], Effect::ScrollToFile(0)));
    assert!(!s.controls().show_changes);
    up(&mut s, Msg::WindowWidthChanged(1180));
    assert!(s.controls().show_changes);
    up(&mut s, Msg::WindowWidthChanged(1179));
    assert!(!s.controls().show_changes);
    let e = up(&mut s, Msg::ChangesPatchLoaded(String::new()));
    assert!(matches!(&e[1], Effect::NavBar(false)));
    let mut nav = Nav::new(vec!["a".to_string(), "b".to_string()]);
    assert_eq!(nav.len(), 2);
    assert!(nav.forward() && !nav.forward() && nav.back() && !nav.back());
    assert_eq!(nav.index(), 0);
}

#[test]
fn going_back_to_a_snapshot() {
    let mut s = with_session();
    assert!(up(&mut s, Msg::Revert(5)).is_empty());
    up(&mut s, Msg::SnapshotPersisted { message_id: 5, hash: "h".to_string() });
    assert!(up(&mut s, Msg::Revert(5)).is_empty());
    assert!(up(&mut s, Msg::RevertPreview { hash: "h".to_string(), files: vec![] }).is_empty());
    up(&mut s, Msg::SnapshotsReady(Snapshots::new("/w", "/g", true)));
    let e = up(&mut s, Msg::Revert(5));
    assert!(matches!(&e[0], Effect::PreviewRevert(h) if h == "h"));
    let e = up(&mut s, Msg::RevertPreview { hash: "h".to_string(), files: vec!["f".to_string()] });
    assert!(matches!(&e[0], Effect::ConfirmRevert { body, .. } if body.contains("• f")));
    let e = up(&mut s, Msg::RevertDone);
    assert!(matches!(&e[0], Effect::Post(Msg::SelectIndex(0))));
    let e = up(&mut s, Msg::SelectIndex(0));
    assert!(matches!(&e[1], Effect::LoadSession(7)));
    let e = up(&mut s, Msg::Toast("t".to_string()));
    assert!(matches!(&e[0], Effect::Toast(t) if t == "t"));
    let e = up(&mut s, Msg::Quit);
    assert!(matches!(&e[0], Effect::Quit));
}

#[test]
fn a_conversation_becomes_rows() {
    let call = |id: &str, name: &str| ToolCall {
        id: id.to_string(),
        kind: "function".to_string(),
        function: FunctionCall { name: name.to_string(), arguments: "{\"pattern\":\"x\"}".to_string() },
    };
    let messages = vec![
        (1, Message::user("hola")),
        (2, Message::assistant_tool_calls("voy", vec![call("a", "glob"), call("b", "grep")]).with_reasoning("mm")),
        (3, Message::tool_result("a", "viejo")),
        (4, Message::tool_result("a", "nuevo")),
        (5, Message::assistant("listo")),
    ];
    let snapshots = vec![(2, "h".to_string()), (5, "i".to_string())];
    let rows = render_history(&messages, &snapshots, &vec![(2, 2000)]);
    let shown: Vec<String> = rows
        .iter()
        .map(|r| match r {
            HistoryRow::Bubble { role, text } => format!("{role:?} {text}"),
            HistoryRow::Thought { summary, text } => format!("{summary}: {text}"),
            HistoryRow::Reply { text } => format!("reply {text}"),
            HistoryRow::Tool { invocation, output, revert, .. } => {
                format!("{invocation} -> {output} {revert:?}")
            }
        })
        .collect();
    assert_eq!(
        shown,
        [
            "User hola",
            "Pensamiento · 2.0 s: mm",
            "reply voy",
            "glob x -> nuevo None",
            "grep x ->  Some(2)",
            "reply listo",
        ]
    );
    assert_eq!(tool_answer(&messages, "a"), "nuevo");
    assert_eq!(tool_answer(&messages, "z"), "");
    assert_eq!(base_snapshot(&messages, &snapshots).as_deref(), Some("h"));
    assert_eq!(hash_of(&snapshots, 5).as_deref(), Some("i"));
    assert_eq!(hash_of(&snapshots, 1), None);
    assert_eq!(duration_of(&vec![(1, 5), (1, 6)], 1), Some(6));
}

#[test]
fn durations_go_to_the_messages_that_thought() {
    let messages = vec![
        Message::assistant("a").with_reasoning("x"),
        Message::tool_result("1", "y"),
        Message::assistant("b"),
        Message::assistant("c").with_reasoning("z"),
        Message::assistant("d").with_reasoning("w"),
    ];
    assert_eq!(
        assign_durations(&messages, &vec![10, 20]),
        vec![Some(10), None, None, Some(20), None]
    );
}

fn request(tool_name: &str, arguments: &str) -> Msg {
    Msg::PermissionRequested { tool_name: tool_name.to_string(), arguments: arguments.to_string() }
}

#[test]
fn the_user_sees_the_call_that_is_asked_for() {
    let mut s = state();
    up(&mut s, Msg::Delta("voy".to_string()));
    let e = up(&mut s, request("bash", "{\n  \"command\": \"rm x\"\n}"));
    assert_eq!(
        names(&e),
        ["FillBubble", "ToolCard", "PermissionControls", "Refresh", "ScrollToBottom"]
    );
    assert!(matches!(&e[0], Effect::FillBubble(t) if t == "voy"));
    assert!(matches!(&e[1], Effect::ToolCard { name, invocation, output }
        if name == "bash" && invocation == "$ rm x" && output == "Esperando permiso del usuario…"));
    assert!(matches!(&e[2], Effect::PermissionControls(q) if q == "Permitir ejecutar bash?"));
}

#[test]
fn an_allowed_call_keeps_its_card() {
    let mut s = state();
    up(&mut s, request("bash", "{\"command\":\"ls\"}"));
    let start = || Msg::ToolStarted {
        name: "bash".to_string(),
        arguments: "{\"command\":\"ls\"}".to_string(),
    };
    let e = up(&mut s, start());
    assert_eq!(names(&e), ["ToolText", "Refresh", "ScrollToBottom"]);
    assert!(matches!(&e[0], Effect::ToolText(t) if t == "Ejecutando…"));
    let e = up(&mut s, Msg::ToolFinished { output: "a.txt".to_string(), ok: true });
    assert!(matches!(&e[0], Effect::ToolText(t) if t == "a.txt"));
    let e = up(&mut s, start());
    assert_eq!(names(&e), ["ToolCard", "Refresh", "ScrollToBottom"]);
}

#[test]
fn a_refused_call_shows_its_answer() {
    let mut s = state();
    up(&mut s, request("bash", "{\"command\":\"ls\"}"));
    let e = up(&mut s, Msg::ToolFinished { output: "denegado".to_string(), ok: false });
    assert!(matches!(&e[0], Effect::ToolMarkup(t) if t.contains("denegado")));
    let e = up(&mut s, Msg::ToolStarted {
        name: "glob".to_string(),
        arguments: "{\"pattern\":\"*.rs\"}".to_string(),
    });
    assert_eq!(names(&e), ["ToolCard", "Refresh", "ScrollToBottom"]);
    assert!(matches!(&e[0], Effect::ToolCard { output, .. } if output == "Ejecutando…"));
}

#[test]
fn commands_become_messages() {
    assert!(matches!(command_msg(CommandPaletteAction::SelectModel, true), Msg::OpenModelPicker));
    assert!(matches!(command_msg(CommandPaletteAction::ConnectProvider, true), Msg::OpenConnectProvider));
    assert!(matches!(command_msg(CommandPaletteAction::NewSession, true), Msg::NewSession));
    assert!(matches!(command_msg(CommandPaletteAction::ToggleThinking, true), Msg::ToggleReasoning(false)));
    assert!(matches!(command_msg(CommandPaletteAction::ToggleThinking, false), Msg::ToggleReasoning(true)));
    assert!(matches!(command_msg(CommandPaletteAction::Quit, true), Msg::Quit));
}

#[test]
fn events_become_messages() {
    let text = |s: &str| s.to_string();
    assert!(matches!(event_msg(AgentEvent::Delta(text("a"))), Msg::Delta(t) if t == "a"));
    assert!(matches!(event_msg(AgentEvent::ReasoningDelta(text("b"))),
        Msg::ReasoningDelta(t) if t == "b"));
    assert!(matches!(event_msg(AgentEvent::ReasoningFinished { duration_ms: 1500 }),
        Msg::ReasoningFinished { ms: 1500 }));
    assert!(matches!(event_msg(AgentEvent::StepSnapshot { hash: text("h"), message_index: 2 }),
        Msg::StepSnapshot { hash, message_index: 2 } if hash == "h"));
    assert!(matches!(
        event_msg(AgentEvent::ToolStarted { name: text("bash"), arguments: text("{}") }),
        Msg::ToolStarted { name, arguments } if name == "bash" && arguments == "{}"));
    assert!(matches!(
        event_msg(AgentEvent::ToolFinished { name: text("bash"), output: text("o"), ok: false }),
        Msg::ToolFinished { output, ok: false } if output == "o"));
    assert!(matches!(event_msg(AgentEvent::Turn(vec![Message::user("u")])),
        Msg::TurnFinished(messages) if messages.len() == 1));
}
