use zhi::agent::AgentKind;
use zhi::auth::{AuthInfo, AuthStore};
use zhi::catalog::Catalog;
use zhi::engine::{variable, variable_names, Engine, Error};
use zhi::message::{FunctionCall, Message, Role, ToolCall};
use zhi::snapshot::{git_failure, RestoreAction, Snapshots};
use zhi::store::{
    added_columns, ensure_column, loaded_ms, role_str, stored_ms, StoredMessage, StoredSession,
};
use zhi::turn::TurnAction;

#[test]
fn round_trip_sessions_and_messages() {
    let row = |agent: Option<&str>, model: Option<&str>| StoredSession {
        id: 1,
        title: "Nueva sesión".to_string(),
        updated_at: "ahora".to_string(),
        agent: agent.map(str::to_string),
        model: model.map(str::to_string),
    };
    let session = row(None, None).into_meta();
    assert_eq!(session.agent, AgentKind::Build);
    assert_eq!(session.model, None);
    let session = row(Some(AgentKind::Plan.as_str()), Some("deepseek-reasoner")).into_meta();
    assert_eq!(session.agent, AgentKind::Plan);
    assert_eq!(session.model.as_deref(), Some("deepseek-reasoner"));
    assert_eq!(session.id, 1);
    assert_eq!(session.title, "Nueva sesión");
    assert_eq!(session.updated_at, "ahora");

    let user = StoredMessage::from_message(&Message::user("hola")).into_message();
    assert_eq!(user.role, Role::User);
    assert_eq!(user.content, "hola");
    let saved = Message::assistant("¡hola!").with_reasoning("pienso, luego saludo");
    let assistant = StoredMessage::from_message(&saved).into_message();
    assert_eq!(assistant.role, Role::Assistant);
    assert_eq!(assistant.reasoning.as_deref(), Some("pienso, luego saludo"));
    assert_eq!(loaded_ms(stored_ms(1234)), 1234);
}

#[test]
fn tool_calls_are_kept() {
    let call = ToolCall {
        id: "1".to_string(),
        kind: "function".to_string(),
        function: FunctionCall { name: "bash".to_string(), arguments: "{}".to_string() },
    };
    let m = Message::assistant_tool_calls("t", vec![call]);
    let stored = StoredMessage::from_message(&m);
    assert_eq!(stored.role, "assistant");
    assert_eq!(stored.tool_calls.as_ref().unwrap().len(), 1);
    assert_eq!(stored.into_message().tool_calls[0].function.name, "bash");
    let stored = StoredMessage::from_message(&Message::tool_result("1", "x"));
    assert!(stored.tool_calls.is_none());
    let back = stored.into_message();
    assert_eq!(back.role, Role::Tool);
    assert_eq!(back.tool_call_id.as_deref(), Some("1"));
}

#[test]
fn roles_have_names_in_the_database() {
    for (role, name) in [
        (Role::System, "system"),
        (Role::User, "user"),
        (Role::Assistant, "assistant"),
        (Role::Tool, "tool"),
    ] {
        assert_eq!(role_str(role), name);
    }
    let odd = StoredMessage {
        role: "raro".to_string(),
        content: String::new(),
        tool_calls: None,
        tool_call_id: None,
        reasoning: None,
    };
    assert_eq!(odd.into_message().role, Role::User);
}

#[test]
fn durations_fit_the_database() {
    for ms in [0, 1, u64::MAX, i64::MAX as u64, i64::MAX as u64 + 1] {
        assert_eq!(stored_ms(ms), ms as i64);
    }
    assert_eq!(loaded_ms(-5), 0);
    assert_eq!(loaded_ms(5), 5);
}

#[test]
fn columns_are_added_where_they_are_missing() {
    let columns = added_columns();
    let names: Vec<(&str, &str, &str)> = columns.iter().map(|c| (c.table, c.name, c.ty)).collect();
    assert_eq!(
        names,
        [
            ("messages", "tool_calls", "TEXT"),
            ("messages", "tool_call_id", "TEXT"),
            ("messages", "snapshot", "TEXT"),
            ("sessions", "agent", "TEXT"),
            ("sessions", "model", "TEXT"),
            ("messages", "reasoning", "TEXT"),
            ("messages", "reasoning_ms", "INTEGER"),
        ]
    );
    let mut present = vec!["id".to_string()];
    assert_eq!(
        ensure_column(&columns[6], &present).as_deref(),
        Some("ALTER TABLE messages ADD COLUMN reasoning_ms INTEGER")
    );
    present.push("reasoning_ms".to_string());
    assert_eq!(ensure_column(&columns[6], &present), None);
}

fn snapshots(available: bool) -> Snapshots {
    Snapshots::new("/w", "/g", available)
}

#[test]
fn snapshots_are_taken_with_git() {
    let s = snapshots(true);
    assert!(s.available());
    assert_eq!(s.workdir(), "/w");
    assert_eq!(s.git_dir(), "/g");
    let setup = Snapshots::open_calls(false);
    assert_eq!(setup[0], ["init", "--quiet"]);
    assert_eq!(setup[1], ["config", "core.autocrlf", "false"]);
    assert_eq!(setup[2], ["config", "core.longpaths", "true"]);
    assert_eq!(setup[3], ["config", "core.symlinks", "true"]);
    assert_eq!(setup[4], ["config", "core.fsmonitor", "false"]);
    assert!(Snapshots::open_calls(true).is_empty());
    assert_eq!(s.stage_call().unwrap(), ["add", "--all"]);
    assert_eq!(s.track_call().unwrap(), ["write-tree"]);
    assert_eq!(s.track("abc123\n").as_deref(), Some("abc123"));
    assert_eq!(s.patch_files_call("h").unwrap(), ["diff", "--cached", "--name-only", "h"]);
    assert_eq!(s.patch_call("h").unwrap(), ["diff", "--cached", "--unified=3", "h"]);
    assert_eq!(s.worktree_patch_call().unwrap(), ["diff", "--no-ext-diff", "--unified=3"]);
    assert_eq!(s.worktree_patch(true, "d"), "d");
    assert_eq!(s.worktree_patch(false, "d"), "");
}

#[test]
fn without_git_there_are_no_snapshots() {
    let s = snapshots(false);
    assert!(s.stage_call().is_none());
    assert!(s.track_call().is_none());
    assert_eq!(s.track("x"), None);
    assert!(s.patch_files_call("h").is_none());
    assert!(s.patch_files("a\n").is_empty());
    assert!(s.patch_call("h").is_none());
    assert!(s.worktree_patch_call().is_none());
    assert_eq!(s.worktree_patch(true, "d"), "");
    assert!(matches!(s.restore("h", &vec!["a".to_string()]).action(), RestoreAction::Done));
}

#[test]
fn patch_files_lists_multiple_changes() {
    let mut files = snapshots(true).patch_files("b.txt\n\n a.txt \n");
    files.sort();
    assert_eq!(files, ["a.txt", "b.txt"]);
}

#[test]
fn track_restore_round_trip() {
    let s = snapshots(true);
    let files = s.patch_files("a.txt\n");
    assert_eq!(files, ["a.txt"]);
    let mut way = s.restore("h1", &files);
    match way.action() {
        RestoreAction::Git(args) => assert_eq!(args, ["checkout", "h1", "--", "a.txt"]),
        other => panic!("{other:?}"),
    }
    way.advance(Some(""));
    assert!(matches!(way.action(), RestoreAction::Done));
}

#[test]
fn revert_deletes_files_created_after_snapshot() {
    let s = snapshots(true);
    let mut way = s.restore("h", &vec!["HolaMundo.rs".to_string(), "existing.txt".to_string()]);
    way.advance(None);
    match way.action() {
        RestoreAction::Git(args) => assert_eq!(args, ["ls-tree", "h", "--", "HolaMundo.rs"]),
        other => panic!("{other:?}"),
    }
    way.advance(Some(" \n"));
    match way.action() {
        RestoreAction::Delete(path) => assert_eq!(path, "/w/HolaMundo.rs"),
        other => panic!("{other:?}"),
    }
    way.advance(None);
    match way.action() {
        RestoreAction::Git(args) => assert_eq!(args, ["checkout", "h", "--", "existing.txt"]),
        other => panic!("{other:?}"),
    }
    way.advance(None);
    way.advance(Some("100644 blob x\texisting.txt"));
    assert!(matches!(way.action(), RestoreAction::Done));
    way.advance(None);
    assert!(matches!(way.action(), RestoreAction::Done));
}

#[test]
fn a_failed_call_of_git_is_told() {
    let args = vec!["write-tree".to_string()];
    assert_eq!(git_failure(&args, "exit status: 1", " mal \n"), "git write-tree → exit status: 1: mal");
    assert_eq!(git_failure(&Vec::new(), "s", "e"), "git  → s: e");
}

fn engine() -> Engine {
    Engine::new(Catalog::embedded().openai_compatible(), AuthStore::load_at("p", None))
}

fn env(pairs: &[(&str, &str)]) -> Vec<(String, String)> {
    pairs.iter().map(|(a, b)| (a.to_string(), b.to_string())).collect()
}

#[test]
fn a_key_is_looked_for_in_order() {
    let mut e = engine();
    let none = env(&[]);
    let some = env(&[("OTRA", "x"), ("DEEPSEEK_API_KEY", "del-entorno")]);
    match e.provider_for("deepseek/deepseek-chat", &none) {
        Err(Error::MissingApiKey { env_var, model }) => {
            assert_eq!(env_var, "DEEPSEEK_API_KEY");
            assert_eq!(model, "deepseek/deepseek-chat");
        }
        other => panic!("{other:?}"),
    }
    let (client, model) = e.provider_for("deepseek/deepseek-chat", &some).unwrap();
    assert_eq!(client.api_key(), "del-entorno");
    assert_eq!(client.endpoint(), "https://api.deepseek.com/chat/completions");
    assert_eq!(model, "deepseek-chat");

    e.connect("deepseek", AuthInfo::Api { key: "guardada".to_string(), metadata: None });
    let (client, _) = e.provider_for("deepseek-chat", &some).unwrap();
    assert_eq!(client.api_key(), "guardada");
    e.disconnect("deepseek");
    assert_eq!(e.auth().path(), "p");
    let (client, _) = e.provider_for("deepseek-chat", &some).unwrap();
    assert_eq!(client.api_key(), "del-entorno");

    e.connect(
        "openai",
        AuthInfo::Oauth {
            refresh: "r".to_string(),
            access: "a".to_string(),
            expires_at_ms: 0,
            account_id: None,
        },
    );
    assert!(matches!(
        e.provider_for("openai/gpt-5", &some),
        Err(Error::OauthInferenceNotImplemented(p)) if p == "openai"
    ));
    assert!(matches!(e.provider_for("nadie/x", &some), Err(Error::UnknownModel(_))));
    assert!(matches!(e.provider_for("x", &some), Err(Error::UnknownModel(_))));
    assert!(matches!(e.provider_for("anthropic/x", &some), Err(Error::UnknownModel(_))));
}

#[test]
fn the_engine_knows_its_models() {
    let e = engine();
    assert_eq!(
        e.available_models(),
        ["deepseek/deepseek-chat", "deepseek/deepseek-reasoner", "openai/gpt-4o", "openai/gpt-5"]
    );
    assert_eq!(e.default_model(&Vec::new()), "deepseek/deepseek-chat");
    assert_eq!(e.default_model(&vec!["OPENAI_API_KEY".to_string()]), "openai/gpt-4o");
    assert_eq!(e.model_ref("gpt-5").unwrap().to_string(), "openai/gpt-5");
    assert_eq!(e.model_ref("a/b").unwrap().to_string(), "a/b");
    assert!(e.model_ref("nada").is_none());
    assert_eq!(e.catalog().providers().len(), 2);
    assert!(e.auth().all().is_empty());
    let tools = e.offered_tools(AgentKind::Plan);
    let names: Vec<&str> = tools.iter().map(|t| t.function.name.as_str()).collect();
    assert_eq!(names, ["read_file", "list_dir", "glob", "grep"]);
    assert_eq!(e.offered_tools(AgentKind::Build).len(), 7);
    let turn = e.run_turn(AgentKind::Plan, &vec![Message::user("u")], true);
    assert!(matches!(turn.action(), TurnAction::CallModel));
    assert_eq!(turn.messages().len(), 2);
}

#[test]
fn variables_of_the_environment() {
    let e = env(&[("A", "1"), ("B", "2"), ("A", "3")]);
    assert_eq!(variable_names(&e), ["A", "B", "A"]);
    assert_eq!(variable(&e, "A").as_deref(), Some("1"));
    assert_eq!(variable(&e, "C"), None);
}

#[test]
fn errors_of_the_engine_have_texts() {
    let s = || "x".to_string();
    assert_eq!(
        Error::Provider(zhi::provider::Error::Auth(s())).text(),
        "error de auth: x"
    );
    assert_eq!(Error::Tool(zhi::tool::Error::Regex(s())).text(), "x");
    assert_eq!(Error::Mcp(zhi::mcp::Error::Protocol(s())).text(), "error de protocolo MCP: x");
    assert_eq!(Error::Lsp(zhi::lsp::Error::Protocol(s())).text(), "error de protocolo LSP: x");
    assert_eq!(Error::Storage(s()).text(), "error de persistencia: x");
    assert_eq!(Error::Snapshot(s()).text(), "error de snapshot: x");
    assert_eq!(
        Error::MissingApiKey { env_var: "K".to_string(), model: "m".to_string() }.text(),
        "falta una clave de proveedor en el entorno (K) para el modelo m"
    );
    assert_eq!(
        Error::OauthInferenceNotImplemented(s()).text(),
        "la inferencia con la cuenta OAuth de x aún no está implementada"
    );
    assert_eq!(Error::UnknownModel(s()).text(), "modelo desconocido: x");
}
