use zhi::agent::{offered_tools, AgentKind, AllowAll, PermissionDecision, PermissionRequest,
    PermissionResolver};
use zhi::builtins::{Bash, Glob, ReadFile};
use zhi::context::ToolContext;
use zhi::json::JsonField;
use zhi::tool::{declare, Error, ParamKind, Tool, ToolRegistry};
use zhi::toolout::{
    apply_edit, bash_output, bash_text, edit_summary, glob_output, is_skipped_dir, list_dir_output,
    write_summary, GrepSearch,
};
use zhi::toolrun::{arg_str, plan_call, plan_call_with, ToolAction};

fn plan(raw: &str, name: &str) -> Result<ToolAction, Error> {
    plan_call(&ToolContext::new("/w"), name, raw).expect("tool registrada")
}

#[test]
fn write_read_edit_round_trip() {
    let ctx = ToolContext::new("/w");
    let mut file = String::new();
    match plan("{\"path\": \"a/b.txt\", \"content\": \"hola mundo\"}", "write_file").unwrap() {
        ToolAction::WriteFile { path, content } => {
            assert_eq!(path, "/w/a/b.txt");
            assert_eq!(write_summary(&ctx, &path, &content), "Escrito a/b.txt (10 bytes).");
            file.push_str(&content);
        }
        _ => panic!("write_file"),
    }
    match plan("{\"path\": \"a/b.txt\"}", "read_file").unwrap() {
        ToolAction::ReadFile { path } => assert_eq!(path, "/w/a/b.txt"),
        _ => panic!("read_file"),
    }
    assert_eq!(file, "hola mundo");
    let edit = "{\"path\": \"a/b.txt\", \"old_string\": \"mundo\", \"new_string\": \"Zhi\"}";
    match plan(edit, "edit_file").unwrap() {
        ToolAction::EditFile { path, old, new, replace_all } => {
            assert!(!replace_all);
            let (edited, n) = apply_edit(&file, &old, &new, replace_all).unwrap();
            assert_eq!(edited, "hola Zhi");
            assert_eq!(n, 1);
            assert!(edit_summary(&ctx, &path, n).contains("a/b.txt"));
        }
        _ => panic!("edit_file"),
    }

    let err = apply_edit("x x x", "x", "y", false);
    assert!(matches!(err, Err(Error::Edit(_))));
    assert_eq!(apply_edit("x x x", "x", "y", true).unwrap(), ("y y y".to_string(), 3));
    assert!(matches!(apply_edit("abc", "z", "y", false), Err(Error::Edit(_))));
}

#[test]
fn grep_glob_and_list() {
    let ctx = ToolContext::new("/w");
    match plan("{\"pattern\": \"fn main\"}", "grep").unwrap() {
        ToolAction::Grep { pattern, root } => {
            assert_eq!(root, "/w");
            let mut search = GrepSearch::new(&pattern).unwrap();
            search.scan("src/main.rs", "fn main() {}\nlet x = 1;");
            search.scan("src/lib.rs", "pub fn foo() {}");
            let grep = search.finish();
            assert!(grep.contains("src/main.rs:1:"), "grep: {grep}");
            assert_eq!(grep, "src/main.rs:1:fn main() {}");
        }
        _ => panic!("grep"),
    }
    match plan("{\"pattern\": \"src/*.rs\"}", "glob").unwrap() {
        ToolAction::Glob { pattern } => assert_eq!(pattern, "/w/src/*.rs"),
        _ => panic!("glob"),
    }
    let paths = vec!["/w/src/main.rs".to_string(), "/w/src/lib.rs".to_string()];
    let glob = glob_output(&ctx, &paths);
    assert!(glob.contains("src/main.rs") && glob.contains("src/lib.rs"), "glob: {glob}");
    assert_eq!(glob, "src/lib.rs\nsrc/main.rs");

    match plan("{\"path\": \"src\"}", "list_dir").unwrap() {
        ToolAction::ListDir { path } => assert_eq!(path, "/w/src"),
        _ => panic!("list_dir"),
    }
    let list = list_dir_output(&vec![
        ("main.rs".to_string(), false),
        ("lib.rs".to_string(), false),
        ("sub".to_string(), true),
    ]);
    assert!(list.contains("main.rs") && list.contains("lib.rs"), "list: {list}");
    assert_eq!(list, "lib.rs\nmain.rs\nsub/");
}

#[test]
fn bash_runs_in_worktree() {
    match plan("{\"command\": \"echo hola\"}", "bash").unwrap() {
        ToolAction::Bash { command } => assert_eq!(command, "echo hola"),
        _ => panic!("bash"),
    }
    let out = bash_output(&b"hola\n".to_vec(), &Vec::new(), Some(0));
    assert!(out.contains("hola"));
    assert!(out.contains("[código de salida: 0]"), "out: {out}");
}

#[test]
fn rejects_paths_outside_worktree() {
    let err = plan("{\"path\": \"../../etc/passwd\"}", "read_file");
    assert!(matches!(err, Err(Error::PathOutsideWorkdir(_))));
}

#[test]
fn output_of_commands() {
    assert_eq!(bash_text("", None, Some(0)), "(sin salida)\n[código de salida: 0]");
    assert_eq!(bash_text("a", Some("b"), Some(-1)), "a\nb\n[código de salida: -1]");
    assert_eq!(bash_text("a\n", Some("b"), None), "a\nb\n[código de salida: señal]");
    assert_eq!(
        bash_output(&vec![0xff], &b"e".to_vec(), Some(2)),
        "\u{fffd}\ne\n[código de salida: 2]"
    );
}

#[test]
fn globs_stay_inside_and_skip() {
    let ctx = ToolContext::new("/w");
    let paths = vec![
        "/w/node_modules/x.js".to_string(),
        "/w/b".to_string(),
        "/other".to_string(),
        "/w/a".to_string(),
    ];
    assert_eq!(glob_output(&ctx, &paths), "a\nb");
    assert_eq!(glob_output(&ctx, &Vec::new()), "(sin coincidencias)");
    assert!(is_skipped_dir("node_modules"));
    assert!(is_skipped_dir(".git"));
    assert!(!is_skipped_dir("src"));
    assert_eq!(list_dir_output(&Vec::new()), "(directorio vacío)");
}

#[test]
fn searches_are_bounded() {
    let mut search = GrepSearch::new("x").unwrap();
    let text = "x  \n".repeat(500);
    search.scan("f", &text);
    assert!(search.is_full());
    let out = search.finish();
    let lines: Vec<&str> = out.lines().collect();
    assert_eq!(lines.len(), 201);
    assert_eq!(lines[0], "f:1:x");
    assert_eq!(lines[200], "… (truncado en 200 coincidencias)");
    let mut none = GrepSearch::new("^z$").unwrap();
    none.scan("f", "y\n");
    assert_eq!(none.finish(), "(sin coincidencias)");
    assert!(matches!(GrepSearch::new("("), Err(Error::Regex(_))));
    let mut given = GrepSearch::new("x").unwrap();
    given.scan_with("r", &vec!["a ".to_string(), "b".to_string()], &vec![true, false]);
    assert_eq!(given.finish(), "r:1:a");
}

#[test]
fn arguments_are_asked_for() {
    assert!(matches!(plan("{}", "read_file"), Err(Error::InvalidArguments(_))));
    assert!(matches!(plan("roto", "bash"), Err(Error::InvalidArguments(_))));
    assert!(matches!(plan("{\"pattern\": \"(\"}", "grep"), Err(Error::Regex(_))));
    assert!(plan_call(&ToolContext::new("/w"), "otra", "{}").is_none());
    let fields = vec![("path".to_string(), JsonField::Text("a".to_string()))];
    assert_eq!(arg_str(&fields, "path").unwrap(), "a");
    assert_eq!(
        arg_str(&fields, "content").unwrap_err().text(),
        "argumentos inválidos: falta el campo de texto «content»"
    );
    let planned = plan_call_with(&ToolContext::new("/w"), "read_file", &fields, &None);
    assert!(matches!(planned, Some(Ok(ToolAction::ReadFile { path })) if path == "/w/a"));
}

#[test]
fn errors_have_texts() {
    let s = || "x".to_string();
    assert_eq!(Error::Io(s()).text(), "error de E/S ejecutando la tool: x");
    assert_eq!(Error::InvalidArguments(s()).text(), "argumentos inválidos: x");
    assert_eq!(Error::PathOutsideWorkdir(s()).text(), "la ruta «x» queda fuera del worktree");
    assert_eq!(Error::Edit(s()).text(), "no se pudo aplicar la edición: x");
    assert_eq!(Error::Timeout(120).text(), "la tool excedió el tiempo máximo (120s)");
    assert_eq!(Error::Pattern(s()).text(), "patrón inválido: x");
    assert_eq!(Error::Regex(s()).text(), "x");
}

#[test]
fn seven_tools_are_built_in() {
    let reg = ToolRegistry::with_builtins();
    let names: Vec<&str> = reg.iter().iter().map(|t| t.name.as_str()).collect();
    assert_eq!(
        names,
        ["read_file", "write_file", "edit_file", "list_dir", "glob", "grep", "bash"]
    );
    assert_eq!(reg.len(), 7);
    assert!(!reg.is_empty());
    let asking: Vec<&str> = names.iter().copied().filter(|n| reg.asks_permission(n)).collect();
    assert_eq!(asking, ["write_file", "edit_file", "bash"]);
    assert!(!reg.asks_permission("otra"));
    assert!(reg.get("otra").is_none());
    assert_eq!(ToolRegistry::default().len(), 7);
    let mut own = ToolRegistry::new();
    assert!(own.is_empty());
    own.register(declare(&Glob));
    assert_eq!(own.get("glob").unwrap().parameters.required, ["pattern"]);
    assert_eq!(ReadFile.name(), "read_file");
    assert!(Bash.requires_permission());
    let edit = reg.get("edit_file").unwrap();
    assert_eq!(edit.parameters.properties[3].name, "replace_all");
    assert_eq!(edit.parameters.properties[3].kind, ParamKind::Flag);
}

#[test]
fn a_plan_offers_no_tools_with_effects() {
    let reg = ToolRegistry::with_builtins();
    assert_eq!(offered_tools(AgentKind::Build, &reg).len(), 7);
    let plan = offered_tools(AgentKind::Plan, &reg);
    let names: Vec<&str> = plan.iter().map(|t| t.function.name.as_str()).collect();
    assert_eq!(names, ["read_file", "list_dir", "glob", "grep"]);
    assert!(plan.iter().all(|t| t.kind == "function"));
}

#[test]
fn profiles_have_names() {
    for kind in [AgentKind::Build, AgentKind::Plan] {
        assert_eq!(AgentKind::from_str_or_default(kind.as_str()), kind);
    }
    assert_eq!(AgentKind::from_str_or_default("otro"), AgentKind::Build);
    assert_eq!(AgentKind::default(), AgentKind::Build);
    assert!(AgentKind::Build.allows_writes());
    assert!(!AgentKind::Plan.allows_writes());
    assert!(AgentKind::Plan.system_prompt().contains("solo lectura"));
    let request = PermissionRequest { tool_name: "bash".to_string(), arguments: "{}".to_string() };
    assert_eq!(AllowAll.resolve(request), PermissionDecision::Allow);
}
