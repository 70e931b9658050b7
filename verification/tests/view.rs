use zhi::diff::{
    diff_line_class, diff_line_markup, parse_diff_path, parse_hunk_lines, parse_hunk_start,
    parse_patch_files, DiffLine, DiffLineKind,
};
use zhi::format::{
    delete_dialog_body, format_duration, format_tool_invocation, reasoning_summary,
    render_invocation, revert_dialog_body, role_name, shell_quote, summarize_title, truncate,
};
use zhi::json::{get_flag, get_text, pretty_args, pretty_or_raw, JsonField};
use zhi::markdown::{fold_blocks, parse_blocks, Block, MdEvent};
use zhi::markup::{error_markup, escape_markup};
use zhi::message::Role;

#[test]
fn markup_is_escaped() {
    assert_eq!(escape_markup("a<b>&\"'"), "a&lt;b&gt;&amp;&quot;&apos;");
    assert_eq!(escape_markup("plano ñ"), "plano ñ");
    assert_eq!(error_markup("<x>"), "<span foreground=\"#e01b24\">&lt;x&gt;</span>");
}

const PATCH: &str = "diff --git a/x.txt b/x.txt\nindex 1..2 100644\n--- a/x.txt\n+++ b/x.txt\n@@ -1,3 +1,3 @@\n uno\n-dos\n+DOS\n tres\ndiff --git b/y.rs b/y.rs\nnew file mode 100644\n--- /dev/null\n+++ b/y.rs\n@@ -0,0 +1 @@\n+nuevo\ndiff --git a/z b/z\nindex 0..0\n";

#[test]
fn a_patch_is_read_file_by_file() {
    let files = parse_patch_files(PATCH);
    assert_eq!(files.len(), 2);
    assert_eq!(files[0].path, "b/x.txt".strip_prefix("b/").unwrap());
    let lines: Vec<_> =
        files[0].lines.iter().map(|l| (l.old, l.new, l.kind, l.text.as_str())).collect();
    assert_eq!(
        lines,
        [
            (Some(1), Some(1), DiffLineKind::Context, "uno"),
            (Some(2), None, DiffLineKind::Deletion, "dos"),
            (None, Some(2), DiffLineKind::Addition, "DOS"),
            (Some(3), Some(3), DiffLineKind::Context, "tres"),
        ]
    );
    assert_eq!(files[1].path, "y.rs");
    assert_eq!(files[1].lines.len(), 1);
    assert_eq!(files[1].lines[0].new, Some(1));
    assert!(parse_patch_files("").is_empty());
    assert!(parse_patch_files("+suelta\n").is_empty());
}

#[test]
fn headers_of_a_patch() {
    assert_eq!(parse_diff_path("a/x b/y").as_deref(), Some("y"));
    assert_eq!(parse_diff_path("a/x c").as_deref(), Some("c"));
    assert_eq!(parse_diff_path("solo"), None);
    assert_eq!(parse_hunk_start("-12,3"), Some(12));
    assert_eq!(parse_hunk_start("+7"), Some(7));
    assert_eq!(parse_hunk_start("-x"), None);
    assert_eq!(parse_hunk_start(""), None);
    assert_eq!(parse_hunk_start("é1"), None);
    assert_eq!(parse_hunk_lines("@@ -4,2 +9 @@ fn"), Some((4, 9)));
    assert_eq!(parse_hunk_lines("@@ -4,2"), None);
}

#[test]
fn lines_of_a_patch_are_shown_with_numbers() {
    let line = |old, new, kind| DiffLine { old, new, kind, text: "a<b".to_string() };
    assert_eq!(
        diff_line_markup(&line(Some(1), Some(22), DiffLineKind::Context)),
        "   1   22   a&lt;b"
    );
    assert_eq!(diff_line_markup(&line(None, Some(3), DiffLineKind::Addition)), "        3 + a&lt;b");
    assert_eq!(diff_line_markup(&line(Some(4), None, DiffLineKind::Deletion)), "   4      - a&lt;b");
    assert_eq!(diff_line_class(DiffLineKind::Context), None);
    assert_eq!(diff_line_class(DiffLineKind::Addition), Some("diff-line-addition"));
    assert_eq!(diff_line_class(DiffLineKind::Deletion), Some("diff-line-deletion"));
}

fn shown(blocks: &[Block]) -> Vec<String> {
    blocks
        .iter()
        .map(|b| match b {
            Block::Prose(s) => format!("prose:{s}"),
            Block::Code { lang, text } => format!("code:{lang:?}:{text}"),
        })
        .collect()
}

#[test]
fn markdown_becomes_blocks() {
    let blocks = parse_blocks("# T\n\nhola **fuerte** y *leve* `c<d`\n\n```rust\nfn a() {}\n```\nfin");
    assert_eq!(
        shown(&blocks),
        [
            "prose:<b>T</b>\nhola <b>fuerte</b> y <i>leve</i> <tt>c&lt;d</tt>",
            "code:Some(\"rust\"):fn a() {}",
            "prose:fin",
        ]
    );
    assert_eq!(shown(&parse_blocks("- a\n- b")), ["prose:• a\n• b"]);
    assert_eq!(shown(&parse_blocks("    sangrado")), ["code:None:sangrado"]);
    assert_eq!(shown(&parse_blocks("a\nb  \nc")), ["prose:a b\nc"]);
    assert!(parse_blocks("").is_empty());
}

#[test]
fn blocks_follow_from_the_events_alone() {
    let events = vec![
        MdEvent::Words("a&b".to_string()),
        MdEvent::Space,
        MdEvent::OpenStrong,
        MdEvent::Inline("x".to_string()),
        MdEvent::CloseStrong,
        MdEvent::LineBreak,
        MdEvent::OpenCode(Some("".to_string())),
        MdEvent::Words("uno\n".to_string()),
        MdEvent::Words("dos\n".to_string()),
        MdEvent::OpenStrong,
        MdEvent::CloseCode,
        MdEvent::Other,
    ];
    assert_eq!(
        shown(&fold_blocks(&events)),
        ["prose:a&amp;b <b><tt>x</tt></b>", "code:None:uno\ndos"]
    );
}

#[test]
fn titles_are_short() {
    assert_eq!(summarize_title("  hola  "), "hola");
    let exact = "x".repeat(40);
    assert_eq!(summarize_title(&exact), exact);
    let long = format!("{} {}", "a".repeat(39), "b".repeat(9));
    assert_eq!(summarize_title(&long), format!("{}…", "a".repeat(39)));
}

#[test]
fn long_output_is_cut() {
    assert_eq!(truncate("abc", 3), "abc");
    assert_eq!(truncate("abcd", 3), "abc\n… (salida truncada)");
    assert_eq!(truncate("ñññ", 2), "ññ\n… (salida truncada)");
}

#[test]
fn durations_are_rounded_as_decimals_are_printed() {
    for ms in 0..60_000u64 {
        let want = if ms < 1000 {
            format!("{ms} ms")
        } else {
            format!("{:.1} s", ms as f64 / 1000.0)
        };
        assert_eq!(format_duration(ms), want, "{ms}");
    }
    assert_eq!(format_duration(60_000), "1m 0s");
    assert_eq!(format_duration(125_999), "2m 5s");
    assert_eq!(reasoning_summary(0), "Pensamiento");
    assert_eq!(reasoning_summary(4_200), "Pensamiento · 4.2 s");
}

#[test]
fn authors_have_names() {
    assert_eq!(role_name(Role::User), "Tú");
    assert_eq!(role_name(Role::Assistant), "xiě-code");
    assert_eq!(role_name(Role::System), "Sistema");
    assert_eq!(role_name(Role::Tool), "Tool");
}

#[test]
fn words_of_a_shell_are_quoted() {
    assert_eq!(shell_quote("src/a-b_c.rs"), "src/a-b_c.rs");
    assert_eq!(shell_quote("a b"), "'a b'");
    assert_eq!(shell_quote(""), "''");
    assert_eq!(shell_quote("it's"), "'it'\\''s'");
    assert_eq!(shell_quote("ñ"), "'ñ'");
}

#[test]
fn tools_are_shown_as_commands() {
    assert_eq!(format_tool_invocation("bash", "{\"command\":\"ls -l\"}"), "$ ls -l");
    assert_eq!(format_tool_invocation("read_file", "{\"path\":\"a b\"}"), "read_file 'a b'");
    assert_eq!(format_tool_invocation("write_file", "{\"path\":\"x\"}"), "write_file x");
    assert_eq!(
        format_tool_invocation("edit_file", "{\"path\":\"x\",\"replace_all\":true}"),
        "edit_file x --replace-all"
    );
    assert_eq!(format_tool_invocation("edit_file", "{\"path\":\"x\"}"), "edit_file x");
    assert_eq!(format_tool_invocation("list_dir", "{\"path\":\".\"}"), "list_dir .");
    assert_eq!(format_tool_invocation("glob", "{\"pattern\":\"*.rs\"}"), "glob '*.rs'");
    assert_eq!(format_tool_invocation("grep", "{\"pattern\":\"x\"}"), "grep x");
    assert_eq!(format_tool_invocation("grep", "{\"pattern\":\"x\",\"path\":\"src\"}"), "grep x src");
    assert_eq!(format_tool_invocation("otra", "{\"a\":1}"), "otra {\"a\":1}");
    assert_eq!(format_tool_invocation("bash", "no json"), "bash no json");
    assert_eq!(format_tool_invocation("bash", "[1]"), "$ ");
    let fields = Some(vec![("command".to_string(), JsonField::Text("pwd".to_string()))]);
    assert_eq!(render_invocation("bash", "raw", &fields), "$ pwd");
    assert_eq!(render_invocation("bash", "raw", &None), "bash raw");
}

#[test]
fn arguments_are_laid_out() {
    assert_eq!(pretty_args("{\"a\":1}"), "{\n  \"a\": 1\n}");
    assert_eq!(pretty_args("roto"), "roto");
    assert_eq!(pretty_or_raw("r", None), "r");
    assert_eq!(pretty_or_raw("r", Some("p".to_string())), "p");
    let fields = vec![
        ("a".to_string(), JsonField::Text("x".to_string())),
        ("b".to_string(), JsonField::Flag(true)),
        ("c".to_string(), JsonField::Other),
    ];
    assert_eq!(get_text(&fields, "a"), Some("x"));
    assert_eq!(get_text(&fields, "b"), None);
    assert_eq!(get_flag(&fields, "b"), Some(true));
    assert_eq!(get_flag(&fields, "z"), None);
}

#[test]
fn dialogs_ask_before_harm() {
    assert_eq!(
        revert_dialog_body(&Vec::new()),
        "El worktree coincide con el snapshot; no hay archivos que cambiar."
    );
    assert_eq!(
        revert_dialog_body(&vec!["a".to_string(), "b".to_string()]),
        "Se sobrescribirán los siguientes archivos:\n\n• a\n• b"
    );
    let many: Vec<String> = (0..23).map(|i| format!("f{i}")).collect();
    let body = revert_dialog_body(&many);
    assert!(body.contains("• f19\n… y 3 más"));
    assert!(!body.contains("f20"));
    assert_eq!(
        delete_dialog_body("T"),
        "¿Eliminar la sesión «T»?\n\nSe borrarán también todos sus mensajes."
    );
}
