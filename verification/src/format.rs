//! Texts for display.
use vstd::prelude::*;
use crate::json::{flag_field, get_flag, get_text, json_object, read_object, text_field, FieldsView,
    JsonField, fields_view};
use crate::message::Role;
use crate::number::{decimal, u64_text, usize_text};
use crate::search::{join, joined, replace_all, replaced, take_chars};
use crate::text::{chars_of, concat2, concat3, owned, str_eq, trim, trim_end, trimmed, trimmed_end,
    views};

verus! {

// ── Titles and lengths ────────────────────────────────────────────────────────

/// How many characters of its first message name a session.
pub const TITLE_MAX: usize = 40;

/// The title of a session, from its first message.
pub open spec fn title_of(text: Seq<char>) -> Seq<char> {
    let t = trimmed(text);
    if t.len() > TITLE_MAX {
        trimmed_end(t.take(TITLE_MAX as int)) + "…"@
    } else {
        t
    }
}

/// The title of a session, from its first message.
pub fn summarize_title(text: &str) -> (r: String)
    ensures
        r@ == title_of(text@),
{
    let t = trim(text);
    if chars_of(t.as_str()).len() > TITLE_MAX {
        let head = take_chars(t.as_str(), TITLE_MAX);
        concat2(trim_end(head.as_str()).as_str(), "…")
    } else {
        t
    }
}

/// How many characters of the output of a tool are shown.
pub const TOOL_OUTPUT_MAX: usize = 4000;

/// `s` cut to `max` characters, with a mark where something was cut.
pub open spec fn truncated(s: Seq<char>, max: nat) -> Seq<char> {
    if s.len() > max {
        s.take(max as int) + "\n… (salida truncada)"@
    } else {
        s
    }
}

/// `s` cut to `max` characters, with a mark where something was cut.
pub fn truncate(s: &str, max: usize) -> (r: String)
    ensures
        r@ == truncated(s@, max as nat),
{
    if chars_of(s).len() > max {
        concat2(take_chars(s, max).as_str(), "\n… (salida truncada)")
    } else {
        owned(s)
    }
}

/// The name of the author of a message.
pub open spec fn author(role: Role) -> Seq<char> {
    match role {
        Role::User => "Tú"@,
        Role::Assistant => "xiě-code"@,
        Role::System => "Sistema"@,
        Role::Tool => "Tool"@,
    }
}

/// The name of the author of a message.
pub fn role_name(role: Role) -> (r: &'static str)
    ensures
        r@ == author(role),
{
    match role {
        Role::User => "Tú",
        Role::Assistant => "xiě-code",
        Role::System => "Sistema",
        Role::Tool => "Tool",
    }
}

// ── Durations ─────────────────────────────────────────────────────────────────

/// For a time of `ms` milliseconds, from one second to one minute: two to the power of the bits
/// that a double of that size has behind its point, modulo a thousand.
pub open spec fn double_weight(ms: nat) -> nat {
    if ms < 2_000 {
        496
    } else if ms < 4_000 {
        248
    } else if ms < 8_000 {
        624
    } else if ms < 16_000 {
        312
    } else if ms < 32_000 {
        656
    } else {
        328
    }
}

/// Whether a time that lies in the middle between two tenths of a second is rounded up: where the
/// double nearest to it lies above the middle; on the middle itself, where the tenth is odd.
pub open spec fn middle_goes_up(ms: nat) -> bool {
    let r = ((ms % 1_000) * double_weight(ms)) % 1_000;
    if r == 0 {
        (ms / 100) % 2 == 1
    } else {
        r > 500
    }
}

/// A time of `ms` milliseconds in tenths of a second, rounded.
pub open spec fn tenths(ms: nat) -> nat {
    let r = ms % 100;
    if r > 50 || (r == 50 && middle_goes_up(ms)) {
        ms / 100 + 1
    } else {
        ms / 100
    }
}

/// A duration: in milliseconds below one second, in seconds with one decimal below one minute, in
/// minutes and seconds beyond.
pub open spec fn duration_text(ms: nat) -> Seq<char> {
    if ms < 1_000 {
        decimal(ms) + " ms"@
    } else if ms < 60_000 {
        decimal(tenths(ms) / 10) + "."@ + decimal(tenths(ms) % 10) + " s"@
    } else {
        decimal(ms / 60_000) + "m "@ + decimal((ms % 60_000) / 1_000) + "s"@
    }
}

/// A time of `ms` milliseconds in tenths of a second, rounded.
fn round_tenths(ms: u64) -> (r: u64)
    requires
        1_000 <= ms < 60_000,
    ensures
        r == tenths(ms as nat),
{
    let rest = ms % 100;
    if rest < 50 {
        return ms / 100;
    }
    if rest > 50 {
        return ms / 100 + 1;
    }
    let weight: u64 = if ms < 2_000 {
        496
    } else if ms < 4_000 {
        248
    } else if ms < 8_000 {
        624
    } else if ms < 16_000 {
        312
    } else if ms < 32_000 {
        656
    } else {
        328
    };
    let part = ms % 1_000;
    assert(part * weight <= 999 * 656) by (nonlinear_arith)
        requires
            part <= 999,
            weight <= 656,
    ;
    let q = (part * weight) % 1_000;
    let up = if q == 0 {
        (ms / 100) % 2 == 1
    } else {
        q > 500
    };
    if up {
        ms / 100 + 1
    } else {
        ms / 100
    }
}

/// A duration of `ms` milliseconds.
pub fn format_duration(ms: u64) -> (r: String)
    ensures
        r@ == duration_text(ms as nat),
{
    if ms < 1_000 {
        concat2(u64_text(ms).as_str(), " ms")
    } else if ms < 60_000 {
        let t = round_tenths(ms);
        let mut out = u64_text(t / 10);
        out.push_str(".");
        out.push_str(u64_text(t % 10).as_str());
        out.push_str(" s");
        out
    } else {
        let mut out = u64_text(ms / 60_000);
        out.push_str("m ");
        out.push_str(u64_text((ms % 60_000) / 1_000).as_str());
        out.push_str("s");
        out
    }
}

/// The head of a card with a chain of thought; the duration is left out where it is zero.
pub open spec fn thought_summary(ms: nat) -> Seq<char> {
    if ms == 0 {
        "Pensamiento"@
    } else {
        "Pensamiento · "@ + duration_text(ms)
    }
}

/// The head of a card with a chain of thought.
pub fn reasoning_summary(ms: u64) -> (r: String)
    ensures
        r@ == thought_summary(ms as nat),
{
    if ms == 0 {
        owned("Pensamiento")
    } else {
        concat2("Pensamiento · ", format_duration(ms).as_str())
    }
}

// ── Tool calls ────────────────────────────────────────────────────────────────

/// Whether a shell reads `c` as itself.
pub open spec fn is_shell_safe(c: char) -> bool {
    ||| 'a' <= c <= 'z'
    ||| 'A' <= c <= 'Z'
    ||| '0' <= c <= '9'
    ||| c == '-'
    ||| c == '_'
    ||| c == '.'
    ||| c == '/'
    ||| c == ':'
    ||| c == '@'
    ||| c == '%'
    ||| c == '+'
    ||| c == ','
}

/// Whether a shell reads all of `s` as itself.
pub open spec fn is_safe_word(s: Seq<char>) -> bool {
    s.len() > 0 && forall|i: int| 0 <= i < s.len() ==> is_shell_safe(#[trigger] s[i])
}

/// `s` as a word of a shell: as it is where that is safe, else in single quotes.
pub open spec fn quoted(s: Seq<char>) -> Seq<char> {
    if is_safe_word(s) {
        s
    } else {
        "'"@ + replaced(s, "'"@, "'\\''"@) + "'"@
    }
}

/// `value` as a word of a shell.
pub fn shell_quote(value: &str) -> (r: String)
    ensures
        r@ == quoted(value@),
{
    let chars = chars_of(value);
    let mut safe = chars.len() > 0;
    let mut i: usize = 0;
    while i < chars.len() && safe
        invariant
            i <= chars.len(),
            chars@ == value@,
            safe ==> forall|j: int| 0 <= j < i ==> is_shell_safe(#[trigger] value@[j]),
            !safe ==> !is_safe_word(value@),
            safe ==> chars.len() > 0,
        decreases chars.len() - i + if safe { 1int } else { 0int },
    {
        let c = chars[i];
        assert(c == value@[i as int]);
        if ('a' <= c && c <= 'z') || ('A' <= c && c <= 'Z') || ('0' <= c && c <= '9') || c == '-'
            || c == '_' || c == '.' || c == '/' || c == ':' || c == '@' || c == '%' || c == '+'
            || c == ',' {
            i = i + 1;
        } else {
            assert(!is_shell_safe(value@[i as int]));
            safe = false;
        }
    }
    if safe {
        owned(value)
    } else {
        concat3("'", replace_all(value, "'", "'\\''").as_str(), "'")
    }
}

/// The text argument `key`, empty where there is none.
pub open spec fn arg_or_empty(fields: FieldsView, key: Seq<char>) -> Seq<char> {
    match text_field(fields, key) {
        Some(s) => s,
        None => seq![],
    }
}

/// A tool call as a line of a console. `fields` holds the arguments where they are JSON; a call
/// with others, or of an unknown tool, is shown as it came.
pub open spec fn invocation(
    name: Seq<char>,
    raw: Seq<char>,
    fields: Option<FieldsView>,
) -> Seq<char> {
    let plain = name + " "@ + raw;
    match fields {
        None => plain,
        Some(f) => {
            if name == "bash"@ {
                "$ "@ + arg_or_empty(f, "command"@)
            } else if name == "read_file"@ {
                "read_file "@ + quoted(arg_or_empty(f, "path"@))
            } else if name == "write_file"@ {
                "write_file "@ + quoted(arg_or_empty(f, "path"@))
            } else if name == "edit_file"@ {
                let line = "edit_file "@ + quoted(arg_or_empty(f, "path"@));
                if flag_field(f, "replace_all"@) == Some(true) {
                    line + " --replace-all"@
                } else {
                    line
                }
            } else if name == "list_dir"@ {
                "list_dir "@ + quoted(arg_or_empty(f, "path"@))
            } else if name == "glob"@ {
                "glob "@ + quoted(arg_or_empty(f, "pattern"@))
            } else if name == "grep"@ {
                let line = "grep "@ + quoted(arg_or_empty(f, "pattern"@));
                let path = arg_or_empty(f, "path"@);
                if path.len() == 0 {
                    line
                } else {
                    line + " "@ + quoted(path)
                }
            } else {
                plain
            }
        },
    }
}

/// The text argument `key`, empty where there is none.
fn arg_text(fields: &Vec<(String, JsonField)>, key: &str) -> (r: String)
    ensures
        r@ == arg_or_empty(fields_view(fields@), key@),
{
    match get_text(fields, key) {
        Some(s) => owned(s),
        None => String::new(),
    }
}

/// The views of the arguments, where there are any.
pub open spec fn opt_fields(fields: Option<Vec<(String, JsonField)>>) -> Option<FieldsView> {
    match fields {
        Some(f) => Some(fields_view(f@)),
        None => None,
    }
}

/// A tool call as a line of a console, with its arguments read.
pub fn render_invocation(
    name: &str,
    args_json: &str,
    fields: &Option<Vec<(String, JsonField)>>,
) -> (r: String)
    ensures
        r@ == invocation(name@, args_json@, opt_fields(*fields)),
{
    let f = match fields {
        None => {
            return concat3(name, " ", args_json);
        },
        Some(f) => f,
    };
    if str_eq(name, "bash") {
        return concat2("$ ", arg_text(f, "command").as_str());
    }
    if str_eq(name, "read_file") {
        return concat2("read_file ", shell_quote(arg_text(f, "path").as_str()).as_str());
    }
    if str_eq(name, "write_file") {
        return concat2("write_file ", shell_quote(arg_text(f, "path").as_str()).as_str());
    }
    if str_eq(name, "edit_file") {
        let mut out = concat2("edit_file ", shell_quote(arg_text(f, "path").as_str()).as_str());
        if let Some(true) = get_flag(f, "replace_all") {
            out.push_str(" --replace-all");
        }
        return out;
    }
    if str_eq(name, "list_dir") {
        return concat2("list_dir ", shell_quote(arg_text(f, "path").as_str()).as_str());
    }
    if str_eq(name, "glob") {
        return concat2("glob ", shell_quote(arg_text(f, "pattern").as_str()).as_str());
    }
    if str_eq(name, "grep") {
        let mut out = concat2("grep ", shell_quote(arg_text(f, "pattern").as_str()).as_str());
        let path = arg_text(f, "path");
        if !path.as_str().is_empty() {
            out.push_str(" ");
            out.push_str(shell_quote(path.as_str()).as_str());
        }
        return out;
    }
    concat3(name, " ", args_json)
}

/// A tool call as a line of a console.
pub fn format_tool_invocation(name: &str, args_json: &str) -> (r: String)
    ensures
        r@ == invocation(name@, args_json@, json_object(args_json@)),
{
    let fields = read_object(args_json);
    render_invocation(name, args_json, &fields)
}

// ── Dialogs ───────────────────────────────────────────────────────────────────

/// How many files the dialog before reverting names.
pub const REVERT_FILES_MAX: usize = 20;

/// The files in the dialog before reverting, one on each line.
pub open spec fn revert_lines(files: Seq<Seq<char>>) -> Seq<Seq<char>> {
    files.map_values(|f: Seq<char>| "• "@ + f)
}

/// What the dialog before reverting says.
pub open spec fn revert_text(files: Seq<Seq<char>>) -> Seq<char> {
    if files.len() == 0 {
        "El worktree coincide con el snapshot; no hay archivos que cambiar."@
    } else if files.len() <= REVERT_FILES_MAX {
        "Se sobrescribirán los siguientes archivos:\n\n"@ + joined(revert_lines(files), "\n"@)
    } else {
        "Se sobrescribirán los siguientes archivos:\n\n"@ + joined(
            revert_lines(files.take(REVERT_FILES_MAX as int)),
            "\n"@,
        ) + "\n… y "@ + decimal((files.len() - REVERT_FILES_MAX) as nat) + " más"@
    }
}

/// What the dialog before reverting says.
pub fn revert_dialog_body(files: &Vec<String>) -> (r: String)
    ensures
        r@ == revert_text(views(files@)),
{
    if files.len() == 0 {
        return owned("El worktree coincide con el snapshot; no hay archivos que cambiar.");
    }
    let n: usize = if files.len() <= REVERT_FILES_MAX {
        files.len()
    } else {
        REVERT_FILES_MAX
    };
    let ghost shown = revert_lines(views(files@).take(n as int));
    let mut list: Vec<String> = Vec::new();
    let mut i: usize = 0;
    while i < n
        invariant
            i <= n <= files.len(),
            list@.len() == i,
            shown == revert_lines(views(files@).take(n as int)),
            forall|j: int| 0 <= j < i ==> (#[trigger] list@[j])@ == shown[j],
        decreases n - i,
    {
        let line = concat2("• ", files[i].as_str());
        assert(views(files@).take(n as int)[i as int] == files@[i as int]@);
        assert(line@ == shown[i as int]);
        list.push(line);
        i = i + 1;
    }
    assert(views(list@) =~= shown);
    let mut out = owned("Se sobrescribirán los siguientes archivos:\n\n");
    out.push_str(join(&list, "\n").as_str());
    if files.len() > REVERT_FILES_MAX {
        out.push_str("\n… y ");
        out.push_str(usize_text(files.len() - REVERT_FILES_MAX).as_str());
        out.push_str(" más");
    } else {
        assert(views(files@).take(n as int) =~= views(files@));
    }
    out
}

/// What the dialog before deleting a session says.
pub open spec fn delete_text(title: Seq<char>) -> Seq<char> {
    "¿Eliminar la sesión «"@ + title + "»?\n\nSe borrarán también todos sus mensajes."@
}

/// What the dialog before deleting a session says.
pub fn delete_dialog_body(title: &str) -> (r: String)
    ensures
        r@ == delete_text(title@),
{
    concat3("¿Eliminar la sesión «", title, "»?\n\nSe borrarán también todos sus mensajes.")
}

} // verus!
