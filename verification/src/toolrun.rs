//! What a call of a tool does: what has to be done outside, and what is made of the outcome.
use vstd::prelude::*;
use crate::context::{confined, path_result, resolved_stays_inside, ToolContext};
use crate::json::{fields_view, flag_field, get_flag, get_text, json_object, read_object, text_field,
    FieldsView, JsonField};
use crate::path::{comps, path_join, path_joined};
use crate::text::{concat3, opt_view, owned, str_eq, views};
use crate::tool::{Error, ErrorView};

verus! {

// ── Arguments ─────────────────────────────────────────────────────────────────

/// The text argument `key`, which the tool cannot do without.
pub open spec fn needed_arg(fields: FieldsView, key: Seq<char>) -> Result<Seq<char>, ErrorView> {
    match text_field(fields, key) {
        Some(s) => Ok(s),
        None => Err(
            ErrorView::InvalidArguments("falta el campo de texto «"@ + key + "»"@),
        ),
    }
}

/// The text argument `key`, which the tool cannot do without.
pub fn arg_str(fields: &Vec<(String, JsonField)>, key: &str) -> (r: Result<String, Error>)
    ensures
        path_result(r) == needed_arg(fields_view(fields@), key@),
{
    match get_text(fields, key) {
        Some(s) => Ok(owned(s)),
        None => Err(
            Error::InvalidArguments(concat3("falta el campo de texto «", key, "»")),
        ),
    }
}

/// The text argument `key`, or `otherwise`.
pub open spec fn arg_or(fields: FieldsView, key: Seq<char>, otherwise: Seq<char>) -> Seq<char> {
    match text_field(fields, key) {
        Some(s) => s,
        None => otherwise,
    }
}

/// The text argument `key`, or `otherwise`.
fn arg_str_or(fields: &Vec<(String, JsonField)>, key: &str, otherwise: &str) -> (r: String)
    ensures
        r@ == arg_or(fields_view(fields@), key@, otherwise@),
{
    match get_text(fields, key) {
        Some(s) => owned(s),
        None => owned(otherwise),
    }
}

// ── Regular expressions ───────────────────────────────────────────────────────

/// What is wrong with a regular expression, if anything.
pub uninterp spec fn regex_error(pattern: Seq<char>) -> Option<Seq<char>>;

/// Whether a regular expression finds something in a text.
pub uninterp spec fn regex_finds(pattern: Seq<char>, text: Seq<char>) -> bool;

/// `regex::Regex::new`: what it says against the pattern, where it does not take it. Which
/// patterns it takes is left to it.
#[verifier::external_body]
pub(crate) fn pattern_error(pattern: &str) -> (r: Option<String>)
    ensures
        opt_view(r) == regex_error(pattern@),
{
    regex::Regex::new(pattern).err().map(|e| e.to_string())
}

/// `regex::Regex::is_match` on each of the lines, with the pattern that `regex::Regex::new` took.
/// In which texts a pattern finds something is left to it.
#[verifier::external_body]
pub(crate) fn find_in_lines(pattern: &str, lines: &Vec<String>) -> (r: Vec<bool>)
    requires
        regex_error(pattern@) is None,
    ensures
        r@ == views(lines@).map_values(|l: Seq<char>| regex_finds(pattern@, l)),
{
    let regex = regex::Regex::new(pattern).unwrap();
    lines.iter().map(|line| regex.is_match(line)).collect()
}

// ── What has to be done ───────────────────────────────────────────────────────

/// What a call of a tool asks to be done outside.
#[derive(Debug)]
pub enum ToolAction {
    ReadFile { path: String },
    WriteFile { path: String, content: String },
    EditFile { path: String, old: String, new: String, replace_all: bool },
    ListDir { path: String },
    /// Find the paths that match.
    Glob { pattern: String },
    /// Search the files below `root`.
    Grep { pattern: String, root: String },
    Bash { command: String },
}

/// What a [`ToolAction`] holds.
pub enum ToolActionView {
    ReadFile { path: Seq<char> },
    WriteFile { path: Seq<char>, content: Seq<char> },
    EditFile { path: Seq<char>, old: Seq<char>, new: Seq<char>, replace_all: bool },
    ListDir { path: Seq<char> },
    Glob { pattern: Seq<char> },
    Grep { pattern: Seq<char>, root: Seq<char> },
    Bash { command: Seq<char> },
}

impl View for ToolAction {
    type V = ToolActionView;

    open spec fn view(&self) -> ToolActionView {
        match self {
            ToolAction::ReadFile { path } => ToolActionView::ReadFile { path: path@ },
            ToolAction::WriteFile { path, content } => ToolActionView::WriteFile {
                path: path@,
                content: content@,
            },
            ToolAction::EditFile { path, old, new, replace_all } => ToolActionView::EditFile {
                path: path@,
                old: old@,
                new: new@,
                replace_all: *replace_all,
            },
            ToolAction::ListDir { path } => ToolActionView::ListDir { path: path@ },
            ToolAction::Glob { pattern } => ToolActionView::Glob { pattern: pattern@ },
            ToolAction::Grep { pattern, root } => ToolActionView::Grep {
                pattern: pattern@,
                root: root@,
            },
            ToolAction::Bash { command } => ToolActionView::Bash { command: command@ },
        }
    }
}

/// The result of planning a call.
pub type Planned = Result<ToolActionView, ErrorView>;

/// What a call of `read_file` asks for.
pub open spec fn plan_read(workdir: Seq<char>, f: FieldsView) -> Planned {
    match needed_arg(f, "path"@) {
        Err(e) => Err(e),
        Ok(rel) => match confined(workdir, rel) {
            Err(e) => Err(e),
            Ok(path) => Ok(ToolActionView::ReadFile { path }),
        },
    }
}

/// What a call of `write_file` asks for.
pub open spec fn plan_write(workdir: Seq<char>, f: FieldsView) -> Planned {
    match needed_arg(f, "path"@) {
        Err(e) => Err(e),
        Ok(rel) => match confined(workdir, rel) {
            Err(e) => Err(e),
            Ok(path) => match needed_arg(f, "content"@) {
                Err(e) => Err(e),
                Ok(content) => Ok(ToolActionView::WriteFile { path, content }),
            },
        },
    }
}

/// What a call of `edit_file` asks for.
pub open spec fn plan_edit(workdir: Seq<char>, f: FieldsView) -> Planned {
    match needed_arg(f, "path"@) {
        Err(e) => Err(e),
        Ok(rel) => match confined(workdir, rel) {
            Err(e) => Err(e),
            Ok(path) => match needed_arg(f, "old_string"@) {
                Err(e) => Err(e),
                Ok(old) => match needed_arg(f, "new_string"@) {
                    Err(e) => Err(e),
                    Ok(new) => Ok(
                        ToolActionView::EditFile {
                            path,
                            old,
                            new,
                            replace_all: flag_field(f, "replace_all"@) == Some(true),
                        },
                    ),
                },
            },
        },
    }
}

/// What a call of `list_dir` asks for.
pub open spec fn plan_list(workdir: Seq<char>, f: FieldsView) -> Planned {
    match confined(workdir, arg_or(f, "path"@, "."@)) {
        Err(e) => Err(e),
        Ok(path) => Ok(ToolActionView::ListDir { path }),
    }
}

/// What a call of `glob` asks for.
pub open spec fn plan_glob(workdir: Seq<char>, f: FieldsView) -> Planned {
    match needed_arg(f, "pattern"@) {
        Err(e) => Err(e),
        Ok(pattern) => Ok(ToolActionView::Glob { pattern: path_joined(workdir, pattern) }),
    }
}

/// What a call of `grep` asks for, where `wrong` is what is wrong with its pattern.
pub open spec fn plan_grep(
    workdir: Seq<char>,
    f: FieldsView,
    wrong: Option<Seq<char>>,
) -> Planned {
    match needed_arg(f, "pattern"@) {
        Err(e) => Err(e),
        Ok(pattern) => match wrong {
            Some(w) => Err(ErrorView::Regex(w)),
            None => match confined(workdir, arg_or(f, "path"@, "."@)) {
                Err(e) => Err(e),
                Ok(root) => Ok(ToolActionView::Grep { pattern, root }),
            },
        },
    }
}

/// What a call of `bash` asks for.
pub open spec fn plan_bash(f: FieldsView) -> Planned {
    match needed_arg(f, "command"@) {
        Err(e) => Err(e),
        Ok(command) => Ok(ToolActionView::Bash { command }),
    }
}

/// What a call of the tool `name` asks for; `None` for a tool that does not come with the agent.
/// `wrong` is what is wrong with the regular expression of a `grep`.
pub open spec fn planned(
    workdir: Seq<char>,
    name: Seq<char>,
    f: FieldsView,
    wrong: Option<Seq<char>>,
) -> Option<Planned> {
    if name == "read_file"@ {
        Some(plan_read(workdir, f))
    } else if name == "write_file"@ {
        Some(plan_write(workdir, f))
    } else if name == "edit_file"@ {
        Some(plan_edit(workdir, f))
    } else if name == "list_dir"@ {
        Some(plan_list(workdir, f))
    } else if name == "glob"@ {
        Some(plan_glob(workdir, f))
    } else if name == "grep"@ {
        Some(plan_grep(workdir, f, wrong))
    } else if name == "bash"@ {
        Some(plan_bash(f))
    } else {
        None
    }
}

/// The view of a planned call.
pub open spec fn plan_view(r: Result<ToolAction, Error>) -> Planned {
    match r {
        Ok(a) => Ok(a@),
        Err(e) => Err(e@),
    }
}

/// The view of a planned call, where the tool is known.
pub open spec fn opt_plan(r: Option<Result<ToolAction, Error>>) -> Option<Planned> {
    match r {
        Some(p) => Some(plan_view(p)),
        None => None,
    }
}

/// The path argument, inside the worktree.
fn path_arg(ctx: &ToolContext, f: &Vec<(String, JsonField)>) -> (r: Result<String, Error>)
    ensures
        path_result(r) == (match needed_arg(fields_view(f@), "path"@) {
            Err(e) => Err(e),
            Ok(rel) => confined(ctx@, rel),
        }),
{
    match arg_str(f, "path") {
        Ok(rel) => ctx.resolve(rel.as_str()),
        Err(e) => Err(e),
    }
}

fn plan_edit_call(ctx: &ToolContext, f: &Vec<(String, JsonField)>) -> (r: Result<
    ToolAction,
    Error,
>)
    ensures
        plan_view(r) == plan_edit(ctx@, fields_view(f@)),
{
    let path = match path_arg(ctx, f) {
        Ok(p) => p,
        Err(e) => {
            return Err(e);
        },
    };
    let old = match arg_str(f, "old_string") {
        Ok(s) => s,
        Err(e) => {
            return Err(e);
        },
    };
    let new = match arg_str(f, "new_string") {
        Ok(s) => s,
        Err(e) => {
            return Err(e);
        },
    };
    let replace_all = match get_flag(f, "replace_all") {
        Some(b) => b,
        None => false,
    };
    Ok(ToolAction::EditFile { path, old, new, replace_all })
}

fn plan_grep_call(
    ctx: &ToolContext,
    f: &Vec<(String, JsonField)>,
    wrong: &Option<String>,
) -> (r: Result<ToolAction, Error>)
    ensures
        plan_view(r) == plan_grep(ctx@, fields_view(f@), opt_view(*wrong)),
{
    let pattern = match arg_str(f, "pattern") {
        Ok(s) => s,
        Err(e) => {
            return Err(e);
        },
    };
    if let Some(w) = wrong {
        return Err(Error::Regex(w.clone()));
    }
    match ctx.resolve(arg_str_or(f, "path", ".").as_str()) {
        Ok(root) => Ok(ToolAction::Grep { pattern, root }),
        Err(e) => Err(e),
    }
}

/// What a call of the tool `name` asks for, with its arguments read and its regular expression,
/// where it has one, examined.
pub fn plan_call_with(
    ctx: &ToolContext,
    name: &str,
    f: &Vec<(String, JsonField)>,
    wrong: &Option<String>,
) -> (r: Option<Result<ToolAction, Error>>)
    ensures
        opt_plan(r) == planned(ctx@, name@, fields_view(f@), opt_view(*wrong)),
{
    if str_eq(name, "read_file") {
        return Some(
            match path_arg(ctx, f) {
                Ok(path) => Ok(ToolAction::ReadFile { path }),
                Err(e) => Err(e),
            },
        );
    }
    if str_eq(name, "write_file") {
        return Some(
            match path_arg(ctx, f) {
                Ok(path) => match arg_str(f, "content") {
                    Ok(content) => Ok(ToolAction::WriteFile { path, content }),
                    Err(e) => Err(e),
                },
                Err(e) => Err(e),
            },
        );
    }
    if str_eq(name, "edit_file") {
        return Some(plan_edit_call(ctx, f));
    }
    if str_eq(name, "list_dir") {
        return Some(
            match ctx.resolve(arg_str_or(f, "path", ".").as_str()) {
                Ok(path) => Ok(ToolAction::ListDir { path }),
                Err(e) => Err(e),
            },
        );
    }
    if str_eq(name, "glob") {
        return Some(
            match arg_str(f, "pattern") {
                Ok(pattern) => Ok(
                    ToolAction::Glob { pattern: path_join(ctx.workdir(), pattern.as_str()) },
                ),
                Err(e) => Err(e),
            },
        );
    }
    if str_eq(name, "grep") {
        return Some(plan_grep_call(ctx, f, wrong));
    }
    if str_eq(name, "bash") {
        return Some(
            match arg_str(f, "command") {
                Ok(command) => Ok(ToolAction::Bash { command }),
                Err(e) => Err(e),
            },
        );
    }
    None
}

/// The arguments of a call: those of the JSON object that `raw` holds, none where it holds
/// something else.
pub open spec fn call_args(parsed: Option<FieldsView>) -> FieldsView {
    match parsed {
        Some(f) => f,
        None => seq![],
    }
}

/// What is wrong with the regular expression of a call, where it has one.
pub open spec fn pattern_fault(f: FieldsView) -> Option<Seq<char>> {
    match text_field(f, "pattern"@) {
        Some(p) => regex_error(p),
        None => None,
    }
}

/// What a call of the tool `name` with the arguments `raw` asks for.
pub fn plan_call(ctx: &ToolContext, name: &str, raw: &str) -> (r: Option<
    Result<ToolAction, Error>,
>)
    ensures
        opt_plan(r) == planned(
            ctx@,
            name@,
            call_args(json_object(raw@)),
            pattern_fault(call_args(json_object(raw@))),
        ),
{
    let f = match read_object(raw) {
        Some(f) => f,
        None => {
            let none: Vec<(String, JsonField)> = Vec::new();
            assert(fields_view(none@) =~= seq![]);
            none
        },
    };
    let wrong = match get_text(&f, "pattern") {
        Some(p) => pattern_error(p),
        None => None,
    };
    plan_call_with(ctx, name, &f, &wrong)
}

/// The paths that a call reads or writes lie inside the worktree.
pub open spec fn action_paths_inside(workdir: Seq<char>, a: ToolActionView) -> bool {
    match a {
        ToolActionView::ReadFile { path } => comps(workdir).is_prefix_of(comps(path)),
        ToolActionView::WriteFile { path, content } => comps(workdir).is_prefix_of(comps(path)),
        ToolActionView::EditFile { path, old, new, replace_all } => comps(workdir).is_prefix_of(
            comps(path),
        ),
        ToolActionView::ListDir { path } => comps(workdir).is_prefix_of(comps(path)),
        ToolActionView::Grep { pattern, root } => comps(workdir).is_prefix_of(comps(root)),
        _ => true,
    }
}

/// No tool that takes a path touches a file outside the worktree.
pub proof fn tools_stay_inside(
    workdir: Seq<char>,
    name: Seq<char>,
    f: FieldsView,
    wrong: Option<Seq<char>>,
)
    ensures
        planned(workdir, name, f, wrong) matches Some(Ok(a)) ==> action_paths_inside(workdir, a),
{
    if let Some(Ok(a)) = planned(workdir, name, f, wrong) {
        let rel = match text_field(f, "path"@) {
            Some(s) => s,
            None => "."@,
        };
        if confined(workdir, rel) is Ok {
            resolved_stays_inside(workdir, rel);
        }
    }
}

} // verus!
