//! What the calls of the tools ask for.
use vstd::prelude::*;
use crate::context::confined;
use crate::format_laws::names_differ;
use crate::json::{flag_field, text_field, FieldsView, JsonFieldView};
use crate::path::path_joined;
use crate::tool::ErrorView;
use crate::toolrun::{call_args, pattern_fault, planned, regex_error, Planned, ToolActionView};

verus! {

/// The error where a tool lacks an argument.
pub open spec fn lacks(key: Seq<char>) -> Option<Planned> {
    Some(Err(ErrorView::InvalidArguments("falta el campo de texto «"@ + key + "»"@)))
}

/// Every tool does what its arguments say: it reads, writes, edits or lists the path that it was
/// given, inside the worktree, with the texts that it was given, each in its place.
pub proof fn a_call_does_what_its_arguments_say(
    workdir: Seq<char>,
    f: FieldsView,
    wrong: Option<Seq<char>>,
    rel: Seq<char>,
    path: Seq<char>,
)
    requires
        text_field(f, "path"@) == Some(rel),
        confined(workdir, rel) == Ok::<Seq<char>, ErrorView>(path),
    ensures
        planned(workdir, "read_file"@, f, wrong) == Some(
            Ok::<ToolActionView, ErrorView>(ToolActionView::ReadFile { path }),
        ),
        planned(workdir, "list_dir"@, f, wrong) == Some(
            Ok::<ToolActionView, ErrorView>(ToolActionView::ListDir { path }),
        ),
        text_field(f, "content"@) matches Some(content) ==> planned(
            workdir,
            "write_file"@,
            f,
            wrong,
        ) == Some(Ok::<ToolActionView, ErrorView>(ToolActionView::WriteFile { path, content })),
        text_field(f, "content"@) is None ==> planned(workdir, "write_file"@, f, wrong) == lacks(
            "content"@,
        ),
        text_field(f, "old_string"@) matches Some(old) ==> (text_field(
            f,
            "new_string"@,
        ) matches Some(new) ==> planned(workdir, "edit_file"@, f, wrong) == Some(
            Ok::<ToolActionView, ErrorView>(
                ToolActionView::EditFile {
                    path,
                    old,
                    new,
                    replace_all: flag_field(f, "replace_all"@) == Some(true),
                },
            ),
        )),
        text_field(f, "old_string"@) is None ==> planned(workdir, "edit_file"@, f, wrong) == lacks(
            "old_string"@,
        ),
        text_field(f, "old_string"@) is Some && text_field(f, "new_string"@) is None ==> planned(
            workdir,
            "edit_file"@,
            f,
            wrong,
        ) == lacks("new_string"@),
        text_field(f, "pattern"@) matches Some(pattern) ==> (wrong is None ==> planned(
            workdir,
            "grep"@,
            f,
            wrong,
        ) == Some(Ok::<ToolActionView, ErrorView>(ToolActionView::Grep { pattern, root: path }))),
{
    names_differ();
}

/// A path that leads outside is refused, whatever the tool does with it.
pub proof fn a_path_outside_is_refused(
    workdir: Seq<char>,
    f: FieldsView,
    wrong: Option<Seq<char>>,
    rel: Seq<char>,
    e: ErrorView,
)
    requires
        text_field(f, "path"@) == Some(rel),
        confined(workdir, rel) == Err::<Seq<char>, ErrorView>(e),
    ensures
        planned(workdir, "read_file"@, f, wrong) == Some(Err::<ToolActionView, ErrorView>(e)),
        planned(workdir, "write_file"@, f, wrong) == Some(Err::<ToolActionView, ErrorView>(e)),
        planned(workdir, "edit_file"@, f, wrong) == Some(Err::<ToolActionView, ErrorView>(e)),
        planned(workdir, "list_dir"@, f, wrong) == Some(Err::<ToolActionView, ErrorView>(e)),
        text_field(f, "pattern"@) is Some && wrong is None ==> planned(workdir, "grep"@, f, wrong)
            == Some(Err::<ToolActionView, ErrorView>(e)),
{
    names_differ();
}

/// Without a path, the tools that read, write and edit a file say so; those that list and search
/// work on the whole worktree.
pub proof fn without_a_path(workdir: Seq<char>, f: FieldsView, root: Seq<char>)
    requires
        text_field(f, "path"@) is None,
        confined(workdir, "."@) == Ok::<Seq<char>, ErrorView>(root),
    ensures
        planned(workdir, "read_file"@, f, None) == lacks("path"@),
        planned(workdir, "write_file"@, f, None) == lacks("path"@),
        planned(workdir, "edit_file"@, f, None) == lacks("path"@),
        planned(workdir, "list_dir"@, f, None) == Some(
            Ok::<ToolActionView, ErrorView>(ToolActionView::ListDir { path: root }),
        ),
        text_field(f, "pattern"@) matches Some(pattern) ==> planned(workdir, "grep"@, f, None)
            == Some(Ok::<ToolActionView, ErrorView>(ToolActionView::Grep { pattern, root })),
{
    names_differ();
}

/// A search by name looks for the pattern below the worktree, a search in texts needs a pattern
/// that can be used, and a command runs as it was given; each says so where that argument is
/// missing. There is no other tool.
pub proof fn patterns_and_commands(
    workdir: Seq<char>,
    f: FieldsView,
    wrong: Option<Seq<char>>,
    name: Seq<char>,
)
    ensures
        planned(workdir, "glob"@, f, wrong) == match text_field(f, "pattern"@) {
            Some(p) => Some(
                Ok::<ToolActionView, ErrorView>(
                    ToolActionView::Glob { pattern: path_joined(workdir, p) },
                ),
            ),
            None => lacks("pattern"@),
        },
        planned(workdir, "bash"@, f, wrong) == match text_field(f, "command"@) {
            Some(command) => Some(
                Ok::<ToolActionView, ErrorView>(ToolActionView::Bash { command }),
            ),
            None => lacks("command"@),
        },
        text_field(f, "pattern"@) is None ==> planned(workdir, "grep"@, f, wrong) == lacks(
            "pattern"@,
        ),
        text_field(f, "pattern"@) is Some && wrong is Some ==> planned(workdir, "grep"@, f, wrong)
            == Some(Err::<ToolActionView, ErrorView>(ErrorView::Regex(wrong->0))),
        planned(workdir, name, f, wrong) is None <==> name != "read_file"@ && name != "write_file"@
            && name != "edit_file"@ && name != "list_dir"@ && name != "glob"@ && name != "grep"@
            && name != "bash"@,
{
    names_differ();
}

/// The arguments are those of the object that the call holds, and none where it holds no object;
/// the pattern that is examined is the one that is searched for.
pub proof fn arguments_are_those_of_the_call(f: FieldsView)
    ensures
        call_args(Some(f)) == f,
        call_args(None) == Seq::<(Seq<char>, JsonFieldView)>::empty(),
        text_field(f, "pattern"@) matches Some(p) ==> pattern_fault(f) == regex_error(p),
        text_field(f, "pattern"@) is None ==> pattern_fault(f) is None,
{
}

/// An argument is read under its name, whatever stands before and behind it; of two with the same
/// name the first counts.
pub proof fn an_argument_is_found(
    before: FieldsView,
    key: Seq<char>,
    value: Seq<char>,
    behind: FieldsView,
)
    requires
        forall|i: int| 0 <= i < before.len() ==> (#[trigger] before[i]).0 != key,
    ensures
        text_field(before + seq![(key, JsonFieldView::Text(value))] + behind, key) == Some(value),
        text_field(before, key) is None,
    decreases before.len(),
{
    let all = before + seq![(key, JsonFieldView::Text(value))] + behind;
    if before.len() > 0 {
        let rest = before.drop_first();
        assert(before[0].0 != key);
        assert forall|i: int| 0 <= i < rest.len() implies (#[trigger] rest[i]).0 != key by {
            assert(rest[i] == before[i + 1]);
        }
        an_argument_is_found(rest, key, value, behind);
        assert(all.drop_first() =~= rest + seq![(key, JsonFieldView::Text(value))] + behind);
        assert(all[0] == before[0]);
    } else {
        assert(all[0] == (key, JsonFieldView::Text(value)));
    }
}

} // verus!
