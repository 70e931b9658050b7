//! What the tools that come with the agent may do, and what errors say.
use vstd::prelude::*;
use crate::builtins::builtin_decls;
use crate::format_laws::names_differ;
use crate::json::FieldsView;
use crate::tool::{error_text, find_tool, needs_permission, ErrorView, ToolDeclView};
use crate::toolrun::planned;

verus! {

proof fn found(decls: Seq<ToolDeclView>, i: int)
    requires
        0 <= i < decls.len(),
        forall|j: int| 0 <= j < i ==> (#[trigger] decls[j]).name != decls[i].name,
    ensures
        find_tool(decls, decls[i].name) == Some(decls[i]),
    decreases decls.len(),
{
    if i > 0 {
        assert(decls[0].name != decls[i].name);
        let rest = decls.drop_first();
        assert forall|j: int| 0 <= j < i - 1 implies (#[trigger] rest[j]).name
            != rest[i - 1].name by {
            assert(rest[j] == decls[j + 1]);
        }
        found(rest, i - 1);
        assert(rest[i - 1] == decls[i]);
    }
}

proof fn not_found(decls: Seq<ToolDeclView>, name: Seq<char>)
    requires
        forall|j: int| 0 <= j < decls.len() ==> (#[trigger] decls[j]).name != name,
    ensures
        find_tool(decls, name) is None,
    decreases decls.len(),
{
    if decls.len() > 0 {
        assert(decls[0].name != name);
        let rest = decls.drop_first();
        assert forall|j: int| 0 <= j < rest.len() implies (#[trigger] rest[j]).name != name by {
            assert(rest[j] == decls[j + 1]);
        }
        not_found(rest, name);
    }
}

/// There are seven tools. Those that write, edit and run commands need permission, those that read
/// and search do not.
pub proof fn tools_with_effects_need_permission(name: Seq<char>)
    ensures
        needs_permission(builtin_decls(), name) <==> name == "write_file"@ || name == "edit_file"@
            || name == "bash"@,
        find_tool(builtin_decls(), name) is Some <==> name == "read_file"@ || name
            == "write_file"@ || name == "edit_file"@ || name == "list_dir"@ || name == "glob"@
            || name == "grep"@ || name == "bash"@,
        builtin_decls().len() == 7,
{
    names_differ();
    let decls = builtin_decls();
    found(decls, 0);
    found(decls, 1);
    found(decls, 2);
    found(decls, 3);
    found(decls, 4);
    found(decls, 5);
    found(decls, 6);
    if name != "read_file"@ && name != "write_file"@ && name != "edit_file"@ && name
        != "list_dir"@ && name != "glob"@ && name != "grep"@ && name != "bash"@ {
        not_found(decls, name);
    }
}

/// Whatever its arguments, a call changes something only where its tool needs permission.
pub proof fn only_allowed_tools_change_anything(
    workdir: Seq<char>,
    name: Seq<char>,
    f: FieldsView,
    wrong: Option<Seq<char>>,
)
    ensures
        planned(workdir, name, f, wrong) matches Some(Ok(a)) ==> (needs_permission(
            builtin_decls(),
            name,
        ) <==> a is WriteFile || a is EditFile || a is Bash),
        planned(workdir, name, f, wrong) is Some <==> find_tool(builtin_decls(), name) is Some,
{
    names_differ();
    tools_with_effects_need_permission(name);
}

/// Whether a text holds another between a beginning and an end of its own.
pub open spec fn says(text: Seq<char>, a: Seq<char>, detail: Seq<char>, b: Seq<char>) -> bool {
    text == a + detail + b
}

/// The text of an error says what went wrong and holds what it is about.
pub proof fn errors_say_what_they_are_about(s: Seq<char>, n: nat)
    ensures
        says(error_text(ErrorView::Io(s)), "error de E/S ejecutando la tool: "@, s, seq![]),
        says(error_text(ErrorView::InvalidArguments(s)), "argumentos inválidos: "@, s, seq![]),
        says(
            error_text(ErrorView::PathOutsideWorkdir(s)),
            "la ruta «"@,
            s,
            "» queda fuera del worktree"@,
        ),
        says(error_text(ErrorView::Edit(s)), "no se pudo aplicar la edición: "@, s, seq![]),
        says(
            error_text(ErrorView::Timeout(n)),
            "la tool excedió el tiempo máximo ("@,
            crate::number::decimal(n),
            "s)"@,
        ),
        says(error_text(ErrorView::Pattern(s)), "patrón inválido: "@, s, seq![]),
        error_text(ErrorView::Regex(s)) == s,
{
    let none = Seq::<char>::empty();
    assert("error de E/S ejecutando la tool: "@ + s + none =~= "error de E/S ejecutando la tool: "@
        + s);
    assert("argumentos inválidos: "@ + s + none =~= "argumentos inválidos: "@ + s);
    assert("no se pudo aplicar la edición: "@ + s + none =~= "no se pudo aplicar la edición: "@
        + s);
    assert("patrón inválido: "@ + s + none =~= "patrón inválido: "@ + s);
}

/// The errors of a provider and of the engine say what went wrong and hold what it is about.
pub proof fn failures_say_what_they_are_about(s: Seq<char>, model: Seq<char>)
    ensures
        crate::provider::error_text(crate::provider::ErrorView::Http(s))
            == "error de transporte HTTP: "@ + s,
        crate::provider::error_text(crate::provider::ErrorView::Decode(s))
            == "error decodificando la respuesta del proveedor: "@ + s,
        crate::provider::error_text(crate::provider::ErrorView::Auth(s)) == "error de auth: "@ + s,
        crate::provider::error_text(crate::provider::ErrorView::Oauth(s))
            == "error del flujo OAuth: "@ + s,
        crate::engine::error_text(
            crate::engine::ErrorView::MissingApiKey { env_var: s, model },
        ) == "falta una clave de proveedor en el entorno ("@ + s + ") para el modelo "@ + model,
        crate::engine::error_text(crate::engine::ErrorView::UnknownModel(s))
            == "modelo desconocido: "@ + s,
        crate::engine::error_text(crate::engine::ErrorView::OauthInferenceNotImplemented(s))
            == "la inferencia con la cuenta OAuth de "@ + s + " aún no está implementada"@,
{
}

} // verus!
