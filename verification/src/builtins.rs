//! The tools that come with the agent. Four only read: `read_file`, `list_dir`, `glob` and `grep`;
//! three have effects and need permission: `write_file`, `edit_file` and `bash`.
use vstd::prelude::*;
use crate::text::owned;
use crate::tool::{declare, Param, ParamKind, ParamSchema, ParamSchemaView, ParamView, Tool,
    ToolDeclView, ToolRegistry};

verus! {

/// A parameter.
pub open spec fn param_view(name: Seq<char>, kind: ParamKind, description: Seq<char>) -> ParamView {
    ParamView { name, kind, description }
}

/// A parameter.
fn param(name: &str, kind: ParamKind, description: &str) -> (r: Param)
    ensures
        r@ == param_view(name@, kind, description@),
{
    Param { name: owned(name), kind, description: owned(description) }
}

/// The declaration of `read_file`.
pub open spec fn read_file_decl() -> ToolDeclView {
    ToolDeclView {
        name: "read_file"@,
        description: "Lee el contenido completo de un archivo de texto del worktree."@,
        parameters: ParamSchemaView {
            properties: seq![
                param_view("path"@, ParamKind::Text, "Ruta relativa al worktree."@),
            ],
            required: seq!["path"@],
        },
        requires_permission: false,
    }
}

/// The declaration of `write_file`.
pub open spec fn write_file_decl() -> ToolDeclView {
    ToolDeclView {
        name: "write_file"@,
        description: "Crea o sobrescribe un archivo del worktree con el contenido dado."@,
        parameters: ParamSchemaView {
            properties: seq![
                param_view("path"@, ParamKind::Text, "Ruta relativa al worktree."@),
                param_view("content"@, ParamKind::Text, "Contenido completo a escribir."@),
            ],
            required: seq!["path"@, "content"@],
        },
        requires_permission: true,
    }
}

/// The declaration of `edit_file`.
pub open spec fn edit_file_decl() -> ToolDeclView {
    ToolDeclView {
        name: "edit_file"@,
        description:
            "Reemplaza una porción exacta de texto en un archivo. Por defecto exige que `old_string` aparezca una sola vez; usa `replace_all` para todas."@,
        parameters: ParamSchemaView {
            properties: seq![
                param_view("path"@, ParamKind::Text, "Ruta relativa al worktree."@),
                param_view("old_string"@, ParamKind::Text, "Texto exacto a reemplazar."@),
                param_view("new_string"@, ParamKind::Text, "Texto nuevo."@),
                param_view("replace_all"@, ParamKind::Flag, "Reemplazar todas las apariciones."@),
            ],
            required: seq!["path"@, "old_string"@, "new_string"@],
        },
        requires_permission: true,
    }
}

/// The declaration of `list_dir`.
pub open spec fn list_dir_decl() -> ToolDeclView {
    ToolDeclView {
        name: "list_dir"@,
        description: "Lista las entradas de un directorio del worktree (`.` por defecto)."@,
        parameters: ParamSchemaView {
            properties: seq![
                param_view("path"@, ParamKind::Text, "Directorio relativo al worktree."@),
            ],
            required: seq![],
        },
        requires_permission: false,
    }
}

/// The declaration of `glob`.
pub open spec fn glob_decl() -> ToolDeclView {
    ToolDeclView {
        name: "glob"@,
        description:
            "Encuentra archivos por patrón glob (p. ej. `src/**/*.rs`) en el worktree."@,
        parameters: ParamSchemaView {
            properties: seq![
                param_view("pattern"@, ParamKind::Text, "Patrón glob relativo al worktree."@),
            ],
            required: seq!["pattern"@],
        },
        requires_permission: false,
    }
}

/// The declaration of `grep`.
pub open spec fn grep_decl() -> ToolDeclView {
    ToolDeclView {
        name: "grep"@,
        description:
            "Busca un patrón (regex) en los archivos de texto del worktree y devuelve las coincidencias como `ruta:línea:texto`."@,
        parameters: ParamSchemaView {
            properties: seq![
                param_view("pattern"@, ParamKind::Text, "Expresión regular a buscar."@),
                param_view("path"@, ParamKind::Text, "Subdirectorio donde buscar (opcional)."@),
            ],
            required: seq!["pattern"@],
        },
        requires_permission: false,
    }
}

/// The declaration of `bash`.
pub open spec fn bash_decl() -> ToolDeclView {
    ToolDeclView {
        name: "bash"@,
        description:
            "Ejecuta un comando de shell en la raíz del worktree y devuelve su salida combinada (stdout+stderr) y el código de salida."@,
        parameters: ParamSchemaView {
            properties: seq![
                param_view("command"@, ParamKind::Text, "Comando a ejecutar con `sh -c`."@),
            ],
            required: seq!["command"@],
        },
        requires_permission: true,
    }
}

/// Reads a file.
pub struct ReadFile;

impl Tool for ReadFile {
    open spec fn declared(&self) -> ToolDeclView {
        read_file_decl()
    }

    fn name(&self) -> (r: &str) {
        "read_file"
    }

    fn description(&self) -> (r: &str) {
        "Lee el contenido completo de un archivo de texto del worktree."
    }

    fn parameters_schema(&self) -> (r: ParamSchema) {
        let mut properties: Vec<Param> = Vec::new();
        properties.push(param("path", ParamKind::Text, "Ruta relativa al worktree."));
        let mut required: Vec<String> = Vec::new();
        required.push(owned("path"));
        let r = ParamSchema { properties, required };
        assert(r@ =~~= read_file_decl().parameters);
        r
    }

    fn requires_permission(&self) -> (r: bool) {
        false
    }
}

/// Writes a file.
pub struct WriteFile;

impl Tool for WriteFile {
    open spec fn declared(&self) -> ToolDeclView {
        write_file_decl()
    }

    fn name(&self) -> (r: &str) {
        "write_file"
    }

    fn description(&self) -> (r: &str) {
        "Crea o sobrescribe un archivo del worktree con el contenido dado."
    }

    fn parameters_schema(&self) -> (r: ParamSchema) {
        let mut properties: Vec<Param> = Vec::new();
        properties.push(param("path", ParamKind::Text, "Ruta relativa al worktree."));
        properties.push(param("content", ParamKind::Text, "Contenido completo a escribir."));
        let mut required: Vec<String> = Vec::new();
        required.push(owned("path"));
        required.push(owned("content"));
        let r = ParamSchema { properties, required };
        assert(r@ =~~= write_file_decl().parameters);
        r
    }

    fn requires_permission(&self) -> (r: bool) {
        true
    }
}

/// Replaces text in a file.
pub struct EditFile;

impl Tool for EditFile {
    open spec fn declared(&self) -> ToolDeclView {
        edit_file_decl()
    }

    fn name(&self) -> (r: &str) {
        "edit_file"
    }

    fn description(&self) -> (r: &str) {
        "Reemplaza una porción exacta de texto en un archivo. Por defecto exige que `old_string` aparezca una sola vez; usa `replace_all` para todas."
    }

    fn parameters_schema(&self) -> (r: ParamSchema) {
        let mut properties: Vec<Param> = Vec::new();
        properties.push(param("path", ParamKind::Text, "Ruta relativa al worktree."));
        properties.push(param("old_string", ParamKind::Text, "Texto exacto a reemplazar."));
        properties.push(param("new_string", ParamKind::Text, "Texto nuevo."));
        properties.push(param("replace_all", ParamKind::Flag, "Reemplazar todas las apariciones."));
        let mut required: Vec<String> = Vec::new();
        required.push(owned("path"));
        required.push(owned("old_string"));
        required.push(owned("new_string"));
        let r = ParamSchema { properties, required };
        assert(r@ =~~= edit_file_decl().parameters);
        r
    }

    fn requires_permission(&self) -> (r: bool) {
        true
    }
}

/// Lists a directory.
pub struct ListDir;

impl Tool for ListDir {
    open spec fn declared(&self) -> ToolDeclView {
        list_dir_decl()
    }

    fn name(&self) -> (r: &str) {
        "list_dir"
    }

    fn description(&self) -> (r: &str) {
        "Lista las entradas de un directorio del worktree (`.` por defecto)."
    }

    fn parameters_schema(&self) -> (r: ParamSchema) {
        let mut properties: Vec<Param> = Vec::new();
        properties.push(param("path", ParamKind::Text, "Directorio relativo al worktree."));
        let r = ParamSchema { properties, required: Vec::new() };
        assert(r@ =~~= list_dir_decl().parameters);
        r
    }

    fn requires_permission(&self) -> (r: bool) {
        false
    }
}

/// Finds files by a pattern of their path.
pub struct Glob;

impl Tool for Glob {
    open spec fn declared(&self) -> ToolDeclView {
        glob_decl()
    }

    fn name(&self) -> (r: &str) {
        "glob"
    }

    fn description(&self) -> (r: &str) {
        "Encuentra archivos por patrón glob (p. ej. `src/**/*.rs`) en el worktree."
    }

    fn parameters_schema(&self) -> (r: ParamSchema) {
        let mut properties: Vec<Param> = Vec::new();
        properties.push(param("pattern", ParamKind::Text, "Patrón glob relativo al worktree."));
        let mut required: Vec<String> = Vec::new();
        required.push(owned("pattern"));
        let r = ParamSchema { properties, required };
        assert(r@ =~~= glob_decl().parameters);
        r
    }

    fn requires_permission(&self) -> (r: bool) {
        false
    }
}

/// Finds lines in files.
pub struct Grep;

impl Tool for Grep {
    open spec fn declared(&self) -> ToolDeclView {
        grep_decl()
    }

    fn name(&self) -> (r: &str) {
        "grep"
    }

    fn description(&self) -> (r: &str) {
        "Busca un patrón (regex) en los archivos de texto del worktree y devuelve las coincidencias como `ruta:línea:texto`."
    }

    fn parameters_schema(&self) -> (r: ParamSchema) {
        let mut properties: Vec<Param> = Vec::new();
        properties.push(param("pattern", ParamKind::Text, "Expresión regular a buscar."));
        properties.push(param("path", ParamKind::Text, "Subdirectorio donde buscar (opcional)."));
        let mut required: Vec<String> = Vec::new();
        required.push(owned("pattern"));
        let r = ParamSchema { properties, required };
        assert(r@ =~~= grep_decl().parameters);
        r
    }

    fn requires_permission(&self) -> (r: bool) {
        false
    }
}

/// Runs a command.
pub struct Bash;

impl Tool for Bash {
    open spec fn declared(&self) -> ToolDeclView {
        bash_decl()
    }

    fn name(&self) -> (r: &str) {
        "bash"
    }

    fn description(&self) -> (r: &str) {
        "Ejecuta un comando de shell en la raíz del worktree y devuelve su salida combinada (stdout+stderr) y el código de salida."
    }

    fn parameters_schema(&self) -> (r: ParamSchema) {
        let mut properties: Vec<Param> = Vec::new();
        properties.push(param("command", ParamKind::Text, "Comando a ejecutar con `sh -c`."));
        let mut required: Vec<String> = Vec::new();
        required.push(owned("command"));
        let r = ParamSchema { properties, required };
        assert(r@ =~~= bash_decl().parameters);
        r
    }

    fn requires_permission(&self) -> (r: bool) {
        true
    }
}

/// The declarations of the tools that come with the agent.
pub open spec fn builtin_decls() -> Seq<ToolDeclView> {
    seq![
        read_file_decl(),
        write_file_decl(),
        edit_file_decl(),
        list_dir_decl(),
        glob_decl(),
        grep_decl(),
        bash_decl(),
    ]
}

impl ToolRegistry {
    /// The registry with the tools that come with the agent.
    pub fn with_builtins() -> (r: Self)
        ensures
            r@ == builtin_decls(),
    {
        let mut r = ToolRegistry::new();
        r.register(declare(&ReadFile));
        r.register(declare(&WriteFile));
        r.register(declare(&EditFile));
        r.register(declare(&ListDir));
        r.register(declare(&Glob));
        r.register(declare(&Grep));
        r.register(declare(&Bash));
        assert(r@ =~= builtin_decls());
        r
    }
}

impl Default for ToolRegistry {
    fn default() -> (r: Self)
        ensures
            r@ == builtin_decls(),
    {
        ToolRegistry::with_builtins()
    }
}

} // verus!
