//! What a tool declares of itself, and the set of tools offered to the model.
use vstd::prelude::*;
use crate::number::{decimal, u64_text};
use crate::text::{concat2, concat3, owned, str_eq, views};

verus! {

/// Why a tool failed.
#[derive(Debug)]
pub enum Error {
    Io(String),
    InvalidArguments(String),
    PathOutsideWorkdir(String),
    Edit(String),
    Timeout(u64),
    Pattern(String),
    Regex(String),
}

/// What an [`Error`] holds.
pub enum ErrorView {
    Io(Seq<char>),
    InvalidArguments(Seq<char>),
    PathOutsideWorkdir(Seq<char>),
    Edit(Seq<char>),
    Timeout(nat),
    Pattern(Seq<char>),
    Regex(Seq<char>),
}

impl View for Error {
    type V = ErrorView;

    open spec fn view(&self) -> ErrorView {
        match self {
            Error::Io(s) => ErrorView::Io(s@),
            Error::InvalidArguments(s) => ErrorView::InvalidArguments(s@),
            Error::PathOutsideWorkdir(s) => ErrorView::PathOutsideWorkdir(s@),
            Error::Edit(s) => ErrorView::Edit(s@),
            Error::Timeout(n) => ErrorView::Timeout(*n as nat),
            Error::Pattern(s) => ErrorView::Pattern(s@),
            Error::Regex(s) => ErrorView::Regex(s@),
        }
    }
}

/// The text of an error.
pub open spec fn error_text(e: ErrorView) -> Seq<char> {
    match e {
        ErrorView::Io(s) => "error de E/S ejecutando la tool: "@ + s,
        ErrorView::InvalidArguments(s) => "argumentos inválidos: "@ + s,
        ErrorView::PathOutsideWorkdir(s) => "la ruta «"@ + s + "» queda fuera del worktree"@,
        ErrorView::Edit(s) => "no se pudo aplicar la edición: "@ + s,
        ErrorView::Timeout(n) => "la tool excedió el tiempo máximo ("@ + decimal(n)
            + "s)"@,
        ErrorView::Pattern(s) => "patrón inválido: "@ + s,
        ErrorView::Regex(s) => s,
    }
}

impl Error {
    /// The text of the error.
    pub fn text(&self) -> (r: String)
        ensures
            r@ == error_text(self@),
    {
        match self {
            Error::Io(s) => concat2("error de E/S ejecutando la tool: ", s.as_str()),
            Error::InvalidArguments(s) => concat2(
                "argumentos inválidos: ",
                s.as_str(),
            ),
            Error::PathOutsideWorkdir(s) => concat3(
                "la ruta «",
                s.as_str(),
                "» queda fuera del worktree",
            ),
            Error::Edit(s) => concat2("no se pudo aplicar la edición: ", s.as_str()),
            Error::Timeout(n) => concat3(
                "la tool excedió el tiempo máximo (",
                u64_text(*n).as_str(),
                "s)",
            ),
            Error::Pattern(s) => concat2("patrón inválido: ", s.as_str()),
            Error::Regex(s) => s.clone(),
        }
    }
}

// ── Parameters ────────────────────────────────────────────────────────────────

/// The kind of value that a parameter takes.
#[derive(Debug, Clone, Copy, PartialEq, Eq, Structural)]
pub enum ParamKind {
    Text,
    Flag,
}

/// A parameter of a tool.
#[derive(Debug)]
pub struct Param {
    pub name: String,
    pub kind: ParamKind,
    pub description: String,
}

/// What a [`Param`] holds.
pub struct ParamView {
    pub name: Seq<char>,
    pub kind: ParamKind,
    pub description: Seq<char>,
}

impl View for Param {
    type V = ParamView;

    open spec fn view(&self) -> ParamView {
        ParamView { name: self.name@, kind: self.kind, description: self.description@ }
    }
}

impl Clone for Param {
    fn clone(&self) -> (r: Self)
        ensures
            r == *self,
    {
        Param {
            name: self.name.clone(),
            kind: self.kind,
            description: self.description.clone(),
        }
    }
}

/// The parameters that a tool accepts, and the names of those that it cannot do without.
#[derive(Debug)]
pub struct ParamSchema {
    pub properties: Vec<Param>,
    pub required: Vec<String>,
}

/// What a [`ParamSchema`] holds.
#[verifier::ext_equal]
pub struct ParamSchemaView {
    pub properties: Seq<ParamView>,
    pub required: Seq<Seq<char>>,
}

impl View for ParamSchema {
    type V = ParamSchemaView;

    open spec fn view(&self) -> ParamSchemaView {
        ParamSchemaView {
            properties: self.properties@.map_values(|p: Param| p@),
            required: views(self.required@),
        }
    }
}

impl Clone for ParamSchema {
    fn clone(&self) -> (r: Self)
        ensures
            r@ == self@,
    {
        let r = ParamSchema {
            properties: self.properties.clone(),
            required: self.required.clone(),
        };
        assert(r@ =~~= self@);
        r
    }
}

// ── Declarations ──────────────────────────────────────────────────────────────

/// What a tool declares of itself.
#[derive(Debug)]
pub struct ToolDecl {
    pub name: String,
    pub description: String,
    pub parameters: ParamSchema,
    pub requires_permission: bool,
}

/// What a [`ToolDecl`] holds.
#[verifier::ext_equal]
pub struct ToolDeclView {
    pub name: Seq<char>,
    pub description: Seq<char>,
    pub parameters: ParamSchemaView,
    pub requires_permission: bool,
}

impl View for ToolDecl {
    type V = ToolDeclView;

    open spec fn view(&self) -> ToolDeclView {
        ToolDeclView {
            name: self.name@,
            description: self.description@,
            parameters: self.parameters@,
            requires_permission: self.requires_permission,
        }
    }
}

impl Clone for ToolDecl {
    fn clone(&self) -> (r: Self)
        ensures
            r@ == self@,
    {
        ToolDecl {
            name: self.name.clone(),
            description: self.description.clone(),
            parameters: self.parameters.clone(),
            requires_permission: self.requires_permission,
        }
    }
}

/// The views of a list of declarations.
pub open spec fn decl_views(decls: Seq<ToolDecl>) -> Seq<ToolDeclView> {
    decls.map_values(|d: ToolDecl| d@)
}

/// What every tool says of itself.
pub trait Tool {
    /// All that the tool declares.
    spec fn declared(&self) -> ToolDeclView;

    /// The name by which the model calls the tool.
    fn name(&self) -> (r: &str)
        ensures
            r@ == self.declared().name,
    ;

    /// What the tool does, told to the model.
    fn description(&self) -> (r: &str)
        ensures
            r@ == self.declared().description,
    ;

    /// The parameters that the tool accepts.
    fn parameters_schema(&self) -> (r: ParamSchema)
        ensures
            r@ == self.declared().parameters,
    ;

    /// Whether the user has to allow each run of the tool.
    fn requires_permission(&self) -> (r: bool)
        ensures
            r == self.declared().requires_permission,
    ;
}

/// The declaration of `tool`.
pub fn declare<T: Tool>(tool: &T) -> (r: ToolDecl)
    ensures
        r@ == tool.declared(),
{
    ToolDecl {
        name: owned(tool.name()),
        description: owned(tool.description()),
        parameters: tool.parameters_schema(),
        requires_permission: tool.requires_permission(),
    }
}

// ── Registry ──────────────────────────────────────────────────────────────────

/// The first declaration with the name `name`.
pub open spec fn find_tool(decls: Seq<ToolDeclView>, name: Seq<char>) -> Option<ToolDeclView>
    decreases decls.len(),
{
    if decls.len() == 0 {
        None
    } else if decls[0].name == name {
        Some(decls[0])
    } else {
        find_tool(decls.drop_first(), name)
    }
}

/// Whether the tool `name` runs only with the user's permission. An unknown tool needs none.
pub open spec fn needs_permission(decls: Seq<ToolDeclView>, name: Seq<char>) -> bool {
    match find_tool(decls, name) {
        Some(d) => d.requires_permission,
        None => false,
    }
}

/// The tools that the engine offers to the model and finds by name.
#[derive(Debug)]
pub struct ToolRegistry {
    tools: Vec<ToolDecl>,
}

impl View for ToolRegistry {
    type V = Seq<ToolDeclView>;

    closed spec fn view(&self) -> Seq<ToolDeclView> {
        decl_views(self.tools@)
    }
}

impl Clone for ToolRegistry {
    fn clone(&self) -> (r: Self)
        ensures
            r@ == self@,
    {
        let mut tools: Vec<ToolDecl> = Vec::new();
        let mut i: usize = 0;
        while i < self.tools.len()
            invariant
                i <= self.tools.len(),
                tools@.len() == i,
                forall|j: int| 0 <= j < i ==> tools@[j]@ == self.tools@[j]@,
            decreases self.tools.len() - i,
        {
            tools.push(self.tools[i].clone());
            i = i + 1;
        }
        assert(decl_views(tools@) =~= decl_views(self.tools@));
        ToolRegistry { tools }
    }
}

impl ToolRegistry {
    /// A registry without tools.
    pub fn new() -> (r: Self)
        ensures
            r@ == Seq::<ToolDeclView>::empty(),
    {
        let r = ToolRegistry { tools: Vec::new() };
        assert(r@ =~= Seq::<ToolDeclView>::empty());
        r
    }

    /// Adds a tool behind those that are there.
    pub fn register(&mut self, tool: ToolDecl)
        ensures
            final(self)@ == old(self)@.push(tool@),
    {
        self.tools.push(tool);
        assert(self@ =~= old(self)@.push(tool@));
    }

    /// The first tool with the name `name`.
    pub fn get(&self, name: &str) -> (r: Option<&ToolDecl>)
        ensures
            r is Some <==> find_tool(self@, name@) is Some,
            r matches Some(d) ==> find_tool(self@, name@) == Some(d@),
    {
        let mut i: usize = 0;
        assert(self@.skip(0) =~= self@);
        while i < self.tools.len()
            invariant
                i <= self.tools.len(),
                find_tool(self@, name@) == find_tool(self@.skip(i as int), name@),
            decreases self.tools.len() - i,
        {
            let ghost rest = self@.skip(i as int);
            assert(rest[0] == self.tools@[i as int]@);
            if str_eq(self.tools[i].name.as_str(), name) {
                return Some(&self.tools[i]);
            }
            assert(rest.drop_first() =~= self@.skip(i + 1));
            i = i + 1;
        }
        None
    }

    /// The registered tools, in the order in which they were added.
    pub fn iter(&self) -> (r: &Vec<ToolDecl>)
        ensures
            decl_views(r@) == self@,
    {
        &self.tools
    }

    /// How many tools there are.
    pub fn len(&self) -> (r: usize)
        ensures
            r == self@.len(),
    {
        self.tools.len()
    }

    /// Whether there are none.
    pub fn is_empty(&self) -> (r: bool)
        ensures
            r == (self@.len() == 0),
    {
        self.tools.len() == 0
    }

    /// Whether the tool `name` runs only with the user's permission.
    pub fn asks_permission(&self, name: &str) -> (r: bool)
        ensures
            r == needs_permission(self@, name@),
    {
        match self.get(name) {
            Some(d) => d.requires_permission,
            None => false,
        }
    }
}

} // verus!
