//! The behaviour profiles of the agent, the permissions that it asks for and the events that it
//! emits during a turn.
use vstd::prelude::*;
use crate::message::{message_views, Message, MessageView};
use crate::text::str_eq;
use crate::tool::{ParamSchema, ParamSchemaView, ToolDeclView, ToolRegistry};

verus! {

// ── Profiles ──────────────────────────────────────────────────────────────────

/// How the agent behaves. `Build` may use every tool; `Plan` only reads: tools with effects are
/// not offered to the model, and are refused where it asks for them all the same.
#[derive(Debug, Clone, Copy, PartialEq, Eq, Structural)]
pub enum AgentKind {
    /// Full access: reads, writes, edits, runs the shell.
    Build,
    /// Reads and proposes, never changes the worktree.
    Plan,
}

impl Default for AgentKind {
    fn default() -> (r: Self)
        ensures
            r == AgentKind::Build,
    {
        AgentKind::Build
    }
}

/// What the model is told first in the profile `Build`.
pub const BUILD_PROMPT: &'static str =
    "Eres xiě-code, un asistente de programación útil y conciso. Operas sobre el directorio de trabajo del usuario y dispones de tools para leer, escribir y editar archivos, buscar (glob/grep) y ejecutar comandos de shell. Usa las tools cuando necesites inspeccionar o modificar el proyecto, y explica lo que haces. Respondes en el idioma del usuario y usas Markdown cuando ayuda.";

/// What the model is told first in the profile `Plan`.
pub const PLAN_PROMPT: &'static str =
    "Eres xiě-code en modo plan: un asistente de **solo lectura**. Puedes leer archivos, listar directorios y buscar con glob/grep, pero NUNCA modifiques el proyecto: no escribas ni edites archivos, no ejecutes comandos de shell. Si el usuario pide cambios, explica qué harías paso a paso y por qué, sin aplicarlos. Respondes en el idioma del usuario y usas Markdown cuando ayuda.";

/// The first message of a turn.
pub open spec fn prompt_of(kind: AgentKind) -> Seq<char> {
    match kind {
        AgentKind::Build => BUILD_PROMPT@,
        AgentKind::Plan => PLAN_PROMPT@,
    }
}

/// The short name of a profile.
pub open spec fn kind_name(kind: AgentKind) -> Seq<char> {
    match kind {
        AgentKind::Build => "build"@,
        AgentKind::Plan => "plan"@,
    }
}

/// The profile with the short name `s`; `Build` for every other text.
pub open spec fn kind_named(s: Seq<char>) -> AgentKind {
    if s == "plan"@ {
        AgentKind::Plan
    } else {
        AgentKind::Build
    }
}

impl AgentKind {
    /// Whether tools with effects may run.
    pub fn allows_writes(self) -> (r: bool)
        ensures
            r == (self == AgentKind::Build),
    {
        match self {
            AgentKind::Build => true,
            AgentKind::Plan => false,
        }
    }

    /// The first message of a turn.
    pub fn system_prompt(self) -> (r: &'static str)
        ensures
            r@ == prompt_of(self),
    {
        match self {
            AgentKind::Build => BUILD_PROMPT,
            AgentKind::Plan => PLAN_PROMPT,
        }
    }

    /// The short name, for storage and for display.
    pub fn as_str(self) -> (r: &'static str)
        ensures
            r@ == kind_name(self),
    {
        match self {
            AgentKind::Build => "build",
            AgentKind::Plan => "plan",
        }
    }

    /// The profile with the short name `s`; `Build` for every other text.
    pub fn from_str_or_default(s: &str) -> (r: Self)
        ensures
            r == kind_named(s@),
    {
        if str_eq(s, "plan") {
            AgentKind::Plan
        } else {
            AgentKind::Build
        }
    }
}

/// A stored profile is read back as it was.
pub proof fn kind_name_round_trip(kind: AgentKind)
    ensures
        kind_named(kind_name(kind)) == kind,
{
    reveal_strlit("build");
    reveal_strlit("plan");
    assert("build"@.len() != "plan"@.len());
}

// ── Permissions ───────────────────────────────────────────────────────────────

/// A request to run a tool with effects.
#[derive(Debug)]
pub struct PermissionRequest {
    pub tool_name: String,
    /// The arguments of the call, laid out for display.
    pub arguments: String,
}

/// What a [`PermissionRequest`] holds.
pub struct PermissionRequestView {
    pub tool_name: Seq<char>,
    pub arguments: Seq<char>,
}

impl View for PermissionRequest {
    type V = PermissionRequestView;

    open spec fn view(&self) -> PermissionRequestView {
        PermissionRequestView { tool_name: self.tool_name@, arguments: self.arguments@ }
    }
}

impl Clone for PermissionRequest {
    fn clone(&self) -> (r: Self)
        ensures
            r == *self,
    {
        PermissionRequest {
            tool_name: self.tool_name.clone(),
            arguments: self.arguments.clone(),
        }
    }
}

/// What the user answers.
#[derive(Debug, Clone, Copy, PartialEq, Eq, Structural)]
pub enum PermissionDecision {
    Allow,
    Deny,
}

/// Answers requests for permission, as a rule by asking the user.
pub trait PermissionResolver {
    /// The answer to `request`.
    fn resolve(&self, request: PermissionRequest) -> (r: PermissionDecision);
}

/// Allows everything without asking.
pub struct AllowAll;

impl PermissionResolver for AllowAll {
    fn resolve(&self, request: PermissionRequest) -> (r: PermissionDecision)
        ensures
            r == PermissionDecision::Allow,
    {
        PermissionDecision::Allow
    }
}

// ── Tools offered to the model ────────────────────────────────────────────────

/// The declaration of a tool, as the model gets it.
#[derive(Debug)]
pub struct ToolSpec {
    pub kind: String,
    pub function: FunctionSpec,
}

/// The name, description and parameters of a tool, as the model gets them.
#[derive(Debug)]
pub struct FunctionSpec {
    pub name: String,
    pub description: String,
    pub parameters: ParamSchema,
}

/// What a [`ToolSpec`] holds.
#[verifier::ext_equal]
pub struct ToolSpecView {
    pub kind: Seq<char>,
    pub name: Seq<char>,
    pub description: Seq<char>,
    pub parameters: ParamSchemaView,
}

impl View for ToolSpec {
    type V = ToolSpecView;

    open spec fn view(&self) -> ToolSpecView {
        ToolSpecView {
            kind: self.kind@,
            name: self.function.name@,
            description: self.function.description@,
            parameters: self.function.parameters@,
        }
    }
}

impl ToolSpec {
    /// The declaration of a function.
    pub fn function(name: &str, description: &str, parameters: ParamSchema) -> (r: Self)
        ensures
            r@ == (ToolSpecView {
                kind: "function"@,
                name: name@,
                description: description@,
                parameters: parameters@,
            }),
    {
        ToolSpec {
            kind: "function".to_owned(),
            function: FunctionSpec {
                name: name.to_owned(),
                description: description.to_owned(),
                parameters,
            },
        }
    }
}

/// The declaration of `d`, as the model gets it.
pub open spec fn spec_of_decl(d: ToolDeclView) -> ToolSpecView {
    ToolSpecView {
        kind: "function"@,
        name: d.name,
        description: d.description,
        parameters: d.parameters,
    }
}

/// Whether the profile `kind` offers the tool `d` to the model.
pub open spec fn offers(kind: AgentKind, d: ToolDeclView) -> bool {
    kind == AgentKind::Build || !d.requires_permission
}

/// The tools that the profile `kind` offers to the model, in the order of the registry.
pub open spec fn offered(kind: AgentKind, decls: Seq<ToolDeclView>) -> Seq<ToolSpecView> {
    decls.filter(|d: ToolDeclView| offers(kind, d)).map_values(|d: ToolDeclView| spec_of_decl(d))
}

/// The tools that the profile `kind` offers to the model.
pub fn offered_tools(kind: AgentKind, registry: &ToolRegistry) -> (r: Vec<ToolSpec>)
    ensures
        r@.map_values(|s: ToolSpec| s@) == offered(kind, registry@),
{
    let decls = registry.iter();
    let mut out: Vec<ToolSpec> = Vec::new();
    let mut i: usize = 0;
    let ghost keep = |d: ToolDeclView| offers(kind, d);
    let ghost conv = |d: ToolDeclView| spec_of_decl(d);
    assert(registry@.take(0).filter(keep) =~= Seq::<ToolDeclView>::empty());
    while i < decls.len()
        invariant
            i <= decls.len(),
            crate::tool::decl_views(decls@) == registry@,
            keep == |d: ToolDeclView| offers(kind, d),
            conv == |d: ToolDeclView| spec_of_decl(d),
            out@.map_values(|s: ToolSpec| s@) == registry@.take(i as int).filter(keep).map_values(
                conv,
            ),
        decreases decls.len() - i,
    {
        let d = &decls[i];
        let ghost before = out@;
        assert(registry@[i as int] == d@);
        assert(registry@.take(i + 1) =~= registry@.take(i as int).push(d@));
        proof {
            reveal(Seq::filter);
            assert(registry@.take(i + 1).drop_last() =~= registry@.take(i as int));
        }
        if kind.allows_writes() || !d.requires_permission {
            let s = ToolSpec::function(
                d.name.as_str(),
                d.description.as_str(),
                d.parameters.clone(),
            );
            out.push(s);
            assert(out@.map_values(|s: ToolSpec| s@) =~= before.map_values(
                |s: ToolSpec| s@,
            ).push(s@));
            assert(s@ == conv(d@));
            assert(registry@.take(i + 1).filter(keep).map_values(conv) =~= registry@.take(
                i as int,
            ).filter(keep).map_values(conv).push(s@));
        }
        i = i + 1;
    }
    assert(registry@.take(i as int) =~= registry@);
    out
}

/// In the profile `Plan` the model is offered no tool that needs permission.
pub proof fn plan_offers_no_effects(decls: Seq<ToolDeclView>)
    ensures
        forall|s: ToolSpecView| #[trigger] offered(AgentKind::Plan, decls).contains(s) ==> exists|
            d: ToolDeclView,
        | #[trigger]
            decls.contains(d) && !d.requires_permission && spec_of_decl(d) == s,
{
    let keep = |d: ToolDeclView| offers(AgentKind::Plan, d);
    assert forall|s: ToolSpecView| #[trigger]
        offered(AgentKind::Plan, decls).contains(s) implies exists|d: ToolDeclView| #[trigger]
        decls.contains(d) && !d.requires_permission && spec_of_decl(d) == s by {
        let i = choose|i: int|
            0 <= i < offered(AgentKind::Plan, decls).len() && offered(AgentKind::Plan, decls)[i]
                == s;
        let d = decls.filter(keep)[i];
        decls.lemma_filter_contains_rev(keep, d);
        decls.lemma_filter_pred(keep, i);
        assert(keep(d));
    }
}

// ── Events ────────────────────────────────────────────────────────────────────

/// What the agent reports during a turn.
#[derive(Debug)]
pub enum AgentEvent {
    /// A piece of the assistant's text.
    Delta(String),
    /// A piece of the chain of thought of the step.
    ReasoningDelta(String),
    /// The chain of thought of the step ended; it took `duration_ms` from its first piece.
    ReasoningFinished { duration_ms: u64 },
    /// The state of the worktree was saved before the tools of the step ran. `message_index` is
    /// the place of the message with the tool calls among the messages of [`AgentEvent::Turn`].
    StepSnapshot { hash: String, message_index: usize },
    /// A tool call is taken up; where its tool needs permission, the user has allowed it.
    ToolStarted { name: String, arguments: String },
    /// A tool call was answered; `ok` says whether the tool did its work.
    ToolFinished { name: String, output: String, ok: bool },
    /// The end of the turn, with the messages that it produced.
    Turn(Vec<Message>),
}

/// What an [`AgentEvent`] holds.
#[verifier::ext_equal]
pub enum AgentEventView {
    Delta(Seq<char>),
    ReasoningDelta(Seq<char>),
    ReasoningFinished { duration_ms: nat },
    StepSnapshot { hash: Seq<char>, message_index: nat },
    ToolStarted { name: Seq<char>, arguments: Seq<char> },
    ToolFinished { name: Seq<char>, output: Seq<char>, ok: bool },
    Turn(Seq<MessageView>),
}

impl View for AgentEvent {
    type V = AgentEventView;

    open spec fn view(&self) -> AgentEventView {
        match self {
            AgentEvent::Delta(s) => AgentEventView::Delta(s@),
            AgentEvent::ReasoningDelta(s) => AgentEventView::ReasoningDelta(s@),
            AgentEvent::ReasoningFinished { duration_ms } => AgentEventView::ReasoningFinished {
                duration_ms: *duration_ms as nat,
            },
            AgentEvent::StepSnapshot { hash, message_index } => AgentEventView::StepSnapshot {
                hash: hash@,
                message_index: *message_index as nat,
            },
            AgentEvent::ToolStarted { name, arguments } => AgentEventView::ToolStarted {
                name: name@,
                arguments: arguments@,
            },
            AgentEvent::ToolFinished { name, output, ok } => AgentEventView::ToolFinished {
                name: name@,
                output: output@,
                ok: *ok,
            },
            AgentEvent::Turn(messages) => AgentEventView::Turn(message_views(messages@)),
        }
    }
}

/// The views of a list of events.
pub open spec fn event_views(events: Seq<AgentEvent>) -> Seq<AgentEventView> {
    events.map_values(|e: AgentEvent| e@)
}

/// In the profile `Build` the model is offered every tool, in order, each with its name, its
/// description and its parameters; in the profile `Plan` it is offered those that need no
/// permission.
pub proof fn every_allowed_tool_is_offered(decls: Seq<ToolDeclView>, i: int)
    requires
        0 <= i < decls.len(),
    ensures
        offered(AgentKind::Build, decls).len() == decls.len(),
        offered(AgentKind::Build, decls)[i].name == decls[i].name,
        offered(AgentKind::Build, decls)[i].description == decls[i].description,
        offered(AgentKind::Build, decls)[i].parameters == decls[i].parameters,
        offered(AgentKind::Build, decls)[i].kind == "function"@,
        !decls[i].requires_permission ==> offered(AgentKind::Plan, decls).contains(
            offered(AgentKind::Build, decls)[i],
        ),
{
    build_keeps_all(decls);
    if !decls[i].requires_permission {
        let keep = |d: ToolDeclView| offers(AgentKind::Plan, d);
        decls.lemma_filter_contains(keep, i);
        let k = choose|k: int|
            0 <= k < decls.filter(keep).len() && decls.filter(keep)[k] == decls[i];
        assert(offered(AgentKind::Plan, decls)[k] == spec_of_decl(decls[i]));
    }
}

proof fn build_keeps_all(decls: Seq<ToolDeclView>)
    ensures
        decls.filter(|d: ToolDeclView| offers(AgentKind::Build, d)) == decls,
    decreases decls.len(),
{
    reveal(Seq::filter);
    if decls.len() > 0 {
        build_keeps_all(decls.drop_last());
        assert(decls =~= decls.drop_last().push(decls.last()));
    } else {
        assert(decls.filter(|d: ToolDeclView| offers(AgentKind::Build, d)) =~= decls);
    }
}

} // verus!
