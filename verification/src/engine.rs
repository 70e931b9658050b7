//! The engine: which client serves a model, and how a turn begins.
use vstd::prelude::*;
use crate::agent::{offered, offered_tools, AgentKind, ToolSpec};
use crate::auth::{AuthInfo, AuthStore, AuthView, Credentials};
use crate::builtins::builtin_decls;
use crate::catalog::{base_url_of, default_ref, key_variable, opt_ref, parsed_ref, ref_text,
    resolve_base_url, resolved, resolved_legacy, Catalog, ModelRef, ModelRefView,
    ProviderInfoView};
use crate::map::{entry_views, inserted, keys_ascend, lookup, lookup_inserted, lookup_removed, removed,
    Entries};
use crate::message::{message_views, Message};
use crate::provider::{ClientView, OpenAiCompatible};
use crate::text::{concat2, concat3, opt_view, owned, str_eq, views};
use crate::tool::{ToolDeclView, ToolRegistry};
use crate::turn::{turn_ok, turn_start, Turn};
use crate::uri::pair_views;

verus! {

// ── Errors ────────────────────────────────────────────────────────────────────

/// Why the engine failed.
#[derive(Debug)]
pub enum Error {
    Provider(crate::provider::Error),
    Tool(crate::tool::Error),
    Mcp(crate::mcp::Error),
    Lsp(crate::lsp::Error),
    Storage(String),
    Snapshot(String),
    /// The provider of `model` has no key; it would be looked for in `env_var`.
    MissingApiKey { env_var: String, model: String },
    /// The account for this provider cannot be used for replies.
    OauthInferenceNotImplemented(String),
    /// No provider has this model.
    UnknownModel(String),
}

/// What an [`Error`] holds.
pub enum ErrorView {
    Provider(crate::provider::ErrorView),
    Tool(crate::tool::ErrorView),
    Mcp(Seq<char>),
    Lsp(Seq<char>),
    Storage(Seq<char>),
    Snapshot(Seq<char>),
    MissingApiKey { env_var: Seq<char>, model: Seq<char> },
    OauthInferenceNotImplemented(Seq<char>),
    UnknownModel(Seq<char>),
}

impl View for Error {
    type V = ErrorView;

    open spec fn view(&self) -> ErrorView {
        match self {
            Error::Provider(e) => ErrorView::Provider(e@),
            Error::Tool(e) => ErrorView::Tool(e@),
            Error::Mcp(e) => ErrorView::Mcp(e@),
            Error::Lsp(e) => ErrorView::Lsp(e@),
            Error::Storage(s) => ErrorView::Storage(s@),
            Error::Snapshot(s) => ErrorView::Snapshot(s@),
            Error::MissingApiKey { env_var, model } => ErrorView::MissingApiKey {
                env_var: env_var@,
                model: model@,
            },
            Error::OauthInferenceNotImplemented(s) => ErrorView::OauthInferenceNotImplemented(s@),
            Error::UnknownModel(s) => ErrorView::UnknownModel(s@),
        }
    }
}

/// The text of an error.
pub open spec fn error_text(e: ErrorView) -> Seq<char> {
    match e {
        ErrorView::Provider(e) => crate::provider::error_text(e),
        ErrorView::Tool(e) => crate::tool::error_text(e),
        ErrorView::Mcp(s) => "error de protocolo MCP: "@ + s,
        ErrorView::Lsp(s) => "error de protocolo LSP: "@ + s,
        ErrorView::Storage(s) => "error de persistencia: "@ + s,
        ErrorView::Snapshot(s) => "error de snapshot: "@ + s,
        ErrorView::MissingApiKey { env_var, model } => {
            "falta una clave de proveedor en el entorno ("@ + env_var + ") para el modelo "@ + model
        },
        ErrorView::OauthInferenceNotImplemented(s) => {
            "la inferencia con la cuenta OAuth de "@ + s + " aún no está implementada"@
        },
        ErrorView::UnknownModel(s) => "modelo desconocido: "@ + s,
    }
}

impl Error {
    /// The text of the error.
    pub fn text(&self) -> (r: String)
        ensures
            r@ == error_text(self@),
    {
        match self {
            Error::Provider(e) => e.text(),
            Error::Tool(e) => e.text(),
            Error::Mcp(e) => e.text(),
            Error::Lsp(e) => e.text(),
            Error::Storage(s) => concat2("error de persistencia: ", s.as_str()),
            Error::Snapshot(s) => concat2("error de snapshot: ", s.as_str()),
            Error::MissingApiKey { env_var, model } => {
                let mut s = concat3(
                    "falta una clave de proveedor en el entorno (",
                    env_var.as_str(),
                    ") para el modelo ",
                );
                s.push_str(model.as_str());
                s
            },
            Error::OauthInferenceNotImplemented(s) => concat3(
                "la inferencia con la cuenta OAuth de ",
                s.as_str(),
                " aún no está implementada",
            ),
            Error::UnknownModel(s) => concat2("modelo desconocido: ", s.as_str()),
        }
    }
}

// ── The environment ───────────────────────────────────────────────────────────

/// The variables of the environment, with their values.
pub type Environment = Seq<(Seq<char>, Seq<char>)>;

/// The names of the variables.
pub open spec fn names(env: Environment) -> Seq<Seq<char>> {
    env.map_values(|p: (Seq<char>, Seq<char>)| p.0)
}

/// The value of the variable `name`.
pub open spec fn value_of(env: Environment, name: Seq<char>) -> Option<Seq<char>>
    decreases env.len(),
{
    if env.len() == 0 {
        None
    } else if env[0].0 == name {
        Some(env[0].1)
    } else {
        value_of(env.drop_first(), name)
    }
}

/// The names of the variables.
pub fn variable_names(env: &Vec<(String, String)>) -> (r: Vec<String>)
    ensures
        views(r@) == names(pair_views(env@)),
{
    let mut out: Vec<String> = Vec::new();
    let mut i: usize = 0;
    while i < env.len()
        invariant
            i <= env.len(),
            out@.len() == i,
            forall|j: int| 0 <= j < i ==> (#[trigger] out@[j])@ == env@[j].0@,
        decreases env.len() - i,
    {
        out.push(env[i].0.clone());
        i = i + 1;
    }
    assert(views(out@) =~= names(pair_views(env@)));
    out
}

/// The value of the variable `name`.
pub fn variable(env: &Vec<(String, String)>, name: &str) -> (r: Option<String>)
    ensures
        opt_view(r) == value_of(pair_views(env@), name@),
{
    let ghost all = pair_views(env@);
    let mut i: usize = 0;
    assert(all.skip(0) =~= all);
    while i < env.len()
        invariant
            i <= env.len(),
            all == pair_views(env@),
            value_of(all, name@) == value_of(all.skip(i as int), name@),
        decreases env.len() - i,
    {
        assert(all.skip(i as int)[0] == (env@[i as int].0@, env@[i as int].1@));
        if str_eq(env[i].0.as_str(), name) {
            return Some(env[i].1.clone());
        }
        assert(all.skip(i as int).drop_first() =~= all.skip(i + 1));
        i = i + 1;
    }
    None
}

// ── The engine ────────────────────────────────────────────────────────────────

/// The providers, the credentials for them and the tools.
#[derive(Debug)]
pub struct Engine {
    catalog: Catalog,
    auth: AuthStore,
    tools: ToolRegistry,
}

/// What an [`Engine`] holds.
pub struct EngineView {
    pub catalog: Entries<ProviderInfoView>,
    pub auth: Credentials,
    /// The file that the credentials are kept in.
    pub auth_file: Seq<char>,
    pub tools: Seq<ToolDeclView>,
}

impl View for Engine {
    type V = EngineView;

    closed spec fn view(&self) -> EngineView {
        EngineView {
            catalog: self.catalog@,
            auth: self.auth@,
            auth_file: self.auth.file(),
            tools: self.tools@,
        }
    }
}

/// The model that a text names: a provider and one of its models, or a model alone.
pub open spec fn named_ref(m: Entries<ProviderInfoView>, model: Seq<char>) -> Option<
    ModelRefView,
> {
    match parsed_ref(model) {
        Some(r) => Some(r),
        None => resolved_legacy(m, model),
    }
}

/// The client for a provider at `url`: a key that is kept comes first, then the variables of the
/// environment. The account of a user is no key.
pub open spec fn client_for(
    p: ProviderInfoView,
    url: Seq<char>,
    kept: Option<AuthView>,
    env: Environment,
    model: Seq<char>,
) -> Result<ClientView, ErrorView> {
    match kept {
        Some(AuthView::Api { key, .. }) => Ok(ClientView { api_key: key, base_url: url }),
        Some(AuthView::Oauth { .. }) => Err(ErrorView::OauthInferenceNotImplemented(p.id)),
        None => match key_variable(p.env, names(env)) {
            Some(v) => match value_of(env, v) {
                Some(key) => Ok(ClientView { api_key: key, base_url: url }),
                None => Err(ErrorView::MissingApiKey { env_var: v, model }),
            },
            None => Err(ErrorView::MissingApiKey { env_var: seq![], model }),
        },
    }
}

/// The client that serves a model, and the name of the model there.
pub open spec fn served(e: EngineView, env: Environment, model: Seq<char>) -> Result<
    (ClientView, Seq<char>),
    ErrorView,
> {
    match named_ref(e.catalog, model) {
        Some(r) => match resolved(e.catalog, r) {
            Some((p, i)) => match base_url_of(p) {
                Some(url) => match client_for(p, url, lookup(e.auth, p.id), env, model) {
                    Ok(c) => Ok((c, r.model_id)),
                    Err(e) => Err(e),
                },
                None => Err(ErrorView::UnknownModel(model)),
            },
            None => Err(ErrorView::UnknownModel(model)),
        },
        None => Err(ErrorView::UnknownModel(model)),
    }
}

/// What is known of the client that serves a model.
pub open spec fn service_view(r: Result<(OpenAiCompatible, String), Error>) -> Result<
    (ClientView, Seq<char>),
    ErrorView,
> {
    match r {
        Ok((c, m)) => Ok((c@, m@)),
        Err(e) => Err(e@),
    }
}

/// The models of a provider, as references.
pub open spec fn provider_refs(p: ProviderInfoView) -> Seq<Seq<char>> {
    Seq::new(
        p.models.len(),
        |i: int| ref_text(ModelRefView { provider_id: p.id, model_id: p.models[i].0 }),
    )
}

/// The models of all providers, as references.
pub open spec fn all_refs(m: Entries<ProviderInfoView>) -> Seq<Seq<char>>
    decreases m.len(),
{
    if m.len() == 0 {
        seq![]
    } else {
        all_refs(m.drop_last()) + provider_refs(m.last().1)
    }
}

impl Engine {
    /// The engine with these providers and credentials, and the tools that are built in. It needs
    /// no key: one that is missing is reported where it is needed.
    pub fn new(catalog: Catalog, auth: AuthStore) -> (r: Self)
        ensures
            r@ == (EngineView {
                catalog: catalog@,
                auth: auth@,
                auth_file: auth.file(),
                tools: builtin_decls(),
            }),
    {
        Engine { catalog, auth, tools: ToolRegistry::with_builtins() }
    }

    /// What the tools declare.
    pub open spec fn tools_view(&self) -> Seq<ToolDeclView> {
        self@.tools
    }

    /// The file that the credentials are kept in.
    pub open spec fn auth_file(&self) -> Seq<char> {
        self@.auth_file
    }

    /// The providers.
    pub fn catalog(&self) -> (r: &Catalog)
        ensures
            r@ == self@.catalog,
    {
        &self.catalog
    }

    /// The credentials.
    pub fn auth(&self) -> (r: &AuthStore)
        ensures
            r@ == self@.auth,
            r.file() == self.auth_file(),
    {
        &self.auth
    }

    /// Puts in the credential for a provider.
    pub fn connect(&mut self, provider_id: &str, info: AuthInfo)
        ensures
            final(self)@ == (EngineView {
                auth: inserted(old(self)@.auth, provider_id@, info@),
                ..old(self)@
            }),
            final(self).tools_view() == old(self).tools_view(),
            final(self).auth_file() == old(self).auth_file(),
    {
        self.auth.set(provider_id, info);
    }

    /// Takes out the credential for a provider.
    pub fn disconnect(&mut self, provider_id: &str)
        ensures
            final(self)@ == (EngineView {
                auth: removed(old(self)@.auth, provider_id@),
                ..old(self)@
            }),
            final(self).tools_view() == old(self).tools_view(),
            final(self).auth_file() == old(self).auth_file(),
    {
        self.auth.remove(provider_id);
    }

    /// The model that a text names.
    pub fn model_ref(&self, model: &str) -> (r: Option<ModelRef>)
        ensures
            opt_ref(r) == named_ref(self@.catalog, model@),
    {
        match ModelRef::parse(model) {
            Some(r) => Some(r),
            None => self.catalog.resolve_legacy(model),
        }
    }

    /// The model to begin with, as a reference; nothing where there is no model.
    pub fn default_model(&self, defined: &Vec<String>) -> (r: String)
        ensures
            r@ == (match default_ref(self@.catalog, views(defined@)) {
                Some(m) => ref_text(m),
                None => seq![],
            }),
    {
        match self.catalog.default_model(defined) {
            Some(m) => m.to_string(),
            None => {
                let s = String::new();
                assert(s@ =~= seq![]);
                s
            },
        }
    }

    /// The models of all providers, as references.
    pub fn available_models(&self) -> (r: Vec<String>)
        ensures
            views(r@) == all_refs(self@.catalog),
    {
        let providers = self.catalog.providers();
        let ghost m = self@.catalog;
        let mut out: Vec<String> = Vec::new();
        assert(views(out@) =~= seq![]);
        assert(m.take(0) =~= seq![]);
        let mut i: usize = 0;
        while i < providers.len()
            invariant
                i <= providers.len(),
                providers@.len() == m.len(),
                forall|k: int| 0 <= k < m.len() ==> (#[trigger] providers@[k])@ == m[k].1,
                views(out@) == all_refs(m.take(i as int)),
            decreases providers.len() - i,
        {
            let p = providers[i];
            let entries = p.models.entries();
            let ghost before = views(out@);
            let ghost refs = provider_refs(p@);
            let mut j: usize = 0;
            assert(before + refs.take(0) =~= before);
            while j < entries.len()
                invariant
                    j <= entries.len(),
                    refs == provider_refs(p@),
                    entries@.len() == p@.models.len(),
                    entry_views(entries@) == p.models@,
                    views(out@) == before + refs.take(j as int),
                decreases entries.len() - j,
            {
                assert(p@.models[j as int].0 == entry_views(entries@)[j as int].0);
                let r = ModelRef::new(p.id.as_str(), entries[j].0.as_str());
                let s = r.to_string();
                let ghost prior = out@;
                out.push(s);
                assert(views(out@) =~= views(prior).push(s@));
                assert(refs.take(j + 1) =~= refs.take(j as int).push(s@));
                j = j + 1;
            }
            assert(refs.take(j as int) =~= refs);
            assert(m.take(i + 1).drop_last() =~= m.take(i as int));
            assert(m.take(i + 1).last() == m[i as int]);
            i = i + 1;
        }
        assert(m.take(i as int) =~= m);
        out
    }

    /// The client that serves `model`, and the name of the model there.
    pub fn provider_for(&self, model: &str, env: &Vec<(String, String)>) -> (r: Result<
        (OpenAiCompatible, String),
        Error,
    >)
        ensures
            service_view(r) == served(self@, pair_views(env@), model@),
    {
        let model_ref = match self.model_ref(model) {
            Some(r) => r,
            None => {
                return Err(Error::UnknownModel(owned(model)));
            },
        };
        let provider = match self.catalog.resolve(&model_ref) {
            Some((p, _)) => p,
            None => {
                return Err(Error::UnknownModel(owned(model)));
            },
        };
        let url = match resolve_base_url(provider) {
            Some(u) => u,
            None => {
                return Err(Error::UnknownModel(owned(model)));
            },
        };
        match self.auth.get(provider.id.as_str()) {
            Some(AuthInfo::Api { key, .. }) => {
                return Ok((OpenAiCompatible::new(key.as_str(), url.as_str()), model_ref.model_id));
            },
            Some(AuthInfo::Oauth { .. }) => {
                return Err(Error::OauthInferenceNotImplemented(provider.id.clone()));
            },
            None => {},
        }
        let defined = variable_names(env);
        match provider.env_var(&defined) {
            Some(v) => match variable(env, v) {
                Some(key) => Ok(
                    (OpenAiCompatible::new(key.as_str(), url.as_str()), model_ref.model_id),
                ),
                None => Err(Error::MissingApiKey { env_var: owned(v), model: owned(model) }),
            },
            None => {
                let none = String::new();
                assert(none@ =~= seq![]);
                Err(Error::MissingApiKey { env_var: none, model: owned(model) })
            },
        }
    }

    /// The start of a turn on `history`; `can_save` says whether the worktree can be saved.
    pub fn run_turn(&self, agent: AgentKind, history: &Vec<Message>, can_save: bool) -> (r: Turn)
        ensures
            r@ == turn_start(agent, self.tools_view(), message_views(history@), can_save),
            turn_ok(r@),
    {
        Turn::new(agent, self.tools.clone(), history, can_save)
    }

    /// The tools that the profile `agent` offers to the model in the turns of this engine.
    pub fn offered_tools(&self, agent: AgentKind) -> (r: Vec<ToolSpec>)
        ensures
            r@.map_values(|s: ToolSpec| s@) == offered(agent, self@.tools),
    {
        offered_tools(agent, &self.tools)
    }
}

// ── Laws ──────────────────────────────────────────────────────────────────────

/// A key that the user put in is used, whatever the environment holds.
pub proof fn kept_key_comes_first(
    e: EngineView,
    provider: Seq<char>,
    key: Seq<char>,
    metadata: Option<Seq<(Seq<char>, Seq<char>)>>,
    env: Environment,
    model: Seq<char>,
)
    requires
        named_ref(e.catalog, model) matches Some(r) && (resolved(e.catalog, r) matches Some((p, i))
            && p.id == provider && base_url_of(p) is Some),
    ensures
        ({
            let after = EngineView {
                auth: inserted(e.auth, provider, AuthView::Api { key, metadata }),
                ..e
            };
            served(after, env, model) matches Ok((c, _)) && c.api_key == key
        }),
{
    lookup_inserted(e.auth, provider, AuthView::Api { key, metadata }, provider);
}

/// Taking out the credential for a provider leaves what the environment holds.
pub proof fn environment_comes_next(
    e: EngineView,
    provider: Seq<char>,
    env: Environment,
    model: Seq<char>,
)
    requires
        keys_ascend(e.auth),
        named_ref(e.catalog, model) matches Some(r) && (resolved(e.catalog, r) matches Some((p, i))
            && p.id == provider && base_url_of(p) is Some),
    ensures
        ({
            let after = EngineView { auth: removed(e.auth, provider), ..e };
            let (p, _) = resolved(e.catalog, named_ref(e.catalog, model)->0)->0;
            match served(after, env, model) {
                Ok((c, _)) => key_variable(p.env, names(env)) matches Some(v) && value_of(env, v)
                    == Some(c.api_key),
                Err(err) => err is MissingApiKey,
            }
        }),
{
    lookup_removed(e.auth, provider, provider);
}

} // verus!
