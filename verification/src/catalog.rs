//! The providers and models that the application knows.
use vstd::prelude::*;
use crate::map::{entry_views, inserted_last, keys_ascend, lookup, lookup_mapped, mapped, Entries,
    StringMap};
use crate::order::text_lt;
use crate::split::{cut_once, index_of_char, index_of_char_is, split_once};
use crate::text::{concat3, contains_text, opt_str, opt_view, owned, str_eq, views};

verus! {

// ── References to models ──────────────────────────────────────────────────────

/// A model of a provider. Several providers may offer a model under the same name, so only the
/// pair is unique. As text it is `provider/model`.
#[derive(Debug, PartialEq, Eq, Hash)]
pub struct ModelRef {
    pub provider_id: String,
    pub model_id: String,
}

/// What a [`ModelRef`] holds.
pub struct ModelRefView {
    pub provider_id: Seq<char>,
    pub model_id: Seq<char>,
}

impl View for ModelRef {
    type V = ModelRefView;

    open spec fn view(&self) -> ModelRefView {
        ModelRefView { provider_id: self.provider_id@, model_id: self.model_id@ }
    }
}

impl Clone for ModelRef {
    fn clone(&self) -> (r: Self)
        ensures
            r == *self,
    {
        ModelRef { provider_id: self.provider_id.clone(), model_id: self.model_id.clone() }
    }
}

/// A reference as text.
pub open spec fn ref_text(r: ModelRefView) -> Seq<char> {
    r.provider_id + "/"@ + r.model_id
}

/// The reference that a text holds: what stands before and behind its first slash, neither of
/// them empty.
pub open spec fn parsed_ref(s: Seq<char>) -> Option<ModelRefView> {
    match cut_once(s, '/') {
        Some((provider_id, model_id)) => if provider_id.len() == 0 || model_id.len() == 0 {
            None
        } else {
            Some(ModelRefView { provider_id, model_id })
        },
        None => None,
    }
}

/// The view of an optional reference.
pub open spec fn opt_ref(r: Option<ModelRef>) -> Option<ModelRefView> {
    match r {
        Some(m) => Some(m@),
        None => None,
    }
}

impl ModelRef {
    /// The model `model_id` of the provider `provider_id`.
    pub fn new(provider_id: &str, model_id: &str) -> (r: Self)
        ensures
            r@ == (ModelRefView { provider_id: provider_id@, model_id: model_id@ }),
    {
        ModelRef { provider_id: owned(provider_id), model_id: owned(model_id) }
    }

    /// The reference that `s` holds.
    pub fn parse(s: &str) -> (r: Option<Self>)
        ensures
            opt_ref(r) == parsed_ref(s@),
    {
        match split_once(s, '/') {
            Some((provider, model)) => {
                if provider.as_str().is_empty() || model.as_str().is_empty() {
                    None
                } else {
                    Some(ModelRef { provider_id: provider, model_id: model })
                }
            },
            None => None,
        }
    }

    /// The reference as text.
    pub fn to_string(&self) -> (r: String)
        ensures
            r@ == ref_text(self@),
    {
        concat3(self.provider_id.as_str(), "/", self.model_id.as_str())
    }
}

/// A reference is read back from its text, as long as neither part is empty and the provider has
/// no slash in its name.
pub proof fn ref_round_trip(r: ModelRefView)
    requires
        r.provider_id.len() > 0,
        r.model_id.len() > 0,
        !r.provider_id.contains('/'),
    ensures
        parsed_ref(ref_text(r)) == Some(r),
{
    reveal_strlit("/");
    let s = ref_text(r);
    let n = r.provider_id.len() as int;
    assert forall|j: int| 0 <= j < n implies s[j] != '/' by {
        assert(r.provider_id.contains(r.provider_id[j]));
    }
    assert(s[n] == '/');
    index_of_char_is(s, '/', n);
    assert(s.take(n) =~= r.provider_id);
    assert(s.skip(n + 1) =~= r.model_id);
}

/// A text that holds a reference is the text of that reference.
pub proof fn ref_text_round_trip(s: Seq<char>)
    requires
        parsed_ref(s) is Some,
    ensures
        ref_text(parsed_ref(s)->0) == s,
{
    reveal_strlit("/");
    let i = index_of_char(s, '/') as int;
    crate::split::index_of_char_is_first(s, '/');
    assert(s.take(i) + "/"@ + s.skip(i + 1) =~= s);
}

// ── Models and providers ──────────────────────────────────────────────────────

/// How mature a model is. Deprecated ones are not offered to the user.
#[derive(Debug, Clone, Copy, PartialEq, Eq, Structural)]
pub enum ModelStatus {
    Alpha,
    Beta,
    Deprecated,
}

/// A model.
#[derive(Debug)]
pub struct ModelInfo {
    pub id: String,
    pub name: Option<String>,
    pub release_date: Option<String>,
    pub status: Option<ModelStatus>,
    /// Whether the model sends its chain of thought.
    pub reasoning: bool,
    /// Whether the model can call tools.
    pub tool_call: bool,
    /// Whether the model takes attachments.
    pub attachment: bool,
}

/// What a [`ModelInfo`] holds.
pub struct ModelInfoView {
    pub id: Seq<char>,
    pub name: Option<Seq<char>>,
    pub release_date: Option<Seq<char>>,
    pub status: Option<ModelStatus>,
    pub reasoning: bool,
    pub tool_call: bool,
    pub attachment: bool,
}

impl View for ModelInfo {
    type V = ModelInfoView;

    open spec fn view(&self) -> ModelInfoView {
        ModelInfoView {
            id: self.id@,
            name: opt_view(self.name),
            release_date: opt_view(self.release_date),
            status: self.status,
            reasoning: self.reasoning,
            tool_call: self.tool_call,
            attachment: self.attachment,
        }
    }
}

impl Clone for ModelInfo {
    fn clone(&self) -> (r: Self)
        ensures
            r == *self,
    {
        ModelInfo {
            id: self.id.clone(),
            name: self.name.clone(),
            release_date: self.release_date.clone(),
            status: self.status,
            reasoning: self.reasoning,
            tool_call: self.tool_call,
            attachment: self.attachment,
        }
    }
}

/// A provider.
#[derive(Debug)]
pub struct ProviderInfo {
    pub id: String,
    pub name: String,
    /// The environment variables that may hold its key.
    pub env: Vec<String>,
    /// The package of its client library.
    pub npm: Option<String>,
    /// Where its interface is reached, where that is known.
    pub base_url: Option<String>,
    pub models: StringMap<ModelInfo>,
}

/// What a [`ProviderInfo`] holds.
#[verifier::ext_equal]
pub struct ProviderInfoView {
    pub id: Seq<char>,
    pub name: Seq<char>,
    pub env: Seq<Seq<char>>,
    pub npm: Option<Seq<char>>,
    pub base_url: Option<Seq<char>>,
    pub models: Entries<ModelInfoView>,
}

/// What a model holds, as a function.
pub open spec fn model_view() -> spec_fn(ModelInfo) -> ModelInfoView {
    |m: ModelInfo| m@
}

impl View for ProviderInfo {
    type V = ProviderInfoView;

    open spec fn view(&self) -> ProviderInfoView {
        ProviderInfoView {
            id: self.id@,
            name: self.name@,
            env: views(self.env@),
            npm: opt_view(self.npm),
            base_url: opt_view(self.base_url),
            models: mapped(self.models@, model_view()),
        }
    }
}

/// A copy of a list of texts.
pub fn clone_texts(v: &Vec<String>) -> (r: Vec<String>)
    ensures
        views(r@) == views(v@),
{
    let r = v.clone();
    assert(views(r@) =~= views(v@));
    r
}

/// A copy of the models of a provider.
fn clone_models(m: &StringMap<ModelInfo>) -> (r: StringMap<ModelInfo>)
    ensures
        r@ == m@,
{
    let entries = m.entries();
    let mut out: StringMap<ModelInfo> = StringMap::new();
    let mut i: usize = 0;
    assert(m@.take(0) =~= out@);
    while i < entries.len()
        invariant
            i <= entries.len(),
            entry_views(entries@) == m@,
            keys_ascend(m@),
            out@ == m@.take(i as int),
        decreases entries.len() - i,
    {
        let e = &entries[i];
        assert(m@[i as int] == (e.0@, e.1));
        proof {
            assert forall|j: int| 0 <= j < out@.len() implies text_lt(
                (#[trigger] out@[j]).0,
                e.0@,
            ) by {
                assert(out@[j] == m@[j]);
            }
            inserted_last(out@, e.0@, e.1);
        }
        out.insert(e.0.clone(), e.1.clone());
        assert(m@.take(i + 1) =~= m@.take(i as int).push((e.0@, e.1)));
        i = i + 1;
    }
    assert(m@.take(i as int) =~= m@);
    out
}

impl Clone for ProviderInfo {
    fn clone(&self) -> (r: Self)
        ensures
            r@ == self@,
    {
        ProviderInfo {
            id: self.id.clone(),
            name: self.name.clone(),
            env: clone_texts(&self.env),
            npm: self.npm.clone(),
            base_url: self.base_url.clone(),
            models: clone_models(&self.models),
        }
    }
}

/// Whether one of the variables `env` is defined.
pub open spec fn any_defined(env: Seq<Seq<char>>, defined: Seq<Seq<char>>) -> bool {
    exists|i: int| 0 <= i < env.len() && defined.contains(#[trigger] env[i])
}

/// The first of the variables `env` that is defined.
pub open spec fn first_defined(env: Seq<Seq<char>>, defined: Seq<Seq<char>>) -> Option<Seq<char>>
    decreases env.len(),
{
    if env.len() == 0 {
        None
    } else if defined.contains(env[0]) {
        Some(env[0])
    } else {
        first_defined(env.drop_first(), defined)
    }
}

/// The variable that names the key of a provider: the first that is defined, else the first.
pub open spec fn key_variable(env: Seq<Seq<char>>, defined: Seq<Seq<char>>) -> Option<Seq<char>> {
    match first_defined(env, defined) {
        Some(v) => Some(v),
        None => if env.len() > 0 {
            Some(env[0])
        } else {
            None
        },
    }
}

impl ProviderInfo {
    /// Whether one of the provider's variables is among the `defined` ones of the environment.
    pub fn has_api_key(&self, defined: &Vec<String>) -> (r: bool)
        ensures
            r == any_defined(self@.env, views(defined@)),
    {
        let mut i: usize = 0;
        while i < self.env.len()
            invariant
                i <= self.env.len(),
                forall|j: int| 0 <= j < i ==> !views(defined@).contains(#[trigger] self@.env[j]),
            decreases self.env.len() - i,
        {
            assert(self@.env[i as int] == self.env@[i as int]@);
            if contains_text(defined, self.env[i].as_str()) {
                return true;
            }
            i = i + 1;
        }
        false
    }

    /// The variable that names the provider's key: the first that is among the `defined` ones of
    /// the environment, else the first.
    pub fn env_var(&self, defined: &Vec<String>) -> (r: Option<&str>)
        ensures
            opt_str(r) == key_variable(self@.env, views(defined@)),
    {
        let ghost all = self@.env;
        let mut i: usize = 0;
        assert(all.skip(0) =~= all);
        while i < self.env.len()
            invariant
                i <= self.env.len(),
                all == self@.env,
                first_defined(all, views(defined@)) == first_defined(
                    all.skip(i as int),
                    views(defined@),
                ),
            decreases self.env.len() - i,
        {
            assert(all.skip(i as int)[0] == self.env@[i as int]@);
            if contains_text(defined, self.env[i].as_str()) {
                return Some(self.env[i].as_str());
            }
            assert(all.skip(i as int).drop_first() =~= all.skip(i + 1));
            i = i + 1;
        }
        if self.env.len() > 0 {
            assert(all[0] == self.env@[0]@);
            Some(self.env[0].as_str())
        } else {
            None
        }
    }
}

// ── Interfaces ────────────────────────────────────────────────────────────────

/// Whether the client library `npm` speaks the interface that the engine speaks.
pub open spec fn is_compatible_npm(npm: Seq<char>) -> bool {
    ||| npm == "@ai-sdk/openai-compatible"@
    ||| npm == "@ai-sdk/openai"@
    ||| npm == "@ai-sdk/groq"@
    ||| npm == "@ai-sdk/togetherai"@
    ||| npm == "@ai-sdk/deepinfra"@
    ||| npm == "@ai-sdk/cerebras"@
    ||| npm == "@ai-sdk/mistral"@
    ||| npm == "@ai-sdk/perplexity"@
    ||| npm == "@ai-sdk/xai"@
    ||| npm == "@ai-sdk/vercel"@
}

/// Whether the client library `npm` speaks the interface that the engine speaks.
pub fn compatible_npm(npm: &str) -> (r: bool)
    ensures
        r == is_compatible_npm(npm@),
{
    str_eq(npm, "@ai-sdk/openai-compatible") || str_eq(npm, "@ai-sdk/openai") || str_eq(
        npm,
        "@ai-sdk/groq",
    ) || str_eq(npm, "@ai-sdk/togetherai") || str_eq(npm, "@ai-sdk/deepinfra") || str_eq(
        npm,
        "@ai-sdk/cerebras",
    ) || str_eq(npm, "@ai-sdk/mistral") || str_eq(npm, "@ai-sdk/perplexity") || str_eq(
        npm,
        "@ai-sdk/xai",
    ) || str_eq(npm, "@ai-sdk/vercel")
}

/// Where the interface of a provider is reached whose client library knows that by itself.
pub open spec fn known_base_url(id: Seq<char>) -> Option<Seq<char>> {
    if id == "openai"@ {
        Some("https://api.openai.com/v1"@)
    } else if id == "groq"@ {
        Some("https://api.groq.com/openai/v1"@)
    } else if id == "mistral"@ {
        Some("https://api.mistral.ai/v1"@)
    } else if id == "perplexity"@ {
        Some("https://api.perplexity.ai"@)
    } else if id == "xai"@ {
        Some("https://api.x.ai/v1"@)
    } else if id == "cerebras"@ {
        Some("https://api.cerebras.ai/v1"@)
    } else if id == "deepinfra"@ {
        Some("https://api.deepinfra.com/v1/openai"@)
    } else if id == "togetherai"@ {
        Some("https://api.together.xyz/v1"@)
    } else {
        None
    }
}

/// Where the interface of a provider is reached whose client library knows that by itself.
fn sdk_base_url(id: &str) -> (r: Option<&'static str>)
    ensures
        opt_str(r) == known_base_url(id@),
{
    if str_eq(id, "openai") {
        Some("https://api.openai.com/v1")
    } else if str_eq(id, "groq") {
        Some("https://api.groq.com/openai/v1")
    } else if str_eq(id, "mistral") {
        Some("https://api.mistral.ai/v1")
    } else if str_eq(id, "perplexity") {
        Some("https://api.perplexity.ai")
    } else if str_eq(id, "xai") {
        Some("https://api.x.ai/v1")
    } else if str_eq(id, "cerebras") {
        Some("https://api.cerebras.ai/v1")
    } else if str_eq(id, "deepinfra") {
        Some("https://api.deepinfra.com/v1/openai")
    } else if str_eq(id, "togetherai") {
        Some("https://api.together.xyz/v1")
    } else {
        None
    }
}

/// Where the interface of `p` is reached: as the catalogue says, else as is known.
pub open spec fn base_url_of(p: ProviderInfoView) -> Option<Seq<char>> {
    match p.base_url {
        Some(u) => Some(u),
        None => known_base_url(p.id),
    }
}

/// Where the interface of `p` is reached.
pub fn resolve_base_url(p: &ProviderInfo) -> (r: Option<String>)
    ensures
        opt_view(r) == base_url_of(p@),
{
    match &p.base_url {
        Some(u) => Some(u.clone()),
        None => match sdk_base_url(p.id.as_str()) {
            Some(u) => Some(owned(u)),
            None => None,
        },
    }
}

/// Whether the engine can talk to `p`.
pub open spec fn is_usable(p: ProviderInfoView) -> bool {
    &&& p.npm matches Some(n) && is_compatible_npm(n)
    &&& base_url_of(p) is Some
}

/// `p` with the address at which it is reached.
pub open spec fn addressed(p: ProviderInfoView) -> ProviderInfoView {
    ProviderInfoView { base_url: base_url_of(p), ..p }
}

// ── The catalogue ─────────────────────────────────────────────────────────────

/// What a provider holds, as a function.
pub open spec fn provider_view() -> spec_fn(ProviderInfo) -> ProviderInfoView {
    |p: ProviderInfo| p@
}

/// All providers, by their identifier.
#[derive(Debug)]
pub struct Catalog {
    providers: StringMap<ProviderInfo>,
}

impl View for Catalog {
    type V = Entries<ProviderInfoView>;

    closed spec fn view(&self) -> Entries<ProviderInfoView> {
        mapped(self.providers@, provider_view())
    }
}

/// Those of the providers that the engine can talk to, each with its address.
pub open spec fn usable(m: Entries<ProviderInfoView>) -> Entries<ProviderInfoView>
    decreases m.len(),
{
    if m.len() == 0 {
        seq![]
    } else {
        let before = usable(m.drop_last());
        let (key, p) = m.last();
        if is_usable(p) {
            before.push((key, addressed(p)))
        } else {
            before
        }
    }
}

/// The first provider for which `f` holds.
pub open spec fn first_where(
    m: Entries<ProviderInfoView>,
    f: spec_fn(ProviderInfoView) -> bool,
) -> Option<ProviderInfoView>
    decreases m.len(),
{
    if m.len() == 0 {
        None
    } else if f(m[0].1) {
        Some(m[0].1)
    } else {
        first_where(m.drop_first(), f)
    }
}

/// The provider and the model that `r` refers to.
pub open spec fn resolved(m: Entries<ProviderInfoView>, r: ModelRefView) -> Option<
    (ProviderInfoView, ModelInfoView),
> {
    match lookup(m, r.provider_id) {
        Some(p) => match lookup(p.models, r.model_id) {
            Some(i) => Some((p, i)),
            None => None,
        },
        None => None,
    }
}

/// The reference to a model that is known by its own name alone: that of the first provider that
/// has it.
pub open spec fn resolved_legacy(m: Entries<ProviderInfoView>, model_id: Seq<char>) -> Option<
    ModelRefView,
> {
    match first_where(m, |p: ProviderInfoView| lookup(p.models, model_id) is Some) {
        Some(p) => Some(ModelRefView { provider_id: p.id, model_id }),
        None => None,
    }
}

/// The provider whose first model is the one to begin with: the first that has models and a key
/// in the environment, else the first that has models.
pub open spec fn default_provider(
    m: Entries<ProviderInfoView>,
    defined: Seq<Seq<char>>,
) -> Option<ProviderInfoView> {
    match first_where(
        m,
        |p: ProviderInfoView| any_defined(p.env, defined) && p.models.len() > 0,
    ) {
        Some(p) => Some(p),
        None => first_where(m, |p: ProviderInfoView| p.models.len() > 0),
    }
}

/// The model to begin with.
pub open spec fn default_ref(m: Entries<ProviderInfoView>, defined: Seq<Seq<char>>) -> Option<
    ModelRefView,
> {
    match default_provider(m, defined) {
        Some(p) => Some(ModelRefView { provider_id: p.id, model_id: p.models[0].0 }),
        None => None,
    }
}

/// Whether the model that `r` refers to sends its chain of thought.
pub open spec fn is_reasoning(m: Entries<ProviderInfoView>, r: ModelRefView) -> bool {
    match resolved(m, r) {
        Some((p, i)) => i.reasoning,
        None => false,
    }
}

impl Catalog {
    /// The catalogue with these providers.
    pub fn new(providers: StringMap<ProviderInfo>) -> (r: Self)
        ensures
            r@ == mapped(providers@, provider_view()),
    {
        Catalog { providers }
    }

    /// The providers, in the order of their identifiers.
    pub fn providers(&self) -> (r: Vec<&ProviderInfo>)
        ensures
            r@.len() == self@.len(),
            forall|i: int| 0 <= i < r@.len() ==> (#[trigger] r@[i])@ == self@[i].1,
            keys_ascend(self@),
    {
        let entries = self.providers.entries();
        let mut out: Vec<&ProviderInfo> = Vec::new();
        let mut i: usize = 0;
        while i < entries.len()
            invariant
                i <= entries.len(),
                entry_views(entries@) == self.providers@,
                out@.len() == i,
                forall|j: int| 0 <= j < i ==> (#[trigger] out@[j])@ == self@[j].1,
            decreases entries.len() - i,
        {
            assert(self.providers@[i as int] == (entries@[i as int].0@, entries@[i as int].1));
            out.push(&entries[i].1);
            i = i + 1;
        }
        proof {
            assert forall|a: int, b: int| 0 <= a < b < self@.len() implies text_lt(
                (#[trigger] self@[a]).0,
                (#[trigger] self@[b]).0,
            ) by {
                assert(self@[a].0 == self.providers@[a].0);
                assert(self@[b].0 == self.providers@[b].0);
            }
        }
        out
    }

    /// The provider `provider_id`.
    pub fn get(&self, provider_id: &str) -> (r: Option<&ProviderInfo>)
        ensures
            r is Some <==> lookup(self@, provider_id@) is Some,
            r matches Some(p) ==> lookup(self@, provider_id@) == Some(p@),
    {
        proof {
            lookup_mapped(self.providers@, provider_view(), provider_id@);
        }
        self.providers.get(provider_id)
    }

    /// Those of the providers that the engine can talk to, each with its address.
    pub fn openai_compatible(&self) -> (r: Self)
        ensures
            r@ == usable(self@),
    {
        let entries = self.providers.entries();
        let ghost all = self@;
        let mut out: StringMap<ProviderInfo> = StringMap::new();
        let mut i: usize = 0;
        assert(all.take(0) =~= seq![]);
        assert(mapped(out@, provider_view()) =~= seq![]);
        while i < entries.len()
            invariant
                i <= entries.len(),
                entry_views(entries@) == self.providers@,
                keys_ascend(self.providers@),
                all == self@,
                mapped(out@, provider_view()) == usable(all.take(i as int)),
                forall|j: int, k: int|
                    0 <= j < out@.len() && i <= k < entries@.len() ==> text_lt(
                        (#[trigger] out@[j]).0,
                        (#[trigger] self.providers@[k]).0,
                    ),
            decreases entries.len() - i,
        {
            let e = &entries[i];
            let p = &e.1;
            assert(self.providers@[i as int] == (e.0@, e.1));
            assert(all[i as int] == (e.0@, p@));
            assert(all.take(i + 1).drop_last() =~= all.take(i as int));
            assert(all.take(i + 1).last() == (e.0@, p@));
            let npm_ok = match &p.npm {
                Some(n) => compatible_npm(n.as_str()),
                None => false,
            };
            let url = resolve_base_url(p);
            let ghost before = out@;
            if npm_ok && url.is_some() {
                let mut value = p.clone();
                value.base_url = url;
                assert(value@ =~= addressed(p@));
                proof {
                    inserted_last(out@, e.0@, value);
                }
                out.insert(e.0.clone(), value);
                assert(mapped(out@, provider_view()) =~= mapped(before, provider_view()).push(
                    (e.0@, value@),
                ));
            }
            i = i + 1;
        }
        assert(all.take(i as int) =~= all);
        Catalog { providers: out }
    }

    /// The provider and the model that `model_ref` refers to.
    pub fn resolve(&self, model_ref: &ModelRef) -> (r: Option<(&ProviderInfo, &ModelInfo)>)
        ensures
            r is Some <==> resolved(self@, model_ref@) is Some,
            r matches Some(pair) ==> resolved(self@, model_ref@) == Some((pair.0@, pair.1@)),
    {
        let provider = match self.get(model_ref.provider_id.as_str()) {
            Some(p) => p,
            None => {
                return None;
            },
        };
        proof {
            lookup_mapped(provider.models@, model_view(), model_ref.model_id@);
        }
        match provider.models.get(model_ref.model_id.as_str()) {
            Some(m) => Some((provider, m)),
            None => None,
        }
    }

    /// The reference to a model that is known by its own name alone: that of the first provider
    /// that has it.
    pub fn resolve_legacy(&self, model_id: &str) -> (r: Option<ModelRef>)
        ensures
            opt_ref(r) == resolved_legacy(self@, model_id@),
    {
        let list = self.providers();
        let ghost f = |p: ProviderInfoView| lookup(p.models, model_id@) is Some;
        let mut i: usize = 0;
        assert(self@.skip(0) =~= self@);
        while i < list.len()
            invariant
                i <= list.len(),
                list@.len() == self@.len(),
                forall|k: int| 0 <= k < list@.len() ==> (#[trigger] list@[k])@ == self@[k].1,
                f == |p: ProviderInfoView| lookup(p.models, model_id@) is Some,
                first_where(self@, f) == first_where(self@.skip(i as int), f),
            decreases list.len() - i,
        {
            let p = list[i];
            assert(self@.skip(i as int)[0].1 == p@);
            proof {
                lookup_mapped(p.models@, model_view(), model_id@);
            }
            if p.models.contains_key(model_id) {
                assert(f(p@));
                return Some(ModelRef::new(p.id.as_str(), model_id));
            }
            assert(!f(p@));
            assert(self@.skip(i as int).drop_first() =~= self@.skip(i + 1));
            i = i + 1;
        }
        None
    }

    /// The first provider that has models; with `keyed`, that also has a key in the environment.
    fn first_with_models(&self, keyed: bool, defined: &Vec<String>) -> (r: Option<&ProviderInfo>)
        ensures
            r is Some <==> first_where(self@, with_models(keyed, views(defined@))) is Some,
            r matches Some(p) ==> first_where(self@, with_models(keyed, views(defined@))) == Some(
                p@,
            ) && p@.models.len() > 0,
    {
        let list = self.providers();
        let ghost f = with_models(keyed, views(defined@));
        let mut i: usize = 0;
        assert(self@.skip(0) =~= self@);
        while i < list.len()
            invariant
                i <= list.len(),
                list@.len() == self@.len(),
                forall|k: int| 0 <= k < list@.len() ==> (#[trigger] list@[k])@ == self@[k].1,
                f == with_models(keyed, views(defined@)),
                first_where(self@, f) == first_where(self@.skip(i as int), f),
            decreases list.len() - i,
        {
            let p = list[i];
            assert(self@.skip(i as int)[0].1 == p@);
            if (!keyed || p.has_api_key(defined)) && p.models.len() > 0 {
                assert(f(p@));
                return Some(p);
            }
            assert(!f(p@));
            assert(self@.skip(i as int).drop_first() =~= self@.skip(i + 1));
            i = i + 1;
        }
        None
    }

    /// The model to begin with, where `defined` are the variables of the environment.
    pub fn default_model(&self, defined: &Vec<String>) -> (r: Option<ModelRef>)
        ensures
            opt_ref(r) == default_ref(self@, views(defined@)),
    {
        proof {
            assert(with_models(true, views(defined@)) =~= (|p: ProviderInfoView|
                any_defined(p.env, views(defined@)) && p.models.len() > 0));
            assert(with_models(false, views(defined@)) =~= (|p: ProviderInfoView|
                p.models.len() > 0));
        }
        let pick = match self.first_with_models(true, defined) {
            Some(p) => p,
            None => match self.first_with_models(false, defined) {
                Some(p) => p,
                None => {
                    return None;
                },
            },
        };
        let entries = pick.models.entries();
        assert(pick@.models[0].0 == entry_views(entries@)[0].0);
        assert(entries@.len() == pick@.models.len());
        Some(ModelRef::new(pick.id.as_str(), entries[0].0.as_str()))
    }

    /// Whether the model that `model_ref` refers to sends its chain of thought.
    pub fn is_reasoning_model(&self, model_ref: &ModelRef) -> (r: bool)
        ensures
            r == is_reasoning(self@, model_ref@),
    {
        match self.resolve(model_ref) {
            Some((_, m)) => m.reasoning,
            None => false,
        }
    }
}

/// Whether a provider has models and, with `keyed`, a key in the environment.
pub open spec fn with_models(keyed: bool, defined: Seq<Seq<char>>) -> spec_fn(
    ProviderInfoView,
) -> bool {
    |p: ProviderInfoView| (!keyed || any_defined(p.env, defined)) && p.models.len() > 0
}

// ── Laws ──────────────────────────────────────────────────────────────────────

/// Whether every provider stands under its own identifier.
pub open spec fn keyed_by_id(m: Entries<ProviderInfoView>) -> bool {
    forall|i: int| 0 <= i < m.len() ==> (#[trigger] m[i]).0 == m[i].1.id
}

/// The place at which the first provider stands for which `f` holds.
proof fn first_where_at(m: Entries<ProviderInfoView>, f: spec_fn(ProviderInfoView) -> bool) -> (i:
    int)
    requires
        first_where(m, f) is Some,
    ensures
        0 <= i < m.len(),
        first_where(m, f) == Some(m[i].1),
        f(m[i].1),
    decreases m.len(),
{
    if f(m[0].1) {
        0
    } else {
        let j = first_where_at(m.drop_first(), f);
        j + 1
    }
}

/// In a map in order, what stands at a place is what its key finds.
proof fn lookup_own_key<V>(m: Entries<V>, i: int)
    requires
        keys_ascend(m),
        0 <= i < m.len(),
    ensures
        lookup(m, m[i].0) == Some(m[i].1),
    decreases m.len(),
{
    if i > 0 {
        let rest = m.drop_first();
        assert(text_lt(m[0].0, m[i].0));
        crate::order::text_lt_irreflexive(m[i].0);
        assert forall|a: int, b: int| 0 <= a < b < rest.len() implies text_lt(
            (#[trigger] rest[a]).0,
            (#[trigger] rest[b]).0,
        ) by {
            assert(rest[a] == m[a + 1]);
            assert(rest[b] == m[b + 1]);
        }
        assert(rest[i - 1] == m[i]);
        lookup_own_key(rest, i - 1);
    }
}

/// A model that is found by its own name alone can be resolved.
pub proof fn legacy_resolves(m: Entries<ProviderInfoView>, model_id: Seq<char>)
    requires
        keys_ascend(m),
        keyed_by_id(m),
        resolved_legacy(m, model_id) is Some,
    ensures
        resolved_legacy(m, model_id)->0.model_id == model_id,
        resolved(m, resolved_legacy(m, model_id)->0) is Some,
{
    let f = |p: ProviderInfoView| lookup(p.models, model_id) is Some;
    let i = first_where_at(m, f);
    lookup_own_key(m, i);
}

/// The model to begin with can be resolved, and there is one unless no provider has models.
pub proof fn default_resolves(m: Entries<ProviderInfoView>, defined: Seq<Seq<char>>)
    requires
        keys_ascend(m),
        keyed_by_id(m),
    ensures
        default_ref(m, defined) matches Some(r) ==> resolved(m, r) is Some,
        default_ref(m, defined) is None ==> forall|i: int|
            0 <= i < m.len() ==> (#[trigger] m[i]).1.models.len() == 0,
{
    let f = |p: ProviderInfoView| any_defined(p.env, defined) && p.models.len() > 0;
    let g = |p: ProviderInfoView| p.models.len() > 0;
    if first_where(m, f) is Some {
        let i = first_where_at(m, f);
        lookup_own_key(m, i);
        assert(lookup(m[i].1.models, m[i].1.models[0].0) is Some);
    } else if first_where(m, g) is Some {
        let i = first_where_at(m, g);
        lookup_own_key(m, i);
        assert(lookup(m[i].1.models, m[i].1.models[0].0) is Some);
    } else {
        none_where(m, g);
        assert forall|i: int| 0 <= i < m.len() implies (#[trigger] m[i]).1.models.len() == 0 by {
            assert(!g(m[i].1));
        }
    }
}

proof fn none_where(m: Entries<ProviderInfoView>, f: spec_fn(ProviderInfoView) -> bool)
    requires
        first_where(m, f) is None,
    ensures
        forall|i: int| 0 <= i < m.len() ==> !f((#[trigger] m[i]).1),
    decreases m.len(),
{
    if m.len() > 0 {
        none_where(m.drop_first(), f);
        assert forall|i: int| 0 <= i < m.len() implies !f((#[trigger] m[i]).1) by {
            if i > 0 {
                assert(m.drop_first()[i - 1] == m[i]);
            }
        }
    }
}

/// Of the providers that the engine can talk to, each has an address and a client library that
/// speaks its interface, and picking them out once more changes nothing.
pub proof fn usable_is_usable(m: Entries<ProviderInfoView>)
    ensures
        forall|i: int|
            0 <= i < usable(m).len() ==> is_usable((#[trigger] usable(m)[i]).1) && usable(
                m,
            )[i].1.base_url is Some,
        usable(usable(m)) == usable(m),
    decreases m.len(),
{
    if m.len() > 0 {
        usable_is_usable(m.drop_last());
        let before = usable(m.drop_last());
        if is_usable(m.last().1) {
            assert(usable(m).drop_last() =~= before);
            assert(addressed(addressed(m.last().1)) == addressed(m.last().1));
        }
    }
}

/// Picking out the providers that the engine can talk to keeps them in order and under their own
/// identifiers.
pub proof fn usable_keeps_order(m: Entries<ProviderInfoView>)
    requires
        keys_ascend(m),
    ensures
        keys_ascend(usable(m)),
        keyed_by_id(m) ==> keyed_by_id(usable(m)),
        forall|i: int|
            0 <= i < usable(m).len() ==> exists|j: int|
                0 <= j < m.len() && (#[trigger] m[j]).0 == (#[trigger] usable(m)[i]).0,
    decreases m.len(),
{
    if m.len() > 0 {
        let before = m.drop_last();
        assert forall|a: int, b: int| 0 <= a < b < before.len() implies text_lt(
            (#[trigger] before[a]).0,
            (#[trigger] before[b]).0,
        ) by {
            assert(before[a] == m[a]);
            assert(before[b] == m[b]);
        }
        usable_keeps_order(before);
        let u = usable(m);
        let v = usable(before);
        if keyed_by_id(m) {
            assert forall|i: int| 0 <= i < before.len() implies (#[trigger] before[i]).0
                == before[i].1.id by {
                assert(before[i] == m[i]);
            }
            assert(m[m.len() - 1].0 == m[m.len() - 1].1.id);
        }
        assert forall|i: int| 0 <= i < u.len() implies exists|j: int|
            0 <= j < m.len() && (#[trigger] m[j]).0 == (#[trigger] u[i]).0 by {
            if i < v.len() {
                assert(u[i] == v[i]);
                let j = choose|j: int| 0 <= j < before.len() && (#[trigger] before[j]).0 == v[i].0;
                assert(m[j] == before[j]);
            } else {
                assert(m[m.len() - 1].0 == u[i].0);
            }
        }
        assert forall|a: int, b: int| 0 <= a < b < u.len() implies text_lt(
            (#[trigger] u[a]).0,
            (#[trigger] u[b]).0,
        ) by {
            assert(u[a] == v[a]);
            if b < v.len() {
                assert(u[b] == v[b]);
            } else {
                let j = choose|j: int| 0 <= j < before.len() && (#[trigger] before[j]).0 == v[a].0;
                assert(m[j] == before[j]);
                assert(text_lt(m[j].0, m[m.len() - 1].0));
            }
        }
    }
}

} // verus!
