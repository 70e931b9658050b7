//! Where the catalogue comes from.
use vstd::prelude::*;
use crate::catalog::{model_view, provider_view, Catalog, ModelInfo, ModelInfoView,
    ProviderInfo, ProviderInfoView};
use crate::map::{inserted, inserted_mapped, mapped, Entries, StringMap};
use crate::text::{opt_str, owned, views};

verus! {

/// Where the catalogue is published.
pub const MODELS_DEV_URL: &'static str = "https://models.dev/api.json";

/// For how many milliseconds a copy of the catalogue is fresh.
pub const CACHE_TTL: u64 = 300_000;

/// After how many milliseconds the copy is looked at again.
pub const REFRESH_INTERVAL: u64 = 3_600_000;

/// A model of the catalogue that is built in.
pub open spec fn plain_model(id: Seq<char>, name: Seq<char>, reasoning: bool) -> ModelInfoView {
    ModelInfoView {
        id,
        name: Some(name),
        release_date: None,
        status: None,
        reasoning,
        tool_call: true,
        attachment: false,
    }
}

/// The views of a list of models.
pub open spec fn model_views(v: Seq<ModelInfo>) -> Seq<ModelInfoView> {
    v.map_values(|m: ModelInfo| m@)
}

/// The models, each under its own identifier.
pub open spec fn models_by_id(v: Seq<ModelInfoView>) -> Entries<ModelInfoView>
    decreases v.len(),
{
    if v.len() == 0 {
        Seq::empty()
    } else {
        inserted(models_by_id(v.drop_last()), v.last().id, v.last())
    }
}

/// The providers of the catalogue that is built in: a small table, written out here. It stands in
/// for a snapshot of all that `models.dev` lists.
pub open spec fn embedded_providers() -> Seq<ProviderInfoView> {
    seq![
        ProviderInfoView {
            id: "anthropic"@,
            name: "Anthropic"@,
            env: seq!["ANTHROPIC_API_KEY"@],
            npm: Some("@ai-sdk/anthropic"@),
            base_url: None,
            models: models_by_id(seq![]),
        },
        ProviderInfoView {
            id: "deepseek"@,
            name: "DeepSeek"@,
            env: seq!["DEEPSEEK_API_KEY"@],
            npm: Some("@ai-sdk/openai-compatible"@),
            base_url: Some("https://api.deepseek.com"@),
            models: models_by_id(
                seq![
                    plain_model("deepseek-chat"@, "DeepSeek Chat"@, false),
                    plain_model("deepseek-reasoner"@, "DeepSeek Reasoner"@, true),
                ],
            ),
        },
        ProviderInfoView {
            id: "google"@,
            name: "Google"@,
            env: seq!["GEMINI_API_KEY"@],
            npm: Some("@ai-sdk/google"@),
            base_url: None,
            models: models_by_id(
                seq![
                    plain_model("gemini-2.5-flash"@, "Gemini 2.5 Flash"@, true),
                    plain_model("gemini-2.5-pro"@, "Gemini 2.5 Pro"@, true),
                ],
            ),
        },
        ProviderInfoView {
            id: "openai"@,
            name: "OpenAI"@,
            env: seq!["OPENAI_API_KEY"@],
            npm: Some("@ai-sdk/openai"@),
            base_url: None,
            models: models_by_id(
                seq![
                    plain_model("gpt-4o"@, "GPT-4o"@, false),
                    plain_model("gpt-5"@, "GPT-5"@, true),
                ],
            ),
        },
    ]
}

/// The providers, each under its own identifier.
pub open spec fn by_id(v: Seq<ProviderInfoView>) -> Entries<ProviderInfoView>
    decreases v.len(),
{
    if v.len() == 0 {
        Seq::empty()
    } else {
        inserted(by_id(v.drop_last()), v.last().id, v.last())
    }
}

fn embedded_model(id: &str, name: &str, reasoning: bool) -> (r: ModelInfo)
    ensures
        r@ == plain_model(id@, name@, reasoning),
{
    ModelInfo {
        id: owned(id),
        name: Some(owned(name)),
        release_date: None,
        status: None,
        reasoning,
        tool_call: true,
        attachment: false,
    }
}

fn embedded_provider(
    id: &str,
    name: &str,
    variable: &str,
    npm: &str,
    base_url: Option<&str>,
    list: Vec<ModelInfo>,
) -> (r: ProviderInfo)
    ensures
        r@ == (ProviderInfoView {
            id: id@,
            name: name@,
            env: seq![variable@],
            npm: Some(npm@),
            base_url: opt_str(base_url),
            models: models_by_id(model_views(list@)),
        }),
{
    let ghost all = model_views(list@);
    let mut models: StringMap<ModelInfo> = StringMap::new();
    assert(mapped(models@, model_view()) =~= Seq::<(Seq<char>, ModelInfoView)>::empty());
    assert(all.take(0) =~= seq![]);
    let mut i: usize = 0;
    while i < list.len()
        invariant
            i <= list.len(),
            all == model_views(list@),
            mapped(models@, model_view()) == models_by_id(all.take(i as int)),
        decreases list.len() - i,
    {
        let m = list[i].clone();
        assert(all.take(i + 1).drop_last() =~= all.take(i as int));
        assert(all.take(i + 1).last() == m@);
        proof {
            inserted_mapped(models@, model_view(), m.id@, m);
        }
        let key = m.id.clone();
        models.insert(key, m);
        i = i + 1;
    }
    assert(all.take(i as int) =~= all);
    let mut env: Vec<String> = Vec::new();
    env.push(owned(variable));
    assert(views(env@) =~= seq![variable@]);
    let base_url = match base_url {
        Some(u) => Some(owned(u)),
        None => None,
    };
    ProviderInfo { id: owned(id), name: owned(name), env, npm: Some(owned(npm)), base_url, models }
}

/// Two models.
fn pair(a: ModelInfo, b: ModelInfo) -> (r: Vec<ModelInfo>)
    ensures
        model_views(r@) == seq![a@, b@],
{
    let mut v: Vec<ModelInfo> = Vec::new();
    v.push(a);
    v.push(b);
    assert(model_views(v@) =~= seq![a@, b@]);
    v
}

/// No models.
fn none() -> (r: Vec<ModelInfo>)
    ensures
        model_views(r@) == Seq::<ModelInfoView>::empty(),
{
    let v: Vec<ModelInfo> = Vec::new();
    assert(model_views(v@) =~= Seq::<ModelInfoView>::empty());
    v
}

/// Puts the provider `p` under its own identifier.
fn put(m: &mut StringMap<ProviderInfo>, p: ProviderInfo)
    ensures
        mapped(final(m)@, provider_view()) == inserted(
            mapped(old(m)@, provider_view()),
            p@.id,
            p@,
        ),
{
    proof {
        inserted_mapped(m@, provider_view(), p.id@, p);
    }
    let id = p.id.clone();
    m.insert(id, p);
}

impl Catalog {
    /// The catalogue that is built in, which is there whatever else is missing. It stands in for a
    /// snapshot of `models.dev` and holds a few providers only; a catalogue that was named or
    /// fetched takes its place.
    pub fn embedded() -> (r: Self)
        ensures
            r@ == by_id(embedded_providers()),
    {
        let mut m: StringMap<ProviderInfo> = StringMap::new();
        assert(mapped(m@, provider_view()) =~= Seq::<(Seq<char>, ProviderInfoView)>::empty());
        put(
            &mut m,
            embedded_provider(
                "anthropic",
                "Anthropic",
                "ANTHROPIC_API_KEY",
                "@ai-sdk/anthropic",
                None,
                none(),
            ),
        );
        put(
            &mut m,
            embedded_provider(
                "deepseek",
                "DeepSeek",
                "DEEPSEEK_API_KEY",
                "@ai-sdk/openai-compatible",
                Some("https://api.deepseek.com"),
                pair(
                    embedded_model("deepseek-chat", "DeepSeek Chat", false),
                    embedded_model("deepseek-reasoner", "DeepSeek Reasoner", true),
                ),
            ),
        );
        put(
            &mut m,
            embedded_provider(
                "google",
                "Google",
                "GEMINI_API_KEY",
                "@ai-sdk/google",
                None,
                pair(
                    embedded_model("gemini-2.5-flash", "Gemini 2.5 Flash", true),
                    embedded_model("gemini-2.5-pro", "Gemini 2.5 Pro", true),
                ),
            ),
        );
        put(
            &mut m,
            embedded_provider(
                "openai",
                "OpenAI",
                "OPENAI_API_KEY",
                "@ai-sdk/openai",
                None,
                pair(
                    embedded_model("gpt-4o", "GPT-4o", false),
                    embedded_model("gpt-5", "GPT-5", true),
                ),
            ),
        );
        proof {
            let v = embedded_providers();
            assert(v.take(4) =~= v);
            assert(v.take(4).drop_last() =~= v.take(3));
            assert(v.take(3).drop_last() =~= v.take(2));
            assert(v.take(2).drop_last() =~= v.take(1));
            assert(v.take(1).drop_last() =~= v.take(0));
            assert(by_id(v.take(0)) == Seq::<(Seq<char>, ProviderInfoView)>::empty());
            reveal_with_fuel(by_id, 5);
        }
        Catalog::new(m)
    }

    /// The catalogue to work with: the one that the user named, else the copy that was kept, else
    /// the one that is built in. One that is missing or cannot be read is `None`.
    pub fn load(named: Option<Catalog>, kept: Option<Catalog>) -> (r: Self)
        ensures
            r@ == (match named {
                Some(c) => c@,
                None => match kept {
                    Some(c) => c@,
                    None => by_id(embedded_providers()),
                },
            }),
    {
        match named {
            Some(c) => c,
            None => match kept {
                Some(c) => c,
                None => Catalog::embedded(),
            },
        }
    }

    /// Whether the copy of the catalogue is fresh, where it was written `age_ms` ago; `None` where
    /// there is none, or where its age is not known.
    pub fn cache_is_fresh(age_ms: Option<u64>) -> (r: bool)
        ensures
            r == (age_ms matches Some(ms) && ms < CACHE_TTL),
    {
        match age_ms {
            Some(ms) => ms < CACHE_TTL,
            None => false,
        }
    }
}

/// From where the catalogue is fetched: from the address that the user named, where there is one.
pub fn models_url(named: Option<&str>) -> (r: String)
    ensures
        r@ == (match named {
            Some(u) => u@,
            None => MODELS_DEV_URL@,
        }),
{
    match named {
        Some(u) => owned(u),
        None => owned(MODELS_DEV_URL),
    }
}

/// What the refresher does next.
#[derive(Debug, PartialEq, Eq)]
pub enum RefreshAction {
    /// Fetch the catalogue, keep a copy, then wait and look again.
    Fetch,
    /// Wait and look again.
    Wait,
    /// Nothing more.
    Stop,
}

/// What the refresher does: nothing where the user has switched it off, else a fetch where the
/// copy is not fresh.
pub fn refresh_action(switched_off: bool, age_ms: Option<u64>) -> (r: RefreshAction)
    ensures
        r == (if switched_off {
            RefreshAction::Stop
        } else if age_ms matches Some(ms) && ms < CACHE_TTL {
            RefreshAction::Wait
        } else {
            RefreshAction::Fetch
        }),
{
    if switched_off {
        RefreshAction::Stop
    } else if Catalog::cache_is_fresh(age_ms) {
        RefreshAction::Wait
    } else {
        RefreshAction::Fetch
    }
}

} // verus!
