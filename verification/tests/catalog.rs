use zhi::catalog::{
    compatible_npm, resolve_base_url, Catalog, ModelInfo, ModelRef, ModelStatus, ProviderInfo,
};
use zhi::map::StringMap;
use zhi::sources::{models_url, refresh_action, RefreshAction, CACHE_TTL};

fn ids(cat: &Catalog) -> Vec<&str> {
    cat.providers().iter().map(|p| p.id.as_str()).collect()
}

fn model(id: &str) -> ModelInfo {
    ModelInfo {
        id: id.to_string(),
        name: None,
        release_date: None,
        status: None,
        reasoning: false,
        tool_call: true,
        attachment: false,
    }
}

fn provider(id: &str, npm: Option<&str>, url: Option<&str>, models: &[&str]) -> ProviderInfo {
    let mut map = StringMap::new();
    for m in models {
        map.insert(m.to_string(), model(m));
    }
    ProviderInfo {
        id: id.to_string(),
        name: id.to_uppercase(),
        env: vec![format!("{}_KEY", id.to_uppercase()), format!("{}_ALT", id.to_uppercase())],
        npm: npm.map(str::to_string),
        base_url: url.map(str::to_string),
        models: map,
    }
}

fn catalog(list: Vec<ProviderInfo>) -> Catalog {
    let mut map = StringMap::new();
    for p in list {
        map.insert(p.id.clone(), p);
    }
    Catalog::new(map)
}

#[test]
fn embedded_catalog_parses() {
    let cat = Catalog::embedded();
    assert!(cat.providers().len() > 0);
}

#[test]
fn openai_compatible_filter_includes_deepseek_and_openai() {
    let cat = Catalog::embedded().openai_compatible();
    let ids = ids(&cat);
    assert!(ids.contains(&"deepseek"), "deepseek debería estar: {ids:?}");
    assert!(ids.contains(&"openai"), "openai debería estar");
}

#[test]
fn openai_compatible_filter_excludes_anthropic_and_google() {
    let cat = Catalog::embedded().openai_compatible();
    let ids = ids(&cat);
    assert!(!ids.contains(&"anthropic"), "anthropic no es openai-compatible");
    assert!(!ids.contains(&"google"), "google no es openai-compatible");
}

#[test]
fn openai_provider_gets_default_base_url() {
    let cat = Catalog::embedded().openai_compatible();
    let openai = cat.get("openai").expect("openai");
    assert_eq!(openai.base_url.as_deref(), Some("https://api.openai.com/v1"));
}

#[test]
fn resolve_resolves_par_provider_model() {
    let cat = Catalog::embedded().openai_compatible();
    let r = ModelRef::new("deepseek", "deepseek-chat");
    let (provider, _model) = cat.resolve(&r).expect("resuelve");
    assert_eq!(provider.id, "deepseek");
}

#[test]
fn resolve_legacy_picks_a_provider_with_that_model() {
    let cat = Catalog::embedded().openai_compatible();
    let r = cat.resolve_legacy("deepseek-chat").expect("hay match");
    assert_eq!(r.model_id, "deepseek-chat");
    assert!(cat.resolve(&r).is_some());
}

#[test]
fn unknown_model_is_not_resolvable() {
    let cat = Catalog::embedded().openai_compatible();
    let r = ModelRef::new("deepseek", "modelo-inexistente");
    assert!(cat.resolve(&r).is_none());
    assert!(cat.resolve_legacy("modelo-inexistente").is_none());
}

#[test]
fn default_model_resolves() {
    let cat = Catalog::embedded().openai_compatible();
    let default = cat.default_model(&Vec::new()).expect("hay default");
    assert!(cat.resolve(&default).is_some(), "default: {}", default.to_string());
}

#[test]
fn model_ref_roundtrip() {
    let r = ModelRef::new("deepseek", "deepseek-chat");
    let s = r.to_string();
    assert_eq!(s, "deepseek/deepseek-chat");
    assert_eq!(ModelRef::parse(&s), Some(r));
    assert_eq!(ModelRef::parse("no-slash"), None);
    assert_eq!(ModelRef::parse("/empty"), None);
    assert_eq!(ModelRef::parse("empty/"), None);
}

#[test]
fn a_model_name_may_hold_slashes() {
    let r = ModelRef::parse("togetherai/meta/llama").unwrap();
    assert_eq!(r.provider_id, "togetherai");
    assert_eq!(r.model_id, "meta/llama");
    assert_eq!(r.to_string(), "togetherai/meta/llama");
}

#[test]
fn providers_come_in_order() {
    let cat = catalog(vec![
        provider("zeta", None, None, &[]),
        provider("alfa", None, None, &[]),
        provider("mu", None, None, &[]),
    ]);
    assert_eq!(ids(&cat), ["alfa", "mu", "zeta"]);
    assert!(cat.get("mu").is_some());
    assert!(cat.get("nu").is_none());
}

#[test]
fn filtering_twice_changes_nothing() {
    let once = Catalog::embedded().openai_compatible();
    let twice = once.openai_compatible();
    assert_eq!(ids(&once), ids(&twice));
    for p in twice.providers() {
        assert_eq!(p.base_url, once.get(&p.id).unwrap().base_url);
    }
}

#[test]
fn a_compatible_provider_without_address_is_left_out() {
    let cat = catalog(vec![
        provider("groq", Some("@ai-sdk/groq"), None, &["a"]),
        provider("rara", Some("@ai-sdk/openai-compatible"), None, &["a"]),
        provider("nombrada", Some("@ai-sdk/openai-compatible"), Some("http://x"), &["a"]),
        provider("sin", None, Some("http://y"), &["a"]),
    ]);
    let usable = cat.openai_compatible();
    assert_eq!(ids(&usable), ["groq", "nombrada"]);
    assert_eq!(
        usable.get("groq").unwrap().base_url.as_deref(),
        Some("https://api.groq.com/openai/v1")
    );
    assert_eq!(usable.get("nombrada").unwrap().base_url.as_deref(), Some("http://x"));
}

#[test]
fn known_addresses() {
    let cases = [
        ("openai", "https://api.openai.com/v1"),
        ("groq", "https://api.groq.com/openai/v1"),
        ("mistral", "https://api.mistral.ai/v1"),
        ("perplexity", "https://api.perplexity.ai"),
        ("xai", "https://api.x.ai/v1"),
        ("cerebras", "https://api.cerebras.ai/v1"),
        ("deepinfra", "https://api.deepinfra.com/v1/openai"),
        ("togetherai", "https://api.together.xyz/v1"),
    ];
    for (id, url) in cases {
        assert_eq!(resolve_base_url(&provider(id, None, None, &[])).as_deref(), Some(url));
    }
    assert_eq!(resolve_base_url(&provider("otro", None, None, &[])), None);
}

#[test]
fn compatible_packages() {
    for npm in [
        "@ai-sdk/openai-compatible",
        "@ai-sdk/openai",
        "@ai-sdk/groq",
        "@ai-sdk/togetherai",
        "@ai-sdk/deepinfra",
        "@ai-sdk/cerebras",
        "@ai-sdk/mistral",
        "@ai-sdk/perplexity",
        "@ai-sdk/xai",
        "@ai-sdk/vercel",
    ] {
        assert!(compatible_npm(npm), "{npm}");
    }
    assert!(!compatible_npm("@ai-sdk/anthropic"));
    assert!(!compatible_npm("@ai-sdk/google"));
}

#[test]
fn the_first_provider_with_the_model_wins() {
    let cat = catalog(vec![
        provider("b", None, None, &["m"]),
        provider("a", None, None, &["otro"]),
        provider("c", None, None, &["m"]),
    ]);
    let r = cat.resolve_legacy("m").unwrap();
    assert_eq!(r.to_string(), "b/m");
}

#[test]
fn the_default_prefers_a_provider_with_a_key() {
    let cat = catalog(vec![
        provider("a", None, None, &["z", "y"]),
        provider("b", None, None, &["m", "k"]),
        provider("c", None, None, &[]),
    ]);
    assert_eq!(cat.default_model(&Vec::new()).unwrap().to_string(), "a/y");
    assert_eq!(cat.default_model(&vec!["B_ALT".to_string()]).unwrap().to_string(), "b/k");
    assert_eq!(cat.default_model(&vec!["C_KEY".to_string()]).unwrap().to_string(), "a/y");
    assert!(catalog(vec![provider("c", None, None, &[])]).default_model(&Vec::new()).is_none());
}

#[test]
fn the_variable_of_a_key() {
    let p = provider("x", None, None, &[]);
    assert!(!p.has_api_key(&Vec::new()));
    assert_eq!(p.env_var(&Vec::new()), Some("X_KEY"));
    let defined = vec!["X_ALT".to_string()];
    assert!(p.has_api_key(&defined));
    assert_eq!(p.env_var(&defined), Some("X_ALT"));
}

#[test]
fn reasoning_is_read_from_the_catalogue() {
    let cat = Catalog::embedded();
    assert!(cat.is_reasoning_model(&ModelRef::new("deepseek", "deepseek-reasoner")));
    assert!(!cat.is_reasoning_model(&ModelRef::new("deepseek", "deepseek-chat")));
    assert!(!cat.is_reasoning_model(&ModelRef::new("deepseek", "otro")));
}

#[test]
fn the_catalogue_comes_from_the_best_source() {
    let named = || catalog(vec![provider("n", None, None, &[])]);
    let kept = || catalog(vec![provider("k", None, None, &[])]);
    assert_eq!(ids(&Catalog::load(Some(named()), Some(kept()))), ["n"]);
    assert_eq!(ids(&Catalog::load(None, Some(kept()))), ["k"]);
    assert_eq!(ids(&Catalog::load(None, None)), ids(&Catalog::embedded()));
}

#[test]
fn a_copy_is_fresh_for_five_minutes() {
    assert_eq!(CACHE_TTL, 5 * 60 * 1000);
    assert!(Catalog::cache_is_fresh(Some(0)));
    assert!(Catalog::cache_is_fresh(Some(299_999)));
    assert!(!Catalog::cache_is_fresh(Some(300_000)));
    assert!(!Catalog::cache_is_fresh(None));
    assert_eq!(refresh_action(true, None), RefreshAction::Stop);
    assert_eq!(refresh_action(false, None), RefreshAction::Fetch);
    assert_eq!(refresh_action(false, Some(1)), RefreshAction::Wait);
}

#[test]
fn the_address_of_the_catalogue() {
    assert_eq!(models_url(None), "https://models.dev/api.json");
    assert_eq!(models_url(Some("http://local/x")), "http://local/x");
}

#[test]
fn a_status_is_kept() {
    let mut m = model("m");
    m.status = Some(ModelStatus::Deprecated);
    assert_eq!(m.clone().status, Some(ModelStatus::Deprecated));
}
