//! Which providers and models there are to choose, and what a choice comes to.
use vstd::prelude::*;
use crate::auth::{AuthView, Credentials};
use crate::catalog::{any_defined, base_url_of, default_ref, first_where, is_compatible_npm,
    is_reasoning, is_usable, key_variable, known_base_url, resolved, resolved_legacy, usable,
    ModelInfoView, ModelRefView, ModelStatus, ProviderInfoView};
use crate::dialogs::{account_list, any_key, command_list, first_open, model_options, option_of,
    provider_options, provider_rows, rows_of, shown, taken, CommandPaletteAction, ModelOptionView,
    ProviderRowView};
use crate::effect::EffectView;
use crate::engine::{all_refs, named_ref, names, served, value_of, EngineView, Environment,
    ErrorView};
use crate::map::{lookup, lookup_inserted, Entries};
use crate::message::{MessageView, Role};
use crate::nav::{nav_back, nav_forward, nav_label, nav_markup, nav_of, NavView};
use crate::number::decimal;
use crate::provider::prepared;
use crate::search::occurs_in;
use crate::sources::{by_id, models_by_id};

verus! {

// ── Providers ─────────────────────────────────────────────────────────────────

/// A provider that names a client library the engine speaks for, and that can be reached, is among
/// those that can be used; it comes there with its address, and otherwise as it was.
pub proof fn a_usable_provider_stays(m: Entries<ProviderInfoView>, i: int) -> (k: int)
    requires
        0 <= i < m.len(),
        is_usable(m[i].1),
    ensures
        0 <= k < usable(m).len(),
        ({
            let (key, p) = m[i];
            let (kept, q) = usable(m)[k];
            &&& kept == key
            &&& q.id == p.id && q.name == p.name && q.env == p.env && q.models == p.models
            &&& p.base_url is Some ==> q.base_url == p.base_url
            &&& p.base_url is None ==> q.base_url == known_base_url(p.id)
        }),
    decreases m.len(),
{
    let before = usable(m.drop_last());
    if i == m.len() - 1 {
        before.len() as int
    } else {
        assert(m.drop_last()[i] == m[i]);
        let k = a_usable_provider_stays(m.drop_last(), i);
        assert(usable(m)[k] == before[k]);
        k
    }
}

/// A client library that the engine does not speak for, a missing one, and a provider without an
/// address each rule a provider out.
pub proof fn what_rules_a_provider_out(p: ProviderInfoView)
    ensures
        p.npm is None ==> !is_usable(p),
        p.npm == Some("@ai-sdk/openai-compatible"@) && p.base_url is Some ==> is_usable(p),
        p.base_url is None && known_base_url(p.id) is None ==> !is_usable(p),
        p.base_url matches Some(u) ==> base_url_of(p) == Some(u),
{
}

proof fn first_where_is_first(
    m: Entries<ProviderInfoView>,
    f: spec_fn(ProviderInfoView) -> bool,
    i: int,
)
    requires
        0 <= i < m.len(),
        f(m[i].1),
        forall|j: int| 0 <= j < i ==> !f((#[trigger] m[j]).1),
    ensures
        first_where(m, f) == Some(m[i].1),
    decreases m.len(),
{
    if i > 0 {
        assert(!f(m[0].1));
        let rest = m.drop_first();
        assert forall|j: int| 0 <= j < i - 1 implies !f((#[trigger] rest[j]).1) by {
            assert(rest[j] == m[j + 1]);
        }
        first_where_is_first(rest, f, i - 1);
    }
}

proof fn first_where_is_none(m: Entries<ProviderInfoView>, f: spec_fn(ProviderInfoView) -> bool)
    requires
        forall|j: int| 0 <= j < m.len() ==> !f((#[trigger] m[j]).1),
    ensures
        first_where(m, f) is None,
    decreases m.len(),
{
    if m.len() > 0 {
        assert(!f(m[0].1));
        let rest = m.drop_first();
        assert forall|j: int| 0 <= j < rest.len() implies !f((#[trigger] rest[j]).1) by {
            assert(rest[j] == m[j + 1]);
        }
        first_where_is_none(rest, f);
    }
}

/// The model to begin with is the first one of the first provider that has models and a key in
/// the environment.
pub proof fn a_provider_with_a_key_comes_first(
    m: Entries<ProviderInfoView>,
    defined: Seq<Seq<char>>,
    i: int,
)
    requires
        0 <= i < m.len(),
        m[i].1.models.len() > 0,
        any_defined(m[i].1.env, defined),
        forall|j: int|
            0 <= j < i ==> (#[trigger] m[j]).1.models.len() == 0 || !any_defined(
                m[j].1.env,
                defined,
            ),
    ensures
        default_ref(m, defined) == Some(
            ModelRefView { provider_id: m[i].1.id, model_id: m[i].1.models[0].0 },
        ),
{
    let f = |p: ProviderInfoView| any_defined(p.env, defined) && p.models.len() > 0;
    assert forall|j: int| 0 <= j < i implies !f((#[trigger] m[j]).1) by {}
    first_where_is_first(m, f, i);
}

/// Where no provider has a key in the environment, it is that of the first that has models.
pub proof fn without_keys_the_first_provider_counts(
    m: Entries<ProviderInfoView>,
    defined: Seq<Seq<char>>,
    i: int,
)
    requires
        0 <= i < m.len(),
        m[i].1.models.len() > 0,
        forall|j: int| 0 <= j < i ==> (#[trigger] m[j]).1.models.len() == 0,
        forall|j: int| 0 <= j < m.len() ==> !any_defined((#[trigger] m[j]).1.env, defined),
    ensures
        default_ref(m, defined) == Some(
            ModelRefView { provider_id: m[i].1.id, model_id: m[i].1.models[0].0 },
        ),
{
    let f = |p: ProviderInfoView| any_defined(p.env, defined) && p.models.len() > 0;
    let g = |p: ProviderInfoView| p.models.len() > 0;
    assert forall|j: int| 0 <= j < m.len() implies !f((#[trigger] m[j]).1) by {}
    first_where_is_none(m, f);
    assert forall|j: int| 0 <= j < i implies !g((#[trigger] m[j]).1) by {}
    first_where_is_first(m, g, i);
}

/// A model that is named alone is that of the first provider that has it.
pub proof fn a_model_alone_is_found(m: Entries<ProviderInfoView>, model: Seq<char>, i: int)
    requires
        0 <= i < m.len(),
        lookup(m[i].1.models, model) is Some,
        forall|j: int| 0 <= j < i ==> lookup((#[trigger] m[j]).1.models, model) is None,
    ensures
        resolved_legacy(m, model) == Some(
            ModelRefView { provider_id: m[i].1.id, model_id: model },
        ),
{
    let f = |p: ProviderInfoView| lookup(p.models, model) is Some;
    assert forall|j: int| 0 <= j < i implies !f((#[trigger] m[j]).1) by {}
    first_where_is_first(m, f, i);
}

/// A reference stands for the model under its name at the provider under its name, and for
/// nothing where either is missing.
pub proof fn a_reference_names_its_model(m: Entries<ProviderInfoView>, r: ModelRefView)
    ensures
        resolved(m, r) matches Some((p, i)) ==> lookup(m, r.provider_id) == Some(p) && lookup(
            p.models,
            r.model_id,
        ) == Some(i) && is_reasoning(m, r) == i.reasoning,
        lookup(m, r.provider_id) is None ==> resolved(m, r) is None,
        lookup(m, r.provider_id) matches Some(p) ==> (resolved(m, r) is None <==> lookup(
            p.models,
            r.model_id,
        ) is None),
{
}

/// The variable of a key is the first one of the provider that is defined, and the first one at
/// all where none is.
pub proof fn the_first_defined_variable_counts(
    env: Seq<Seq<char>>,
    defined: Seq<Seq<char>>,
    i: int,
)
    requires
        0 <= i < env.len(),
        forall|j: int| 0 <= j < i ==> !defined.contains(#[trigger] env[j]),
    ensures
        defined.contains(env[i]) ==> key_variable(env, defined) == Some(env[i]),
        i == env.len() - 1 && !defined.contains(env[i]) ==> key_variable(env, defined) == Some(
            env[0],
        ),
    decreases env.len(),
{
    first_defined_is(env, defined, i);
}

proof fn first_defined_is(env: Seq<Seq<char>>, defined: Seq<Seq<char>>, i: int)
    requires
        0 <= i < env.len(),
        forall|j: int| 0 <= j < i ==> !defined.contains(#[trigger] env[j]),
    ensures
        defined.contains(env[i]) ==> crate::catalog::first_defined(env, defined) == Some(env[i]),
        i == env.len() - 1 && !defined.contains(env[i]) ==> crate::catalog::first_defined(
            env,
            defined,
        ) is None,
    decreases env.len(),
{
    reveal_with_fuel(crate::catalog::first_defined, 2);
    if i > 0 {
        assert(!defined.contains(env[0]));
        let rest = env.drop_first();
        assert forall|j: int| 0 <= j < i - 1 implies !defined.contains(#[trigger] rest[j]) by {
            assert(rest[j] == env[j + 1]);
        }
        first_defined_is(rest, defined, i - 1);
    }
}

// ── Serving a model ───────────────────────────────────────────────────────────

/// A model is served by its own provider: at the address of that provider, under the name that
/// the model has there, and with a key that belongs to it. The key that the user put in counts;
/// without one it is the value of the provider's variable.
pub proof fn a_model_is_served_by_its_provider(
    e: EngineView,
    env: Environment,
    model: Seq<char>,
    r: ModelRefView,
    p: ProviderInfoView,
    i: ModelInfoView,
    url: Seq<char>,
)
    requires
        named_ref(e.catalog, model) == Some(r),
        resolved(e.catalog, r) == Some((p, i)),
        base_url_of(p) == Some(url),
    ensures
        match lookup(e.auth, p.id) {
            Some(AuthView::Api { key, .. }) => served(e, env, model) matches Ok((c, name)) && c.api_key
                == key && c.base_url == url && name == r.model_id,
            Some(AuthView::Oauth { .. }) => served(e, env, model) matches Err(x) && x
                == ErrorView::OauthInferenceNotImplemented(p.id),
            None => match key_variable(p.env, names(env)) {
                Some(v) => match value_of(env, v) {
                    Some(key) => served(e, env, model) matches Ok((c, name)) && c.api_key == key
                        && c.base_url == url && name == r.model_id,
                    None => served(e, env, model) matches Err(x) && x
                        == (ErrorView::MissingApiKey { env_var: v, model }),
                },
                None => served(e, env, model) matches Err(x) && x is MissingApiKey,
            },
        },
{
}

/// A model that there is not is reported as unknown, by the name that was given.
pub proof fn an_unknown_model_is_reported(e: EngineView, env: Environment, model: Seq<char>)
    requires
        named_ref(e.catalog, model) is None || resolved(
            e.catalog,
            named_ref(e.catalog, model)->0,
        ) is None,
    ensures
        served(e, env, model) matches Err(x) && x == ErrorView::UnknownModel(model),
{
}

/// Of two variables with the same name the first counts.
pub proof fn a_variable_has_its_value(
    before: Environment,
    name: Seq<char>,
    value: Seq<char>,
    behind: Environment,
)
    requires
        forall|i: int| 0 <= i < before.len() ==> (#[trigger] before[i]).0 != name,
    ensures
        value_of(before + seq![(name, value)] + behind, name) == Some(value),
        value_of(before, name) is None,
    decreases before.len(),
{
    let all = before + seq![(name, value)] + behind;
    if before.len() > 0 {
        let rest = before.drop_first();
        assert(before[0].0 != name);
        assert forall|i: int| 0 <= i < rest.len() implies (#[trigger] rest[i]).0 != name by {
            assert(rest[i] == before[i + 1]);
        }
        a_variable_has_its_value(rest, name, value, behind);
        assert(all.drop_first() =~= rest + seq![(name, value)] + behind);
        assert(all[0] == before[0]);
    } else {
        assert(all[0] == (name, value));
    }
}

/// Every model of every provider is among the references.
pub proof fn every_model_is_listed(m: Entries<ProviderInfoView>, i: int, j: int) -> (k: int)
    requires
        0 <= i < m.len(),
        0 <= j < m[i].1.models.len(),
    ensures
        0 <= k < all_refs(m).len(),
        all_refs(m)[k] == m[i].1.id + "/"@ + m[i].1.models[j].0,
    decreases m.len(),
{
    let before = all_refs(m.drop_last());
    if i == m.len() - 1 {
        let k = before.len() + j;
        assert(all_refs(m)[k] == crate::engine::provider_refs(m[i].1)[j]);
        k
    } else {
        assert(m.drop_last()[i] == m[i]);
        let k = every_model_is_listed(m.drop_last(), i, j);
        assert(all_refs(m)[k] == before[k]);
        k
    }
}

/// What goes to a provider are the messages as they are; only the one that insists on a chain of
/// thought gets an empty one with the messages of the assistant that have none.
pub proof fn messages_go_out_as_they_are(base_url: Seq<char>, messages: Seq<MessageView>, i: int)
    requires
        0 <= i < messages.len(),
    ensures
        prepared(base_url, messages).len() == messages.len(),
        !occurs_in(base_url, "deepseek"@) ==> prepared(base_url, messages) == messages,
        ({
            let m = messages[i];
            let sent = prepared(base_url, messages)[i];
            &&& sent.role == m.role && sent.content == m.content && sent.tool_calls == m.tool_calls
                && sent.tool_call_id == m.tool_call_id
            &&& sent.reasoning == if occurs_in(base_url, "deepseek"@) && m.role == Role::Assistant
                && m.reasoning is None {
                Some(Seq::<char>::empty())
            } else {
                m.reasoning
            }
        }),
{
}

// ── Dialogs ───────────────────────────────────────────────────────────────────

proof fn provider_offers(p: ProviderInfoView, models: Entries<ModelInfoView>, j: int) -> (k: int)
    requires
        0 <= j < models.len(),
        models[j].1.status != Some(ModelStatus::Deprecated),
    ensures
        0 <= k < provider_options(p, models).len(),
        provider_options(p, models)[k].value == p.id + "/"@ + models[j].1.id,
        provider_options(p, models)[k].label == (match models[j].1.name {
            Some(n) => n,
            None => models[j].1.id,
        }) + "  ·  "@ + p.name,
    decreases models.len(),
{
    let before = provider_options(p, models.drop_last());
    if j == models.len() - 1 {
        before.len() as int
    } else {
        assert(models.drop_last()[j] == models[j]);
        let k = provider_offers(p, models.drop_last(), j);
        assert(provider_options(p, models)[k] == before[k]);
        k
    }
}

/// Every model of a provider that the user has connected can be chosen, unless it is on its way
/// out: by its reference, and under its name and that of its provider.
pub proof fn a_model_can_be_chosen(
    m: Entries<ProviderInfoView>,
    connected: Credentials,
    i: int,
    j: int,
) -> (k: int)
    requires
        0 <= i < m.len(),
        0 <= j < m[i].1.models.len(),
        lookup(connected, m[i].1.id) is Some,
        m[i].1.models[j].1.status != Some(ModelStatus::Deprecated),
    ensures
        0 <= k < model_options(m, connected).len(),
        ({
            let p = m[i].1;
            let model = p.models[j].1;
            let option = model_options(m, connected)[k];
            &&& option.value == p.id + "/"@ + model.id
            &&& option.label == (match model.name {
                Some(n) => n,
                None => model.id,
            }) + "  ·  "@ + p.name
        }),
    decreases m.len(),
{
    let before = model_options(m.drop_last(), connected);
    if i == m.len() - 1 {
        let k = provider_offers(m[i].1, m[i].1.models, j);
        assert(model_options(m, connected)[before.len() + k] == provider_options(
            m[i].1,
            m[i].1.models,
        )[k]);
        before.len() + k
    } else {
        assert(m.drop_last()[i] == m[i]);
        let k = a_model_can_be_chosen(m.drop_last(), connected, i, j);
        assert(model_options(m, connected)[k] == before[k]);
        k
    }
}

proof fn provider_offers_its_own(p: ProviderInfoView, models: Entries<ModelInfoView>, k: int) -> (j:
    int)
    requires
        0 <= k < provider_options(p, models).len(),
    ensures
        0 <= j < models.len(),
        models[j].1.status != Some(ModelStatus::Deprecated),
        provider_options(p, models)[k].value == p.id + "/"@ + models[j].1.id,
    decreases models.len(),
{
    let before = provider_options(p, models.drop_last());
    if k < before.len() {
        let j = provider_offers_its_own(p, models.drop_last(), k);
        assert(provider_options(p, models)[k] == before[k]);
        j
    } else {
        models.len() - 1
    }
}

/// Nothing else can be chosen: what is offered is a model of a connected provider that is not on
/// its way out.
pub proof fn only_connected_models_are_offered(
    m: Entries<ProviderInfoView>,
    connected: Credentials,
    k: int,
) -> (place: (int, int))
    requires
        0 <= k < model_options(m, connected).len(),
    ensures
        0 <= place.0 < m.len(),
        lookup(connected, m[place.0].1.id) is Some,
        0 <= place.1 < m[place.0].1.models.len(),
        m[place.0].1.models[place.1].1.status != Some(ModelStatus::Deprecated),
        model_options(m, connected)[k].value == m[place.0].1.id + "/"@
            + m[place.0].1.models[place.1].1.id,
    decreases m.len(),
{
    let before = model_options(m.drop_last(), connected);
    if k < before.len() {
        assert(model_options(m, connected)[k] == before[k]);
        only_connected_models_are_offered(m.drop_last(), connected, k)
    } else {
        let p = m.last().1;
        let j = provider_offers_its_own(p, p.models, k - before.len());
        assert(model_options(m, connected)[k] == provider_options(p, p.models)[k - before.len()]);
        (m.len() - 1, j)
    }
}

/// The choice that is marked is the first with the reference in use.
pub proof fn the_model_in_use_is_marked(options: Seq<ModelOptionView>, current: Seq<char>)
    ensures
        match option_of(options, current) {
            Some(i) => i < options.len() && options[i as int].value == current && forall|j: int|
                0 <= j < i ==> (#[trigger] options[j]).value != current,
            None => forall|j: int|
                0 <= j < options.len() ==> (#[trigger] options[j]).value != current,
        },
    decreases options.len(),
{
    if options.len() > 0 {
        let before = options.drop_last();
        the_model_in_use_is_marked(before, current);
        assert forall|j: int| 0 <= j < before.len() implies before[j] == #[trigger] options[j] by {}
        match option_of(before, current) {
            Some(i) => {
                assert(options[i as int] == before[i as int]);
            },
            None => {
                assert forall|j: int| 0 <= j < before.len() implies (#[trigger] options[j]).value
                    != current by {
                    assert(before[j] == options[j]);
                }
            },
        }
    }
}

proof fn rows_hold(
    m: Entries<ProviderInfoView>,
    connected: Credentials,
    first: bool,
    i: int,
) -> (k: int)
    requires
        0 <= i < m.len(),
        (m[i].1.id == "openai"@) == first,
    ensures
        0 <= k < rows_of(m, connected, first).len(),
        rows_of(m, connected, first)[k].id == m[i].1.id,
        rows_of(m, connected, first)[k].name == m[i].1.name,
        rows_of(m, connected, first)[k].connected == (lookup(connected, m[i].1.id) is Some),
        rows_of(m, connected, first)[k].method == (if first {
            "OAuth (cuenta ChatGPT Pro/Plus)"@
        } else {
            "API key"@
        }),
    decreases m.len(),
{
    let before = rows_of(m.drop_last(), connected, first);
    if i == m.len() - 1 {
        before.len() as int
    } else {
        assert(m.drop_last()[i] == m[i]);
        let k = rows_hold(m.drop_last(), connected, first, i);
        assert(rows_of(m, connected, first)[k] == before[k]);
        k
    }
}

proof fn rows_count(m: Entries<ProviderInfoView>, connected: Credentials)
    ensures
        rows_of(m, connected, true).len() + rows_of(m, connected, false).len() == m.len(),
        forall|k: int|
            0 <= k < rows_of(m, connected, true).len() ==> (#[trigger] rows_of(
                m,
                connected,
                true,
            )[k]).id == "openai"@,
        forall|k: int|
            0 <= k < rows_of(m, connected, false).len() ==> (#[trigger] rows_of(
                m,
                connected,
                false,
            )[k]).id != "openai"@,
    decreases m.len(),
{
    if m.len() > 0 {
        rows_count(m.drop_last(), connected);
    }
}

/// Every provider can be connected: each has one row, with its name, how it is connected and
/// whether it is. The one with an account comes before the others.
pub proof fn every_provider_has_a_row(
    m: Entries<ProviderInfoView>,
    connected: Credentials,
    i: int,
) -> (k: int)
    requires
        0 <= i < m.len(),
    ensures
        provider_rows(m, connected).len() == m.len(),
        0 <= k < m.len(),
        provider_rows(m, connected)[k].id == m[i].1.id,
        provider_rows(m, connected)[k].name == m[i].1.name,
        provider_rows(m, connected)[k].connected <==> lookup(connected, m[i].1.id) is Some,
        provider_rows(m, connected)[k].method == (if m[i].1.id == "openai"@ {
            "OAuth (cuenta ChatGPT Pro/Plus)"@
        } else {
            "API key"@
        }),
        forall|a: int, b: int|
            0 <= a < b < m.len() && (#[trigger] provider_rows(m, connected)[b]).id == "openai"@
                ==> (#[trigger] provider_rows(m, connected)[a]).id == "openai"@,
{
    let own = rows_of(m, connected, true);
    let others = rows_of(m, connected, false);
    let all = provider_rows(m, connected);
    rows_count(m, connected);
    assert forall|a: int, b: int|
        0 <= a < b < m.len() && (#[trigger] all[b]).id == "openai"@ implies (
    #[trigger] all[a]).id == "openai"@ by {
        if b >= own.len() {
            assert(all[b] == others[b - own.len()]);
        } else {
            assert(all[a] == own[a]);
        }
    }
    let first = m[i].1.id == "openai"@;
    let k = rows_hold(m, connected, first, i);
    if first {
        assert(all[k] == own[k]);
        k
    } else {
        assert(all[own.len() + k] == others[k]);
        own.len() + k
    }
}

/// The row that is marked first is the first one that is not connected.
pub proof fn the_first_open_provider_is_marked(rows: Seq<ProviderRowView>)
    ensures
        match first_open(rows) {
            Some(i) => i < rows.len() && !rows[i as int].connected && forall|j: int|
                0 <= j < i ==> (#[trigger] rows[j]).connected,
            None => forall|j: int| 0 <= j < rows.len() ==> (#[trigger] rows[j]).connected,
        },
    decreases rows.len(),
{
    if rows.len() > 0 {
        let before = rows.drop_last();
        the_first_open_provider_is_marked(before);
        assert forall|j: int| 0 <= j < before.len() implies before[j] == #[trigger] rows[j] by {}
        match first_open(before) {
            Some(i) => {
                assert(rows[i as int] == before[i as int]);
            },
            None => {
                assert forall|j: int| 0 <= j < before.len() implies (
                #[trigger] rows[j]).connected by {
                    assert(before[j] == rows[j]);
                }
            },
        }
    }
}

/// The accounts are those whose credentials are kept, each with its provider and its kind.
pub proof fn accounts_are_those_kept(c: Credentials, i: int)
    requires
        0 <= i < c.len(),
    ensures
        account_list(c).len() == c.len(),
        account_list(c)[i].0 == c[i].0,
        c[i].1 is Oauth ==> account_list(c)[i].1 == "OAuth (ChatGPT)"@,
        c[i].1 is Api ==> account_list(c)[i].1 == "API key"@,
{
}

/// While the user searches for nothing every row is shown; else those that hold what is searched
/// for, wherever in them it stands.
pub proof fn a_search_shows_what_holds_it(a: Seq<char>, needle: Seq<char>, b: Seq<char>)
    ensures
        shown(a + needle + b, needle),
        shown(a, seq![]),
        shown(a, needle) && needle.len() > 0 ==> occurs_in(a, needle),
{
    let s = a + needle + b;
    assert(s.subrange(a.len() as int, (a.len() + needle.len()) as int) =~= needle);
    assert(crate::search::occurs_at(s, needle, a.len() as int));
}

// ── Files in view ─────────────────────────────────────────────────────────────

/// The first file is in view first; going on and going back move by one file and keep the list.
/// The bar names the file in view, its number counted from one and how many there are.
pub proof fn the_file_in_view_is_named(n: NavView, files: Seq<Seq<char>>)
    ensures
        nav_of(files).index == 0 && nav_of(files).files == files,
        nav_forward(n).index == n.index + 1 && nav_forward(n).files == n.files,
        n.index > 0 ==> nav_back(n).index == n.index - 1 && nav_back(n).files == n.files,
        nav_markup(n) == "<b>"@ + crate::markup::escaped(n.files[n.index as int]) + "</b> ("@
            + decimal(n.index + 1) + "/"@ + decimal(n.files.len()) + ")"@,
{
}

/// The buttons of the bar lead where there is a file to go to: back from all but the first, on
/// from all but the last.
pub proof fn the_buttons_lead_to_a_file(n: NavView)
    requires
        n.index < n.files.len(),
    ensures
        nav_label(n) matches EffectView::NavLabel { markup, prev, next } && markup == nav_markup(n)
            && (prev <==> n.index != 0) && (next <==> n.index != n.files.len() - 1),
{
}

// ── What is known ─────────────────────────────────────────────────────────────

/// The engine speaks for ten client libraries.
pub proof fn libraries_that_are_spoken_for(npm: Seq<char>)
    ensures
        is_compatible_npm(npm) <==> seq![
            "@ai-sdk/openai-compatible"@,
            "@ai-sdk/openai"@,
            "@ai-sdk/groq"@,
            "@ai-sdk/togetherai"@,
            "@ai-sdk/deepinfra"@,
            "@ai-sdk/cerebras"@,
            "@ai-sdk/mistral"@,
            "@ai-sdk/perplexity"@,
            "@ai-sdk/xai"@,
            "@ai-sdk/vercel"@,
        ].contains(npm),
{
    let all = seq![
        "@ai-sdk/openai-compatible"@,
        "@ai-sdk/openai"@,
        "@ai-sdk/groq"@,
        "@ai-sdk/togetherai"@,
        "@ai-sdk/deepinfra"@,
        "@ai-sdk/cerebras"@,
        "@ai-sdk/mistral"@,
        "@ai-sdk/perplexity"@,
        "@ai-sdk/xai"@,
        "@ai-sdk/vercel"@,
    ];
    assert(all[0] == "@ai-sdk/openai-compatible"@ && all[1] == "@ai-sdk/openai"@);
    assert(all[2] == "@ai-sdk/groq"@ && all[3] == "@ai-sdk/togetherai"@);
    assert(all[4] == "@ai-sdk/deepinfra"@ && all[5] == "@ai-sdk/cerebras"@);
    assert(all[6] == "@ai-sdk/mistral"@ && all[7] == "@ai-sdk/perplexity"@);
    assert(all[8] == "@ai-sdk/xai"@ && all[9] == "@ai-sdk/vercel"@);
}

/// Eight providers need not name their address, and no two of them have the same.
pub proof fn known_addresses_differ(a: Seq<char>, b: Seq<char>)
    ensures
        known_base_url(a) is Some <==> seq![
            "openai"@,
            "groq"@,
            "mistral"@,
            "perplexity"@,
            "xai"@,
            "cerebras"@,
            "deepinfra"@,
            "togetherai"@,
        ].contains(a),
        known_base_url(a) is Some && known_base_url(a) == known_base_url(b) ==> a == b,
{
    let all = seq![
        "openai"@,
        "groq"@,
        "mistral"@,
        "perplexity"@,
        "xai"@,
        "cerebras"@,
        "deepinfra"@,
        "togetherai"@,
    ];
    assert(all[0] == "openai"@ && all[1] == "groq"@ && all[2] == "mistral"@);
    assert(all[3] == "perplexity"@ && all[4] == "xai"@ && all[5] == "cerebras"@);
    assert(all[6] == "deepinfra"@ && all[7] == "togetherai"@);
    reveal_strlit("https://api.openai.com/v1");
    reveal_strlit("https://api.groq.com/openai/v1");
    reveal_strlit("https://api.mistral.ai/v1");
    reveal_strlit("https://api.perplexity.ai");
    reveal_strlit("https://api.x.ai/v1");
    reveal_strlit("https://api.cerebras.ai/v1");
    reveal_strlit("https://api.deepinfra.com/v1/openai");
    reveal_strlit("https://api.together.xyz/v1");
    assert("https://api.openai.com/v1"@[12] == 'o' && "https://api.groq.com/openai/v1"@[12] == 'g');
    assert("https://api.mistral.ai/v1"@[12] == 'm' && "https://api.perplexity.ai"@[12] == 'p');
    assert("https://api.x.ai/v1"@[12] == 'x' && "https://api.cerebras.ai/v1"@[12] == 'c');
    assert("https://api.deepinfra.com/v1/openai"@[12] == 'd');
    assert("https://api.together.xyz/v1"@[12] == 't');
}

/// There is a key in the environment where a variable of some provider is defined there, and only
/// then.
pub proof fn any_key_will_do(
    m: Entries<ProviderInfoView>,
    defined: Seq<Seq<char>>,
    i: int,
    j: int,
)
    requires
        0 <= i < m.len(),
        0 <= j < m[i].1.env.len(),
    ensures
        defined.contains(m[i].1.env[j]) ==> any_key(m, defined),
        !any_key(m, defined) ==> !defined.contains(m[i].1.env[j]),
        !any_key(m, seq![]),
{
    if defined.contains(m[i].1.env[j]) {
        assert(any_defined(m[i].1.env, defined));
    }
}

/// The palette has one command for everything that it can do; the one for the chains of thought
/// is named by what it will do with them.
pub proof fn the_palette_has_every_command(action: CommandPaletteAction, shown: bool) -> (k: int)
    ensures
        0 <= k < command_list(shown).len(),
        command_list(shown)[k].action == action,
        forall|i: int|
            0 <= i < command_list(shown).len() && i != k ==> (#[trigger] command_list(
                shown,
            )[i]).action != action,
        action == CommandPaletteAction::ToggleThinking ==> command_list(shown)[k].title == (
        if shown {
            "Ocultar Thinking"@
        } else {
            "Mostrar Thinking"@
        }),
{
    match action {
        CommandPaletteAction::SelectModel => 0,
        CommandPaletteAction::ConnectProvider => 1,
        CommandPaletteAction::NewSession => 2,
        CommandPaletteAction::ToggleThinking => 3,
        CommandPaletteAction::Quit => 4,
    }
}

/// The row that the user selected is the one that is taken, as long as it is shown.
pub proof fn a_selected_row_is_taken(rows: Seq<Seq<char>>, needle: Seq<char>, i: nat)
    requires
        i < rows.len(),
    ensures
        shown(rows[i as int], needle) ==> taken(rows, needle, Some(i)) == Some(i),
        !shown(rows[i as int], needle) ==> taken(rows, needle, Some(i)) == taken(
            rows,
            needle,
            None,
        ),
{
}

/// Models, and providers, that were gathered one by one are found under their own identifiers; of
/// two with the same identifier the later one counts.
pub proof fn what_was_gathered_is_found(
    models: Seq<ModelInfoView>,
    m: ModelInfoView,
    providers: Seq<ProviderInfoView>,
    p: ProviderInfoView,
    other: Seq<char>,
)
    ensures
        lookup(models_by_id(models.push(m)), m.id) == Some(m),
        other != m.id ==> lookup(models_by_id(models.push(m)), other) == lookup(
            models_by_id(models),
            other,
        ),
        lookup(by_id(providers.push(p)), p.id) == Some(p),
        other != p.id ==> lookup(by_id(providers.push(p)), other) == lookup(
            by_id(providers),
            other,
        ),
{
    assert(models.push(m).drop_last() =~= models);
    assert(providers.push(p).drop_last() =~= providers);
    lookup_inserted(models_by_id(models), m.id, m, m.id);
    lookup_inserted(models_by_id(models), m.id, m, other);
    lookup_inserted(by_id(providers), p.id, p, p.id);
    lookup_inserted(by_id(providers), p.id, p, other);
}

} // verus!
