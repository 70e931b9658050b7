//! What the dialogs show, and what the user picks in them.
use vstd::prelude::*;
use crate::auth::{auth_view, AuthInfo, AuthStore, AuthView, Credentials};
use crate::catalog::{any_defined, ref_text, Catalog, ModelInfoView, ModelRef, ModelRefView,
    ModelStatus, ProviderInfoView};
use crate::map::{entry_views, lookup, mapped, Entries};
use crate::msg::{Msg, MsgView};
use crate::search::{contains, occurs_in};
use crate::text::{concat3, opt_view, owned, str_eq, trim, trimmed, views};
use crate::uri::pair_views;

verus! {

// ── Searching ─────────────────────────────────────────────────────────────────

/// A text in lower case.
pub uninterp spec fn lowered(s: Seq<char>) -> Seq<char>;

/// `str::to_lowercase` of std: the text in lower case, by the tables of Unicode. Which text that
/// is, is named and not stated.
#[verifier::external_body]
fn to_lower(s: &str) -> (r: String)
    ensures
        r@ == lowered(s@),
{
    s.to_lowercase()
}

/// A text as rows and searches hold it: in lower case.
pub fn lower(s: &str) -> (r: String)
    ensures
        r@ == lowered(s@),
{
    to_lower(s)
}

/// Whether a row with the text `row` is shown while the user searches for `needle`, both in lower
/// case.
pub open spec fn shown(row: Seq<char>, needle: Seq<char>) -> bool {
    needle.len() == 0 || occurs_in(row, needle)
}

/// Whether a row is shown.
pub fn row_matches(row: &str, needle: &str) -> (r: bool)
    ensures
        r == shown(row@, needle@),
{
    needle.is_empty() || contains(row, needle)
}

/// The first row that is shown.
pub open spec fn first_shown(rows: Seq<Seq<char>>, needle: Seq<char>) -> Option<nat>
    decreases rows.len(),
{
    if rows.len() == 0 {
        None
    } else {
        match first_shown(rows.drop_last(), needle) {
            Some(i) => Some(i),
            None => if shown(rows.last(), needle) {
                Some((rows.len() - 1) as nat)
            } else {
                None
            },
        }
    }
}

/// A place in a list.
pub open spec fn opt_place(i: Option<usize>) -> Option<nat> {
    match i {
        Some(i) => Some(i as nat),
        None => None,
    }
}

proof fn first_shown_stays(rows: Seq<Seq<char>>, needle: Seq<char>, n: int)
    requires
        0 <= n <= rows.len(),
        first_shown(rows.take(n), needle) is Some,
    ensures
        first_shown(rows, needle) == first_shown(rows.take(n), needle),
    decreases rows.len() - n,
{
    if n == rows.len() {
        assert(rows.take(n) =~= rows);
    } else {
        assert(rows.take(n + 1).drop_last() =~= rows.take(n));
        first_shown_stays(rows, needle, n + 1);
    }
}

/// The first row that is shown, which a search selects.
pub fn first_matching_row(rows: &Vec<String>, needle: &str) -> (r: Option<usize>)
    ensures
        opt_place(r) == first_shown(views(rows@), needle@),
{
    let ghost all = views(rows@);
    let mut i: usize = 0;
    assert(all.take(0) =~= seq![]);
    while i < rows.len()
        invariant
            i <= rows.len(),
            all == views(rows@),
            first_shown(all.take(i as int), needle@) is None,
        decreases rows.len() - i,
    {
        assert(all.take(i + 1).drop_last() =~= all.take(i as int));
        assert(all.take(i + 1).last() == rows@[i as int]@);
        if row_matches(rows[i].as_str(), needle) {
            proof {
                first_shown_stays(all, needle@, i + 1);
            }
            return Some(i);
        }
        i = i + 1;
    }
    assert(all.take(i as int) =~= all);
    None
}

/// The row that the user takes: the selected one where it is shown, else the first that is.
pub open spec fn taken(rows: Seq<Seq<char>>, needle: Seq<char>, selected: Option<nat>) -> Option<
    nat,
> {
    if selected matches Some(i) && i < rows.len() && shown(rows[i as int], needle) {
        selected
    } else {
        first_shown(rows, needle)
    }
}

/// The row that the user takes.
pub fn taken_row(rows: &Vec<String>, needle: &str, selected: Option<usize>) -> (r: Option<usize>)
    ensures
        opt_place(r) == taken(views(rows@), needle@, opt_place(selected)),
{
    if let Some(i) = selected {
        if i < rows.len() {
            assert(views(rows@)[i as int] == rows@[i as int]@);
            if row_matches(rows[i].as_str(), needle) {
                return Some(i);
            }
        }
    }
    first_matching_row(rows, needle)
}

/// A row that a search selects is shown, and none before it is.
pub proof fn search_selects_the_first(rows: Seq<Seq<char>>, needle: Seq<char>)
    ensures
        match first_shown(rows, needle) {
            Some(i) => i < rows.len() && shown(rows[i as int], needle) && forall|j: int|
                0 <= j < i ==> !shown(#[trigger] rows[j], needle),
            None => forall|j: int| 0 <= j < rows.len() ==> !shown(#[trigger] rows[j], needle),
        },
    decreases rows.len(),
{
    if rows.len() > 0 {
        let before = rows.drop_last();
        search_selects_the_first(before, needle);
        assert forall|j: int| 0 <= j < before.len() implies before[j] == #[trigger] rows[j] by {}
        match first_shown(before, needle) {
            Some(i) => {
                assert(rows[i as int] == before[i as int]);
                assert forall|j: int| 0 <= j < i implies !shown(#[trigger] rows[j], needle) by {
                    assert(before[j] == rows[j]);
                }
            },
            None => {
                assert forall|j: int| 0 <= j < before.len() implies !shown(
                    #[trigger] rows[j],
                    needle,
                ) by {
                    assert(before[j] == rows[j]);
                }
            },
        }
    }
}

/// The user takes only rows that are shown.
pub proof fn taken_rows_are_shown(
    rows: Seq<Seq<char>>,
    needle: Seq<char>,
    selected: Option<nat>,
)
    ensures
        taken(rows, needle, selected) matches Some(i) ==> i < rows.len() && shown(
            rows[i as int],
            needle,
        ),
{
    search_selects_the_first(rows, needle);
}

// ── Commands ──────────────────────────────────────────────────────────────────

/// What a command of the palette does.
#[derive(Debug, Clone, Copy, PartialEq, Eq, Structural)]
pub enum CommandPaletteAction {
    SelectModel,
    ConnectProvider,
    NewSession,
    ToggleThinking,
    Quit,
}

/// A command of the palette.
#[derive(Debug)]
pub struct Command {
    pub action: CommandPaletteAction,
    pub title: &'static str,
    pub description: &'static str,
}

/// What a [`Command`] holds.
pub struct CommandView {
    pub action: CommandPaletteAction,
    pub title: Seq<char>,
    pub description: Seq<char>,
}

impl View for Command {
    type V = CommandView;

    open spec fn view(&self) -> CommandView {
        CommandView {
            action: self.action,
            title: self.title@,
            description: self.description@,
        }
    }
}

/// The commands of the palette.
pub open spec fn command_list(show_reasoning: bool) -> Seq<CommandView> {
    seq![
        CommandView {
            action: CommandPaletteAction::SelectModel,
            title: "Seleccionar Modelo"@,
            description: "Cambiar el modelo activo"@,
        },
        CommandView {
            action: CommandPaletteAction::ConnectProvider,
            title: "Conectar Proveedor"@,
            description: "Agregar una cuenta o API key"@,
        },
        CommandView {
            action: CommandPaletteAction::NewSession,
            title: "Nueva Sesión"@,
            description: "Crear una conversación nueva"@,
        },
        CommandView {
            action: CommandPaletteAction::ToggleThinking,
            title: if show_reasoning {
                "Ocultar Thinking"@
            } else {
                "Mostrar Thinking"@
            },
            description: "Alternar visibilidad del razonamiento"@,
        },
        CommandView {
            action: CommandPaletteAction::Quit,
            title: "Salir"@,
            description: "Cerrar xiě-code"@,
        },
    ]
}

/// The commands of the palette; `show_reasoning` says whether chains of thought are shown.
pub fn palette_commands(show_reasoning: bool) -> (r: Vec<Command>)
    ensures
        r@.map_values(|c: Command| c@) == command_list(show_reasoning),
{
    let mut v: Vec<Command> = Vec::new();
    v.push(
        Command {
            action: CommandPaletteAction::SelectModel,
            title: "Seleccionar Modelo",
            description: "Cambiar el modelo activo",
        },
    );
    v.push(
        Command {
            action: CommandPaletteAction::ConnectProvider,
            title: "Conectar Proveedor",
            description: "Agregar una cuenta o API key",
        },
    );
    v.push(
        Command {
            action: CommandPaletteAction::NewSession,
            title: "Nueva Sesión",
            description: "Crear una conversación nueva",
        },
    );
    let title = if show_reasoning {
        "Ocultar Thinking"
    } else {
        "Mostrar Thinking"
    };
    v.push(
        Command {
            action: CommandPaletteAction::ToggleThinking,
            title,
            description: "Alternar visibilidad del razonamiento",
        },
    );
    v.push(
        Command {
            action: CommandPaletteAction::Quit,
            title: "Salir",
            description: "Cerrar xiě-code",
        },
    );
    assert(v@.map_values(|c: Command| c@) =~= command_list(show_reasoning));
    v
}

/// The text by which a command is found.
pub fn command_needle(c: &Command) -> (r: String)
    ensures
        r@ == lowered(c@.title + " "@ + c@.description),
{
    to_lower(concat3(c.title, " ", c.description).as_str())
}

/// What a command of the palette is to the application. Chains of thought that are shown are
/// hidden, and the other way round.
pub open spec fn command_message(action: CommandPaletteAction, show_reasoning: bool) -> MsgView {
    match action {
        CommandPaletteAction::SelectModel => MsgView::OpenModelPicker,
        CommandPaletteAction::ConnectProvider => MsgView::OpenConnectProvider,
        CommandPaletteAction::NewSession => MsgView::NewSession,
        CommandPaletteAction::ToggleThinking => MsgView::ToggleReasoning(!show_reasoning),
        CommandPaletteAction::Quit => MsgView::Quit,
    }
}

/// What a command of the palette is to the application.
pub fn command_msg(action: CommandPaletteAction, show_reasoning: bool) -> (r: Msg)
    ensures
        r@ == command_message(action, show_reasoning),
{
    match action {
        CommandPaletteAction::SelectModel => Msg::OpenModelPicker,
        CommandPaletteAction::ConnectProvider => Msg::OpenConnectProvider,
        CommandPaletteAction::NewSession => Msg::NewSession,
        CommandPaletteAction::ToggleThinking => Msg::ToggleReasoning(!show_reasoning),
        CommandPaletteAction::Quit => Msg::Quit,
    }
}

// ── Models ────────────────────────────────────────────────────────────────────

/// A model to choose: `value` is its reference, `label` what is shown.
#[derive(Debug)]
pub struct ModelOption {
    pub value: String,
    pub label: String,
}

/// What a [`ModelOption`] holds.
pub struct ModelOptionView {
    pub value: Seq<char>,
    pub label: Seq<char>,
}

impl View for ModelOption {
    type V = ModelOptionView;

    open spec fn view(&self) -> ModelOptionView {
        ModelOptionView { value: self.value@, label: self.label@ }
    }
}

/// The views of a list of models to choose.
pub open spec fn option_views(v: Seq<ModelOption>) -> Seq<ModelOptionView> {
    v.map_values(|o: ModelOption| o@)
}

/// A model to choose.
pub open spec fn model_option(p: ProviderInfoView, m: ModelInfoView) -> ModelOptionView {
    ModelOptionView {
        value: ref_text(ModelRefView { provider_id: p.id, model_id: m.id }),
        label: (match m.name {
            Some(n) => n,
            None => m.id,
        }) + "  ·  "@ + p.name,
    }
}

/// The models of a provider to choose: all but those that are on their way out.
pub open spec fn provider_options(p: ProviderInfoView, models: Entries<ModelInfoView>) -> Seq<
    ModelOptionView,
>
    decreases models.len(),
{
    if models.len() == 0 {
        seq![]
    } else {
        let before = provider_options(p, models.drop_last());
        if models.last().1.status == Some(ModelStatus::Deprecated) {
            before
        } else {
            before.push(model_option(p, models.last().1))
        }
    }
}

/// The models to choose: those of the providers that the user has connected.
pub open spec fn model_options(m: Entries<ProviderInfoView>, connected: Credentials) -> Seq<
    ModelOptionView,
>
    decreases m.len(),
{
    if m.len() == 0 {
        seq![]
    } else {
        let before = model_options(m.drop_last(), connected);
        let p = m.last().1;
        if lookup(connected, p.id) is Some {
            before + provider_options(p, p.models)
        } else {
            before
        }
    }
}

/// The models to choose: those of the providers that the user has connected.
pub fn catalog_model_options(catalog: &Catalog, connected: &AuthStore) -> (r: Vec<ModelOption>)
    ensures
        option_views(r@) == model_options(catalog@, connected@),
{
    let providers = catalog.providers();
    let ghost m = catalog@;
    let mut out: Vec<ModelOption> = Vec::new();
    assert(option_views(out@) =~= seq![]);
    assert(m.take(0) =~= seq![]);
    let mut i: usize = 0;
    while i < providers.len()
        invariant
            i <= providers.len(),
            providers@.len() == m.len(),
            forall|k: int| 0 <= k < m.len() ==> (#[trigger] providers@[k])@ == m[k].1,
            option_views(out@) == model_options(m.take(i as int), connected@),
        decreases providers.len() - i,
    {
        let p = providers[i];
        assert(m.take(i + 1).drop_last() =~= m.take(i as int));
        assert(m.take(i + 1).last() == m[i as int]);
        if connected.has(p.id.as_str()) {
            let ghost before = option_views(out@);
            let entries = p.models.entries();
            let ghost models = p@.models;
            let mut j: usize = 0;
            assert(models.take(0) =~= seq![]);
            assert(before + provider_options(p@, models.take(0)) =~= before);
            while j < entries.len()
                invariant
                    j <= entries.len(),
                    models == p@.models,
                    entries@.len() == models.len(),
                    entry_views(entries@) == p.models@,
                    option_views(out@) == before + provider_options(p@, models.take(j as int)),
                decreases entries.len() - j,
            {
                let info = &entries[j].1;
                assert(models[j as int].1 == entry_views(entries@)[j as int].1@);
                assert(models.take(j + 1).drop_last() =~= models.take(j as int));
                assert(models.take(j + 1).last() == models[j as int]);
                let deprecated = match info.status {
                    Some(ModelStatus::Deprecated) => true,
                    _ => false,
                };
                if !deprecated {
                    let name = match &info.name {
                        Some(n) => n.as_str(),
                        None => info.id.as_str(),
                    };
                    let o = ModelOption {
                        value: ModelRef::new(p.id.as_str(), info.id.as_str()).to_string(),
                        label: concat3(name, "  ·  ", p.name.as_str()),
                    };
                    let ghost prior = out@;
                    out.push(o);
                    assert(option_views(out@) =~= option_views(prior).push(o@));
                    assert(option_views(out@) =~= before + provider_options(
                        p@,
                        models.take(j as int),
                    ).push(model_option(p@, info@)));
                }
                j = j + 1;
            }
            assert(models.take(j as int) =~= models);
        }
        i = i + 1;
    }
    assert(m.take(i as int) =~= m);
    out
}

/// The row of the reference `current`.
pub open spec fn option_of(options: Seq<ModelOptionView>, current: Seq<char>) -> Option<nat>
    decreases options.len(),
{
    if options.len() == 0 {
        None
    } else {
        match option_of(options.drop_last(), current) {
            Some(i) => Some(i),
            None => if options.last().value == current {
                Some((options.len() - 1) as nat)
            } else {
                None
            },
        }
    }
}

proof fn option_of_stays(options: Seq<ModelOptionView>, current: Seq<char>, n: int)
    requires
        0 <= n <= options.len(),
        option_of(options.take(n), current) is Some,
    ensures
        option_of(options, current) == option_of(options.take(n), current),
    decreases options.len() - n,
{
    if n == options.len() {
        assert(options.take(n) =~= options);
    } else {
        assert(options.take(n + 1).drop_last() =~= options.take(n));
        option_of_stays(options, current, n + 1);
    }
}

/// The row that is selected at first: that of the model in use, else the first.
pub fn selected_option(options: &Vec<ModelOption>, current: &str) -> (r: Option<usize>)
    ensures
        opt_place(r) == (match option_of(option_views(options@), current@) {
            Some(i) => Some(i),
            None => if options@.len() == 0 {
                None
            } else {
                Some(0nat)
            },
        }),
{
    let ghost all = option_views(options@);
    let mut i: usize = 0;
    assert(all.take(0) =~= seq![]);
    while i < options.len()
        invariant
            i <= options.len(),
            all == option_views(options@),
            option_of(all.take(i as int), current@) is None,
        decreases options.len() - i,
    {
        assert(all.take(i + 1).drop_last() =~= all.take(i as int));
        assert(all.take(i + 1).last() == options@[i as int]@);
        if str_eq(options[i].value.as_str(), current) {
            proof {
                option_of_stays(all, current@, i + 1);
            }
            return Some(i);
        }
        i = i + 1;
    }
    assert(all.take(i as int) =~= all);
    if options.len() == 0 {
        None
    } else {
        Some(0)
    }
}

/// Whether one of the providers has a key in the environment.
pub open spec fn any_key(m: Entries<ProviderInfoView>, defined: Seq<Seq<char>>) -> bool {
    exists|i: int| 0 <= i < m.len() && any_defined((#[trigger] m[i]).1.env, defined)
}

/// Whether one of the providers has a key in the environment.
pub fn any_provider_key_present(catalog: &Catalog, defined: &Vec<String>) -> (r: bool)
    ensures
        r == any_key(catalog@, views(defined@)),
{
    let providers = catalog.providers();
    let mut i: usize = 0;
    while i < providers.len()
        invariant
            i <= providers.len(),
            providers@.len() == catalog@.len(),
            forall|k: int|
                0 <= k < catalog@.len() ==> (#[trigger] providers@[k])@ == catalog@[k].1,
            forall|k: int|
                0 <= k < i ==> !any_defined((#[trigger] catalog@[k]).1.env, views(defined@)),
        decreases providers.len() - i,
    {
        if providers[i].has_api_key(defined) {
            assert(any_defined(catalog@[i as int].1.env, views(defined@)));
            return true;
        }
        i = i + 1;
    }
    false
}

// ── Accounts ──────────────────────────────────────────────────────────────────

/// The kind of a credential, for display.
pub open spec fn account_kind(a: AuthView) -> Seq<char> {
    match a {
        AuthView::Oauth { .. } => "OAuth (ChatGPT)"@,
        AuthView::Api { .. } => "API key"@,
    }
}

/// The accounts that are connected: provider and kind.
pub open spec fn account_list(c: Credentials) -> Seq<(Seq<char>, Seq<char>)> {
    c.map_values(|e: (Seq<char>, AuthView)| (e.0, account_kind(e.1)))
}

/// The accounts that are connected: provider and kind.
pub fn connected_accounts(auth: &AuthStore) -> (r: Vec<(String, String)>)
    ensures
        pair_views(r@) == account_list(auth@),
{
    let all = auth.all();
    let mut out: Vec<(String, String)> = Vec::new();
    let mut i: usize = 0;
    while i < all.len()
        invariant
            i <= all.len(),
            mapped(entry_views(all@), auth_view()) == auth@,
            out@.len() == i,
            forall|j: int|
                0 <= j < i ==> (#[trigger] out@[j]).0@ == auth@[j].0 && out@[j].1@ == account_kind(
                    auth@[j].1,
                ),
        decreases all.len() - i,
    {
        assert(auth@[i as int] == (
            entry_views(all@)[i as int].0,
            entry_views(all@)[i as int].1@,
        ));
        let kind = match &all[i].1 {
            AuthInfo::Oauth { .. } => "OAuth (ChatGPT)",
            AuthInfo::Api { .. } => "API key",
        };
        out.push((all[i].0.clone(), owned(kind)));
        i = i + 1;
    }
    assert(auth@.len() == all@.len());
    assert(pair_views(out@) =~= account_list(auth@));
    out
}

/// The row of an account.
pub fn account_label(id: &str, kind: &str) -> (r: String)
    ensures
        r@ == id@ + " · "@ + kind@,
{
    concat3(id, " · ", kind)
}

/// A provider that may be connected.
#[derive(Debug)]
pub struct ProviderRow {
    pub id: String,
    pub name: String,
    /// How it is connected.
    pub method: &'static str,
    pub connected: bool,
}

/// What a [`ProviderRow`] holds.
pub struct ProviderRowView {
    pub id: Seq<char>,
    pub name: Seq<char>,
    pub method: Seq<char>,
    pub connected: bool,
}

impl View for ProviderRow {
    type V = ProviderRowView;

    open spec fn view(&self) -> ProviderRowView {
        ProviderRowView {
            id: self.id@,
            name: self.name@,
            method: self.method@,
            connected: self.connected,
        }
    }
}

/// The views of a list of providers that may be connected.
pub open spec fn row_views(v: Seq<ProviderRow>) -> Seq<ProviderRowView> {
    v.map_values(|r: ProviderRow| r@)
}

/// A provider that may be connected.
pub open spec fn provider_row(p: ProviderInfoView, connected: Credentials) -> ProviderRowView {
    ProviderRowView {
        id: p.id,
        name: p.name,
        method: if p.id == "openai"@ {
            "OAuth (cuenta ChatGPT Pro/Plus)"@
        } else {
            "API key"@
        },
        connected: lookup(connected, p.id) is Some,
    }
}

/// Of the providers, those that are the one with an account (`first`), or those that are not, in
/// their order.
pub open spec fn rows_of(
    m: Entries<ProviderInfoView>,
    connected: Credentials,
    first: bool,
) -> Seq<ProviderRowView>
    decreases m.len(),
{
    if m.len() == 0 {
        seq![]
    } else {
        let before = rows_of(m.drop_last(), connected, first);
        if (m.last().1.id == "openai"@) == first {
            before.push(provider_row(m.last().1, connected))
        } else {
            before
        }
    }
}

/// The providers that may be connected: the one with an account first, then the others, each in
/// the order of the catalogue.
pub open spec fn provider_rows(m: Entries<ProviderInfoView>, connected: Credentials) -> Seq<
    ProviderRowView,
> {
    rows_of(m, connected, true) + rows_of(m, connected, false)
}

fn add_rows(out: &mut Vec<ProviderRow>, catalog: &Catalog, connected: &AuthStore, first: bool)
    ensures
        row_views(final(out)@) == row_views(old(out)@) + rows_of(catalog@, connected@, first),
{
    let providers = catalog.providers();
    let ghost m = catalog@;
    let ghost start = row_views(out@);
    assert(m.take(0) =~= seq![]);
    assert(start + rows_of(m.take(0), connected@, first) =~= start);
    let mut i: usize = 0;
    while i < providers.len()
        invariant
            i <= providers.len(),
            providers@.len() == m.len(),
            start == row_views(old(out)@),
            forall|k: int| 0 <= k < m.len() ==> (#[trigger] providers@[k])@ == m[k].1,
            row_views(out@) == start + rows_of(m.take(i as int), connected@, first),
        decreases providers.len() - i,
    {
        let p = providers[i];
        assert(m.take(i + 1).drop_last() =~= m.take(i as int));
        assert(m.take(i + 1).last() == m[i as int]);
        let own = str_eq(p.id.as_str(), "openai");
        if own == first {
            let row = ProviderRow {
                id: p.id.clone(),
                name: p.name.clone(),
                method: if own {
                    "OAuth (cuenta ChatGPT Pro/Plus)"
                } else {
                    "API key"
                },
                connected: connected.has(p.id.as_str()),
            };
            let ghost prior = out@;
            out.push(row);
            assert(row_views(out@) =~= row_views(prior).push(row@));
            assert(row_views(out@) =~= start + rows_of(
                m.take(i as int),
                connected@,
                first,
            ).push(row@));
        }
        i = i + 1;
    }
    assert(m.take(i as int) =~= m);
}

/// The providers that may be connected.
pub fn connectable_providers(catalog: &Catalog, connected: &AuthStore) -> (r: Vec<ProviderRow>)
    ensures
        row_views(r@) == provider_rows(catalog@, connected@),
{
    let mut out: Vec<ProviderRow> = Vec::new();
    assert(row_views(out@) =~= seq![]);
    add_rows(&mut out, catalog, connected, true);
    add_rows(&mut out, catalog, connected, false);
    assert(row_views(out@) =~= provider_rows(catalog@, connected@));
    out
}

/// The text by which a provider is found.
pub fn provider_needle(row: &ProviderRow) -> (r: String)
    ensures
        r@ == lowered(row@.id + " "@ + row@.name),
{
    to_lower(concat3(row.id.as_str(), " ", row.name.as_str()).as_str())
}

/// The first provider that is not connected.
pub open spec fn first_open(rows: Seq<ProviderRowView>) -> Option<nat>
    decreases rows.len(),
{
    if rows.len() == 0 {
        None
    } else {
        match first_open(rows.drop_last()) {
            Some(i) => Some(i),
            None => if rows.last().connected {
                None
            } else {
                Some((rows.len() - 1) as nat)
            },
        }
    }
}

proof fn first_open_stays(rows: Seq<ProviderRowView>, n: int)
    requires
        0 <= n <= rows.len(),
        first_open(rows.take(n)) is Some,
    ensures
        first_open(rows) == first_open(rows.take(n)),
    decreases rows.len() - n,
{
    if n == rows.len() {
        assert(rows.take(n) =~= rows);
    } else {
        assert(rows.take(n + 1).drop_last() =~= rows.take(n));
        first_open_stays(rows, n + 1);
    }
}

/// The row that is selected at first: the first provider that is not connected.
pub fn selected_provider(rows: &Vec<ProviderRow>) -> (r: Option<usize>)
    ensures
        opt_place(r) == first_open(row_views(rows@)),
{
    let ghost all = row_views(rows@);
    let mut i: usize = 0;
    assert(all.take(0) =~= seq![]);
    while i < rows.len()
        invariant
            i <= rows.len(),
            all == row_views(rows@),
            first_open(all.take(i as int)) is None,
        decreases rows.len() - i,
    {
        assert(all.take(i + 1).drop_last() =~= all.take(i as int));
        assert(all.take(i + 1).last() == rows@[i as int]@);
        if !rows[i].connected {
            proof {
                first_open_stays(all, i + 1);
            }
            return Some(i);
        }
        i = i + 1;
    }
    assert(all.take(i as int) =~= all);
    None
}

/// The provider that the user picks in a row; none where it is connected already.
pub fn picked_provider(rows: &Vec<ProviderRow>, row: usize) -> (r: Option<String>)
    ensures
        opt_view(r) == (if row < rows@.len() && !rows@[row as int].connected {
            Some(rows@[row as int].id@)
        } else {
            None
        }),
{
    if row < rows.len() && !rows[row].connected {
        Some(rows[row].id.clone())
    } else {
        None
    }
}

/// What the user typed, without white space around it; nothing where it is blank.
pub fn entered_text(text: &str) -> (r: Option<String>)
    ensures
        opt_view(r) == (if trimmed(text@).len() == 0 {
            None
        } else {
            Some(trimmed(text@))
        }),
{
    let typed = trim(text);
    if typed.as_str().is_empty() {
        None
    } else {
        Some(typed)
    }
}

} // verus!
