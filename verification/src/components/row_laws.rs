//! What the rows of the model picker say, and how they are put together.

use super::list_picker::PickerItem;
use super::model_rows;
use super::model_rows::{ModelEntry, ModelRow};
use crate::models::{Effort, ModelTier};
use crate::registry;
use crate::registry::{ModelFacts, ProviderNames, Registry, RoleHolder};
use crate::text;
use crate::text_laws;
use vstd::prelude::*;

verus! {

/// A spec is the provider up to the first slash and the model behind it. It has a row
/// exactly when there is a slash and the provider is known, and the row says which
/// model of which provider it is.
pub proof fn law_a_row_says_which_model_it_is(
    registry: Registry,
    provider: Seq<char>,
    model: Seq<char>,
)
    requires
        !provider.contains('/'),
    ensures
        model_rows::parsed(registry, provider) is None,
        ({
            let spec = provider + seq!['/'] + model;
            &&& model_rows::parsed(registry, spec) is Some <==> registry.provider_name(
                provider,
            ) is Some
            &&& model_rows::parsed(registry, spec) matches Some(row) ==> {
                &&& row.spec == spec
                &&& row.id == model
                &&& Some(row.provider_display) == registry.provider_name(provider)
                &&& row.suffix is None
                &&& !row.is_role
            }
            &&& model_rows::model_of(spec) == model
        }),
        model_rows::model_of(provider) == provider,
{
    let spec = provider + seq!['/'] + model;
    text_laws::law_a_separator_ends_a_piece(provider, model, '/');
    assert(spec[provider.len() as int] == '/');
    assert(spec.contains('/'));
    assert(spec.take(provider.len() as int) =~= provider);
    assert(spec.skip(provider.len() as int + 1) =~= model);
}

/// An entry is found by the name of its model, with what follows it behind; it stands
/// under its provider, stands out while the user gave it a role, and is part of the list
/// proper unless it is that of a role.
pub proof fn law_what_an_entry_is_in_the_list(entry: ModelEntry)
    ensures
        entry.called() == entry.id@,
        entry.called_after() == text::option_view(entry.suffix),
        entry.detailed() == Some(entry.detail@),
        entry.headed() == Some(entry.provider_display@),
        entry.highlighted() <==> entry.override_tiers@.len() > 0,
        entry.summary() == entry.is_role,
{
}

/// What a row says about a model that nothing is known of.
pub proof fn law_unknown_models_have_bare_rows(registry: Registry, spec: Seq<char>)
    requires
        registry.facts(spec) is None,
    ensures
        model_rows::parsed(registry, spec) matches Some(row) ==> {
            &&& row.detail.len() == 0
            &&& row.override_tiers.len() == 0
            &&& row.effort is None
            &&& row.supported_efforts.len() == 0
        },
{
}

/// What a row says about a model that is known: the user's wording for its roles or the
/// name of the role it has by itself, then the level chosen for it.
pub proof fn law_known_models_say_role_and_level(registry: Registry, spec: Seq<char>)
    ensures
        registry.facts(spec) matches Some(facts) ==> {
            model_rows::parsed(registry, spec) matches Some(row) ==> {
                let role = if facts.override_label is Some {
                    facts.override_label->0@
                } else if facts.tier is Some {
                    facts.tier->0.name()
                } else {
                    Seq::empty()
                };
                &&& facts.effort is None ==> row.detail == role
                &&& facts.effort matches Some(level) ==> row.detail == role + " · "@ + level.name()
                &&& row.effort == facts.effort
                &&& row.supported_efforts == facts.supported_efforts@
                &&& row.override_tiers == seq![
                    ModelTier::Strong,
                    ModelTier::Medium,
                    ModelTier::Weak,
                    ModelTier::Compaction,
                    ModelTier::Suggest,
                ].filter(|tier: ModelTier| facts.overrides@.contains(tier))
            }
        },
{
    if let Some(facts) = registry.facts(spec) {
        lemma_tiers_are_filtered(model_rows::role_tiers(), facts.overrides@);
    }
}

proof fn lemma_tiers_are_filtered(tiers: Seq<ModelTier>, held: Seq<ModelTier>)
    ensures
        model_rows::tiers_among(tiers, held) == tiers.filter(
            |tier: ModelTier| held.contains(tier),
        ),
    decreases tiers.len(),
{
    let has = |tier: ModelTier| held.contains(tier);
    reveal(Seq::filter);
    if tiers.len() > 0 {
        lemma_tiers_are_filtered(tiers.drop_last(), held);
    } else {
        assert(tiers.filter(has) =~= Seq::<ModelTier>::empty());
    }
}

/// The row of a role names the model that holds it, says whether the user pinned it and
/// what it costs, and is set apart from the models; a role that nothing holds has a row
/// without a model.
pub proof fn law_a_role_row_names_its_holder(registry: Registry, tier: ModelTier)
    ensures
        ({
            let row = model_rows::role_of(registry, tier);
            &&& row.is_role
            &&& row.id == tier.name()
            &&& row.provider_display == "Roles"@
            &&& row.override_tiers.len() == 0
            &&& row.effort is None
            &&& row.supported_efforts.len() == 0
            &&& registry.holder(tier) is None ==> row.spec.len() == 0 && row.suffix is None
                && row.detail == "unset"@
            &&& registry.holder(tier) matches Some(spec) ==> {
                let status = if registry.overrides(spec, tier) {
                    "pinned"@
                } else {
                    "auto"@
                };
                &&& row.spec == spec
                &&& row.suffix == Some(model_rows::model_of(spec))
                &&& registry.price(spec) is None ==> row.detail == status
                &&& registry.price(spec) matches Some(price) ==> row.detail == status + " · "@
                    + price
            }
        }),
{
}

/// The roles come first, strongest first, then the models used of late, then all models
/// in order.
pub proof fn law_rows_come_in_three_parts(
    registry: Registry,
    recents: Seq<Seq<char>>,
    specs: Seq<Seq<char>>,
)
    ensures
        ({
            let rows = model_rows::all_rows(registry, recents, specs);
            let late = model_rows::parsed_all(registry, recents);
            let all = model_rows::ordered(model_rows::parsed_all(registry, specs));
            &&& rows.len() == 5 + late.len() + all.len()
            &&& rows[0] == model_rows::role_of(registry, ModelTier::Strong)
            &&& rows[1] == model_rows::role_of(registry, ModelTier::Medium)
            &&& rows[2] == model_rows::role_of(registry, ModelTier::Weak)
            &&& rows[3] == model_rows::role_of(registry, ModelTier::Compaction)
            &&& rows[4] == model_rows::role_of(registry, ModelTier::Suggest)
            &&& forall|i: int|
                0 <= i < late.len() ==> rows[5 + i] == (ModelRow {
                    suffix: Some((#[trigger] late[i]).provider_display),
                    provider_display: "Recent"@,
                    ..late[i]
                })
            &&& rows.skip(5 + late.len() as int) == all
        }),
{
    let rows = model_rows::all_rows(registry, recents, specs);
    let late = model_rows::parsed_all(registry, recents);
    let all = model_rows::ordered(model_rows::parsed_all(registry, specs));
    assert(rows.skip(5 + late.len() as int) =~= all);
}

/// Of several specs those that have a row are shown, one after the other.
pub proof fn law_specs_with_a_row_are_shown(
    registry: Registry,
    first: Seq<Seq<char>>,
    second: Seq<Seq<char>>,
    spec: Seq<char>,
)
    ensures
        model_rows::parsed_all(registry, first + second) == model_rows::parsed_all(registry, first)
            + model_rows::parsed_all(registry, second),
        model_rows::parsed(registry, spec) matches Some(row) ==> model_rows::parsed_all(
            registry,
            seq![spec],
        ) == seq![row],
        model_rows::parsed(registry, spec) is None ==> model_rows::parsed_all(
            registry,
            seq![spec],
        ).len() == 0,
    decreases second.len(),
{
    reveal_with_fuel(model_rows::parsed_all, 2);
    assert(seq![spec].drop_last() =~= Seq::<Seq<char>>::empty());
    if let Some(row) = model_rows::parsed(registry, spec) {
        assert(model_rows::parsed_all(registry, seq![spec]) =~= seq![row]);
    }
    if second.len() == 0 {
        assert(first + second =~= first);
        assert(model_rows::parsed_all(registry, first) + model_rows::parsed_all(registry, second)
            =~= model_rows::parsed_all(registry, first));
    } else {
        law_specs_with_a_row_are_shown(registry, first, second.drop_last(), spec);
        assert((first + second).drop_last() =~= first + second.drop_last());
        assert(model_rows::parsed_all(registry, first + second) =~= model_rows::parsed_all(
            registry,
            first,
        ) + model_rows::parsed_all(registry, second));
    }
}

/// Of two models the one whose provider is named first in the alphabet comes first, and
/// of two of one provider the one that is named first itself.
pub proof fn law_provider_then_model_decide(a: ModelRow, b: ModelRow)
    ensures
        a.provider_display != b.provider_display ==> (model_rows::comes_before(a, b)
            <==> text::in_order(a.provider_display, b.provider_display)),
        a.provider_display == b.provider_display && a.id != b.id ==> (model_rows::comes_before(a, b)
            <==> text::in_order(a.id, b.id)),
        a.provider_display == b.provider_display && a.id == b.id ==> !model_rows::comes_before(
            a,
            b,
        ),
{
}

proof fn lemma_home_from(rows: Seq<ModelRow>, current: Seq<char>, from: int)
    requires
        0 <= from,
    ensures
        ({
            let at = model_rows::home_from(rows, current, from);
            &&& at == 0 || from <= at < rows.len()
            &&& from <= at < rows.len() && !rows[at].is_role && rows[at].spec == current
                ==> forall|i: int| from <= i < at ==> (#[trigger] rows[i]).is_role || rows[i].spec
                != current
            &&& (forall|i: int|
                from <= i < rows.len() ==> (#[trigger] rows[i]).is_role || rows[i].spec != current)
                ==> at == 0
            &&& at != 0 ==> !rows[at].is_role && rows[at].spec == current
        }),
    decreases rows.len() - from,
{
    if from < rows.len() && (rows[from].is_role || rows[from].spec != current) {
        lemma_home_from(rows, current, from + 1);
    }
}

/// The cursor starts on the first row of the current model that is not that of a role,
/// and at the top when there is none.
pub proof fn law_the_cursor_starts_on_the_current_model(
    rows: Seq<ModelRow>,
    current: Seq<char>,
    at: int,
)
    ensures
        0 <= at < rows.len() && !rows[at].is_role && rows[at].spec == current && (forall|i: int|
            0 <= i < at ==> (#[trigger] rows[i]).is_role || rows[i].spec != current)
            ==> model_rows::home(rows, current) == at,
        (forall|i: int|
            0 <= i < rows.len() ==> (#[trigger] rows[i]).is_role || rows[i].spec != current)
            ==> model_rows::home(rows, current) == 0,
{
    lemma_home_from(rows, current, 0);
    if 0 <= at < rows.len() && !rows[at].is_role && rows[at].spec == current {
        super::model_laws::law_role_rows_leave_the_cursor_alone(rows, current, at);
    }
}

/// A provider goes by the name that the first of five places has for it: built in, added
/// while running, the catalog, the presets, the user's configuration.
pub proof fn law_the_first_place_names_a_provider(names: ProviderNames)
    ensures
        ({
            let places = seq![
                text::option_view(names.kind),
                text::option_view(names.dynamic),
                text::option_view(names.catalog),
                text::option_view(names.builtin),
                text::option_view(names.configured),
            ];
            &&& forall|i: int|
                0 <= i < 5 && (#[trigger] places[i]) is Some && (forall|k: int|
                    0 <= k < i ==> (#[trigger] places[k]) is None) ==> names.known_as() == places[i]
            &&& (forall|i: int| 0 <= i < 5 ==> (#[trigger] places[i]) is None)
                ==> names.known_as() is None
        }),
{
    let places = seq![
        text::option_view(names.kind),
        text::option_view(names.dynamic),
        text::option_view(names.catalog),
        text::option_view(names.builtin),
        text::option_view(names.configured),
    ];
    assert(places[0] == text::option_view(names.kind));
    assert(places[1] == text::option_view(names.dynamic));
    assert(places[2] == text::option_view(names.catalog));
    assert(places[3] == text::option_view(names.builtin));
    assert(places[4] == text::option_view(names.configured));
}

/// The first entry about a provider, a model or a role counts, and there is none exactly
/// when no entry is about it.
pub proof fn law_the_first_entry_counts(
    registry: Registry,
    provider: Seq<char>,
    spec: Seq<char>,
    tier: ModelTier,
    at: int,
)
    ensures
        0 <= at < registry.providers@.len() && registry.providers@[at].provider@ == provider && (
        forall|i: int| 0 <= i < at ==> (#[trigger] registry.providers@[i]).provider@ != provider)
            ==> registry.provider_name(provider) == registry.providers@[at].known_as(),
        (forall|i: int|
            0 <= i < registry.providers@.len() ==> (#[trigger] registry.providers@[i]).provider@
                != provider) ==> registry.provider_name(provider) is None,
        0 <= at < registry.models@.len() && registry.models@[at].spec@ == spec && (forall|i: int|
            0 <= i < at ==> (#[trigger] registry.models@[i]).spec@ != spec) ==> registry.facts(spec)
            == Some(registry.models@[at]),
        (forall|i: int|
            0 <= i < registry.models@.len() ==> (#[trigger] registry.models@[i]).spec@ != spec)
            ==> registry.facts(spec) is None,
        0 <= at < registry.roles@.len() && registry.roles@[at].tier == tier && (forall|i: int|
            0 <= i < at ==> (#[trigger] registry.roles@[i]).tier != tier) ==> registry.holder(tier)
            == Some(registry.roles@[at].spec@),
        (forall|i: int|
            0 <= i < registry.roles@.len() ==> (#[trigger] registry.roles@[i]).tier != tier)
            ==> registry.holder(tier) is None,
{
    lemma_first_provider(registry.providers@, provider, at);
    lemma_first_facts(registry.models@, spec, at);
    lemma_first_holder(registry.roles@, tier, at);
}

proof fn lemma_first_provider(all: Seq<ProviderNames>, provider: Seq<char>, at: int)
    ensures
        0 <= at < all.len() && all[at].provider@ == provider && (forall|i: int|
            0 <= i < at ==> (#[trigger] all[i]).provider@ != provider) ==> registry::names_of(
            all,
            provider,
        ) == Some(all[at]),
        (forall|i: int| 0 <= i < all.len() ==> (#[trigger] all[i]).provider@ != provider)
            ==> registry::names_of(all, provider) is None,
    decreases all.len(),
{
    if all.len() > 0 {
        let rest = all.skip(1);
        lemma_first_provider(rest, provider, at - 1);
        assert forall|i: int| 0 <= i < rest.len() implies #[trigger] rest[i] == all[i + 1] by {}
    }
}

proof fn lemma_first_facts(all: Seq<ModelFacts>, spec: Seq<char>, at: int)
    ensures
        0 <= at < all.len() && all[at].spec@ == spec && (forall|i: int|
            0 <= i < at ==> (#[trigger] all[i]).spec@ != spec) ==> registry::facts_of(all, spec)
            == Some(all[at]),
        (forall|i: int| 0 <= i < all.len() ==> (#[trigger] all[i]).spec@ != spec)
            ==> registry::facts_of(all, spec) is None,
    decreases all.len(),
{
    if all.len() > 0 {
        let rest = all.skip(1);
        lemma_first_facts(rest, spec, at - 1);
        assert forall|i: int| 0 <= i < rest.len() implies #[trigger] rest[i] == all[i + 1] by {}
    }
}

proof fn lemma_first_holder(all: Seq<RoleHolder>, tier: ModelTier, at: int)
    ensures
        0 <= at < all.len() && all[at].tier == tier && (forall|i: int|
            0 <= i < at ==> (#[trigger] all[i]).tier != tier) ==> registry::holder_of(all, tier)
            == Some(all[at].spec@),
        (forall|i: int| 0 <= i < all.len() ==> (#[trigger] all[i]).tier != tier)
            ==> registry::holder_of(all, tier) is None,
    decreases all.len(),
{
    if all.len() > 0 {
        let rest = all.skip(1);
        lemma_first_holder(rest, tier, at - 1);
        assert forall|i: int| 0 <= i < rest.len() implies #[trigger] rest[i] == all[i + 1] by {}
    }
}

/// What is known of a model decides which roles the user gave it and what it costs.
pub proof fn law_facts_decide_roles_and_price(registry: Registry, spec: Seq<char>, tier: ModelTier)
    ensures
        registry.facts(spec) matches Some(facts) ==> {
            &&& registry.overrides(spec, tier) <==> facts.overrides@.contains(tier)
            &&& registry.price(spec) == text::option_view(facts.price)
        },
        registry.facts(spec) is None ==> !registry.overrides(spec, tier) && registry.price(
            spec,
        ) is None,
{
}

/// Every role and every level has a name of its own, by which it is written and told
/// apart.
pub proof fn law_names_tell_apart(a: ModelTier, b: ModelTier, c: Effort, d: Effort)
    ensures
        a.name() == b.name() <==> a == b,
        c.name() == d.name() <==> c == d,
        a.name() == match a {
            ModelTier::Strong => "strong"@,
            ModelTier::Medium => "medium"@,
            ModelTier::Weak => "weak"@,
            ModelTier::Compaction => "compaction"@,
            ModelTier::Suggest => "suggest"@,
        },
        c.name() == match c {
            Effort::Minimal => "minimal"@,
            Effort::Low => "low"@,
            Effort::Medium => "medium"@,
            Effort::High => "high"@,
            Effort::XHigh => "xhigh"@,
            Effort::Max => "max"@,
        },
{
    reveal_strlit("strong");
    reveal_strlit("medium");
    reveal_strlit("weak");
    reveal_strlit("compaction");
    reveal_strlit("suggest");
    reveal_strlit("minimal");
    reveal_strlit("low");
    reveal_strlit("high");
    reveal_strlit("xhigh");
    reveal_strlit("max");
    if a != b {
        assert(a.name().len() != b.name().len() || a.name()[0] != b.name()[0]);
    }
    if c != d {
        assert(c.name().len() != d.name().len() || c.name()[0] != d.name()[0]);
    }
}

}
