//! The rows of the model picker: which model holds each role, the models used of
//! late, and every model there is.

use super::list_picker::PickerItem;
use crate::models::{Effort, ModelTier};
use crate::registry;
use crate::registry::{ModelFacts, Registry};
use crate::text;
use vstd::prelude::*;

verus! {

pub struct ModelEntry {
    pub spec: String,
    pub id: String,
    pub provider_display: String,
    pub suffix: Option<String>,
    pub detail: String,
    pub override_tiers: Vec<ModelTier>,
    pub effort: Option<Effort>,
    pub supported_efforts: Vec<Effort>,
    /// Role rows sit above the real list. They carry the spec that they resolve to
    /// so that the usual keys still work on them, but they must not steal the
    /// cursor from the current model's own row.
    pub is_role: bool,
}

/// What an entry says.
#[verifier::ext_equal]
pub struct ModelRow {
    pub spec: Seq<char>,
    pub id: Seq<char>,
    pub provider_display: Seq<char>,
    pub suffix: Option<Seq<char>>,
    pub detail: Seq<char>,
    pub override_tiers: Seq<ModelTier>,
    pub effort: Option<Effort>,
    pub supported_efforts: Seq<Effort>,
    pub is_role: bool,
}

impl View for ModelEntry {
    type V = ModelRow;

    open spec fn view(&self) -> ModelRow {
        ModelRow {
            spec: self.spec@,
            id: self.id@,
            provider_display: self.provider_display@,
            suffix: text::option_view(self.suffix),
            detail: self.detail@,
            override_tiers: self.override_tiers@,
            effort: self.effort,
            supported_efforts: self.supported_efforts@,
            is_role: self.is_role,
        }
    }
}

pub open spec fn row_views(entries: Seq<ModelEntry>) -> Seq<ModelRow> {
    entries.map_values(|entry: ModelEntry| entry@)
}

impl PickerItem for ModelEntry {
    open spec fn called(&self) -> Seq<char> {
        self.id@
    }

    open spec fn called_after(&self) -> Option<Seq<char>> {
        text::option_view(self.suffix)
    }

    open spec fn detailed(&self) -> Option<Seq<char>> {
        Some(self.detail@)
    }

    open spec fn headed(&self) -> Option<Seq<char>> {
        Some(self.provider_display@)
    }

    open spec fn highlighted(&self) -> bool {
        self.override_tiers@.len() > 0
    }

    open spec fn summary(&self) -> bool {
        self.is_role
    }

    fn label(&self) -> &str {
        self.id.as_str()
    }

    fn suffix(&self) -> Option<&str> {
        match &self.suffix {
            Some(suffix) => Some(suffix.as_str()),
            None => None,
        }
    }

    fn detail(&self) -> Option<&str> {
        Some(self.detail.as_str())
    }

    fn section(&self) -> Option<&str> {
        Some(self.provider_display.as_str())
    }

    fn is_highlighted(&self) -> bool {
        self.override_tiers.len() > 0
    }

    fn is_summary(&self) -> bool {
        self.is_role
    }
}

/// The roles, strongest first, so that the list reads the way people talk about
/// them.
pub open spec fn role_tiers() -> Seq<ModelTier> {
    seq![
        ModelTier::Strong,
        ModelTier::Medium,
        ModelTier::Weak,
        ModelTier::Compaction,
        ModelTier::Suggest,
    ]
}

/// The roles among those that are held, strongest first.
pub open spec fn tiers_among(tiers: Seq<ModelTier>, held: Seq<ModelTier>) -> Seq<ModelTier>
    decreases tiers.len(),
{
    if tiers.len() == 0 {
        Seq::empty()
    } else if held.contains(tiers.last()) {
        tiers_among(tiers.drop_last(), held).push(tiers.last())
    } else {
        tiers_among(tiers.drop_last(), held)
    }
}

/// The role of a model as it is written: the user's wording where the user chose
/// it, else the name of the role it has by itself.
pub open spec fn tier_text(facts: Option<ModelFacts>) -> Seq<char> {
    match facts {
        Some(facts) => match facts.override_label {
            Some(label) => label@,
            None => match facts.tier {
                Some(tier) => tier.name(),
                None => Seq::empty(),
            },
        },
        None => Seq::empty(),
    }
}

/// What is said about a model, with the level chosen for it.
pub open spec fn with_level(tier: Seq<char>, effort: Option<Effort>) -> Seq<char> {
    match effort {
        Some(level) => tier + " · "@ + level.name(),
        None => tier,
    }
}

/// The row of a model, when its spec names a provider that is known and a model:
/// `provider/model`.
pub open spec fn parsed(registry: Registry, spec: Seq<char>) -> Option<ModelRow> {
    let at: int = text::before(spec, '/') as int;
    let provider = registry.provider_name(spec.take(at));
    let facts = registry.facts(spec);
    if spec.contains('/') && provider is Some {
        Some(
            ModelRow {
                spec,
                id: spec.skip(at + 1),
                provider_display: provider->0,
                suffix: None,
                detail: match facts {
                    Some(known) => with_level(tier_text(facts), known.effort),
                    None => tier_text(facts),
                },
                override_tiers: match facts {
                    Some(known) => tiers_among(role_tiers(), known.overrides@),
                    None => Seq::empty(),
                },
                effort: match facts {
                    Some(known) => known.effort,
                    None => None,
                },
                supported_efforts: match facts {
                    Some(known) => known.supported_efforts@,
                    None => Seq::empty(),
                },
                is_role: false,
            },
        )
    } else {
        None
    }
}

/// The row of a role.
pub open spec fn role_shown(
    tier: ModelTier,
    spec: Seq<char>,
    model_id: Option<Seq<char>>,
    detail: Seq<char>,
) -> ModelRow {
    ModelRow {
        spec,
        id: tier.name(),
        provider_display: "Roles"@,
        suffix: model_id,
        detail,
        override_tiers: Seq::empty(),
        effort: None,
        supported_efforts: Seq::empty(),
        is_role: true,
    }
}

/// The part of a spec that names the model.
pub open spec fn model_of(spec: Seq<char>) -> Seq<char> {
    if spec.contains('/') {
        spec.skip(text::before(spec, '/') as int + 1)
    } else {
        spec
    }
}

/// The row of a role: the model that holds it, whether the user pinned it there,
/// and what it costs where that is known.
pub open spec fn role_of(registry: Registry, tier: ModelTier) -> ModelRow {
    match registry.holder(tier) {
        Some(spec) => {
            let status = if registry.overrides(spec, tier) {
                "pinned"@
            } else {
                "auto"@
            };
            role_shown(
                tier,
                spec,
                Some(model_of(spec)),
                match registry.price(spec) {
                    Some(price) => status + " · "@ + price,
                    None => status,
                },
            )
        },
        None => role_shown(tier, Seq::empty(), None, "unset"@),
    }
}

/// The rows of the models that can be shown, in their order.
pub open spec fn parsed_all(registry: Registry, specs: Seq<Seq<char>>) -> Seq<ModelRow>
    decreases specs.len(),
{
    if specs.len() == 0 {
        Seq::empty()
    } else {
        let earlier = parsed_all(registry, specs.drop_last());
        match parsed(registry, specs.last()) {
            Some(row) => earlier.push(row),
            None => earlier,
        }
    }
}

/// A row among the models used of late: its provider stands behind its name.
pub open spec fn as_recent(row: ModelRow) -> ModelRow {
    ModelRow { suffix: Some(row.provider_display), provider_display: "Recent"@, ..row }
}

/// Whether the first row comes before the second: by provider, then by model.
pub open spec fn comes_before(a: ModelRow, b: ModelRow) -> bool {
    if a.provider_display == b.provider_display {
        a.id != b.id && text::in_order(a.id, b.id)
    } else {
        text::in_order(a.provider_display, b.provider_display)
    }
}

/// Ordered rows with one more, after those that it does not come before.
pub open spec fn placed(rows: Seq<ModelRow>, row: ModelRow) -> Seq<ModelRow>
    decreases rows.len(),
{
    if rows.len() > 0 && comes_before(row, rows.last()) {
        placed(rows.drop_last(), row).push(rows.last())
    } else {
        rows.push(row)
    }
}

/// The rows ordered by provider and model; rows that agree in both keep their
/// order.
pub open spec fn ordered(rows: Seq<ModelRow>) -> Seq<ModelRow>
    decreases rows.len(),
{
    if rows.len() == 0 {
        Seq::empty()
    } else {
        placed(ordered(rows.drop_last()), rows.last())
    }
}

/// All rows: the roles, then the models used of late, then every model in order.
pub open spec fn all_rows(
    registry: Registry,
    recents: Seq<Seq<char>>,
    specs: Seq<Seq<char>>,
) -> Seq<ModelRow> {
    role_tiers().map_values(|tier: ModelTier| role_of(registry, tier)) + parsed_all(
        registry,
        recents,
    ).map_values(|row: ModelRow| as_recent(row)) + ordered(parsed_all(registry, specs))
}

/// Where the current model stands: its first row that is not that of a role, the
/// start when there is none.
pub open spec fn home(rows: Seq<ModelRow>, current: Seq<char>) -> int {
    home_from(rows, current, 0)
}

pub open spec fn home_from(rows: Seq<ModelRow>, current: Seq<char>, from: int) -> int
    decreases rows.len() - from,
{
    if from >= rows.len() {
        0
    } else if !rows[from].is_role && rows[from].spec == current {
        from
    } else {
        home_from(rows, current, from + 1)
    }
}

fn all_role_tiers() -> (tiers: Vec<ModelTier>)
    ensures
        tiers@ == role_tiers(),
{
    let mut tiers: Vec<ModelTier> = Vec::new();
    tiers.push(ModelTier::Strong);
    tiers.push(ModelTier::Medium);
    tiers.push(ModelTier::Weak);
    tiers.push(ModelTier::Compaction);
    tiers.push(ModelTier::Suggest);
    assert(tiers@ =~= role_tiers());
    tiers
}

fn held_tiers(held: &Vec<ModelTier>) -> (tiers: Vec<ModelTier>)
    ensures
        tiers@ == tiers_among(role_tiers(), held@),
{
    let all: Vec<ModelTier> = all_role_tiers();
    let mut tiers: Vec<ModelTier> = Vec::new();
    let mut i: usize = 0;
    assert(tiers@ =~= tiers_among(all@.take(0), held@));
    while i < all.len()
        invariant
            i <= all@.len(),
            tiers@ == tiers_among(all@.take(i as int), held@),
        decreases all@.len() - i,
    {
        assert(all@.take(i + 1).drop_last() =~= all@.take(i as int));
        if registry::holds_tier(held, all[i]) {
            tiers.push(all[i]);
        }
        i += 1;
    }
    assert(all@.take(i as int) =~= all@);
    tiers
}

fn tier_label(facts: &ModelFacts) -> (label: String)
    ensures
        label@ == tier_text(Some(*facts)),
{
    match &facts.override_label {
        Some(label) => label.clone(),
        None => match facts.tier {
            Some(tier) => tier.as_str().to_string(),
            None => {
                let label: String = String::new();
                assert(label@ =~= Seq::empty());
                label
            },
        },
    }
}

/// The entry for a model, `None` when the spec names no provider that is known.
pub fn parse_model_entry(registry: &Registry, spec: &str) -> (entry: Option<ModelEntry>)
    ensures
        match entry {
            Some(entry) => parsed(*registry, spec@) == Some(entry@),
            None => parsed(*registry, spec@) is None,
        },
{
    let chars: Vec<char> = text::chars_of(spec);
    let (provider, id): (&[char], &[char]) = match text::split_once(chars.as_slice(), '/') {
        Some(parts) => parts,
        None => {
            return None;
        },
    };
    let provider_display: String = match registry.find_provider_name(provider) {
        Some(name) => name,
        None => {
            return None;
        },
    };
    let id: String = text::string_of(id);
    let entry: ModelEntry = match registry.find_facts(spec) {
        Some(facts) => {
            let mut detail: String = tier_label(facts);
            if let Some(level) = facts.effort {
                detail.append(" · ");
                detail.append(level.as_str());
            }
            ModelEntry {
                spec: spec.to_string(),
                id,
                provider_display,
                suffix: None,
                detail,
                override_tiers: held_tiers(&facts.overrides),
                effort: facts.effort,
                supported_efforts: vstd::slice::slice_to_vec(facts.supported_efforts.as_slice()),
                is_role: false,
            }
        },
        None => ModelEntry {
            spec: spec.to_string(),
            id,
            provider_display,
            suffix: None,
            detail: String::new(),
            override_tiers: Vec::new(),
            effort: None,
            supported_efforts: Vec::new(),
            is_role: false,
        },
    };
    assert(entry@ =~= parsed(*registry, spec@)->0);
    Some(entry)
}

pub fn role_row(tier: ModelTier, spec: String, model_id: Option<String>, detail: String) -> (entry:
    ModelEntry)
    ensures
        entry@ == role_shown(tier, spec@, text::option_view(model_id), detail@),
{
    let entry: ModelEntry = ModelEntry {
        spec,
        id: tier.as_str().to_string(),
        provider_display: "Roles".to_string(),
        suffix: model_id,
        detail,
        override_tiers: Vec::new(),
        effort: None,
        supported_efforts: Vec::new(),
        is_role: true,
    };
    assert(entry@ =~= role_shown(tier, spec@, text::option_view(model_id), detail@));
    entry
}

fn role_entry(registry: &Registry, tier: ModelTier) -> (entry: ModelEntry)
    ensures
        entry@ == role_of(*registry, tier),
{
    let spec: String = match registry.spec_for_tier(tier) {
        Some(spec) => spec,
        None => {
            let nothing: String = String::new();
            assert(nothing@ =~= Seq::empty());
            return role_row(tier, nothing, None, "unset".to_string());
        },
    };
    let chars: Vec<char> = text::chars_of(spec.as_str());
    let model_id: String = match text::split_once(chars.as_slice(), '/') {
        Some((_provider, id)) => text::string_of(id),
        None => spec.clone(),
    };
    let mut detail: String = if registry.has_override(spec.as_str(), tier) {
        "pinned".to_string()
    } else {
        "auto".to_string()
    };
    if let Some(price) = registry.price_label(spec.as_str()) {
        detail.append(" · ");
        detail.append(price.as_str());
    }
    role_row(tier, spec, Some(model_id), detail)
}

/// A row for each role that names the model which plays it. Without these one had
/// to hunt a highlighted row out of hundreds to learn what a key had done.
pub fn role_entries(registry: &Registry) -> (entries: Vec<ModelEntry>)
    ensures
        row_views(entries@) == role_tiers().map_values(|tier: ModelTier| role_of(*registry, tier)),
{
    let tiers: Vec<ModelTier> = all_role_tiers();
    let mut entries: Vec<ModelEntry> = Vec::new();
    let mut i: usize = 0;
    let ghost wanted = tiers@.map_values(|tier: ModelTier| role_of(*registry, tier));
    assert(row_views(entries@) =~= wanted.take(0));
    while i < tiers.len()
        invariant
            i <= tiers@.len(),
            wanted == tiers@.map_values(|tier: ModelTier| role_of(*registry, tier)),
            row_views(entries@) == wanted.take(i as int),
        decreases tiers@.len() - i,
    {
        let ghost had = row_views(entries@);
        entries.push(role_entry(registry, tiers[i]));
        proof {
            assert(row_views(entries@) =~= had.push(wanted[i as int]));
            assert(had.push(wanted[i as int]) =~= wanted.take(i + 1));
        }
        i += 1;
    }
    assert(wanted.take(i as int) =~= wanted);
    entries
}

fn parse_all(registry: &Registry, specs: &Vec<String>) -> (entries: Vec<ModelEntry>)
    ensures
        row_views(entries@) == parsed_all(*registry, text::views(specs@)),
{
    let mut entries: Vec<ModelEntry> = Vec::new();
    let mut i: usize = 0;
    let ghost all = text::views(specs@);
    assert(row_views(entries@) =~= parsed_all(*registry, all.take(0)));
    while i < specs.len()
        invariant
            i <= specs@.len(),
            all == text::views(specs@),
            row_views(entries@) == parsed_all(*registry, all.take(i as int)),
        decreases specs@.len() - i,
    {
        let ghost had = row_views(entries@);
        assert(all.take(i + 1).drop_last() =~= all.take(i as int));
        if let Some(entry) = parse_model_entry(registry, specs[i].as_str()) {
            entries.push(entry);
            assert(row_views(entries@) =~= had.push(entry@));
        }
        i += 1;
    }
    assert(all.take(i as int) =~= all);
    entries
}

fn recent_entries(registry: &Registry, recents: &Vec<String>) -> (entries: Vec<ModelEntry>)
    ensures
        row_views(entries@) == parsed_all(*registry, text::views(recents@)).map_values(
            |row: ModelRow| as_recent(row),
        ),
{
    let mut entries: Vec<ModelEntry> = Vec::new();
    let mut i: usize = 0;
    let ghost all = text::views(recents@);
    let ghost recent = |row: ModelRow| as_recent(row);
    assert(row_views(entries@) =~= parsed_all(*registry, all.take(0)).map_values(recent));
    while i < recents.len()
        invariant
            i <= recents@.len(),
            all == text::views(recents@),
            recent == (|row: ModelRow| as_recent(row)),
            row_views(entries@) == parsed_all(*registry, all.take(i as int)).map_values(recent),
        decreases recents@.len() - i,
    {
        let ghost had = row_views(entries@);
        let ghost earlier = parsed_all(*registry, all.take(i as int));
        assert(all.take(i + 1).drop_last() =~= all.take(i as int));
        if let Some(parsed) = parse_model_entry(registry, recents[i].as_str()) {
            let ghost row = parsed@;
            let entry: ModelEntry = ModelEntry {
                spec: parsed.spec,
                id: parsed.id,
                provider_display: "Recent".to_string(),
                suffix: Some(parsed.provider_display),
                detail: parsed.detail,
                override_tiers: parsed.override_tiers,
                effort: parsed.effort,
                supported_efforts: parsed.supported_efforts,
                is_role: parsed.is_role,
            };
            proof {
                assert(entry@ =~= as_recent(row));
                assert(earlier.push(row).map_values(recent) =~= earlier.map_values(recent).push(
                    recent(row),
                ));
            }
            entries.push(entry);
            assert(row_views(entries@) =~= had.push(as_recent(row)));
        }
        i += 1;
    }
    assert(all.take(i as int) =~= all);
    entries
}

fn is_before(a: &ModelEntry, b: &ModelEntry) -> (r: bool)
    ensures
        r == comes_before(a@, b@),
{
    if text::same_text(a.provider_display.as_str(), b.provider_display.as_str()) {
        !text::same_text(a.id.as_str(), b.id.as_str()) && text::ordered(a.id.as_str(), b.id.as_str())
    } else {
        text::ordered(a.provider_display.as_str(), b.provider_display.as_str())
    }
}

proof fn lemma_placed(rows: Seq<ModelRow>, row: ModelRow, at: int)
    requires
        0 <= at <= rows.len(),
        forall|i: int| at <= i < rows.len() ==> comes_before(row, #[trigger] rows[i]),
        at == 0 || !comes_before(row, rows[at - 1]),
    ensures
        placed(rows, row) == rows.insert(at, row),
    decreases rows.len(),
{
    if at < rows.len() {
        let rest = rows.drop_last();
        lemma_placed(rest, row, at);
        assert(rest.insert(at, row).push(rows.last()) =~= rows.insert(at, row));
    } else {
        assert(rows.push(row) =~= rows.insert(at, row));
    }
}

/// Puts an entry among ordered ones.
fn place(entries: &mut Vec<ModelEntry>, entry: ModelEntry)
    ensures
        row_views(final(entries)@) == placed(row_views(old(entries)@), entry@),
{
    let mut at: usize = entries.len();
    let ghost rows = row_views(entries@);
    while at > 0 && is_before(&entry, &entries[at - 1])
        invariant
            at <= entries@.len(),
            rows == row_views(entries@),
            rows == row_views(old(entries)@),
            forall|i: int| at <= i < rows.len() ==> comes_before(entry@, #[trigger] rows[i]),
        decreases at,
    {
        at -= 1;
    }
    proof {
        lemma_placed(rows, entry@, at as int);
    }
    entries.insert(at, entry);
    assert(row_views(entries@) =~= rows.insert(at as int, entry@));
}

fn order(entries: Vec<ModelEntry>) -> (r: Vec<ModelEntry>)
    ensures
        row_views(r@) == ordered(row_views(entries@)),
{
    let ghost all = row_views(entries@);
    let mut left: Vec<ModelEntry> = entries;
    let mut r: Vec<ModelEntry> = Vec::new();
    let mut reversed: Vec<ModelEntry> = Vec::new();
    while left.len() > 0
        invariant
            left@.len() + reversed@.len() == all.len(),
            row_views(left@) == all.take(left@.len() as int),
            forall|i: int|
                0 <= i < reversed@.len() ==> (#[trigger] reversed@[i])@ == all[all.len() - 1 - i],
        decreases left@.len(),
    {
        let ghost had = left@;
        let entry: ModelEntry = left.pop().unwrap();
        proof {
            assert(row_views(had)[had.len() - 1] == entry@);
            assert(row_views(left@) =~= all.take(left@.len() as int));
        }
        reversed.push(entry);
    }
    assert(row_views(r@) =~= ordered(all.take(0)));
    while reversed.len() > 0
        invariant
            reversed@.len() <= all.len(),
            forall|i: int|
                0 <= i < reversed@.len() ==> (#[trigger] reversed@[i])@ == all[all.len() - 1 - i],
            row_views(r@) == ordered(all.take(all.len() - reversed@.len())),
        decreases reversed@.len(),
    {
        let ghost done = all.len() - reversed@.len();
        let ghost had = reversed@;
        let entry: ModelEntry = reversed.pop().unwrap();
        proof {
            assert(had[had.len() - 1]@ == all[done]);
            assert(all.take(done + 1).drop_last() =~= all.take(done));
        }
        place(&mut r, entry);
    }
    assert(all.take(all.len() as int) =~= all);
    r
}

/// Every entry, and where the current model stands among them.
pub fn load_entries(
    registry: &Registry,
    recents: &Vec<String>,
    specs: &Vec<String>,
    current: &str,
) -> (r: (Vec<ModelEntry>, usize))
    ensures
        row_views(r.0@) == all_rows(*registry, text::views(recents@), text::views(specs@)),
        r.1 == home(row_views(r.0@), current@),
        r.1 < r.0@.len(),
{
    let mut entries: Vec<ModelEntry> = role_entries(registry);
    let mut recent: Vec<ModelEntry> = recent_entries(registry, recents);
    let mut full: Vec<ModelEntry> = order(parse_all(registry, specs));
    let ghost parts = (row_views(entries@), row_views(recent@), row_views(full@));
    entries.append(&mut recent);
    assert(row_views(entries@) =~= parts.0 + parts.1);
    entries.append(&mut full);
    assert(row_views(entries@) =~= parts.0 + parts.1 + parts.2);
    let ghost rows = row_views(entries@);
    let mut i: usize = 0;
    assert(role_tiers().len() == 5);
    assert(rows.len() >= 5);
    while i < entries.len()
        invariant
            i <= entries@.len(),
            rows == row_views(entries@),
            home_from(rows, current@, i as int) == home(rows, current@),
            rows.len() >= 5,
            rows == all_rows(*registry, text::views(recents@), text::views(specs@)),
        decreases entries@.len() - i,
    {
        assert(rows[i as int] == entries@[i as int]@);
        if !entries[i].is_role && text::same_text(entries[i].spec.as_str(), current) {
            return (entries, i);
        }
        i += 1;
    }
    (entries, 0)
}

/// The role rows lead the list, one for each role, strongest first; every row
/// after them is that of a model.
pub proof fn law_role_rows_lead(
    registry: Registry,
    recents: Seq<Seq<char>>,
    specs: Seq<Seq<char>>,
    i: int,
)
    requires
        0 <= i < all_rows(registry, recents, specs).len(),
    ensures
        all_rows(registry, recents, specs).len() >= role_tiers().len(),
        i < role_tiers().len() ==> {
            &&& all_rows(registry, recents, specs)[i] == role_of(registry, role_tiers()[i])
            &&& all_rows(registry, recents, specs)[i].is_role
            &&& all_rows(registry, recents, specs)[i].id == role_tiers()[i].name()
        },
        i >= role_tiers().len() ==> !all_rows(registry, recents, specs)[i].is_role,
{
    let rows = all_rows(registry, recents, specs);
    let roles = role_tiers().len() as int;
    let recent = parsed_all(registry, recents);
    let full = parsed_all(registry, specs);
    lemma_models_are_no_roles(registry, recents);
    lemma_models_are_no_roles(registry, specs);
    lemma_ordered_keeps(full);
    if roles <= i < roles + recent.len() {
        assert(rows[i] == as_recent(recent[i - roles]));
    } else if i >= roles + recent.len() {
        let k = i - roles - recent.len();
        assert(rows[i] == ordered(full)[k]);
        lemma_member_of_ordered(full, k);
    }
}

proof fn lemma_models_are_no_roles(registry: Registry, specs: Seq<Seq<char>>)
    ensures
        forall|i: int|
            0 <= i < parsed_all(registry, specs).len() ==> !(#[trigger] parsed_all(
                registry,
                specs,
            )[i]).is_role,
    decreases specs.len(),
{
    if specs.len() > 0 {
        lemma_models_are_no_roles(registry, specs.drop_last());
    }
}

proof fn lemma_placed_keeps(rows: Seq<ModelRow>, row: ModelRow)
    ensures
        placed(rows, row).to_multiset() == rows.to_multiset().insert(row),
        placed(rows, row).len() == rows.len() + 1,
    decreases rows.len(),
{
    broadcast use vstd::seq_lib::group_to_multiset_ensures;

    if rows.len() > 0 && comes_before(row, rows.last()) {
        let rest = rows.drop_last();
        lemma_placed_keeps(rest, row);
        assert(rest.push(rows.last()) =~= rows);
        assert(rest.to_multiset().insert(row).insert(rows.last()) =~= rest.to_multiset().insert(
            rows.last(),
        ).insert(row));
    }
}

/// Ordering the rows loses none and adds none.
pub proof fn lemma_ordered_keeps(rows: Seq<ModelRow>)
    ensures
        ordered(rows).to_multiset() == rows.to_multiset(),
        ordered(rows).len() == rows.len(),
    decreases rows.len(),
{
    broadcast use vstd::seq_lib::group_to_multiset_ensures;

    if rows.len() > 0 {
        lemma_ordered_keeps(rows.drop_last());
        lemma_placed_keeps(ordered(rows.drop_last()), rows.last());
        assert(rows.drop_last().push(rows.last()) =~= rows);
    } else {
        assert(rows =~= Seq::empty());
    }
}

proof fn lemma_member_of_ordered(rows: Seq<ModelRow>, k: int)
    requires
        0 <= k < ordered(rows).len(),
    ensures
        rows.contains(ordered(rows)[k]),
{
    broadcast use vstd::seq_lib::group_to_multiset_ensures;

    lemma_ordered_keeps(rows);
    assert(ordered(rows).contains(ordered(rows)[k]));
    assert(ordered(rows).to_multiset().count(ordered(rows)[k]) > 0);
}

}
