//! What is known of providers and models when a picker is built.

use crate::models::{Effort, ModelTier};
use crate::text;
use vstd::prelude::*;

verus! {

/// The names that a provider goes by, one for each place that may know it.
pub struct ProviderNames {
    pub provider: String,
    /// As a provider that is built in.
    pub kind: Option<String>,
    /// As one that was added while running.
    pub dynamic: Option<String>,
    /// In the catalog of providers.
    pub catalog: Option<String>,
    /// Among the presets of the configuration.
    pub builtin: Option<String>,
    /// In the user's configuration.
    pub configured: Option<String>,
}

/// What is known of one model.
pub struct ModelFacts {
    pub spec: String,
    /// The roles that the user gave it.
    pub overrides: Vec<ModelTier>,
    /// How those roles are written.
    pub override_label: Option<String>,
    /// The role it has by itself.
    pub tier: Option<ModelTier>,
    /// The level that the user chose for it.
    pub effort: Option<Effort>,
    pub supported_efforts: Vec<Effort>,
    /// What it costs, when that is known.
    pub price: Option<String>,
}

/// The model that holds a role.
pub struct RoleHolder {
    pub tier: ModelTier,
    pub spec: String,
}

pub struct Registry {
    pub providers: Vec<ProviderNames>,
    pub models: Vec<ModelFacts>,
    pub roles: Vec<RoleHolder>,
}

impl ProviderNames {
    /// The name to show: that of the first place that knows the provider.
    pub open spec fn known_as(self) -> Option<Seq<char>> {
        if self.kind is Some {
            Some(self.kind->0@)
        } else if self.dynamic is Some {
            Some(self.dynamic->0@)
        } else if self.catalog is Some {
            Some(self.catalog->0@)
        } else if self.builtin is Some {
            Some(self.builtin->0@)
        } else if self.configured is Some {
            Some(self.configured->0@)
        } else {
            None
        }
    }

    pub fn display_name(&self) -> (name: Option<String>)
        ensures
            text::option_view(name) == self.known_as(),
    {
        if let Some(name) = &self.kind {
            Some(name.clone())
        } else if let Some(name) = &self.dynamic {
            Some(name.clone())
        } else if let Some(name) = &self.catalog {
            Some(name.clone())
        } else if let Some(name) = &self.builtin {
            Some(name.clone())
        } else if let Some(name) = &self.configured {
            Some(name.clone())
        } else {
            None
        }
    }
}

/// The first entry about a provider, if there is one.
pub open spec fn names_of(providers: Seq<ProviderNames>, provider: Seq<char>) -> Option<ProviderNames>
    decreases providers.len(),
{
    if providers.len() == 0 {
        None
    } else if providers[0].provider@ == provider {
        Some(providers[0])
    } else {
        names_of(providers.skip(1), provider)
    }
}

/// The first entry about a model, if there is one.
pub open spec fn facts_of(models: Seq<ModelFacts>, spec: Seq<char>) -> Option<ModelFacts>
    decreases models.len(),
{
    if models.len() == 0 {
        None
    } else if models[0].spec@ == spec {
        Some(models[0])
    } else {
        facts_of(models.skip(1), spec)
    }
}

/// The first model that holds a role, if one does.
pub open spec fn holder_of(roles: Seq<RoleHolder>, tier: ModelTier) -> Option<Seq<char>>
    decreases roles.len(),
{
    if roles.len() == 0 {
        None
    } else if roles[0].tier == tier {
        Some(roles[0].spec@)
    } else {
        holder_of(roles.skip(1), tier)
    }
}

/// Whether the role is among those.
pub fn holds_tier(tiers: &Vec<ModelTier>, tier: ModelTier) -> (r: bool)
    ensures
        r == tiers@.contains(tier),
{
    let mut i: usize = 0;
    while i < tiers.len()
        invariant
            i <= tiers@.len(),
            forall|k: int| 0 <= k < i ==> tiers@[k] != tier,
        decreases tiers@.len() - i,
    {
        if tiers[i] == tier {
            return true;
        }
        i += 1;
    }
    false
}

impl Registry {
    pub open spec fn facts(self, spec: Seq<char>) -> Option<ModelFacts> {
        facts_of(self.models@, spec)
    }

    /// The name to show for a provider.
    pub open spec fn provider_name(self, provider: Seq<char>) -> Option<Seq<char>> {
        match names_of(self.providers@, provider) {
            Some(names) => names.known_as(),
            None => None,
        }
    }

    /// Whether the user gave the model that role.
    pub open spec fn overrides(self, spec: Seq<char>, tier: ModelTier) -> bool {
        match self.facts(spec) {
            Some(facts) => facts.overrides@.contains(tier),
            None => false,
        }
    }

    /// The model that holds the role.
    pub open spec fn holder(self, tier: ModelTier) -> Option<Seq<char>> {
        holder_of(self.roles@, tier)
    }

    /// What the model costs, when that is known.
    pub open spec fn price(self, spec: Seq<char>) -> Option<Seq<char>> {
        match self.facts(spec) {
            Some(facts) => text::option_view(facts.price),
            None => None,
        }
    }

    pub fn find_facts(&self, spec: &str) -> (facts: Option<&ModelFacts>)
        ensures
            match facts {
                Some(facts) => self.facts(spec@) == Some(*facts),
                None => self.facts(spec@) is None,
            },
    {
        let mut i: usize = 0;
        assert(self.models@.skip(0) =~= self.models@);
        while i < self.models.len()
            invariant
                i <= self.models@.len(),
                facts_of(self.models@.skip(i as int), spec@) == facts_of(self.models@, spec@),
            decreases self.models@.len() - i,
        {
            assert(self.models@.skip(i as int)[0] == self.models@[i as int]);
            assert(self.models@.skip(i as int).skip(1) =~= self.models@.skip(i + 1));
            if text::same_text(self.models[i].spec.as_str(), spec) {
                return Some(&self.models[i]);
            }
            i += 1;
        }
        None
    }

    pub fn find_provider_name(&self, provider: &[char]) -> (name: Option<String>)
        ensures
            text::option_view(name) == self.provider_name(provider@),
    {
        let mut i: usize = 0;
        assert(self.providers@.skip(0) =~= self.providers@);
        while i < self.providers.len()
            invariant
                i <= self.providers@.len(),
                names_of(self.providers@.skip(i as int), provider@) == names_of(
                    self.providers@,
                    provider@,
                ),
            decreases self.providers@.len() - i,
        {
            assert(self.providers@.skip(i as int)[0] == self.providers@[i as int]);
            assert(self.providers@.skip(i as int).skip(1) =~= self.providers@.skip(i + 1));
            let id: Vec<char> = text::chars_of(self.providers[i].provider.as_str());
            if text::same_chars(id.as_slice(), provider) {
                return self.providers[i].display_name();
            }
            i += 1;
        }
        None
    }

    pub fn spec_for_tier(&self, tier: ModelTier) -> (spec: Option<String>)
        ensures
            text::option_view(spec) == self.holder(tier),
    {
        let mut i: usize = 0;
        assert(self.roles@.skip(0) =~= self.roles@);
        while i < self.roles.len()
            invariant
                i <= self.roles@.len(),
                holder_of(self.roles@.skip(i as int), tier) == holder_of(self.roles@, tier),
            decreases self.roles@.len() - i,
        {
            assert(self.roles@.skip(i as int)[0] == self.roles@[i as int]);
            assert(self.roles@.skip(i as int).skip(1) =~= self.roles@.skip(i + 1));
            if self.roles[i].tier == tier {
                return Some(self.roles[i].spec.clone());
            }
            i += 1;
        }
        None
    }

    pub fn has_override(&self, spec: &str, tier: ModelTier) -> (r: bool)
        ensures
            r == self.overrides(spec@, tier),
    {
        match self.find_facts(spec) {
            Some(facts) => holds_tier(&facts.overrides, tier),
            None => false,
        }
    }

    pub fn price_label(&self, spec: &str) -> (label: Option<String>)
        ensures
            text::option_view(label) == self.price(spec@),
    {
        match self.find_facts(spec) {
            Some(facts) => match &facts.price {
                Some(price) => Some(price.clone()),
                None => None,
            },
            None => None,
        }
    }
}

}
