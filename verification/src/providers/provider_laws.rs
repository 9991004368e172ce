//! Which routing is sent, and what is known of a provider.

use super::routing;
use super::routing::{DataCollection, ProviderDef, Routing, RoutingSort};
use super::stats;
use super::stats::ProviderStats;
use crate::time::Duration;
use vstd::prelude::*;

verus! {

/// Nothing is sent without an override when nothing is configured, or when what is
/// configured asks for nothing; whatever asks for something is sent.
pub proof fn law_what_asks_for_something_is_sent(
    session: Option<Routing>,
    providers: Seq<ProviderDef>,
    slug: Seq<char>,
)
    ensures
        ({
            let chosen = if session is Some {
                session
            } else {
                routing::configured(providers, slug)
            };
            let sent = routing::resolved(session, providers, slug);
            &&& sent is Some <==> chosen is Some && (chosen->0.sort is Some
                || chosen->0.ignore.len() > 0 || chosen->0.only.len() > 0
                || chosen->0.data_collection is Some)
            &&& sent is Some ==> sent == chosen
        }),
{
}

/// The first entry for a provider is what is configured for it, and nothing is when
/// there is none.
pub proof fn law_the_first_configuration_counts(
    providers: Seq<ProviderDef>,
    slug: Seq<char>,
    at: int,
)
    ensures
        0 <= at < providers.len() && providers[at].slug@ == slug && (forall|i: int|
            0 <= i < at ==> (#[trigger] providers[i]).slug@ != slug) ==> routing::configured(
            providers,
            slug,
        ) == routing::option_view(providers[at].routing),
        (forall|i: int| 0 <= i < providers.len() ==> (#[trigger] providers[i]).slug@ != slug)
            ==> routing::configured(providers, slug) is None,
    decreases providers.len(),
{
    if providers.len() > 0 {
        let rest = providers.skip(1);
        law_the_first_configuration_counts(rest, slug, at - 1);
        assert forall|i: int| 0 <= i < rest.len() implies #[trigger] rest[i] == providers[i + 1] by {}
    }
}

/// What is asked for goes over the wire by its name.
pub proof fn law_names_over_the_wire(sort: RoutingSort, policy: DataCollection)
    ensures
        sort.name() == match sort {
            RoutingSort::Price => "price"@,
            RoutingSort::Throughput => "throughput"@,
            RoutingSort::Latency => "latency"@,
        },
        policy.name() == match policy {
            DataCollection::Allow => "allow"@,
            DataCollection::Deny => "deny"@,
        },
{
}

/// A provider that is known has its own numbers, and one that is not has none.
pub proof fn law_unknown_providers_have_no_numbers(
    all: Map<Seq<char>, ProviderStats>,
    slug: Seq<char>,
)
    ensures
        all.dom().contains(slug) ==> stats::known(all, slug) == all[slug],
        !all.dom().contains(slug) ==> {
            let none = stats::known(all, slug);
            &&& none.requests == 0 && none.errors == 0
            &&& none.output_tokens == 0 && none.stream_millis == 0
            &&& none.ttft_samples == 0 && none.ttft_millis_total == 0
            &&& none.ttft_millis_best is None
        },
{
}

/// A time in milliseconds is rounded down.
pub proof fn law_milliseconds_are_rounded_down(d: Duration)
    requires
        d.total() < 1_000_000 * 0x1_0000_0000_0000_0000,
    ensures
        d.millis_word() * 1_000_000 <= d.total() < (d.millis_word() + 1) * 1_000_000,
{
    assert(d.total() / 1_000_000 < 0x1_0000_0000_0000_0000);
}

}
