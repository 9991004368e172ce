//! How each provider actually performed this session.
//!
//! Time to first token is the number one feels, and tokens per second is what
//! decides whether a long answer is worth asking for. These describe this run, not a
//! verdict on a provider forever.

use crate::text;
use crate::time::Duration;
use vstd::prelude::*;

verus! {

#[derive(Clone, Copy, PartialEq, Eq, Debug)]
pub struct ProviderStats {
    pub requests: u64,
    pub errors: u64,
    pub ttft_millis_total: u64,
    pub ttft_samples: u64,
    pub ttft_millis_best: Option<u64>,
    pub output_tokens: u64,
    pub stream_millis: u64,
}

impl Default for ProviderStats {
    fn default() -> (stats: Self)
        ensures
            stats == ProviderStats::untouched(),
    {
        ProviderStats {
            requests: 0,
            errors: 0,
            ttft_millis_total: 0,
            ttft_samples: 0,
            ttft_millis_best: None,
            output_tokens: 0,
            stream_millis: 0,
        }
    }
}

impl ProviderStats {
    /// A provider that nothing was asked of yet.
    pub open spec fn untouched() -> ProviderStats {
        ProviderStats {
            requests: 0,
            errors: 0,
            ttft_millis_total: 0,
            ttft_samples: 0,
            ttft_millis_best: None,
            output_tokens: 0,
            stream_millis: 0,
        }
    }

    /// The counters do not run over.
    pub open spec fn room_for_first_token(self, millis: nat) -> bool {
        self.ttft_millis_total + millis <= u64::MAX && self.ttft_samples < u64::MAX
    }

    pub open spec fn with_first_token(self, millis: nat) -> ProviderStats {
        ProviderStats {
            ttft_millis_total: (self.ttft_millis_total + millis) as u64,
            ttft_samples: (self.ttft_samples + 1) as u64,
            ttft_millis_best: match self.ttft_millis_best {
                Some(best) if best <= millis => Some(best),
                _ => Some(millis as u64),
            },
            ..self
        }
    }

    /// The counters do not run over.
    pub open spec fn room_for_success(self, output_tokens: u32, millis: nat) -> bool {
        self.requests < u64::MAX && self.output_tokens + output_tokens <= u64::MAX
            && self.stream_millis + millis <= u64::MAX
    }

    pub open spec fn with_success(self, output_tokens: u32, millis: nat) -> ProviderStats {
        ProviderStats {
            requests: (self.requests + 1) as u64,
            output_tokens: (self.output_tokens + output_tokens) as u64,
            stream_millis: (self.stream_millis + millis) as u64,
            ..self
        }
    }

    /// The counters do not run over.
    pub open spec fn room_for_error(self) -> bool {
        self.requests < u64::MAX && self.errors < u64::MAX
    }

    pub open spec fn with_error(self) -> ProviderStats {
        ProviderStats {
            requests: (self.requests + 1) as u64,
            errors: (self.errors + 1) as u64,
            ..self
        }
    }

    /// The mean over the samples, when there are any.
    pub open spec fn mean(self) -> Option<u64> {
        if self.ttft_samples > 0 {
            Some((self.ttft_millis_total / self.ttft_samples) as u64)
        } else {
            None
        }
    }

    /// `None` until a stream actually produces something, so that a provider that
    /// only ever failed does not report a flattering zero.
    pub fn mean_ttft_millis(&self) -> (mean: Option<u64>)
        ensures
            mean == self.mean(),
    {
        if self.ttft_samples > 0 {
            Some(self.ttft_millis_total / self.ttft_samples)
        } else {
            None
        }
    }

    /// Tokens and the milliseconds that they took, from first token to end of
    /// stream and not from the start of the request: including the wait would blend
    /// latency into a throughput number.
    pub fn throughput(&self) -> (r: Option<(u64, u64)>)
        ensures
            r == if self.stream_millis > 0 && self.output_tokens > 0 {
                Some((self.output_tokens, self.stream_millis))
            } else {
                None
            },
    {
        if self.stream_millis > 0 && self.output_tokens > 0 {
            Some((self.output_tokens, self.stream_millis))
        } else {
            None
        }
    }

    /// What holds of stats that were recorded: there is a best time as soon as there
    /// is a sample, no sample was better, and no more requests failed than were
    /// made.
    pub open spec fn consistent(self) -> bool {
        &&& self.ttft_millis_best is Some <==> self.ttft_samples > 0
        &&& self.ttft_millis_best is Some ==> self.ttft_millis_best->0 * self.ttft_samples
            <= self.ttft_millis_total
        &&& self.errors <= self.requests
    }
}

pub struct StatsEntry {
    pub slug: String,
    pub stats: ProviderStats,
}

/// The stats of every provider, in the order of their names.
pub struct StatsStore {
    entries: Vec<StatsEntry>,
}

pub open spec fn comes_before(a: Seq<char>, b: Seq<char>) -> bool {
    text::in_order(a, b) && a != b
}

/// Every entry comes before those after it, so that no two are of one provider.
pub open spec fn sorted(entries: Seq<StatsEntry>) -> bool {
    forall|i: int, j: int|
        0 <= i < j < entries.len() ==> comes_before(
            (#[trigger] entries[i]).slug@,
            (#[trigger] entries[j]).slug@,
        )
}

/// Whether there is an entry of that name.
pub open spec fn has_entry(entries: Seq<StatsEntry>, slug: Seq<char>) -> bool {
    exists|i: int| 0 <= i < entries.len() && (#[trigger] entries[i]).slug@ == slug
}

/// What the entries say of each provider.
pub open spec fn as_map(entries: Seq<StatsEntry>) -> Map<Seq<char>, ProviderStats> {
    Map::new(
        |slug: Seq<char>| has_entry(entries, slug),
        |slug: Seq<char>|
            entries[choose|i: int| 0 <= i < entries.len() && (#[trigger] entries[i]).slug@ == slug].stats,
    )
}

impl View for StatsStore {
    type V = Map<Seq<char>, ProviderStats>;

    closed spec fn view(&self) -> Map<Seq<char>, ProviderStats> {
        as_map(self.entries@)
    }
}

/// What is known of a provider; one that nothing was asked of has the stats of an
/// untouched one.
pub open spec fn known(stats: Map<Seq<char>, ProviderStats>, slug: Seq<char>) -> ProviderStats {
    if stats.dom().contains(slug) {
        stats[slug]
    } else {
        ProviderStats::untouched()
    }
}

proof fn lemma_entry_is_its_own(entries: Seq<StatsEntry>, at: int)
    requires
        sorted(entries),
        0 <= at < entries.len(),
    ensures
        as_map(entries).dom().contains(entries[at].slug@),
        as_map(entries)[entries[at].slug@] == entries[at].stats,
{
    let slug = entries[at].slug@;
    let i = choose|i: int| 0 <= i < entries.len() && (#[trigger] entries[i]).slug@ == slug;
    assert(has_entry(entries, slug));
    if i < at {
        assert(comes_before(entries[i].slug@, entries[at].slug@));
    } else if at < i {
        assert(comes_before(entries[at].slug@, entries[i].slug@));
    }
}

proof fn lemma_updated(before: Seq<StatsEntry>, after: Seq<StatsEntry>, at: int)
    requires
        sorted(before),
        sorted(after),
        0 <= at < before.len(),
        after.len() == before.len(),
        after[at].slug@ == before[at].slug@,
        forall|i: int| 0 <= i < before.len() && i != at ==> #[trigger] after[i] == before[i],
    ensures
        as_map(after) == as_map(before).insert(after[at].slug@, after[at].stats),
{
    let slug = after[at].slug@;
    let wanted = as_map(before).insert(slug, after[at].stats);
    assert forall|s: Seq<char>| #[trigger]
        as_map(after).dom().contains(s) == wanted.dom().contains(s) by {
        if has_entry(after, s) {
            let i = choose|i: int| 0 <= i < after.len() && (#[trigger] after[i]).slug@ == s;
            assert(before[i].slug@ == s);
        }
        if has_entry(before, s) {
            let i = choose|i: int| 0 <= i < before.len() && (#[trigger] before[i]).slug@ == s;
            assert(after[i].slug@ == s);
        }
        assert(after[at].slug@ == slug);
    }
    assert forall|s: Seq<char>| #[trigger] as_map(after).dom().contains(s) implies as_map(after)[s]
        == wanted[s] by {
        let i = choose|i: int| 0 <= i < after.len() && (#[trigger] after[i]).slug@ == s;
        lemma_entry_is_its_own(after, i);
        if i != at {
            lemma_entry_is_its_own(before, i);
            if s == slug {
                lemma_entry_is_its_own(after, at);
            }
        }
    }
    assert(as_map(after) =~= wanted);
}

proof fn lemma_inserted(before: Seq<StatsEntry>, entry: StatsEntry, at: int)
    requires
        sorted(before),
        sorted(before.insert(at, entry)),
        0 <= at <= before.len(),
    ensures
        as_map(before.insert(at, entry)) == as_map(before).insert(entry.slug@, entry.stats),
        !as_map(before).dom().contains(entry.slug@),
{
    let after = before.insert(at, entry);
    let slug = entry.slug@;
    let wanted = as_map(before).insert(slug, entry.stats);
    assert(after[at] == entry);
    assert forall|i: int| 0 <= i < before.len() implies (#[trigger] before[i]).slug@ != slug by {
        if i < at {
            assert(after[i] == before[i]);
            assert(comes_before(after[i].slug@, after[at].slug@));
        } else {
            assert(after[i + 1] == before[i]);
            assert(comes_before(after[at].slug@, after[i + 1].slug@));
        }
    }
    assert forall|s: Seq<char>| #[trigger]
        as_map(after).dom().contains(s) == wanted.dom().contains(s) by {
        if has_entry(after, s) {
            let i = choose|i: int| 0 <= i < after.len() && (#[trigger] after[i]).slug@ == s;
            if i < at {
                assert(before[i].slug@ == s);
            } else if i > at {
                assert(before[i - 1].slug@ == s);
            }
        }
        if has_entry(before, s) {
            let i = choose|i: int| 0 <= i < before.len() && (#[trigger] before[i]).slug@ == s;
            if i < at {
                assert(after[i].slug@ == s);
            } else {
                assert(after[i + 1].slug@ == s);
            }
        }
    }
    assert forall|s: Seq<char>| #[trigger] as_map(after).dom().contains(s) implies as_map(after)[s]
        == wanted[s] by {
        let i = choose|i: int| 0 <= i < after.len() && (#[trigger] after[i]).slug@ == s;
        lemma_entry_is_its_own(after, i);
        if i < at {
            assert(after[i] == before[i]);
            lemma_entry_is_its_own(before, i);
        } else if i > at {
            assert(after[i] == before[i - 1]);
            lemma_entry_is_its_own(before, i - 1);
        }
    }
    assert(as_map(after) =~= wanted);
}

impl StatsStore {
    pub closed spec fn valid(&self) -> bool {
        sorted(self.entries@)
    }

    pub fn new() -> (store: StatsStore)
        ensures
            store.valid(),
            store@ == Map::<Seq<char>, ProviderStats>::empty(),
    {
        let store: StatsStore = StatsStore { entries: Vec::new() };
        assert(store@ =~= Map::<Seq<char>, ProviderStats>::empty());
        store
    }

    /// Where a provider's entry stands, and whether there is one: where it would
    /// stand when there is none.
    fn position(&self, slug: &str) -> (r: (usize, bool))
        requires
            self.valid(),
        ensures
            r.0 <= self.entries@.len(),
            forall|i: int|
                0 <= i < r.0 ==> comes_before((#[trigger] self.entries@[i]).slug@, slug@),
            r.1 ==> r.0 < self.entries@.len() && self.entries@[r.0 as int].slug@ == slug@,
            !r.1 ==> forall|i: int|
                r.0 <= i < self.entries@.len() ==> comes_before(
                    slug@,
                    (#[trigger] self.entries@[i]).slug@,
                ),
    {
        let mut at: usize = 0;
        while at < self.entries.len()
            invariant
                self.valid(),
                at <= self.entries@.len(),
                forall|i: int|
                    0 <= i < at ==> comes_before((#[trigger] self.entries@[i]).slug@, slug@),
            decreases self.entries@.len() - at,
        {
            let here: &str = self.entries[at].slug.as_str();
            if text::same_text(here, slug) {
                return (at, true);
            }
            if !text::ordered(here, slug) {
                proof {
                    let first = self.entries@[at as int].slug@;
                    text::lemma_in_order_total(first, slug@);
                    assert forall|i: int| at <= i < self.entries@.len() implies comes_before(
                        slug@,
                        (#[trigger] self.entries@[i]).slug@,
                    ) by {
                        if i > at {
                            let later = self.entries@[i].slug@;
                            assert(comes_before(self.entries@[at as int].slug@, later));
                            text::lemma_in_order_transitive(slug@, first, later);
                            if later == slug@ {
                                text::lemma_in_order_antisymmetric(slug@, first);
                            }
                        }
                    }
                }
                return (at, false);
            }
            at += 1;
        }
        (at, false)
    }

    /// What is known of a provider.
    pub fn get(&self, slug: &str) -> (stats: Option<ProviderStats>)
        requires
            self.valid(),
        ensures
            stats == if self@.dom().contains(slug@) {
                Some(self@[slug@])
            } else {
                None
            },
    {
        let (at, found): (usize, bool) = self.position(slug);
        if found {
            proof {
                lemma_entry_is_its_own(self.entries@, at as int);
            }
            Some(self.entries[at].stats)
        } else {
            proof {
                self.lemma_absent(slug@, at as int);
            }
            None
        }
    }

    proof fn lemma_absent(&self, slug: Seq<char>, at: int)
        requires
            forall|i: int| 0 <= i < at ==> comes_before((#[trigger] self.entries@[i]).slug@, slug),
            forall|i: int|
                at <= i < self.entries@.len() ==> comes_before(
                    slug,
                    (#[trigger] self.entries@[i]).slug@,
                ),
        ensures
            !self@.dom().contains(slug),
    {
        if has_entry(self.entries@, slug) {
            let i = choose|i: int|
                0 <= i < self.entries@.len() && (#[trigger] self.entries@[i]).slug@ == slug;
            if i < at {
                assert(comes_before(self.entries@[i].slug@, slug));
            } else {
                assert(comes_before(slug, self.entries@[i].slug@));
            }
        }
    }

    fn known_of(&self, slug: &str) -> (stats: ProviderStats)
        requires
            self.valid(),
        ensures
            stats == known(self@, slug@),
    {
        match self.get(slug) {
            Some(stats) => stats,
            None => ProviderStats::default(),
        }
    }

    fn put(&mut self, slug: &str, stats: ProviderStats)
        requires
            old(self).valid(),
        ensures
            final(self).valid(),
            final(self)@ == old(self)@.insert(slug@, stats),
    {
        let (at, found): (usize, bool) = self.position(slug);
        let ghost before = self.entries@;
        if found {
            self.entries.set(at, StatsEntry { slug: slug.to_string(), stats });
            proof {
                let after = self.entries@;
                assert forall|i: int, j: int| 0 <= i < j < after.len() implies comes_before(
                    (#[trigger] after[i]).slug@,
                    (#[trigger] after[j]).slug@,
                ) by {
                    assert(comes_before(before[i].slug@, before[j].slug@));
                }
                lemma_updated(before, after, at as int);
            }
        } else {
            let entry: StatsEntry = StatsEntry { slug: slug.to_string(), stats };
            let ghost put = entry;
            self.entries.insert(at, entry);
            proof {
                let after = self.entries@;
                assert(after =~= before.insert(at as int, put));
                assert forall|i: int, j: int| 0 <= i < j < after.len() implies comes_before(
                    (#[trigger] after[i]).slug@,
                    (#[trigger] after[j]).slug@,
                ) by {
                    if j < at {
                        assert(comes_before(before[i].slug@, before[j].slug@));
                    } else if j == at {
                        assert(comes_before(before[i].slug@, slug@));
                    } else if i < at {
                        assert(comes_before(before[i].slug@, before[j - 1].slug@));
                    } else if i == at {
                        assert(comes_before(slug@, before[j - 1].slug@));
                    } else {
                        assert(comes_before(before[i - 1].slug@, before[j - 1].slug@));
                    }
                }
                lemma_inserted(before, put, at as int);
            }
        }
    }

    /// Whether the counters hold out for another first token.
    pub fn fits_first_token(&self, slug: &str, ttft: Duration) -> (r: bool)
        requires
            self.valid(),
        ensures
            r == known(self@, slug@).room_for_first_token(ttft.millis_word()),
    {
        let stats: ProviderStats = self.known_of(slug);
        stats.ttft_millis_total <= u64::MAX - ttft.as_millis_word() && stats.ttft_samples < u64::MAX
    }

    /// Whether the counters hold out for another success.
    pub fn fits_success(&self, slug: &str, output_tokens: u32, stream: Duration) -> (r: bool)
        requires
            self.valid(),
        ensures
            r == known(self@, slug@).room_for_success(output_tokens, stream.millis_word()),
    {
        let stats: ProviderStats = self.known_of(slug);
        stats.requests < u64::MAX && stats.output_tokens <= u64::MAX - output_tokens as u64
            && stats.stream_millis <= u64::MAX - stream.as_millis_word()
    }

    /// Whether the counters hold out for another failure.
    pub fn fits_error(&self, slug: &str) -> (r: bool)
        requires
            self.valid(),
        ensures
            r == known(self@, slug@).room_for_error(),
    {
        let stats: ProviderStats = self.known_of(slug);
        stats.requests < u64::MAX && stats.errors < u64::MAX
    }
}

/// The wait for the first token of a stream.
pub fn record_first_token(store: &mut StatsStore, slug: &str, ttft: Duration)
    requires
        old(store).valid(),
        known(old(store)@, slug@).room_for_first_token(ttft.millis_word()),
    ensures
        final(store).valid(),
        final(store)@ == old(store)@.insert(
            slug@,
            known(old(store)@, slug@).with_first_token(ttft.millis_word()),
        ),
{
    let millis: u64 = ttft.as_millis_word();
    let mut stats: ProviderStats = store.known_of(slug);
    stats.ttft_millis_total = stats.ttft_millis_total + millis;
    stats.ttft_samples = stats.ttft_samples + 1;
    stats.ttft_millis_best = match stats.ttft_millis_best {
        Some(best) => Some(
            if best <= millis {
                best
            } else {
                millis
            },
        ),
        None => Some(millis),
    };
    store.put(slug, stats);
}

/// `stream` is the span from first token to the end, so that it pairs with the
/// tokens that arrived in it.
pub fn record_success(store: &mut StatsStore, slug: &str, output_tokens: u32, stream: Duration)
    requires
        old(store).valid(),
        known(old(store)@, slug@).room_for_success(output_tokens, stream.millis_word()),
    ensures
        final(store).valid(),
        final(store)@ == old(store)@.insert(
            slug@,
            known(old(store)@, slug@).with_success(output_tokens, stream.millis_word()),
        ),
{
    let mut stats: ProviderStats = store.known_of(slug);
    stats.requests = stats.requests + 1;
    stats.output_tokens = stats.output_tokens + output_tokens as u64;
    stats.stream_millis = stats.stream_millis + stream.as_millis_word();
    store.put(slug, stats);
}

/// Only failures that end a request. One that is tried again and then succeeds
/// is not an outage that the user suffered.
pub fn record_error(store: &mut StatsStore, slug: &str)
    requires
        old(store).valid(),
        known(old(store)@, slug@).room_for_error(),
    ensures
        final(store).valid(),
        final(store)@ == old(store)@.insert(slug@, known(old(store)@, slug@).with_error()),
{
    let mut stats: ProviderStats = store.known_of(slug);
    stats.requests = stats.requests + 1;
    stats.errors = stats.errors + 1;
    store.put(slug, stats);
}

/// The stats of every provider, in the order of their names.
pub fn snapshot(store: &StatsStore) -> (entries: Vec<StatsEntry>)
    requires
        store.valid(),
    ensures
        sorted(entries@),
        as_map(entries@) == store@,
{
    let mut entries: Vec<StatsEntry> = Vec::new();
    let mut i: usize = 0;
    while i < store.entries.len()
        invariant
            i <= store.entries@.len(),
            entries@.len() == i,
            forall|k: int|
                0 <= k < i ==> (#[trigger] entries@[k]).slug@ == store.entries@[k].slug@
                    && entries@[k].stats == store.entries@[k].stats,
        decreases store.entries@.len() - i,
    {
        entries.push(
            StatsEntry { slug: store.entries[i].slug.clone(), stats: store.entries[i].stats },
        );
        i += 1;
    }
    proof {
        let (copy, mine) = (entries@, store.entries@);
        assert forall|a: int, b: int| 0 <= a < b < copy.len() implies comes_before(
            (#[trigger] copy[a]).slug@,
            (#[trigger] copy[b]).slug@,
        ) by {
            assert(comes_before(mine[a].slug@, mine[b].slug@));
        }
        assert forall|s: Seq<char>| #[trigger]
            as_map(copy).dom().contains(s) == as_map(mine).dom().contains(s) by {
            if has_entry(copy, s) {
                let k = choose|k: int| 0 <= k < copy.len() && (#[trigger] copy[k]).slug@ == s;
                assert(mine[k].slug@ == s);
            }
            if has_entry(mine, s) {
                let k = choose|k: int| 0 <= k < mine.len() && (#[trigger] mine[k]).slug@ == s;
                assert(copy[k].slug@ == s);
            }
        }
        assert forall|s: Seq<char>| #[trigger]
            as_map(copy).dom().contains(s) implies as_map(copy)[s] == as_map(mine)[s] by {
            let k = choose|k: int| 0 <= k < copy.len() && (#[trigger] copy[k]).slug@ == s;
            lemma_entry_is_its_own(copy, k);
            lemma_entry_is_its_own(mine, k);
        }
        assert(as_map(copy) =~= as_map(mine));
    }
    entries
}

/// What is recorded of one provider leaves the others as they were.
pub proof fn law_providers_are_apart(
    stats: Map<Seq<char>, ProviderStats>,
    slug: Seq<char>,
    recorded: ProviderStats,
    other: Seq<char>,
)
    requires
        other != slug,
    ensures
        known(stats.insert(slug, recorded), other) == known(stats, other),
        known(stats.insert(slug, recorded), slug) == recorded,
{
}

/// A provider of which nothing was recorded reports nothing rather than zero.
pub proof fn law_untouched_providers_report_nothing(
    stats: Map<Seq<char>, ProviderStats>,
    slug: Seq<char>,
)
    requires
        !stats.dom().contains(slug),
    ensures
        known(stats, slug).mean() is None,
        known(stats, slug).ttft_millis_best is None,
        known(stats, slug).consistent(),
{
}

/// What one first token does to the numbers: one more sample, its time on the total,
/// and a best that is the smaller of the two; nothing else moves.
pub proof fn law_a_first_token_adds_up(stats: ProviderStats, millis: nat)
    requires
        millis <= u64::MAX,
        stats.ttft_millis_total + millis <= u64::MAX,
        stats.ttft_samples < u64::MAX,
    ensures
        ({
            let after = stats.with_first_token(millis);
            &&& stats.room_for_first_token(millis)
            &&& after.ttft_millis_total == stats.ttft_millis_total + millis
            &&& after.ttft_samples == stats.ttft_samples + 1
            &&& after.ttft_millis_best is Some
            &&& after.ttft_millis_best->0 <= millis
            &&& stats.ttft_millis_best is Some ==> after.ttft_millis_best->0
                <= stats.ttft_millis_best->0
            &&& after.ttft_millis_best->0 == millis || after.ttft_millis_best
                == stats.ttft_millis_best
            &&& after.requests == stats.requests && after.errors == stats.errors
            &&& after.output_tokens == stats.output_tokens && after.stream_millis
                == stats.stream_millis
        }),
{
}

/// What one success does to the numbers: one more request, its tokens and its time;
/// nothing else moves.
pub proof fn law_a_success_adds_up(stats: ProviderStats, output_tokens: u32, millis: nat)
    requires
        stats.requests < u64::MAX,
        stats.output_tokens + output_tokens <= u64::MAX,
        stats.stream_millis + millis <= u64::MAX,
    ensures
        stats.room_for_success(output_tokens, millis),
        stats.with_success(output_tokens, millis) == (ProviderStats {
            requests: (stats.requests + 1) as u64,
            output_tokens: (stats.output_tokens + output_tokens) as u64,
            stream_millis: (stats.stream_millis + millis) as u64,
            ..stats
        }),
{
}

/// What one failure does to the numbers: one more request and one more error; nothing
/// else moves.
pub proof fn law_a_failure_adds_up(stats: ProviderStats)
    requires
        stats.requests < u64::MAX,
        stats.errors < u64::MAX,
    ensures
        stats.room_for_error(),
        stats.with_error() == (ProviderStats {
            requests: (stats.requests + 1) as u64,
            errors: (stats.errors + 1) as u64,
            ..stats
        }),
{
}

/// The mean times the samples is the total, but for what is lost by rounding down; it
/// is there exactly when there is a sample.
pub proof fn law_the_mean_is_the_total_over_the_samples(stats: ProviderStats)
    ensures
        stats.mean() is Some <==> stats.ttft_samples > 0,
        stats.mean() is Some ==> stats.mean()->0 * stats.ttft_samples <= stats.ttft_millis_total
            < (stats.mean()->0 + 1) * stats.ttft_samples,
{
    if stats.ttft_samples > 0 {
        let (total, samples) = (stats.ttft_millis_total as int, stats.ttft_samples as int);
        let mean = total / samples;
        assert(mean * samples <= total < (mean + 1) * samples && 0 <= mean <= total)
            by (nonlinear_arith)
            requires
                mean == total / samples,
                samples > 0,
                total >= 0,
        ;
    }
}

/// Whatever is recorded, the stats stay consistent.
pub proof fn law_recording_keeps_stats_consistent(
    stats: ProviderStats,
    millis: nat,
    output_tokens: u32,
)
    requires
        stats.consistent(),
        millis <= u64::MAX,
    ensures
        stats.room_for_first_token(millis) ==> stats.with_first_token(millis).consistent(),
        stats.room_for_success(output_tokens, millis) ==> stats.with_success(
            output_tokens,
            millis,
        ).consistent(),
        stats.room_for_error() ==> stats.with_error().consistent(),
{
    if stats.room_for_first_token(millis) {
        let after = stats.with_first_token(millis);
        let best = after.ttft_millis_best->0 as int;
        let samples = stats.ttft_samples as int;
        assert(best <= millis && after.ttft_samples == samples + 1);
        if stats.ttft_millis_best is Some {
            let old_best = stats.ttft_millis_best->0 as int;
            assert(best * samples <= old_best * samples) by (nonlinear_arith)
                requires
                    best <= old_best,
                    samples >= 0,
            ;
        } else {
            assert(best * samples == 0) by (nonlinear_arith)
                requires
                    samples == 0,
            ;
        }
        assert(best * (samples + 1) == best * samples + best) by (nonlinear_arith);
    }
}

/// The best time is never above the mean.
pub proof fn law_best_is_no_worse_than_the_mean(stats: ProviderStats)
    requires
        stats.consistent(),
        stats.ttft_samples > 0,
    ensures
        stats.mean() is Some,
        stats.ttft_millis_best->0 <= stats.mean()->0,
{
    let (best, samples, total) = (
        stats.ttft_millis_best->0 as int,
        stats.ttft_samples as int,
        stats.ttft_millis_total as int,
    );
    assert(best <= total / samples) by (nonlinear_arith)
        requires
            best * samples <= total,
            samples > 0,
    ;
}

}
