//! Decides what becomes of a stream from a provider: what is passed on, what is
//! measured, and what happens when it breaks off.

use crate::providers::stats;
use crate::providers::stats::{ProviderStats, StatsStore};
use crate::text;
use crate::time::{Duration, Instant};
use vstd::prelude::*;

verus! {

/// What a provider says while it streams.
pub enum ProviderEvent {
    /// Which upstream a broker chose.
    Upstream { name: String },
    TextDelta { text: String },
    ThinkingDelta { text: String },
    ToolUseStart { id: String, name: String },
    PromptProgress { processed: u64, total: u64, cache: u64 },
}

/// What the user gets to see.
pub enum AgentEvent {
    TextDelta { text: String },
    ThinkingDelta { text: String },
    ToolPending { id: String, name: String },
    PromptProgress { processed: u64, total: u64, cache: u64 },
    Retry { attempt: u32, message: String, delay_ms: u64 },
}

/// What is passed on of an event: all but the bookkeeping, which is not something
/// that the user asked to see.
pub open spec fn passed_on(event: ProviderEvent) -> Option<AgentEvent> {
    match event {
        ProviderEvent::Upstream { .. } => None,
        ProviderEvent::TextDelta { text } => Some(AgentEvent::TextDelta { text }),
        ProviderEvent::ThinkingDelta { text } => Some(AgentEvent::ThinkingDelta { text }),
        ProviderEvent::ToolUseStart { id, name } => Some(AgentEvent::ToolPending { id, name }),
        ProviderEvent::PromptProgress { processed, total, cache } => Some(
            AgentEvent::PromptProgress { processed, total, cache },
        ),
    }
}

/// Whether the event is a piece of the answer. Progress says that the request was
/// accepted, not that the model started answering.
pub open spec fn is_token(event: ProviderEvent) -> bool {
    event is TextDelta || event is ThinkingDelta
}

/// What is kept of a stream while it is passed on.
pub struct Forwarder {
    /// When the first piece of the answer came, so that the rest of the stream can be
    /// billed to throughput instead of blending the wait into it.
    pub first_token: Option<Instant>,
    /// The upstream that was named last.
    pub upstream: Option<String>,
}

/// What a stream came to.
pub struct StreamFacts {
    pub first_token: Option<Instant>,
    pub upstream: Option<Seq<char>>,
}

impl View for Forwarder {
    type V = StreamFacts;

    open spec fn view(&self) -> StreamFacts {
        StreamFacts { first_token: self.first_token, upstream: text::option_view(self.upstream) }
    }
}

impl StreamFacts {
    pub open spec fn nothing() -> StreamFacts {
        StreamFacts { first_token: None, upstream: None }
    }

    pub open spec fn after(self, event: ProviderEvent, now: Instant) -> StreamFacts {
        StreamFacts {
            first_token: if self.first_token is None && is_token(event) {
                Some(now)
            } else {
                self.first_token
            },
            upstream: match event {
                ProviderEvent::Upstream { name } => Some(name@),
                _ => self.upstream,
            },
        }
    }
}

impl Forwarder {
    pub fn new() -> (forwarder: Forwarder)
        ensures
            forwarder@ == StreamFacts::nothing(),
    {
        Forwarder { first_token: None, upstream: None }
    }

    /// Takes note of an event and says what to pass on of it.
    pub fn on_event(&mut self, event: ProviderEvent, now: Instant) -> (passed: Option<AgentEvent>)
        ensures
            final(self)@ == old(self)@.after(event, now),
            passed == passed_on(event),
    {
        if self.first_token.is_none() {
            match &event {
                ProviderEvent::TextDelta { .. } | ProviderEvent::ThinkingDelta { .. } => {
                    self.first_token = Some(now);
                },
                _ => {},
            }
        }
        match event {
            ProviderEvent::Upstream { name } => {
                self.upstream = Some(name);
                None
            },
            ProviderEvent::TextDelta { text } => Some(AgentEvent::TextDelta { text }),
            ProviderEvent::ThinkingDelta { text } => Some(AgentEvent::ThinkingDelta { text }),
            ProviderEvent::ToolUseStart { id, name } => Some(AgentEvent::ToolPending { id, name }),
            ProviderEvent::PromptProgress { processed, total, cache } => Some(
                AgentEvent::PromptProgress { processed, total, cache },
            ),
        }
    }
}

/// What a stream came to once all these events were taken note of.
pub open spec fn facts_of(events: Seq<(ProviderEvent, Instant)>) -> StreamFacts
    decreases events.len(),
{
    if events.len() == 0 {
        StreamFacts::nothing()
    } else {
        facts_of(events.drop_last()).after(events.last().0, events.last().1)
    }
}

/// The first token is the first piece of text or thinking, whatever else came before
/// it; without any there is none.
pub proof fn law_first_token_is_the_first_delta(events: Seq<(ProviderEvent, Instant)>)
    ensures
        match facts_of(events).first_token {
            Some(at) => exists|i: int|
                0 <= i < events.len() && is_token((#[trigger] events[i]).0) && events[i].1 == at
                    && forall|k: int| 0 <= k < i ==> !is_token((#[trigger] events[k]).0),
            None => forall|k: int| 0 <= k < events.len() ==> !is_token((#[trigger] events[k]).0),
        },
    decreases events.len(),
{
    if events.len() > 0 {
        let rest = events.drop_last();
        law_first_token_is_the_first_delta(rest);
        if facts_of(rest).first_token is Some {
            let at = facts_of(rest).first_token->0;
            let i = choose|i: int|
                0 <= i < rest.len() && is_token((#[trigger] rest[i]).0) && rest[i].1 == at
                    && forall|k: int| 0 <= k < i ==> !is_token((#[trigger] rest[k]).0);
            assert(events[i] == rest[i]);
            assert forall|k: int| 0 <= k < i implies !is_token((#[trigger] events[k]).0) by {
                assert(events[k] == rest[k]);
            }
        } else {
            assert forall|k: int| 0 <= k < rest.len() implies !is_token((#[trigger] events[k]).0) by {
                assert(events[k] == rest[k]);
            }
            let last = events.len() - 1;
            assert(events[last] == events.last());
        }
    }
}

/// The names under which a stream is counted: the provider and, for a broker, the
/// upstream that it chose. So the broker stays comparable to other providers while
/// the upstreams say which of them was actually fast.
pub open spec fn keys_of(slug: Seq<char>, upstream_key: Option<Seq<char>>) -> Seq<Seq<char>> {
    match upstream_key {
        Some(key) => seq![slug, key],
        None => seq![slug],
    }
}

pub fn stat_keys(slug: &str, upstream_key: Option<String>) -> (keys: Vec<String>)
    ensures
        text::views(keys@) == keys_of(slug@, text::option_view(upstream_key)),
{
    let mut keys: Vec<String> = Vec::new();
    keys.push(slug.to_string());
    if let Some(key) = upstream_key {
        keys.push(key);
    }
    assert(text::views(keys@) =~= keys_of(slug@, text::option_view(upstream_key)));
    keys
}

/// The wait for the first token, and the stream from then on.
pub struct StreamTimes {
    pub ttft: Option<Duration>,
    pub stream: Duration,
}

/// How a stream that came to its end is measured.
pub fn stream_times(started: Instant, first_token: Option<Instant>, ended: Instant) -> (times:
    StreamTimes)
    ensures
        match first_token {
            Some(at) => {
                &&& times.ttft is Some
                &&& times.ttft->0.total() == at.nanos_since(started)
                &&& times.stream.total() == ended.nanos_since(at)
            },
            None => times.ttft is None && times.stream.total() == 0,
        },
{
    match first_token {
        Some(at) => StreamTimes {
            ttft: Some(at.saturating_duration_since(started)),
            stream: ended.saturating_duration_since(at),
        },
        None => StreamTimes { ttft: None, stream: Duration::zero() },
    }
}

/// What a stream adds to the stats of one name.
pub open spec fn with_stream(
    stats: ProviderStats,
    ttft: Option<Duration>,
    output_tokens: u32,
    stream: Duration,
) -> ProviderStats {
    let waited = match ttft {
        Some(ttft) => stats.with_first_token(ttft.millis_word()),
        None => stats,
    };
    waited.with_success(output_tokens, stream.millis_word())
}

/// The counters of one name hold out for the stream.
pub open spec fn room_for_stream(
    stats: ProviderStats,
    ttft: Option<Duration>,
    output_tokens: u32,
    stream: Duration,
) -> bool {
    &&& ttft is Some ==> stats.room_for_first_token(ttft->0.millis_word())
    &&& stats.room_for_success(output_tokens, stream.millis_word())
}

/// The stats once a stream was counted under each of the names.
pub open spec fn counted(
    all: Map<Seq<char>, ProviderStats>,
    keys: Seq<Seq<char>>,
    ttft: Option<Duration>,
    output_tokens: u32,
    stream: Duration,
) -> Map<Seq<char>, ProviderStats>
    decreases keys.len(),
{
    if keys.len() == 0 {
        all
    } else {
        let earlier = counted(all, keys.drop_last(), ttft, output_tokens, stream);
        earlier.insert(
            keys.last(),
            with_stream(stats::known(earlier, keys.last()), ttft, output_tokens, stream),
        )
    }
}

/// Counts a stream under each of the names, and says for how many the counters held
/// out: it stops at the first for which they do not.
pub fn record_stream(
    store: &mut StatsStore,
    keys: &Vec<String>,
    ttft: Option<Duration>,
    output_tokens: u32,
    stream: Duration,
) -> (done: usize)
    requires
        old(store).valid(),
    ensures
        final(store).valid(),
        done <= keys@.len(),
        final(store)@ == counted(
            old(store)@,
            text::views(keys@).take(done as int),
            ttft,
            output_tokens,
            stream,
        ),
        done < keys@.len() ==> !room_for_stream(
            stats::known(final(store)@, keys@[done as int]@),
            ttft,
            output_tokens,
            stream,
        ),
{
    let ghost names = text::views(keys@);
    let mut i: usize = 0;
    while i < keys.len()
        invariant
            i <= keys@.len(),
            names == text::views(keys@),
            store.valid(),
            store@ == counted(old(store)@, names.take(i as int), ttft, output_tokens, stream),
        decreases keys@.len() - i,
    {
        let key: &str = keys[i].as_str();
        let waits: bool = match ttft {
            Some(ttft) => store.fits_first_token(key, ttft),
            None => true,
        };
        if !waits || !store.fits_success(key, output_tokens, stream) {
            return i;
        }
        let ghost before = store@;
        if let Some(ttft) = ttft {
            stats::record_first_token(store, key, ttft);
        }
        stats::record_success(store, key, output_tokens, stream);
        proof {
            assert(names.take(i + 1).drop_last() =~= names.take(i as int));
            assert(names.take(i + 1).last() == key@);
            assert(store@ =~= before.insert(
                key@,
                with_stream(stats::known(before, key@), ttft, output_tokens, stream),
            ));
        }
        i += 1;
    }
    i
}

/// The stats once a failure was counted under each of the names.
pub open spec fn blamed(
    all: Map<Seq<char>, ProviderStats>,
    keys: Seq<Seq<char>>,
) -> Map<Seq<char>, ProviderStats>
    decreases keys.len(),
{
    if keys.len() == 0 {
        all
    } else {
        let earlier = blamed(all, keys.drop_last());
        earlier.insert(keys.last(), stats::known(earlier, keys.last()).with_error())
    }
}

/// Counts a failure under each of the names, and says for how many the counters held
/// out: it stops at the first for which they do not.
pub fn record_failure(store: &mut StatsStore, keys: &Vec<String>) -> (done: usize)
    requires
        old(store).valid(),
    ensures
        final(store).valid(),
        done <= keys@.len(),
        final(store)@ == blamed(old(store)@, text::views(keys@).take(done as int)),
        done < keys@.len() ==> !stats::known(
            final(store)@,
            keys@[done as int]@,
        ).room_for_error(),
{
    let ghost names = text::views(keys@);
    let mut i: usize = 0;
    while i < keys.len()
        invariant
            i <= keys@.len(),
            names == text::views(keys@),
            store.valid(),
            store@ == blamed(old(store)@, names.take(i as int)),
        decreases keys@.len() - i,
    {
        let key: &str = keys[i].as_str();
        if !store.fits_error(key) {
            return i;
        }
        stats::record_error(store, key);
        proof {
            assert(names.take(i + 1).drop_last() =~= names.take(i as int));
            assert(names.take(i + 1).last() == key@);
        }
        i += 1;
    }
    i
}

#[derive(Clone, Copy, PartialEq, Eq, Debug, Structural)]
pub enum FailureKind {
    Cancelled,
    Timeout,
    Other,
}

/// What went wrong with a stream.
#[derive(Clone, Copy, PartialEq, Eq, Debug, Structural)]
pub struct Failure {
    pub kind: FailureKind,
    pub retryable: bool,
    /// Another key of the provider might do better.
    pub rotates_key: bool,
}

/// Where a request stands.
#[derive(Clone, Copy, PartialEq, Eq, Debug, Structural)]
pub enum StreamPhase {
    /// The provider is streaming.
    Streaming,
    /// An attempt failed and another is made once it is known how long to wait.
    Backoff(Failure),
    /// The wait before the next attempt.
    Waiting,
    /// The request is settled.
    Over,
}

/// What happens to a request.
#[derive(Clone, Copy, PartialEq, Eq, Debug, Structural)]
pub enum StreamEvent {
    /// The stream ended, with an answer or with a failure.
    Ended(Option<Failure>),
    /// The next attempt would be the retry of this number.
    Counted { attempt: u32 },
    /// The wait is over or was cut short.
    Waited { cancelled: bool },
}

/// What to do about it.
#[derive(Clone, Copy, PartialEq, Eq, Debug, Structural)]
pub enum StreamAction {
    /// Count the stream and hand over the answer.
    Finish,
    /// Hand over that the request was cancelled. A cancel is the user changing their
    /// mind, not the provider failing, so nothing is counted.
    Cancel,
    /// Count the retry, first with another key where that might help.
    CountRetry { rotate_key: bool },
    /// Tell the user and wait.
    Wait,
    /// Stream again.
    TryAgain,
    /// Hand over the failure without counting it.
    GiveUp,
    /// Count the failure and hand it over.
    Fail,
    /// That cannot happen now.
    Ignore,
}

/// What becomes of a request. Only so many timeouts are put up with; other failures
/// that can be tried again are, for as long as it takes.
pub open spec fn stepped(
    phase: StreamPhase,
    event: StreamEvent,
    max_timeout_retries: u32,
) -> (StreamPhase, StreamAction) {
    match (phase, event) {
        (StreamPhase::Streaming, StreamEvent::Ended(None)) => (
            StreamPhase::Over,
            StreamAction::Finish,
        ),
        (StreamPhase::Streaming, StreamEvent::Ended(Some(failure))) => if failure.kind
            == FailureKind::Cancelled {
            (StreamPhase::Over, StreamAction::Cancel)
        } else if failure.retryable {
            (
                StreamPhase::Backoff(failure),
                StreamAction::CountRetry { rotate_key: failure.rotates_key },
            )
        } else {
            (StreamPhase::Over, StreamAction::Fail)
        },
        (StreamPhase::Backoff(failure), StreamEvent::Counted { attempt }) => if failure.kind
            == FailureKind::Timeout && attempt > max_timeout_retries {
            (StreamPhase::Over, StreamAction::GiveUp)
        } else {
            (StreamPhase::Waiting, StreamAction::Wait)
        },
        (StreamPhase::Waiting, StreamEvent::Waited { cancelled }) => if cancelled {
            (StreamPhase::Over, StreamAction::Cancel)
        } else {
            (StreamPhase::Streaming, StreamAction::TryAgain)
        },
        _ => (phase, StreamAction::Ignore),
    }
}

/// A request to a provider, until it is settled.
pub struct StreamRun {
    pub phase: StreamPhase,
    pub max_timeout_retries: u32,
}

impl StreamRun {
    pub fn new(max_timeout_retries: u32) -> (run: StreamRun)
        ensures
            run.phase == StreamPhase::Streaming,
            run.max_timeout_retries == max_timeout_retries,
    {
        StreamRun { phase: StreamPhase::Streaming, max_timeout_retries }
    }

    /// Takes note of what happened and says what to do.
    pub fn step(&mut self, event: StreamEvent) -> (action: StreamAction)
        ensures
            (final(self).phase, action) == stepped(
                old(self).phase,
                event,
                old(self).max_timeout_retries,
            ),
            final(self).max_timeout_retries == old(self).max_timeout_retries,
    {
        match (self.phase, event) {
            (StreamPhase::Streaming, StreamEvent::Ended(None)) => {
                self.phase = StreamPhase::Over;
                StreamAction::Finish
            },
            (StreamPhase::Streaming, StreamEvent::Ended(Some(failure))) => {
                if failure.kind == FailureKind::Cancelled {
                    self.phase = StreamPhase::Over;
                    StreamAction::Cancel
                } else if failure.retryable {
                    self.phase = StreamPhase::Backoff(failure);
                    StreamAction::CountRetry { rotate_key: failure.rotates_key }
                } else {
                    self.phase = StreamPhase::Over;
                    StreamAction::Fail
                }
            },
            (StreamPhase::Backoff(failure), StreamEvent::Counted { attempt }) => {
                if failure.kind == FailureKind::Timeout && attempt > self.max_timeout_retries {
                    self.phase = StreamPhase::Over;
                    StreamAction::GiveUp
                } else {
                    self.phase = StreamPhase::Waiting;
                    StreamAction::Wait
                }
            },
            (StreamPhase::Waiting, StreamEvent::Waited { cancelled }) => {
                if cancelled {
                    self.phase = StreamPhase::Over;
                    StreamAction::Cancel
                } else {
                    self.phase = StreamPhase::Streaming;
                    StreamAction::TryAgain
                }
            },
            _ => StreamAction::Ignore,
        }
    }
}

/// What the user is told about a retry.
pub fn retry_event(attempt: u32, message: String, delay: Duration) -> (event: AgentEvent)
    ensures
        event == (AgentEvent::Retry { attempt, message, delay_ms: delay.millis_word() as u64 }),
{
    AgentEvent::Retry { attempt, message, delay_ms: delay.as_millis_word() }
}

/// The actions that settle a request.
pub open spec fn settles(action: StreamAction) -> bool {
    ||| action == StreamAction::Finish
    ||| action == StreamAction::Cancel
    ||| action == StreamAction::GiveUp
    ||| action == StreamAction::Fail
}

/// A request is settled once: by the action that ends it, and by none after.
pub proof fn law_a_request_is_settled_once(
    phase: StreamPhase,
    event: StreamEvent,
    max_timeout_retries: u32,
)
    ensures
        settles(stepped(phase, event, max_timeout_retries).1) <==> phase != StreamPhase::Over
            && stepped(phase, event, max_timeout_retries).0 == StreamPhase::Over,
        phase == StreamPhase::Over ==> stepped(phase, event, max_timeout_retries) == (
            phase,
            StreamAction::Ignore,
        ),
{
}

/// A cancel ends the request at once: it is neither tried again nor counted against
/// the provider, whatever else is said of it.
pub proof fn law_a_cancel_is_not_a_failure(failure: Failure, max_timeout_retries: u32)
    requires
        failure.kind == FailureKind::Cancelled,
    ensures
        stepped(
            StreamPhase::Streaming,
            StreamEvent::Ended(Some(failure)),
            max_timeout_retries,
        ) == (StreamPhase::Over, StreamAction::Cancel),
        stepped(
            StreamPhase::Waiting,
            StreamEvent::Waited { cancelled: true },
            max_timeout_retries,
        ) == (StreamPhase::Over, StreamAction::Cancel),
{
}

/// A failure is counted only when it is no cancel and cannot be tried again.
pub proof fn law_only_final_failures_are_counted(
    phase: StreamPhase,
    event: StreamEvent,
    max_timeout_retries: u32,
)
    ensures
        stepped(phase, event, max_timeout_retries).1 == StreamAction::Fail <==> phase
            == StreamPhase::Streaming && (event matches StreamEvent::Ended(Some(failure))
            && failure.kind != FailureKind::Cancelled && !failure.retryable),
{
}

/// Where a request stands after so many attempts in a row that timed out, none of
/// which was cancelled, with the retries counted from one.
pub open spec fn after_timeouts(failure: Failure, attempts: nat, max_timeout_retries: u32) -> StreamPhase
    decreases attempts,
{
    if attempts == 0 {
        StreamPhase::Streaming
    } else {
        let before = after_timeouts(failure, (attempts - 1) as nat, max_timeout_retries);
        let ended = stepped(before, StreamEvent::Ended(Some(failure)), max_timeout_retries).0;
        let counted = stepped(
            ended,
            StreamEvent::Counted { attempt: attempts as u32 },
            max_timeout_retries,
        ).0;
        stepped(counted, StreamEvent::Waited { cancelled: false }, max_timeout_retries).0
    }
}

/// Timeouts are tried again as often as allowed and not once more.
pub proof fn law_timeouts_run_out(failure: Failure, attempts: nat, max_timeout_retries: u32)
    requires
        failure.kind == FailureKind::Timeout,
        failure.retryable,
        attempts <= u32::MAX,
    ensures
        after_timeouts(failure, attempts, max_timeout_retries) == if attempts
            <= max_timeout_retries {
            StreamPhase::Streaming
        } else {
            StreamPhase::Over
        },
    decreases attempts,
{
    if attempts > 0 {
        law_timeouts_run_out(failure, (attempts - 1) as nat, max_timeout_retries);
    }
}

}
