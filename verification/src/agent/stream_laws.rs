//! What becomes of a stream, event by event and over any number of attempts.

use super::streaming;
use super::streaming::{
    AgentEvent, Failure, FailureKind, ProviderEvent, StreamAction, StreamEvent, StreamFacts,
    StreamPhase,
};
use crate::providers::stats;
use crate::providers::stats::ProviderStats;
use crate::time::{Duration, Instant};
use vstd::prelude::*;

verus! {

/// A request is given up exactly when a timeout came back once more than allowed:
/// whatever else can be tried again is waited for, whichever attempt it is.
pub proof fn law_only_timeouts_run_out(failure: Failure, attempt: u32, max_timeout_retries: u32)
    ensures
        ({
            let (phase, action) = streaming::stepped(
                StreamPhase::Backoff(failure),
                StreamEvent::Counted { attempt },
                max_timeout_retries,
            );
            &&& action == StreamAction::GiveUp <==> failure.kind == FailureKind::Timeout && attempt
                > max_timeout_retries
            &&& action == StreamAction::GiveUp ==> phase == StreamPhase::Over
            &&& action != StreamAction::GiveUp ==> phase == StreamPhase::Waiting && action
                == StreamAction::Wait
        }),
{
}

/// Nothing but a counted retry gives a request up.
pub proof fn law_giving_up_takes_a_counted_timeout(
    phase: StreamPhase,
    event: StreamEvent,
    max_timeout_retries: u32,
)
    ensures
        streaming::stepped(phase, event, max_timeout_retries).1 == StreamAction::GiveUp ==> (phase
            matches StreamPhase::Backoff(failure) && failure.kind == FailureKind::Timeout && (event
            matches StreamEvent::Counted { attempt } && attempt > max_timeout_retries)),
{
}

/// How a stream ends decides what follows: an answer finishes the request, a cancel
/// ends it, what can be tried again is, with another key exactly where the failure asks
/// for one, and everything else fails.
pub proof fn law_how_a_stream_ends_decides(failure: Failure, max_timeout_retries: u32)
    ensures
        streaming::stepped(
            StreamPhase::Streaming,
            StreamEvent::Ended(None),
            max_timeout_retries,
        ) == (StreamPhase::Over, StreamAction::Finish),
        ({
            let (phase, action) = streaming::stepped(
                StreamPhase::Streaming,
                StreamEvent::Ended(Some(failure)),
                max_timeout_retries,
            );
            &&& failure.kind == FailureKind::Cancelled ==> phase == StreamPhase::Over && action
                == StreamAction::Cancel
            &&& failure.kind != FailureKind::Cancelled && failure.retryable ==> phase
                == StreamPhase::Backoff(failure) && action == (StreamAction::CountRetry {
                rotate_key: failure.rotates_key,
            })
            &&& failure.kind != FailureKind::Cancelled && !failure.retryable ==> phase
                == StreamPhase::Over && action == StreamAction::Fail
        }),
{
}

/// A wait that was not cut short leads to another attempt, and one that was ends the
/// request.
pub proof fn law_a_wait_leads_on(cancelled: bool, max_timeout_retries: u32)
    ensures
        ({
            let (phase, action) = streaming::stepped(
                StreamPhase::Waiting,
                StreamEvent::Waited { cancelled },
                max_timeout_retries,
            );
            &&& cancelled ==> phase == StreamPhase::Over && action == StreamAction::Cancel
            &&& !cancelled ==> phase == StreamPhase::Streaming && action == StreamAction::TryAgain
        }),
{
}

/// What cannot happen now changes nothing.
pub proof fn law_what_cannot_happen_changes_nothing(
    phase: StreamPhase,
    event: StreamEvent,
    max_timeout_retries: u32,
)
    requires
        !(phase is Streaming && event is Ended),
        !(phase is Backoff && event is Counted),
        !(phase is Waiting && event is Waited),
    ensures
        streaming::stepped(phase, event, max_timeout_retries) == (phase, StreamAction::Ignore),
{
}

/// Where a request stands after it failed alike once for each of these retries, none
/// of which was cut short.
pub open spec fn after_rounds(
    failure: Failure,
    attempts: Seq<u32>,
    max_timeout_retries: u32,
) -> StreamPhase
    decreases attempts.len(),
{
    if attempts.len() == 0 {
        StreamPhase::Streaming
    } else {
        let before = after_rounds(failure, attempts.drop_last(), max_timeout_retries);
        let ended = streaming::stepped(
            before,
            StreamEvent::Ended(Some(failure)),
            max_timeout_retries,
        ).0;
        let counted = streaming::stepped(
            ended,
            StreamEvent::Counted { attempt: attempts.last() },
            max_timeout_retries,
        ).0;
        streaming::stepped(
            counted,
            StreamEvent::Waited { cancelled: false },
            max_timeout_retries,
        ).0
    }
}

/// A failure that can be tried again and is neither a cancel nor a timeout is tried
/// again for as long as it takes.
pub proof fn law_other_failures_are_retried_without_end(
    failure: Failure,
    attempts: Seq<u32>,
    max_timeout_retries: u32,
)
    requires
        failure.retryable,
        failure.kind != FailureKind::Cancelled,
        failure.kind != FailureKind::Timeout,
    ensures
        after_rounds(failure, attempts, max_timeout_retries) == StreamPhase::Streaming,
    decreases attempts.len(),
{
    if attempts.len() > 0 {
        law_other_failures_are_retried_without_end(
            failure,
            attempts.drop_last(),
            max_timeout_retries,
        );
    }
}

/// Everything that the provider says is passed on with what it holds, except for the
/// name of the upstream.
pub proof fn law_all_but_the_upstream_is_passed_on(
    text: String,
    id: String,
    name: String,
    processed: u64,
    total: u64,
    cache: u64,
)
    ensures
        streaming::passed_on(ProviderEvent::Upstream { name }) is None,
        streaming::passed_on(ProviderEvent::TextDelta { text }) == Some(
            AgentEvent::TextDelta { text },
        ),
        streaming::passed_on(ProviderEvent::ThinkingDelta { text }) == Some(
            AgentEvent::ThinkingDelta { text },
        ),
        streaming::passed_on(ProviderEvent::ToolUseStart { id, name }) == Some(
            AgentEvent::ToolPending { id, name },
        ),
        streaming::passed_on(ProviderEvent::PromptProgress { processed, total, cache }) == Some(
            AgentEvent::PromptProgress { processed, total, cache },
        ),
{
}

/// The first token is noted once, at the first piece of text or thinking, and the
/// upstream is the one named last; nothing else is noted.
pub proof fn law_what_is_noted_of_an_event(facts: StreamFacts, event: ProviderEvent, now: Instant)
    ensures
        facts.first_token is Some ==> facts.after(event, now).first_token == facts.first_token,
        facts.first_token is None && (event is TextDelta || event is ThinkingDelta)
            ==> facts.after(event, now).first_token == Some(now),
        facts.first_token is None && !(event is TextDelta || event is ThinkingDelta)
            ==> facts.after(event, now).first_token is None,
        event matches ProviderEvent::Upstream { name } ==> facts.after(event, now).upstream == Some(
            name@,
        ),
        !(event is Upstream) ==> facts.after(event, now).upstream == facts.upstream,
{
}

/// The upstream of a whole stream is the last that was named.
pub proof fn law_the_last_upstream_counts(events: Seq<(ProviderEvent, Instant)>, at: int)
    requires
        0 <= at < events.len(),
        events[at].0 is Upstream,
        forall|i: int| at < i < events.len() ==> !((#[trigger] events[i]).0 is Upstream),
    ensures
        events[at].0 matches ProviderEvent::Upstream { name } && streaming::facts_of(
            events,
        ).upstream == Some(name@),
    decreases events.len(),
{
    if at < events.len() - 1 {
        let rest = events.drop_last();
        assert(rest[at] == events[at]);
        assert forall|i: int| at < i < rest.len() implies !((#[trigger] rest[i]).0 is Upstream) by {
            assert(rest[i] == events[i]);
        }
        law_the_last_upstream_counts(rest, at);
        assert(!(events[events.len() - 1].0 is Upstream));
    }
}

/// A stream in which no upstream is named has none.
pub proof fn law_no_upstream_unless_named(events: Seq<(ProviderEvent, Instant)>)
    requires
        forall|i: int| 0 <= i < events.len() ==> !((#[trigger] events[i]).0 is Upstream),
    ensures
        streaming::facts_of(events).upstream is None,
        events.len() == 0 ==> streaming::facts_of(events).first_token is None,
    decreases events.len(),
{
    if events.len() > 0 {
        let rest = events.drop_last();
        assert forall|i: int| 0 <= i < rest.len() implies !((#[trigger] rest[i]).0 is Upstream) by {
            assert(rest[i] == events[i]);
        }
        law_no_upstream_unless_named(rest);
        assert(!(events[events.len() - 1].0 is Upstream));
    }
}

/// A stream is counted under the provider first, and under the upstream too when there
/// is one.
pub proof fn law_a_stream_is_counted_under_its_names(slug: Seq<char>, upstream_key: Option<Seq<char>>)
    ensures
        streaming::keys_of(slug, upstream_key)[0] == slug,
        upstream_key is None ==> streaming::keys_of(slug, upstream_key).len() == 1,
        upstream_key is Some ==> streaming::keys_of(slug, upstream_key).len() == 2
            && streaming::keys_of(slug, upstream_key)[1] == upstream_key->0,
{
}

/// A stream under different names adds to each of them what it would add to that one
/// alone, and leaves every other as it was.
pub proof fn law_a_stream_is_counted_once_under_each_name(
    all: Map<Seq<char>, ProviderStats>,
    keys: Seq<Seq<char>>,
    ttft: Option<Duration>,
    output_tokens: u32,
    stream: Duration,
    key: Seq<char>,
)
    requires
        keys.no_duplicates(),
    ensures
        ({
            let after = streaming::counted(all, keys, ttft, output_tokens, stream);
            let (was, is) = (stats::known(all, key), stats::known(after, key));
            &&& !keys.contains(key) ==> is == was
            &&& keys.contains(key) && streaming::room_for_stream(was, ttft, output_tokens, stream)
                ==> {
                &&& is.requests == was.requests + 1
                &&& is.errors == was.errors
                &&& is.output_tokens == was.output_tokens + output_tokens
                &&& is.stream_millis == was.stream_millis + stream.millis_word()
                &&& ttft is None ==> is.ttft_samples == was.ttft_samples && is.ttft_millis_total
                    == was.ttft_millis_total && is.ttft_millis_best == was.ttft_millis_best
                &&& ttft is Some ==> is.ttft_samples == was.ttft_samples + 1
                    && is.ttft_millis_total == was.ttft_millis_total + ttft->0.millis_word()
                    && is.ttft_millis_best is Some
                &&& ttft is Some && was.ttft_millis_best is None ==> is.ttft_millis_best->0
                    == ttft->0.millis_word()
                &&& ttft is Some && was.ttft_millis_best is Some ==> is.ttft_millis_best->0
                    == vstd::math::min(
                    was.ttft_millis_best->0 as int,
                    ttft->0.millis_word() as int,
                )
            }
        }),
    decreases keys.len(),
{
    if keys.len() > 0 {
        let rest = keys.drop_last();
        law_a_stream_is_counted_once_under_each_name(
            all,
            rest,
            ttft,
            output_tokens,
            stream,
            key,
        );
        law_a_stream_is_counted_once_under_each_name(
            all,
            rest,
            ttft,
            output_tokens,
            stream,
            keys.last(),
        );
        assert(!rest.contains(keys.last())) by {
            if rest.contains(keys.last()) {
                let i = rest.index_of(keys.last());
                assert(keys[i] == keys[keys.len() - 1]);
            }
        }
        assert(keys.contains(key) <==> rest.contains(key) || key == keys.last()) by {
            if rest.contains(key) {
                assert(keys[rest.index_of(key)] == key);
            }
            if keys.contains(key) {
                let i = keys.index_of(key);
                if i < rest.len() {
                    assert(rest[i] == key);
                }
            }
            if key == keys.last() {
                assert(keys[keys.len() - 1] == key);
            }
        }
    }
}

/// A failure under different names is one request and one error for each of them.
pub proof fn law_a_failure_is_counted_once_under_each_name(
    all: Map<Seq<char>, ProviderStats>,
    keys: Seq<Seq<char>>,
    key: Seq<char>,
)
    requires
        keys.no_duplicates(),
    ensures
        ({
            let (was, is) = (
                stats::known(all, key),
                stats::known(streaming::blamed(all, keys), key),
            );
            &&& !keys.contains(key) ==> is == was
            &&& keys.contains(key) && was.room_for_error() ==> is == (ProviderStats {
                requests: (was.requests + 1) as u64,
                errors: (was.errors + 1) as u64,
                ..was
            })
        }),
    decreases keys.len(),
{
    if keys.len() > 0 {
        let rest = keys.drop_last();
        law_a_failure_is_counted_once_under_each_name(all, rest, key);
        law_a_failure_is_counted_once_under_each_name(all, rest, keys.last());
        assert(!rest.contains(keys.last())) by {
            if rest.contains(keys.last()) {
                let i = rest.index_of(keys.last());
                assert(keys[i] == keys[keys.len() - 1]);
            }
        }
        assert(keys.contains(key) <==> rest.contains(key) || key == keys.last()) by {
            if rest.contains(key) {
                assert(keys[rest.index_of(key)] == key);
            }
            if keys.contains(key) {
                let i = keys.index_of(key);
                if i < rest.len() {
                    assert(rest[i] == key);
                }
            }
            if key == keys.last() {
                assert(keys[keys.len() - 1] == key);
            }
        }
    }
}

/// One more name, be it one of those before, adds to that name what a stream or a failure
/// adds, and leaves every other name alone.
pub proof fn law_one_more_name(
    all: Map<Seq<char>, ProviderStats>,
    keys: Seq<Seq<char>>,
    name: Seq<char>,
    other: Seq<char>,
    ttft: Option<Duration>,
    output_tokens: u32,
    stream: Duration,
)
    ensures
        ({
            let before = streaming::counted(all, keys, ttft, output_tokens, stream);
            let after = streaming::counted(all, keys.push(name), ttft, output_tokens, stream);
            let was = stats::known(before, name);
            let waited = if ttft is Some {
                was.with_first_token(ttft->0.millis_word())
            } else {
                was
            };
            &&& stats::known(after, name) == waited.with_success(
                output_tokens,
                stream.millis_word(),
            )
            &&& other != name ==> stats::known(after, other) == stats::known(before, other)
        }),
        ({
            let before = streaming::blamed(all, keys);
            let after = streaming::blamed(all, keys.push(name));
            &&& stats::known(after, name) == stats::known(before, name).with_error()
            &&& other != name ==> stats::known(after, other) == stats::known(before, other)
        }),
{
    assert(keys.push(name).drop_last() =~= keys);
}

/// The counters run over exactly when one of the sums would.
pub proof fn law_room_is_room_in_every_counter(
    was: ProviderStats,
    ttft: Option<Duration>,
    output_tokens: u32,
    stream: Duration,
)
    ensures
        streaming::room_for_stream(was, ttft, output_tokens, stream) <==> {
            &&& was.requests + 1 <= u64::MAX
            &&& was.output_tokens + output_tokens <= u64::MAX
            &&& was.stream_millis + stream.millis_word() <= u64::MAX
            &&& ttft is Some ==> was.ttft_samples + 1 <= u64::MAX && was.ttft_millis_total
                + ttft->0.millis_word() <= u64::MAX
        },
        was.room_for_error() <==> was.requests + 1 <= u64::MAX && was.errors + 1 <= u64::MAX,
{
}

}
