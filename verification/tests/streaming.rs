use maki::agent::streaming::{
    record_failure, record_stream, retry_event, stat_keys, stream_times, AgentEvent, Failure,
    FailureKind, Forwarder, ProviderEvent, StreamAction, StreamEvent, StreamPhase, StreamRun,
};
use maki::providers::stats::StatsStore;
use maki::time::{Duration, Instant};

fn at(millis: u64) -> Instant {
    Instant {
        since_start: Duration::from_millis(millis),
    }
}

fn failure(kind: FailureKind, retryable: bool) -> Failure {
    Failure {
        kind,
        retryable,
        rotates_key: false,
    }
}

#[test]
fn progress_is_not_the_first_token() {
    let mut forwarder = Forwarder::new();
    let passed = forwarder.on_event(
        ProviderEvent::PromptProgress {
            processed: 1,
            total: 2,
            cache: 0,
        },
        at(1),
    );
    assert!(matches!(
        passed,
        Some(AgentEvent::PromptProgress {
            processed: 1,
            total: 2,
            cache: 0
        })
    ));
    forwarder.on_event(
        ProviderEvent::ToolUseStart {
            id: "1".to_string(),
            name: "read".to_string(),
        },
        at(2),
    );
    assert!(forwarder.first_token.is_none());
    let passed = forwarder.on_event(
        ProviderEvent::ThinkingDelta {
            text: "hm".to_string(),
        },
        at(3),
    );
    assert!(matches!(passed, Some(AgentEvent::ThinkingDelta { ref text }) if text == "hm"));
    forwarder.on_event(
        ProviderEvent::TextDelta {
            text: "yes".to_string(),
        },
        at(4),
    );
    assert_eq!(forwarder.first_token, Some(at(3)));
}

#[test]
fn the_upstream_is_kept_and_not_passed_on() {
    let mut forwarder = Forwarder::new();
    let passed = forwarder.on_event(
        ProviderEvent::Upstream {
            name: "together".to_string(),
        },
        at(1),
    );
    assert!(passed.is_none());
    assert_eq!(forwarder.upstream.as_deref(), Some("together"));
    assert!(forwarder.first_token.is_none());
}

#[test]
fn a_broker_is_counted_together_with_its_upstream() {
    assert_eq!(stat_keys("zai", None), ["zai"]);
    assert_eq!(
        stat_keys("openrouter", Some("openrouter/together".to_string())),
        ["openrouter", "openrouter/together"]
    );
}

#[test]
fn the_wait_is_kept_apart_from_the_stream() {
    let times = stream_times(at(100), Some(at(400)), at(1_400));
    assert_eq!(times.ttft, Some(Duration::from_millis(300)));
    assert_eq!(times.stream, Duration::from_millis(1_000));
    let silent = stream_times(at(100), None, at(1_400));
    assert_eq!(silent.ttft, None);
    assert_eq!(silent.stream, Duration::zero());
}

#[test]
fn a_stream_is_counted_under_every_name() {
    let mut store = StatsStore::new();
    let keys = stat_keys("openrouter", Some("openrouter/together".to_string()));
    let done = record_stream(
        &mut store,
        &keys,
        Some(Duration::from_millis(300)),
        50,
        Duration::from_millis(1_000),
    );
    assert_eq!(done, 2);
    for key in &keys {
        let stats = store.get(key).expect("counted");
        assert_eq!(stats.requests, 1);
        assert_eq!(stats.errors, 0);
        assert_eq!(stats.mean_ttft_millis(), Some(300));
        assert_eq!(stats.throughput(), Some((50, 1_000)));
    }
    assert_eq!(record_failure(&mut store, &keys), 2);
    assert_eq!(store.get("openrouter").unwrap().errors, 1);
    assert_eq!(store.get("openrouter").unwrap().requests, 2);
}

#[test]
fn counting_stops_where_a_counter_is_full() {
    let mut store = StatsStore::new();
    let keys = stat_keys("a", Some("b".to_string()));
    let full = Duration::from_millis(u64::MAX);
    assert_eq!(record_stream(&mut store, &keys, None, 1, full), 2);
    assert_eq!(
        record_stream(&mut store, &keys, None, 1, Duration::from_millis(1)),
        0
    );
    assert_eq!(store.get("a").unwrap().requests, 1);
}

#[test]
fn an_answer_finishes_the_request() {
    let mut run = StreamRun::new(3);
    assert_eq!(run.step(StreamEvent::Ended(None)), StreamAction::Finish);
    assert_eq!(run.phase, StreamPhase::Over);
    assert_eq!(run.step(StreamEvent::Ended(None)), StreamAction::Ignore);
}

#[test]
fn a_cancel_is_neither_retried_nor_counted() {
    let mut run = StreamRun::new(3);
    assert_eq!(
        run.step(StreamEvent::Ended(Some(failure(
            FailureKind::Cancelled,
            true
        )))),
        StreamAction::Cancel
    );
    assert_eq!(run.phase, StreamPhase::Over);
}

#[test]
fn what_cannot_be_retried_is_counted() {
    let mut run = StreamRun::new(3);
    assert_eq!(
        run.step(StreamEvent::Ended(Some(failure(FailureKind::Other, false)))),
        StreamAction::Fail
    );
}

#[test]
fn a_retry_waits_and_streams_again() {
    let mut run = StreamRun::new(3);
    let broken = Failure {
        kind: FailureKind::Other,
        retryable: true,
        rotates_key: true,
    };
    assert_eq!(
        run.step(StreamEvent::Ended(Some(broken))),
        StreamAction::CountRetry { rotate_key: true }
    );
    assert_eq!(
        run.step(StreamEvent::Counted { attempt: 99 }),
        StreamAction::Wait
    );
    assert_eq!(
        run.step(StreamEvent::Waited { cancelled: false }),
        StreamAction::TryAgain
    );
    assert_eq!(run.phase, StreamPhase::Streaming);
}

#[test]
fn a_cancel_during_the_wait_ends_the_request() {
    let mut run = StreamRun::new(3);
    run.step(StreamEvent::Ended(Some(failure(FailureKind::Other, true))));
    run.step(StreamEvent::Counted { attempt: 1 });
    assert_eq!(
        run.step(StreamEvent::Waited { cancelled: true }),
        StreamAction::Cancel
    );
    assert_eq!(run.phase, StreamPhase::Over);
}

#[test]
fn timeouts_run_out() {
    let mut run = StreamRun::new(2);
    for attempt in 1..=2 {
        run.step(StreamEvent::Ended(Some(failure(FailureKind::Timeout, true))));
        assert_eq!(
            run.step(StreamEvent::Counted { attempt }),
            StreamAction::Wait
        );
        run.step(StreamEvent::Waited { cancelled: false });
    }
    run.step(StreamEvent::Ended(Some(failure(FailureKind::Timeout, true))));
    assert_eq!(
        run.step(StreamEvent::Counted { attempt: 3 }),
        StreamAction::GiveUp
    );
    assert_eq!(run.phase, StreamPhase::Over);
}

#[test]
fn a_retry_is_announced_with_its_delay() {
    let event = retry_event(2, "overloaded".to_string(), Duration::new(1, 500_999_999));
    assert!(matches!(
        event,
        AgentEvent::Retry { attempt: 2, ref message, delay_ms: 1_500 } if message == "overloaded"
    ));
}
