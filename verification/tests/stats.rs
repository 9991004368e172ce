use maki::providers::stats::{
    record_error, record_first_token, record_success, snapshot, ProviderStats, StatsStore,
};
use maki::time::Duration;

const SLUG: &str = "stats-test-provider";
const OTHER_SLUG: &str = "stats-test-other";

fn tokens_per_sec(stats: &ProviderStats) -> Option<f64> {
    stats
        .throughput()
        .map(|(tokens, millis)| tokens as f64 * 1000.0 / millis as f64)
}

#[test]
fn ttft_tracks_mean_and_best() {
    let mut store = StatsStore::new();
    record_first_token(&mut store, SLUG, Duration::from_millis(300));
    record_first_token(&mut store, SLUG, Duration::from_millis(100));

    let stats = store.get(SLUG).expect("recorded");
    assert_eq!(stats.mean_ttft_millis(), Some(200));
    assert_eq!(stats.ttft_millis_best, Some(100));
}

#[test]
fn throughput_divides_tokens_by_stream_time() {
    let mut store = StatsStore::new();
    record_success(&mut store, OTHER_SLUG, 250, Duration::from_millis(500));

    let stats = store.get(OTHER_SLUG).expect("recorded");
    assert_eq!(tokens_per_sec(&stats), Some(500.0));
}

#[test]
fn untouched_provider_reports_nothing_rather_than_zero() {
    let stats = ProviderStats::default();
    assert_eq!(stats.mean_ttft_millis(), None);
    assert_eq!(tokens_per_sec(&stats), None);
}

#[test]
fn a_later_slower_token_does_not_change_the_best() {
    let mut store = StatsStore::new();
    record_first_token(&mut store, SLUG, Duration::from_millis(100));
    record_first_token(&mut store, SLUG, Duration::from_millis(301));
    let stats = store.get(SLUG).unwrap();
    assert_eq!(stats.ttft_millis_best, Some(100));
    assert_eq!(stats.mean_ttft_millis(), Some(200));
}

#[test]
fn errors_are_requests_too() {
    let mut store = StatsStore::new();
    record_success(&mut store, SLUG, 1, Duration::zero());
    record_error(&mut store, SLUG);
    let stats = store.get(SLUG).unwrap();
    assert_eq!(stats.requests, 2);
    assert_eq!(stats.errors, 1);
    assert_eq!(stats.throughput(), None);
}

#[test]
fn snapshots_are_in_the_order_of_names() {
    let mut store = StatsStore::new();
    for slug in ["zai", "anthropic", "openrouter", "openrouter/together", "é"] {
        record_error(&mut store, slug);
    }
    record_error(&mut store, "zai");
    let names: Vec<String> = snapshot(&store).into_iter().map(|e| e.slug).collect();
    assert_eq!(
        names,
        [
            "anthropic",
            "openrouter",
            "openrouter/together",
            "zai",
            "é"
        ]
    );
    assert_eq!(store.get("zai").unwrap().errors, 2);
    assert_eq!(store.get("anthropic").unwrap().errors, 1);
    assert!(store.get("nobody").is_none());
}

#[test]
fn full_counters_are_told() {
    let mut store = StatsStore::new();
    let long = Duration::from_millis(u64::MAX);
    assert!(store.fits_first_token(SLUG, long));
    record_first_token(&mut store, SLUG, long);
    assert!(!store.fits_first_token(SLUG, Duration::from_millis(1)));
    assert!(store.fits_first_token(SLUG, Duration::zero()));
    assert!(store.fits_success(SLUG, 1, long));
    record_success(&mut store, SLUG, 1, long);
    assert!(!store.fits_success(SLUG, 1, Duration::from_millis(1)));
    assert!(store.fits_error(SLUG));
}

#[test]
fn the_best_is_never_above_the_mean() {
    let mut store = StatsStore::new();
    for millis in [700, 20, 333, 20, 5_000] {
        record_first_token(&mut store, SLUG, Duration::from_millis(millis));
        let stats = store.get(SLUG).unwrap();
        assert!(stats.ttft_millis_best <= stats.mean_ttft_millis());
    }
}
