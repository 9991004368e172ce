use maki::components::activity::{
    format_elapsed, format_tokens, verb, Activity, VERB_COUNT, VERB_ROTATE_SECS,
};
use maki::number::to_decimal;
use maki::time::{Duration, Instant};

const VERBS: [&str; 12] = [
    "Thinking",
    "Pondering",
    "Noodling",
    "Working",
    "Cooking",
    "Musing",
    "Churning",
    "Digging",
    "Puzzling",
    "Brewing",
    "Whirring",
    "Tinkering",
];

fn elapsed(secs: u64) -> String {
    format_elapsed(Duration::from_secs(secs))
}

#[test]
fn elapsed_reads_naturally_just_started() {
    assert_eq!(elapsed(0), "0s");
}

#[test]
fn elapsed_reads_naturally_under_a_minute() {
    assert_eq!(elapsed(45), "45s");
}

#[test]
fn elapsed_reads_naturally_exactly_a_minute() {
    assert_eq!(elapsed(60), "1m 0s");
}

#[test]
fn elapsed_reads_naturally_the_example_from_the_ask() {
    assert_eq!(elapsed(85), "1m 25s");
}

#[test]
fn elapsed_reads_naturally_just_under_an_hour() {
    assert_eq!(elapsed(3599), "59m 59s");
}

#[test]
fn elapsed_reads_naturally_exactly_an_hour() {
    assert_eq!(elapsed(3600), "1h 0m");
}

#[test]
fn elapsed_reads_naturally_over_an_hour() {
    assert_eq!(elapsed(3960), "1h 6m");
}

#[test]
fn tokens_read_as_a_scale_none() {
    assert_eq!(format_tokens(0), "0");
}

#[test]
fn tokens_read_as_a_scale_under_a_thousand() {
    assert_eq!(format_tokens(999), "999");
}

#[test]
fn tokens_read_as_a_scale_exactly_a_thousand() {
    assert_eq!(format_tokens(1_000), "1k");
}

#[test]
fn tokens_read_as_a_scale_the_example_from_the_ask() {
    assert_eq!(format_tokens(5_700), "5.7k");
}

#[test]
fn tokens_read_as_a_scale_rounds_down() {
    assert_eq!(format_tokens(5_749), "5.7k");
}

#[test]
fn tokens_read_as_a_scale_rounds_up() {
    assert_eq!(format_tokens(5_750), "5.8k");
}

#[test]
fn tokens_read_as_a_scale_no_trailing_zero() {
    assert_eq!(format_tokens(12_000), "12k");
}

#[test]
fn tokens_read_as_a_scale_just_under_a_million() {
    assert_eq!(format_tokens(999_999), "1000k");
}

#[test]
fn tokens_read_as_a_scale_millions() {
    assert_eq!(format_tokens(2_500_000), "2.5M");
}

/// Tenths agree with rounding a float to one place.
#[test]
fn tokens_round_as_floats_do() {
    let scaled = |value: f64, suffix: char| {
        let rounded = (value * 10.0).round() / 10.0;
        if rounded.fract().abs() < f64::EPSILON {
            format!("{}{suffix}", rounded as u64)
        } else {
            format!("{rounded:.1}{suffix}")
        }
    };
    for tokens in (1_000..1_000_000u32).step_by(7) {
        assert_eq!(format_tokens(tokens), scaled(tokens as f64 / 1_000.0, 'k'));
    }
    for tokens in (1_000_000..u32::MAX - 70_001).step_by(70_001) {
        assert_eq!(
            format_tokens(tokens),
            scaled(tokens as f64 / 1_000_000.0, 'M')
        );
    }
    assert_eq!(
        format_tokens(u32::MAX),
        scaled(u32::MAX as f64 / 1_000_000.0, 'M')
    );
}

fn activity(secs: u64, tokens: u32) -> (Activity, Instant) {
    let start = Instant {
        since_start: Duration::from_secs(1_000),
    };
    let now = Instant {
        since_start: Duration::from_secs(1_000 + secs),
    };
    (
        Activity {
            started: start,
            output_tokens: tokens,
            seed: 0,
        },
        now,
    )
}

#[test]
fn the_label_matches_the_shape_asked_for() {
    let (a, now) = activity(85, 5_700);
    let label = a.label(now);
    assert!(label.ends_with("… (1m 25s · ↓ 5.7k tokens)"), "{label}");
    assert!(VERBS.iter().any(|v| label.starts_with(v)), "{label}");
}

#[test]
fn no_tokens_yet_means_no_token_clause() {
    let (a, now) = activity(3, 0);
    let label = a.label(now);
    assert!(label.ends_with("… (3s)"), "{label}");
    assert!(!label.contains('↓'), "{label}");
}

#[test]
fn a_clock_that_stands_behind_counts_as_no_time() {
    let (a, _) = activity(3, 0);
    let before = Instant {
        since_start: Duration::from_secs(1),
    };
    assert_eq!(a.label(before), "Thinking… (0s)");
}

#[test]
fn the_verb_rotates_while_the_turn_runs() {
    let (a, now) = activity(0, 0);
    let first = verb(a.seed, Duration::zero());
    let later = verb(a.seed, Duration::from_secs(VERB_ROTATE_SECS));
    assert_ne!(first, later);
    // And holds still between rotations, so it is not a flicker.
    assert_eq!(
        verb(a.seed, Duration::zero()),
        verb(
            a.seed,
            Duration::from_millis(VERB_ROTATE_SECS * 1000 - 1)
        )
    );
    let _ = now;
}

#[test]
fn consecutive_turns_do_not_open_on_the_same_word() {
    assert_ne!(verb(7, Duration::zero()), verb(8, Duration::zero()));
}

#[test]
fn a_very_long_turn_keeps_rotating() {
    let far = Duration::from_secs(VERB_ROTATE_SECS * (VERB_COUNT * 3 + 1));
    assert!(VERBS.contains(&verb(u64::MAX, far)));
}

#[test]
fn every_verb_has_its_turn() {
    for (i, expected) in VERBS.iter().enumerate() {
        assert_eq!(verb(i as u64, Duration::zero()), *expected);
    }
}

#[test]
fn decimals_are_written_as_the_standard_library_writes_them() {
    for n in [0, 7, 10, 99, 100, 12_345, u64::MAX] {
        assert_eq!(to_decimal(n), n.to_string());
    }
}

#[test]
fn durations_count_nanoseconds() {
    let d = Duration::new(2, 345_678_901);
    assert_eq!(d.as_secs(), 2);
    assert_eq!(d.as_millis(), 2_345);
    assert_eq!(d.as_millis_word(), 2_345);
    assert!(Duration::from_millis(450).at_least(Duration::from_millis(450)));
    assert!(!Duration::new(0, 449_999_999).at_least(Duration::from_millis(450)));
    let later = Instant {
        since_start: Duration::new(3, 1),
    };
    let earlier = Instant {
        since_start: Duration::new(1, 2),
    };
    assert_eq!(
        later.saturating_duration_since(earlier),
        Duration::new(1, 999_999_999)
    );
    assert_eq!(earlier.saturating_duration_since(later), Duration::zero());
    assert_eq!(
        Duration::from_secs(u64::MAX).as_millis_word(),
        (u64::MAX as u128 * 1000) as u64
    );
}
