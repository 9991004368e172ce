//! What the status bar says while the agent is working.
//!
//! Three things a waiting user actually wants: that something is still happening,
//! how long it has been, and how much has been spent. The verb answers the first,
//! and rotates so that a stalled screen can be told from a slow turn.
//!
//! The token count steps rather than ticks, because that is the truth available:
//! providers report usage once per reply, not per token.

use crate::number;
use crate::time::{Duration, Instant};
use vstd::prelude::*;

verus! {

pub const VERB_COUNT: u64 = 12;

/// How long one verb stays, in seconds.
pub const VERB_ROTATE_SECS: u64 = 6;

pub const SECS_PER_MIN: u64 = 60;

pub const SECS_PER_HOUR: u64 = 3600;

/// Rotated rather than fixed, so that a wedged screen looks different from a turn
/// that merely takes a while.
pub open spec fn verb_name(i: int) -> Seq<char> {
    if i == 0 {
        "Thinking"@
    } else if i == 1 {
        "Pondering"@
    } else if i == 2 {
        "Noodling"@
    } else if i == 3 {
        "Working"@
    } else if i == 4 {
        "Cooking"@
    } else if i == 5 {
        "Musing"@
    } else if i == 6 {
        "Churning"@
    } else if i == 7 {
        "Digging"@
    } else if i == 8 {
        "Puzzling"@
    } else if i == 9 {
        "Brewing"@
    } else if i == 10 {
        "Whirring"@
    } else {
        "Tinkering"@
    }
}

/// Which verb it is: the seed says where to begin, and every rotation goes one
/// further. The count wraps where a machine word ends.
pub open spec fn verb_at(seed: u64, secs: int) -> int {
    ((seed + secs / VERB_ROTATE_SECS as int) % (u64::MAX + 1)) % VERB_COUNT as int
}

/// A length of time, in the two largest units that it has.
pub open spec fn elapsed_text(secs: nat) -> Seq<char> {
    if secs < SECS_PER_MIN {
        number::decimal(secs) + "s"@
    } else if secs < SECS_PER_HOUR {
        number::decimal(secs / SECS_PER_MIN as nat) + "m "@ + number::decimal(
            secs % SECS_PER_MIN as nat,
        ) + "s"@
    } else {
        number::decimal(secs / SECS_PER_HOUR as nat) + "h "@ + number::decimal(
            (secs % SECS_PER_HOUR as nat) / SECS_PER_MIN as nat,
        ) + "m"@
    }
}

/// A number of tenths, without a trailing `.0`.
pub open spec fn tenths_text(tenths: nat, suffix: char) -> Seq<char> {
    let whole = number::decimal(tenths / 10);
    if tenths % 10 == 0 {
        whole.push(suffix)
    } else {
        whole.push('.').push(number::digit(tenths % 10)).push(suffix)
    }
}

/// How many tenths of a unit a number is, to the nearest; halfway goes up.
pub open spec fn to_tenths(n: nat, unit: nat) -> nat {
    (n * 10 + unit / 2) / unit
}

/// A number of tokens: itself below a thousand, else thousands or millions with
/// one decimal place.
pub open spec fn tokens_text(tokens: nat) -> Seq<char> {
    if tokens < 1_000 {
        number::decimal(tokens)
    } else if tokens < 1_000_000 {
        tenths_text(to_tenths(tokens, 1_000), 'k')
    } else {
        tenths_text(to_tenths(tokens, 1_000_000), 'M')
    }
}

/// Live state of the turn in progress.
#[derive(Clone, Copy)]
pub struct Activity {
    pub started: Instant,
    /// Output tokens across every reply in this turn so far.
    pub output_tokens: u32,
    /// The run that this belongs to, so that consecutive turns do not open on the
    /// same word.
    pub seed: u64,
}

/// What the status bar says after so many seconds. The tokens are named once there are
/// any: before that, none would read like a fault.
pub open spec fn label_text(seed: u64, output_tokens: u32, secs: nat) -> Seq<char> {
    let start = verb_name(verb_at(seed, secs as int)) + "… ("@ + elapsed_text(secs);
    if output_tokens == 0 {
        start + ")"@
    } else {
        start + " · ↓ "@ + tokens_text(output_tokens as nat) + " tokens)"@
    }
}

impl Activity {
    pub fn label(&self, now: Instant) -> (label: String)
        ensures
            label@ == label_text(
                self.seed,
                self.output_tokens,
                now.nanos_since(self.started) / 1_000_000_000,
            ),
    {
        let elapsed: Duration = now.saturating_duration_since(self.started);
        let mut label: String = verb(self.seed, elapsed).to_string();
        label.append("… (");
        label.append(format_elapsed(elapsed).as_str());
        if self.output_tokens == 0 {
            label.append(")");
            return label;
        }
        label.append(" · ↓ ");
        label.append(format_tokens(self.output_tokens).as_str());
        label.append(" tokens)");
        label
    }
}

fn verb_text(i: u64) -> (verb: &'static str)
    requires
        i < VERB_COUNT,
    ensures
        verb@ == verb_name(i as int),
{
    match i {
        0 => "Thinking",
        1 => "Pondering",
        2 => "Noodling",
        3 => "Working",
        4 => "Cooking",
        5 => "Musing",
        6 => "Churning",
        7 => "Digging",
        8 => "Puzzling",
        9 => "Brewing",
        10 => "Whirring",
        _ => "Tinkering",
    }
}

/// The word for what is going on.
pub fn verb(seed: u64, elapsed: Duration) -> (verb: &'static str)
    ensures
        verb@ == verb_name(verb_at(seed, (elapsed.total() / 1_000_000_000) as int)),
{
    let step: u64 = elapsed.as_secs() / VERB_ROTATE_SECS;
    verb_text(seed.wrapping_add(step) % VERB_COUNT)
}

/// Minutes appear only once there are minutes, so that a short turn is not padded
/// with a leading `0m`.
pub fn format_elapsed(elapsed: Duration) -> (text: String)
    ensures
        text@ == elapsed_text(elapsed.total() / 1_000_000_000),
{
    let secs: u64 = elapsed.as_secs();
    if secs < SECS_PER_MIN {
        let mut text: String = number::to_decimal(secs);
        text.append("s");
        return text;
    }
    if secs < SECS_PER_HOUR {
        let mut text: String = number::to_decimal(secs / SECS_PER_MIN);
        text.append("m ");
        number::push_decimal(&mut text, secs % SECS_PER_MIN);
        text.append("s");
        return text;
    }
    let mut text: String = number::to_decimal(secs / SECS_PER_HOUR);
    text.append("h ");
    number::push_decimal(&mut text, (secs % SECS_PER_HOUR) / SECS_PER_MIN);
    text.append("m");
    text
}

/// One decimal place, and never a trailing `.0`: the count is a sense of scale,
/// not a figure that anyone reconciles against a bill.
pub fn format_tokens(tokens: u32) -> (text: String)
    ensures
        text@ == tokens_text(tokens as nat),
{
    if tokens < 1_000 {
        number::to_decimal(tokens as u64)
    } else if tokens < 1_000_000 {
        trim_decimal((tokens as u64 * 10 + 500) / 1_000, 'k')
    } else {
        trim_decimal((tokens as u64 * 10 + 500_000) / 1_000_000, 'M')
    }
}

fn trim_decimal(tenths: u64, suffix: char) -> (text: String)
    ensures
        text@ == tenths_text(tenths as nat, suffix),
{
    let mut text: String = number::to_decimal(tenths / 10);
    if tenths % 10 != 0 {
        text.push('.');
        number::push_decimal(&mut text, tenths % 10);
        assert(text@ =~= number::decimal((tenths / 10) as nat).push('.').push(
            number::digit((tenths % 10) as nat),
        ));
    }
    text.push(suffix);
    text
}

proof fn lemma_verbs_differ(i: int, j: int)
    requires
        0 <= i < VERB_COUNT,
        0 <= j < VERB_COUNT,
        i != j,
    ensures
        verb_name(i) != verb_name(j),
{
    reveal_strlit("Thinking");
    reveal_strlit("Pondering");
    reveal_strlit("Noodling");
    reveal_strlit("Working");
    reveal_strlit("Cooking");
    reveal_strlit("Musing");
    reveal_strlit("Churning");
    reveal_strlit("Digging");
    reveal_strlit("Puzzling");
    reveal_strlit("Brewing");
    reveal_strlit("Whirring");
    reveal_strlit("Tinkering");
    let (a, b) = (verb_name(i), verb_name(j));
    assert(a[0] != b[0] || a[1] != b[1]);
}

/// Consecutive turns do not open on the same word.
pub proof fn law_consecutive_turns_open_differently(seed: u64, next: u64)
    requires
        next == seed.wrapping_add(1),
    ensures
        verb_name(verb_at(seed, 0)) != verb_name(verb_at(next, 0)),
{
    lemma_verbs_differ(verb_at(seed, 0), verb_at(next, 0));
}

/// The word holds still between rotations, so that it is not a flicker, and is
/// another one after each.
pub proof fn law_the_verb_rotates(seed: u64, rotation: int, into: int)
    requires
        rotation >= 0,
        0 <= into < VERB_ROTATE_SECS,
    ensures
        verb_at(seed, rotation * 6 + into) == verb_at(seed, rotation * 6),
        verb_name(verb_at(seed, (rotation + 1) * 6)) != verb_name(verb_at(seed, rotation * 6)),
{
    lemma_verbs_differ(verb_at(seed, (rotation + 1) * 6), verb_at(seed, rotation * 6));
}

/// A scaled count has one decimal place or none, and the place is never a zero.
pub proof fn law_no_trailing_zero(tenths: nat, suffix: char)
    ensures
        ({
            let text = tenths_text(tenths, suffix);
            &&& text.last() == suffix
            &&& tenths % 10 == 0 ==> text.drop_last() == number::decimal(tenths / 10)
            &&& tenths % 10 != 0 ==> text[text.len() - 3] == '.' && text[text.len() - 2] != '0'
        }),
{
    let whole = number::decimal(tenths / 10);
    assert(whole.push(suffix).drop_last() =~= whole);
}

}
