//! What the status bar and the panel of suggestions say.

use super::activity;
use super::suggest_panel;
use crate::number;
use crate::styled::{Piece, Tone};
use vstd::prelude::*;

verus! {

/// Decimal digits: one more digit on the right is ten times as much and that digit, and
/// below ten there is one digit.
pub proof fn law_digits_on_the_right(n: nat, d: nat)
    requires
        d < 10,
    ensures
        number::decimal(d) == seq![(48 + d) as char],
        n > 0 ==> number::decimal(n * 10 + d) == number::decimal(n).push((48 + d) as char),
{
    if n > 0 {
        assert((n * 10 + d) / 10 == n);
        assert((n * 10 + d) % 10 == d);
    }
}

/// Below a minute time is told in seconds, below an hour in minutes and seconds, and
/// from then on in hours and minutes.
pub proof fn law_time_in_two_units(hours: nat, minutes: nat, seconds: nat)
    requires
        minutes < 60,
        seconds < 60,
    ensures
        activity::elapsed_text(seconds) == number::decimal(seconds) + "s"@,
        minutes > 0 ==> activity::elapsed_text(minutes * 60 + seconds) == number::decimal(minutes)
            + "m "@ + number::decimal(seconds) + "s"@,
        hours > 0 ==> activity::elapsed_text(hours * 3600 + minutes * 60 + seconds)
            == number::decimal(hours) + "h "@ + number::decimal(minutes) + "m"@,
{
    assert((minutes * 60 + seconds) / 60 == minutes);
    assert((minutes * 60 + seconds) % 60 == seconds);
    let all = hours * 3600 + minutes * 60 + seconds;
    assert(all / 3600 == hours);
    assert(all % 3600 == minutes * 60 + seconds);
}

/// Tenths are a whole number and one place behind the point, which is left out when it
/// is zero.
pub proof fn law_tenths_with_one_place(whole: nat, place: nat, suffix: char)
    requires
        place < 10,
    ensures
        place == 0 ==> activity::tenths_text(whole * 10 + place, suffix) == number::decimal(
            whole,
        ).push(suffix),
        place > 0 ==> activity::tenths_text(whole * 10 + place, suffix) == number::decimal(whole)
            + seq!['.', (48 + place) as char, suffix],
{
    assert((whole * 10 + place) / 10 == whole);
    assert((whole * 10 + place) % 10 == place);
    if place > 0 {
        assert(number::decimal(whole).push('.').push((48 + place) as char).push(suffix)
            =~= number::decimal(whole) + seq!['.', (48 + place) as char, suffix]);
    }
}

/// Tokens are counted one by one below a thousand, then in thousands and from a million
/// on in millions, to the nearest tenth with halves rounded up.
pub proof fn law_tokens_to_the_nearest_tenth(tokens: nat, tenths: nat)
    ensures
        tokens < 1_000 ==> activity::tokens_text(tokens) == number::decimal(tokens),
        1_000 <= tokens < 1_000_000 && tenths * 100 <= tokens + 50 < tenths * 100 + 100
            ==> activity::tokens_text(tokens) == activity::tenths_text(tenths, 'k'),
        1_000_000 <= tokens && tenths * 100_000 <= tokens + 50_000 < tenths * 100_000 + 100_000
            ==> activity::tokens_text(tokens) == activity::tenths_text(tenths, 'M'),
{
}

/// The word goes one further in the list of twelve every six seconds, beginning where
/// the seed says; the count starts over where a machine word ends.
pub proof fn law_the_word_goes_one_further_every_six_seconds(seed: u64, rotation: int, into: int)
    requires
        0 <= rotation,
        0 <= into < 6,
        rotation <= u64::MAX,
    ensures
        seed + rotation <= u64::MAX ==> activity::verb_at(seed, rotation * 6 + into) == (seed
            + rotation) % 12,
        seed + rotation > u64::MAX ==> activity::verb_at(seed, rotation * 6 + into) == (seed
            + rotation - 0x1_0000_0000_0000_0000) % 12,
{
    assert((rotation * 6 + into) / 6 == rotation);
}

/// The list of words.
pub proof fn law_the_words_in_their_order(i: int)
    requires
        0 <= i < 12,
    ensures
        activity::verb_name(i) == seq![
            "Thinking"@,
            "Pondering"@,
            "Noodling"@,
            "Working"@,
            "Cooking"@,
            "Musing"@,
            "Churning"@,
            "Digging"@,
            "Puzzling"@,
            "Brewing"@,
            "Whirring"@,
            "Tinkering"@,
        ][i],
{
}

/// The status bar says the word, how long it has been and, once there are any, how many
/// tokens came back.
pub proof fn law_the_status_bar_says_what_goes_on(seed: u64, output_tokens: u32, secs: nat)
    ensures
        ({
            let word = activity::verb_name(activity::verb_at(seed, secs as int));
            let time = activity::elapsed_text(secs);
            &&& output_tokens == 0 ==> activity::label_text(seed, output_tokens, secs) == word
                + "… ("@ + time + ")"@
            &&& output_tokens > 0 ==> activity::label_text(seed, output_tokens, secs) == word
                + "… ("@ + time + " · ↓ "@ + activity::tokens_text(output_tokens as nat)
                + " tokens)"@
        }),
{
}

/// A prompt is shown whole where there is room for it, with a blank for every line
/// break; else as much of it as leaves one cell for the dots.
pub proof fn law_a_prompt_is_cut_off_with_dots(s: Seq<char>, room: nat, i: int)
    ensures
        s.len() <= room ==> suggest_panel::fitted(s, room).len() == s.len(),
        s.len() > room && room > 0 ==> suggest_panel::fitted(s, room).len() == room
            && suggest_panel::fitted(s, room).last() == '…',
        s.len() > 0 && room == 0 ==> suggest_panel::fitted(s, room) == seq!['…'],
        0 <= i < s.len() && (s.len() <= room || i < room - 1) ==> suggest_panel::fitted(s, room)[i]
            == if s[i] == '\n' {
            ' '
        } else {
            s[i]
        },
{
}

/// Each prompt has a row: the key that takes it, counted from one, and the prompt in
/// what room the key leaves between the borders.
pub proof fn law_a_row_for_each_prompt(prompts: Seq<Seq<char>>, width: nat, i: int)
    requires
        0 <= i < prompts.len(),
    ensures
        ({
            let key = seq![' ', 'c', 't', 'r', 'l', '+'] + number::decimal((i + 1) as nat) + seq![
                ' ',
            ];
            let room = if width >= 2 + key.len() {
                (width - 2 - key.len()) as nat
            } else {
                0
            };
            &&& suggest_panel::panel_shown(prompts, width).len() == prompts.len()
            &&& suggest_panel::panel_shown(prompts, width)[i] == seq![
                Piece { text: key, tone: Tone::Key },
                Piece { text: suggest_panel::fitted(prompts[i], room), tone: Tone::Dim },
            ]
        }),
{
    reveal_strlit(" ctrl+");
    reveal_strlit(" ");
    assert(" ctrl+"@ =~= seq![' ', 'c', 't', 'r', 'l', '+']);
    assert(" "@ =~= seq![' ']);
    assert((i as nat) + 1 == (i + 1) as nat);
}

}
