//! What the suggest model is asked about a draft, and what is made of its reply.

use super::complete;
use super::complete::Completion;
use super::reply;
use super::{AppState, CompletionState};
use crate::input_box::InputState;
use crate::text;
use crate::text::CharClass;
use crate::text_laws;
use crate::time::Instant;
use vstd::prelude::*;

verus! {

/// A draft of six characters or more is worth completing however long it is, unless
/// the first thing in it starts a slash command or a shell line.
pub proof fn law_prose_is_completable(indent: Seq<char>, rest: Seq<char>)
    requires
        forall|i: int| 0 <= i < indent.len() ==> text::white_space(#[trigger] indent[i]),
        rest.len() > 0,
        !text::white_space(rest[0]),
    ensures
        complete::is_completable(indent + rest) <==> indent.len() + rest.len() >= 6 && rest[0]
            != '/' && rest[0] != '!',
{
    text_laws::law_a_run_in_front_goes(indent, rest, CharClass::WhiteSpace);
}

/// A draft with nothing in it but white space is not worth completing.
pub proof fn law_blank_drafts_are_not_completable(draft: Seq<char>)
    requires
        forall|i: int| 0 <= i < draft.len() ==> text::white_space(#[trigger] draft[i]),
    ensures
        !complete::is_completable(draft),
{
    text_laws::law_blank_text_vanishes(draft);
}

/// Typing more at the end of a draft that is worth completing keeps it so.
pub proof fn law_more_text_stays_completable(draft: Seq<char>, more: Seq<char>)
    requires
        complete::is_completable(draft),
    ensures
        complete::is_completable(draft + more),
{
    let n = text::leading(draft, CharClass::WhiteSpace) as int;
    text::lemma_leading(draft, CharClass::WhiteSpace);
    let (indent, rest) = (draft.take(n), draft.skip(n));
    assert(draft + more =~= indent + (rest + more));
    assert forall|i: int| 0 <= i < indent.len() implies text::white_space(#[trigger] indent[i]) by {
        assert(CharClass::WhiteSpace.includes(draft[i]));
    }
    law_prose_is_completable(indent, rest + more);
}

/// In an application in which nothing happened yet completing is on, nothing is in
/// flight, on screen or said, and nothing was asked about.
pub proof fn law_nothing_happened_yet(input: InputState)
    ensures
        ({
            let s = AppState::fresh(input);
            &&& s.input == input
            &&& !s.editor.open
            &&& s.flashed is None
            &&& s.run_id == 0
            &&& s.completion.enabled
            &&& s.completion.rx is None
            &&& s.completion.draft.len() == 0
            &&& s.completion.since is None
            &&& s.completion.asked.len() == 0
            &&& !s.completion.hinted
            &&& s.rewrite_seq == 0
            &&& s.rewrite_rx is None
            &&& s.suggestions.len() == 0
            &&& !s.suggestions_hidden
            &&& s.suggest_rx is None
        }),
{
}

/// A tick that finds another draft than the last one starts the wait anew: it notes
/// the draft and the time, drops what is in flight, and asks nothing.
pub proof fn law_a_changed_draft_is_noted(s: AppState, now: Instant, overlay_open: bool)
    requires
        s.input.draft.text() != s.completion.draft,
    ensures
        s.ticked(now, overlay_open).1 is None,
        s.ticked(now, overlay_open).0 == (AppState {
            completion: CompletionState {
                enabled: s.completion.enabled,
                rx: None,
                draft: s.input.draft.text(),
                since: Some(now),
                asked: s.completion.asked,
                hinted: s.completion.hinted,
            },
            ..s
        }),
{
}

/// A draft is asked about as soon as it was left alone for 450 milliseconds, and only
/// then: completing is on, nothing is in flight, on screen or in front, the cursor
/// stands at the end, and the draft is worth it and was never asked about. What is
/// asked about is the draft, and it is noted as asked about; nothing else changes.
pub proof fn law_a_pause_is_asked_about(s: AppState, now: Instant, overlay_open: bool)
    requires
        s.input.draft.text() == s.completion.draft,
    ensures
        ({
            let (after, asked) = s.ticked(now, overlay_open);
            let draft = s.input.draft.text();
            &&& asked is Some <==> {
                &&& s.completion.enabled
                &&& s.completion.rx is None
                &&& !s.completion.asked.contains(draft)
                &&& s.input.ghost_text is None
                &&& s.input.draft.y == s.input.draft.lines.len() - 1
                &&& s.input.draft.x == s.input.draft.lines.last().len()
                &&& !overlay_open
                &&& complete::is_completable(draft)
                &&& s.completion.since is Some
                &&& now.since_start.total() >= s.completion.since->0.since_start.total()
                    + 450_000_000
            }
            &&& asked is Some ==> asked->0 == draft && after == (AppState {
                completion: CompletionState {
                    asked: s.completion.asked.push(draft),
                    ..s.completion
                },
                ..s
            })
            &&& asked is None ==> after == s
        }),
{
}

/// The completion of the draft that is on screen is shown behind it and is no longer
/// waited for; the keys that take it are explained unless they were before, and
/// nothing else changes.
pub proof fn law_the_completion_of_the_draft_is_shown(s: AppState, answer: Completion)
    requires
        s.completion.rx is Some,
        answer.prefix@ == s.input.draft.text(),
    ensures
        ({
            let after = s.completed(Some(answer));
            &&& after.input.ghost_text == Some(answer.tail@)
            &&& after.input.draft == s.input.draft
            &&& after.completion == (CompletionState { rx: None, hinted: true, ..s.completion })
            &&& s.completion.hinted ==> after.flashed == s.flashed
            &&& !s.completion.hinted ==> after.flashed == Some(
                "completion ready: → accept, alt+→ one word, esc dismiss"@,
            )
            &&& after == (AppState {
                input: after.input,
                completion: after.completion,
                flashed: after.flashed,
                ..s
            })
        }),
{
}

/// While a completion is still waited for, or none is, polling changes nothing.
pub proof fn law_no_completion_no_change(s: AppState, answer: Completion)
    ensures
        s.completed(None) == s,
        s.completion.rx is None ==> s.completed(Some(answer)) == s,
{
}

/// A completion of another draft is taken off the line and shown nowhere.
pub proof fn law_a_completion_of_another_draft_only_ends_the_wait(s: AppState, answer: Completion)
    requires
        s.completion.rx is Some,
        answer.prefix@ != s.input.draft.text(),
    ensures
        s.completed(Some(answer)) == (AppState {
            completion: CompletionState { rx: None, ..s.completion },
            ..s
        }),
{
}

/// Switching off drops what is in flight and on screen, switching on brings nothing
/// back; either way it is said, and nothing else changes.
pub proof fn law_switching_says_so(s: AppState)
    ensures
        s.toggled().completion.enabled == !s.completion.enabled,
        s.toggled().flashed == Some(
            if s.completion.enabled {
                "Autocomplete: off"@
            } else {
                "Autocomplete: on"@
            },
        ),
        s.completion.enabled ==> s.toggled().input.ghost_text is None
            && s.toggled().completion.rx is None,
        !s.completion.enabled ==> s.toggled().input == s.input && s.toggled().completion.rx
            == s.completion.rx,
        s.toggled().input.draft == s.input.draft,
        s.toggled() == (AppState {
            input: InputState { ghost_text: s.toggled().input.ghost_text, ..s.input },
            completion: CompletionState {
                enabled: !s.completion.enabled,
                rx: s.toggled().completion.rx,
                ..s.completion
            },
            flashed: s.toggled().flashed,
            ..s
        }),
{
}

/// A reply that is the typed text and more on the same line completes it with that, up
/// to 120 characters of it, whatever else the reply goes on to say; a longer completion
/// is none.
pub proof fn law_a_continuation_is_taken(
    typed: Seq<char>,
    tail: Seq<char>,
    spaces: Seq<char>,
    ending: Seq<char>,
)
    requires
        tail.len() > 0,
        !tail.contains('\n'),
        !text::white_space(tail.last()),
        !spaces.contains('\n'),
        forall|i: int| 0 <= i < spaces.len() ==> text::white_space(#[trigger] spaces[i]),
        ending.len() > 0 ==> ending[0] == '\n',
        !seq!['`', '`', '`'].is_prefix_of(typed + tail),
    ensures
        complete::tail_of(typed + tail + spaces + ending, typed) == if tail.len() <= 120 {
            Some(tail)
        } else {
            None
        },
{
    let reply = typed + tail + spaces + ending;
    let ticks = seq!['`', '`', '`'];
    let full = text::trimmed_end(reply);
    lemma_kept_end(typed + tail, spaces + ending);
    assert(typed + tail + (spaces + ending) =~= reply);
    if ticks.is_prefix_of(full) {
        let n = (typed + tail).len() as int;
        if n >= 3 {
            assert((typed + tail).take(3) =~= full.take(3));
        } else {
            assert(full.take(3)[n] == '`');
            assert(full[n] == (spaces + ending)[0]);
        }
    }
    assert(reply::fence() =~= ticks);
    assert(reply::unfenced(full) == full);
    lemma_line_tail(full, typed, tail, spaces, ending);
}

/// Cutting white space off the end stops at what ends with something else.
proof fn lemma_kept_end(kept: Seq<char>, rest: Seq<char>)
    requires
        kept.len() > 0,
        !text::white_space(kept.last()),
    ensures
        ({
            let full = text::trimmed_end(kept + rest);
            &&& kept.len() <= full.len() <= kept.len() + rest.len()
            &&& full == (kept + rest).take(full.len() as int)
        }),
{
    let class = CharClass::WhiteSpace;
    let whole = kept + rest;
    text::lemma_trailing(whole, class);
    assert(whole[kept.len() - 1] == kept.last());
}

/// What follows typed text on its line.
proof fn lemma_line_tail(
    full: Seq<char>,
    typed: Seq<char>,
    tail: Seq<char>,
    spaces: Seq<char>,
    ending: Seq<char>,
)
    requires
        tail.len() > 0,
        !tail.contains('\n'),
        !text::white_space(tail.last()),
        !spaces.contains('\n'),
        forall|i: int| 0 <= i < spaces.len() ==> text::white_space(#[trigger] spaces[i]),
        ending.len() > 0 ==> ending[0] == '\n',
        typed.len() + tail.len() <= full.len() <= (typed + tail + spaces + ending).len(),
        full == (typed + tail + spaces + ending).take(full.len() as int),
    ensures
        typed.is_prefix_of(full),
        text::trimmed_end(complete::first_line(full.skip(typed.len() as int))) == tail,
{
    let reply = typed + tail + spaces + ending;
    let class = CharClass::WhiteSpace;
    assert(full.take(typed.len() as int) =~= typed);
    let rest = full.skip(typed.len() as int);
    let end = text::before(rest, '\n') as int;
    text::lemma_before(rest, '\n');
    assert(tail.len() <= end) by {
        if end < tail.len() {
            assert(rest[end] == tail[end]);
        }
    }
    let line = complete::first_line(rest);
    let over = line.skip(tail.len() as int);
    assert(line =~= tail + over) by {
        assert forall|i: int| 0 <= i < tail.len() implies line[i] == tail[i] by {
            assert(rest[i] == reply[typed.len() + i]);
        }
    }
    assert(over.len() <= spaces.len()) by {
        let brk = tail.len() + spaces.len();
        if end > brk {
            assert(rest[brk as int] == ending[0]);
        }
    }
    assert forall|i: int| 0 <= i < over.len() implies class.includes(#[trigger] over[i]) by {
        assert(over[i] == spaces[i]);
    }
    text_laws::law_a_run_behind_goes(tail, over, class);
}

/// A reply that adds nothing to the line on which the typed text ends completes nothing.
pub proof fn law_nothing_added_is_no_completion(
    typed: Seq<char>,
    spaces: Seq<char>,
    ending: Seq<char>,
)
    requires
        !spaces.contains('\n'),
        forall|i: int| 0 <= i < spaces.len() ==> text::white_space(#[trigger] spaces[i]),
        ending.len() > 0 ==> ending[0] == '\n',
        !seq!['`', '`', '`'].is_prefix_of(typed + spaces + ending),
    ensures
        complete::tail_of(typed + spaces + ending, typed) is None,
{
    let reply = typed + spaces + ending;
    let ticks = seq!['`', '`', '`'];
    let class = CharClass::WhiteSpace;
    text::lemma_trailing(reply, class);
    let full = text::trimmed_end(reply);
    assert(reply::fence() =~= ticks);
    if ticks.is_prefix_of(full) {
        assert(reply.take(3) =~= full.take(3));
    }
    assert(reply::unfenced(full) == full);
    if typed.is_prefix_of(full) {
        let rest = full.skip(typed.len() as int);
        text::lemma_before(rest, '\n');
        let line = complete::first_line(rest);
        assert forall|i: int| 0 <= i < line.len() implies text::white_space(#[trigger] line[i]) by {
            assert(line[i] == rest[i]);
            assert(rest[i] == (spaces + ending)[i]);
            if i >= spaces.len() {
                let brk = spaces.len() as int;
                assert(rest[brk] == ending[0]);
            } else {
                assert(rest[i] == spaces[i]);
            }
        }
        text_laws::law_blank_text_vanishes(line);
    }
}

/// A fence around the whole of a reply makes no difference to what it completes.
pub proof fn law_a_fenced_continuation_is_taken(
    tag: Seq<char>,
    typed: Seq<char>,
    tail: Seq<char>,
    spaces: Seq<char>,
    ending: Seq<char>,
    after: Seq<char>,
)
    requires
        !tag.contains('\n'),
        tail.len() > 0,
        !tail.contains('\n'),
        !text::white_space(tail.last()),
        !spaces.contains('\n'),
        forall|i: int| 0 <= i < spaces.len() ==> text::white_space(#[trigger] spaces[i]),
        ending.len() > 0 ==> ending[0] == '\n',
        forall|i: int| 0 <= i < after.len() ==> text::white_space(#[trigger] after[i]),
    ensures
        complete::tail_of(
            seq!['`', '`', '`'] + tag + seq!['\n'] + (typed + tail + spaces + ending) + seq![
                '`',
                '`',
                '`',
            ] + after,
            typed,
        ) == if tail.len() <= 120 {
            Some(tail)
        } else {
            None
        },
{
    let ticks = seq!['`', '`', '`'];
    let body = typed + tail + spaces + ending;
    let fenced = ticks + tag + seq!['\n'] + body + ticks;
    assert(fenced.last() == '`');
    text_laws::law_a_run_behind_goes(fenced, after, CharClass::WhiteSpace);
    law_a_fence_around_everything_goes(tag, body, Seq::empty());
    assert(fenced + Seq::<char>::empty() =~= fenced);
    lemma_kept_end(typed + tail, spaces + ending);
    assert(typed + tail + (spaces + ending) =~= body);
    lemma_line_tail(text::trimmed_end(body), typed, tail, spaces, ending);
}

/// A completion is one to 120 characters long.
pub proof fn law_completions_are_short(reply: Seq<char>, typed: Seq<char>)
    ensures
        complete::tail_of(reply, typed) matches Some(tail) ==> 0 < tail.len() <= 120,
{
}

/// A fence around the whole of a text goes together with the rest of its first line;
/// what it holds is kept, but for white space at its end.
pub proof fn law_a_fence_around_everything_goes(
    tag: Seq<char>,
    body: Seq<char>,
    after: Seq<char>,
)
    requires
        !tag.contains('\n'),
        forall|i: int| 0 <= i < after.len() ==> text::white_space(#[trigger] after[i]),
    ensures
        reply::unfenced(
            seq!['`', '`', '`'] + tag + seq!['\n'] + body + seq!['`', '`', '`'] + after,
        ) == text::trimmed_end(body),
{
    let ticks = seq!['`', '`', '`'];
    let whole = ticks + tag + seq!['\n'] + body + ticks + after;
    let closed = body + ticks;
    lemma_opened(tag, closed + after);
    assert(whole =~= ticks + tag + seq!['\n'] + (closed + after));
    assert(closed.last() == '`');
    text_laws::law_a_run_behind_goes(closed, after, CharClass::WhiteSpace);
    assert(ticks.is_suffix_of(closed)) by {
        assert(closed.skip(closed.len() - 3) =~= ticks);
    }
    assert(closed.take(closed.len() - 3) =~= body);
    assert(reply::fence() =~= ticks);
}

/// Behind the line of a fence.
proof fn lemma_opened(tag: Seq<char>, rest: Seq<char>)
    requires
        !tag.contains('\n'),
    ensures
        ({
            let whole = seq!['`', '`', '`'] + tag + seq!['\n'] + rest;
            &&& seq!['`', '`', '`'].is_prefix_of(whole)
            &&& reply::after_first_line(whole.skip(3)) == rest
        }),
{
    let ticks = seq!['`', '`', '`'];
    let whole = ticks + tag + seq!['\n'] + rest;
    let inner = whole.skip(3);
    assert(whole.take(3) =~= ticks);
    assert(inner =~= tag + seq!['\n'] + rest);
    text_laws::law_a_separator_ends_a_piece(tag, rest, '\n');
    assert(inner[tag.len() as int] == '\n');
    assert(reply::after_first_line(inner) =~= rest);
}

/// A fence that is not closed behind its first line, or that has only that line, stays.
pub proof fn law_an_open_fence_stays(tag: Seq<char>, rest: Seq<char>)
    requires
        !tag.contains('\n'),
    ensures
        reply::unfenced(seq!['`', '`', '`'] + tag) == seq!['`', '`', '`'] + tag,
        !seq!['`', '`', '`'].is_suffix_of(text::trimmed_end(rest)) ==> reply::unfenced(
            seq!['`', '`', '`'] + tag + seq!['\n'] + rest,
        ) == seq!['`', '`', '`'] + tag + seq!['\n'] + rest,
{
    let ticks = seq!['`', '`', '`'];
    assert(reply::fence() =~= ticks);
    lemma_opened(tag, rest);
    let one = ticks + tag;
    assert(one.skip(3) =~= tag);
    text_laws::law_blank_text_vanishes(Seq::empty());
}

/// Text that no fence opens, and text whose fence is never closed, stay as they are.
pub proof fn law_no_whole_fence_no_change(s: Seq<char>)
    ensures
        !seq!['`', '`', '`'].is_prefix_of(s) ==> reply::unfenced(s) == s,
        !seq!['`', '`', '`'].is_suffix_of(text::trimmed_end(s)) ==> reply::unfenced(s) == s,
{
    let ticks = seq!['`', '`', '`'];
    assert(reply::fence() =~= ticks);
    let opened = reply::after_first_line(s.skip(3));
    let body = text::trimmed_end(opened);
    if ticks.is_prefix_of(s) && ticks.is_suffix_of(body) {
        let class = CharClass::WhiteSpace;
        text::lemma_before(s.skip(3), '\n');
        text::lemma_trailing(opened, class);
        assert(opened.len() >= body.len() >= 3);
        let from = s.len() - opened.len();
        assert(opened =~= s.skip(from));
        let n = text::trailing(opened, class) as int;
        assert forall|i: int| s.len() - n <= i < s.len() implies class.includes(#[trigger] s[i]) by {
            assert(s[i] == opened[i - from]);
        }
        assert(s[s.len() - n - 1] == opened[opened.len() - n - 1]);
        text::lemma_trailing_is(s, class, n);
        let end = text::trimmed_end(s);
        assert(body =~= end.skip(from));
        assert(body.skip(body.len() - 3) =~= ticks);
        assert(end.skip(end.len() - 3) =~= body.skip(body.len() - 3));
    }
}

}
