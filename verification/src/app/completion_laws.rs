//! What holds of completing drafts, whatever happens and in whichever order.

use super::complete;
use super::complete::Completion;
use super::{AppState, CompletionState};
use crate::input_box::InputState;
use crate::time::Instant;
use vstd::prelude::*;

verus! {

/// What can happen while drafts are completed.
pub enum Event {
    /// The user typed, and this is what the input box holds.
    Typed(InputState),
    Tick { now: Instant, overlay_open: bool },
    /// The request went out, and its answer arrives here.
    Started(flume::Receiver<Completion>),
    /// The answer was looked for.
    Polled(Option<Completion>),
    Toggled,
}

impl AppState {
    pub open spec fn after(self, event: Event) -> AppState {
        match event {
            Event::Typed(input) => AppState { input, ..self },
            Event::Tick { now, overlay_open } => self.ticked(now, overlay_open).0,
            Event::Started(rx) => AppState {
                completion: CompletionState { rx: Some(rx), ..self.completion },
                ..self
            },
            Event::Polled(answer) => self.completed(answer),
            Event::Toggled => self.toggled(),
        }
    }

    /// Whether the event has a request made.
    pub open spec fn asks_at(self, event: Event) -> bool {
        match event {
            Event::Tick { now, overlay_open } => self.ticked(now, overlay_open).1 is Some,
            _ => false,
        }
    }
}

/// How many requests the events have made.
pub open spec fn requests(s: AppState, events: Seq<Event>) -> nat
    decreases events.len(),
{
    if events.len() == 0 {
        0
    } else {
        (if s.asks_at(events[0]) {
            1nat
        } else {
            0nat
        }) + requests(s.after(events[0]), events.skip(1))
    }
}

/// How many requests about one draft the events have made.
pub open spec fn requests_about(s: AppState, events: Seq<Event>, draft: Seq<char>) -> nat
    decreases events.len(),
{
    if events.len() == 0 {
        0
    } else {
        (if s.asks_at(events[0]) && s.input.draft.text() == draft {
            1nat
        } else {
            0nat
        }) + requests_about(s.after(events[0]), events.skip(1), draft)
    }
}

/// Every draft is asked about at most once, whatever else is typed and asked about in
/// between, and not at all when it was asked about before.
pub proof fn law_one_request_per_draft(s: AppState, events: Seq<Event>, draft: Seq<char>)
    ensures
        requests_about(s, events, draft) <= 1,
        s.completion.asked.contains(draft) ==> requests_about(s, events, draft) == 0,
    decreases events.len(),
{
    if events.len() > 0 {
        let after = s.after(events[0]);
        law_one_request_per_draft(after, events.skip(1), draft);
        lemma_asked_stays_asked(s, events[0], draft);
        if s.asks_at(events[0]) {
            let asked = after.completion.asked;
            assert(asked[asked.len() - 1] == s.input.draft.text());
        }
    }
}

proof fn lemma_asked_stays_asked(s: AppState, event: Event, draft: Seq<char>)
    ensures
        s.completion.asked.contains(draft) ==> s.after(event).completion.asked.contains(draft),
{
    if s.completion.asked.contains(draft) {
        let at = s.completion.asked.index_of(draft);
        assert(s.after(event).completion.asked[at] == draft);
    }
}

/// The user types nothing in the meantime.
pub open spec fn left_alone(events: Seq<Event>) -> bool {
    forall|i: int| 0 <= i < events.len() ==> !((#[trigger] events[i]) is Typed)
}

/// A draft that is left alone is asked about at most once, however long it is and
/// whatever comes of it.
pub proof fn law_one_request_per_pause(s: AppState, events: Seq<Event>)
    requires
        left_alone(events),
    ensures
        requests(s, events) <= 1,
{
    lemma_all_about_the_draft(s, events);
    law_one_request_per_draft(s, events, s.input.draft.text());
}

proof fn lemma_all_about_the_draft(s: AppState, events: Seq<Event>)
    requires
        left_alone(events),
    ensures
        requests(s, events) == requests_about(s, events, s.input.draft.text()),
    decreases events.len(),
{
    if events.len() > 0 {
        assert(!(events[0] is Typed));
        assert forall|i: int| 0 <= i < events.skip(1).len() implies !((#[trigger] events.skip(
            1,
        )[i]) is Typed) by {
            assert(events.skip(1)[i] == events[i + 1]);
        }
        lemma_all_about_the_draft(s.after(events[0]), events.skip(1));
    }
}

/// Nothing is asked while an answer is waited for, nor while completing is off or
/// something covers the input box.
pub proof fn law_no_request_while_in_flight(s: AppState, now: Instant, overlay_open: bool)
    requires
        s.completion.rx is Some || !s.completion.enabled || overlay_open,
    ensures
        s.ticked(now, overlay_open).1 is None,
{
}

/// What is asked about is the draft as it stands, it is worth asking about, and it
/// was left alone long enough.
pub proof fn law_requests_wait_for_a_pause(s: AppState, now: Instant, overlay_open: bool)
    requires
        s.ticked(now, overlay_open).1 is Some,
    ensures
        s.ticked(now, overlay_open).1 == Some(s.input.draft.text()),
        complete::is_completable(s.input.draft.text()),
        s.completion.since is Some,
        now.nanos_since(s.completion.since->0) >= complete::DEBOUNCE_MILLIS * 1_000_000,
{
}

/// A change of the draft forgets the answer that is waited for and starts the wait
/// anew.
pub proof fn law_typing_starts_the_wait_anew(s: AppState, now: Instant, overlay_open: bool)
    requires
        s.input.draft.text() != s.completion.draft,
    ensures
        s.ticked(now, overlay_open).1 is None,
        s.ticked(now, overlay_open).0.completion.rx is None,
        s.ticked(now, overlay_open).0.completion.since == Some(now),
{
}

/// An answer about another draft leaves the input box as it is.
pub proof fn law_stale_completions_are_dropped(s: AppState, answer: Completion)
    requires
        answer.prefix@ != s.input.draft.text(),
    ensures
        s.completed(Some(answer)).input == s.input,
        s.completed(Some(answer)).flashed == s.flashed,
{
}

/// Only the user changes the draft: no completion ever does.
pub proof fn law_the_draft_is_the_users(s: AppState, event: Event)
    requires
        !(event is Typed),
    ensures
        s.after(event).input.draft == s.input.draft,
{
}

/// The keys are explained at most once: when a first completion was explained, no
/// later one is.
pub proof fn law_the_hint_is_said_once(s: AppState, answer: Option<Completion>)
    ensures
        s.completion.hinted ==> s.completed(answer).flashed == s.flashed,
        s.completed(answer).input.ghost_text != s.input.ghost_text ==> s.completed(
            answer,
        ).completion.hinted,
        s.completion.hinted ==> s.completed(answer).completion.hinted,
{
}

/// Switching completing off leaves nothing of it, and switching it twice leaves it
/// as it was.
pub proof fn law_toggling(s: AppState)
    ensures
        s.toggled().completion.enabled == !s.completion.enabled,
        s.toggled().toggled().completion.enabled == s.completion.enabled,
        s.completion.enabled ==> s.toggled().input.ghost_text is None
            && s.toggled().completion.rx is None,
{
}

}
