//! Finishes the sentence that is part-way through being typed.
//!
//! It fires while the user types rather than once a turn ends, so most of it is about
//! not asking: a request goes out only after typing stops, only once for each draft,
//! and never while one is in flight.
//!
//! The model is asked for the whole prompt rather than just the tail, and the
//! tail is recovered by taking the typed text off the front again. A reply that
//! does not start with that text verbatim is dropped rather than reconciled.

use super::reply;
use super::{Action, App, AppState, CompletionState};
use crate::channel;
use crate::input_box::InputState;
use crate::message;
use crate::message::Message;
use crate::text;
use crate::time::{Duration, Instant};
use vstd::prelude::*;

verus! {

/// Milliseconds long enough that typing a word does not spend a call, short enough
/// that a pause to think is answered before the thought is finished.
pub const DEBOUNCE_MILLIS: u64 = 450;

/// Below this there is not enough to continue, only to invent.
pub const MIN_CHARS: usize = 6;

/// A completion longer than this stops being a hint and becomes a wall of text.
pub const MAX_COMPLETION_CHARS: usize = 120;

pub const COMPLETE_SYSTEM: &'static str = "You complete half-written prompts for a coding agent.";

pub const COMPLETE_INSTRUCTION: &'static str = "<system-reminder>\nThe text above is a prompt the \
user is part-way through typing.\n- Reply with the whole prompt, completed.\n- Begin by \
reproducing the text above exactly, character for character, including any trailing space.\n- \
Then continue it, adding at most one short sentence.\n- Finish the user's thought. Do not answer \
it, and do not start a new one.\n- Reply with the prompt only. No preamble, no explanation, no \
quotes, no code fences.\n</system-reminder>";

pub const HINT: &'static str = "completion ready: → accept, alt+→ one word, esc dismiss";

pub const ON_MSG: &'static str = "Autocomplete: on";

pub const OFF_MSG: &'static str = "Autocomplete: off";

/// A completion, tagged with the draft that it continues so that it can be dropped
/// if the user kept typing while it was in flight.
pub struct Completion {
    pub prefix: String,
    pub tail: String,
}

/// What to ask the model, and where to send the answer.
pub struct CompleteRequest {
    pub messages: Vec<Message>,
    pub prefix: String,
    pub tx: flume::Sender<Completion>,
}

/// Text worth completing: long enough, not blank, and neither a slash command
/// nor a shell line, which complete their own input.
pub open spec fn is_completable(s: Seq<char>) -> bool {
    let start = text::trimmed_start(s);
    &&& s.len() >= MIN_CHARS
    &&& start.len() > 0
    &&& start[0] != '/'
    &&& start[0] != '!'
}

/// The first line of `s`.
pub open spec fn first_line(s: Seq<char>) -> Seq<char> {
    s.take(text::before(s, '\n') as int)
}

/// What a reply adds to the text that was typed: the rest of the line on which
/// that text ends. Nothing when the reply does not begin with the typed text,
/// adds nothing to it, or adds more than a hint.
pub open spec fn tail_of(reply: Seq<char>, typed: Seq<char>) -> Option<Seq<char>> {
    let full = reply::unfenced(text::trimmed_end(reply));
    let tail = text::trimmed_end(first_line(full.skip(typed.len() as int)));
    if typed.is_prefix_of(full) && 0 < tail.len() <= MAX_COMPLETION_CHARS {
        Some(tail)
    } else {
        None
    }
}

/// Whether a draft is worth asking about.
pub fn completable(draft: &str) -> (r: bool)
    ensures
        r == is_completable(draft@),
{
    let chars: Vec<char> = text::chars_of(draft);
    let start: &[char] = text::trim_start(chars.as_slice());
    start.len() > 0 && start[0] != '/' && start[0] != '!' && chars.len() >= MIN_CHARS
}

/// The text that the reply adds to the prefix, or `None` whenever the reply is
/// not the prefix plus something. Rejecting is the point: a model that reworded
/// the prefix would otherwise have its edit silently applied.
pub fn parse_completion(message: &Message, prefix: &str) -> (r: Option<String>)
    ensures
        text::option_view(r) == tail_of(text::joined(message.texts(), Seq::empty()), prefix@),
{
    let texts: Vec<String> = message.text_blocks();
    proof {
        reveal_strlit("");
        assert(""@ =~= Seq::empty());
    }
    let full: String = text::join(&texts, "");
    let full: Vec<char> = text::chars_of(full.as_str());
    let full: &[char] = reply::strip_fence(text::trim_end(full.as_slice()));
    let prefix: Vec<char> = text::chars_of(prefix);
    let tail: &[char] = match text::strip_prefix(full, prefix.as_slice()) {
        Some(tail) => tail,
        None => {
            return None;
        },
    };
    let end: usize = text::find(tail, '\n');
    proof {
        assert(tail@.subrange(0, end as int) =~= first_line(tail@));
    }
    let tail: &[char] = text::trim_end(vstd::slice::slice_subrange(tail, 0, end));
    if tail.len() == 0 || tail.len() > MAX_COMPLETION_CHARS {
        return None;
    }
    Some(text::string_of(tail))
}

impl AppState {
    /// Whether the draft is to be asked about, once it has been left alone for long
    /// enough.
    pub open spec fn wants_completion(self, overlay_open: bool) -> bool {
        &&& self.completion.enabled
        &&& self.completion.rx is None
        &&& !self.completion.asked.contains(self.completion.draft)
        &&& self.input.ghost_text is None
        &&& self.input.cursor_at_end()
        &&& !overlay_open
        &&& is_completable(self.completion.draft)
    }

    /// What a tick of the clock does: a draft that changed is noted and whatever was
    /// asked about the old one forgotten; a draft that was left alone long enough
    /// is asked about, once for all.
    pub open spec fn ticked(self, now: Instant, overlay_open: bool) -> (AppState, Option<Seq<char>>) {
        let draft = self.input.draft.text();
        if draft != self.completion.draft {
            (
                AppState {
                    completion: CompletionState {
                        rx: None,
                        draft,
                        since: Some(now),
                        ..self.completion
                    },
                    ..self
                },
                None,
            )
        } else if self.wants_completion(overlay_open) && self.completion.since is Some
            && now.nanos_since(self.completion.since->0) >= DEBOUNCE_MILLIS * 1_000_000 {
            (
                AppState {
                    completion: CompletionState {
                        asked: self.completion.asked.push(draft),
                        ..self.completion
                    },
                    ..self
                },
                Some(draft),
            )
        } else {
            (self, None)
        }
    }

    /// What the answer to a completion does: nothing when there is none yet, and
    /// nothing to the draft when it moved on in the meantime. The keys that take a
    /// completion are explained the first time.
    pub open spec fn completed(self, answer: Option<Completion>) -> AppState {
        if self.completion.rx is None || answer is None {
            self
        } else if answer->0.prefix@ != self.input.draft.text() {
            AppState {
                completion: CompletionState { rx: None, ..self.completion },
                ..self
            }
        } else {
            AppState {
                input: InputState { ghost_text: Some(answer->0.tail@), ..self.input },
                completion: CompletionState {
                    rx: None,
                    hinted: true,
                    ..self.completion
                },
                flashed: if self.completion.hinted {
                    self.flashed
                } else {
                    Some(HINT@)
                },
                ..self
            }
        }
    }

    /// Completing switched on or off. Off also drops what is on screen and what is
    /// in flight.
    pub open spec fn toggled(self) -> AppState {
        if self.completion.enabled {
            AppState {
                input: InputState { ghost_text: None, ..self.input },
                completion: CompletionState {
                    enabled: false,
                    rx: None,
                    ..self.completion
                },
                flashed: Some(OFF_MSG@),
                ..self
            }
        } else {
            AppState {
                completion: CompletionState { enabled: true, ..self.completion },
                flashed: Some(ON_MSG@),
                ..self
            }
        }
    }
}

impl App {
    /// Called on every tick. Returns the request to make, if any.
    pub fn tick_completion(&mut self, now: Instant, overlay_open: bool) -> (actions: Vec<Action>)
        requires
            old(self)@.valid(),
        ensures
            final(self)@ == old(self)@.ticked(now, overlay_open).0,
            final(self)@.valid(),
            match old(self)@.ticked(now, overlay_open).1 {
                Some(draft) => {
                    &&& actions@.len() == 1
                    &&& actions@[0] matches Action::Complete(asked) && asked@ == draft
                },
                None => actions@.len() == 0,
            },
    {
        let value: String = self.input_box.buffer.value();
        if !text::same_text(value.as_str(), self.completion_input.as_str()) {
            // Whatever is in flight was asked about older text, so it can only
            // arrive wrong.
            self.completion_rx = None;
            self.completion_input = value;
            self.completion_since = Some(now);
            return Vec::new();
        }
        if !self.wants_completion(overlay_open) {
            return Vec::new();
        }
        let since: Instant = match self.completion_since {
            Some(since) => since,
            None => {
                return Vec::new();
            },
        };
        let waited: Duration = now.saturating_duration_since(since);
        if !waited.at_least(Duration::from_millis(DEBOUNCE_MILLIS)) {
            return Vec::new();
        }
        // Recorded before the call goes out, so that a draft that yields nothing is
        // asked about once rather than on every tick that follows.
        let ghost had = self@.completion.asked;
        self.completion_asked.push(self.completion_input.clone());
        assert(text::views(self.completion_asked@) =~= had.push(self.completion_input@));
        let mut actions: Vec<Action> = Vec::new();
        actions.push(Action::Complete(self.completion_input.clone()));
        actions
    }

    fn wants_completion(&self, overlay_open: bool) -> (r: bool)
        requires
            self@.valid(),
        ensures
            r == self@.wants_completion(overlay_open),
    {
        let asked: bool = text::contains_text(
            &self.completion_asked,
            self.completion_input.as_str(),
        );
        self.completion_enabled && self.completion_rx.is_none() && !asked
            && !self.input_box.has_ghost() && self.input_box.cursor_at_end() && !overlay_open
            && completable(self.completion_input.as_str())
    }

    /// Asks how a draft goes on. The answer arrives where the application looks for
    /// it.
    pub fn start_completion(&mut self, prefix: String) -> (request: CompleteRequest)
        ensures
            final(self)@.completion.rx is Some,
            channel::completion_ends(request.tx, final(self)@.completion.rx->0),
            final(self)@ == (AppState {
                completion: CompletionState {
                    rx: final(self)@.completion.rx,
                    ..old(self)@.completion
                },
                ..old(self)@
            }),
            message::said_by_user(request.messages@, seq![prefix@, COMPLETE_INSTRUCTION@]),
            request.prefix@ == prefix@,
    {
        let (tx, rx): (flume::Sender<Completion>, flume::Receiver<Completion>) =
            channel::for_completion();
        self.completion_rx = Some(rx);
        let mut messages: Vec<Message> = Vec::new();
        messages.push(Message::user(prefix.clone()));
        messages.push(Message::user(COMPLETE_INSTRUCTION.to_string()));
        CompleteRequest { messages, prefix, tx }
    }

    /// Called on every tick: takes up the completion that is waited for, if it is
    /// there.
    pub fn poll_completion(&mut self)
        requires
            old(self)@.valid(),
        ensures
            final(self)@.valid(),
            match old(self)@.completion.rx {
                Some(rx) => exists|answer: Option<Completion>|
                    #[trigger] channel::completion_came(rx, answer) && final(self)@ == old(self)@.completed(answer),
                None => final(self)@ == old(self)@,
            },
    {
        let answer: Option<Completion> = match &self.completion_rx {
            Some(rx) => channel::completion_arrived(rx),
            None => None,
        };
        self.settle_completion(answer);
    }

    /// Takes up the completion that was waited for.
    pub fn settle_completion(&mut self, answer: Option<Completion>)
        requires
            old(self)@.valid(),
        ensures
            final(self)@.valid(),
            final(self)@ == old(self)@.completed(answer),
    {
        if self.completion_rx.is_none() {
            return;
        }
        let completion: Completion = match answer {
            Some(completion) => completion,
            None => {
                return;
            },
        };
        self.completion_rx = None;
        // The draft moved on while this was in flight.
        let value: String = self.input_box.buffer.value();
        if !text::same_text(completion.prefix.as_str(), value.as_str()) {
            return;
        }
        self.input_box.set_ghost(Some(completion.tail));
        // An unexplained dim tail is a puzzle the first time. Said once, then never
        // again for the rest of the session.
        if self.input_box.has_ghost() && !self.completion_hinted {
            self.completion_hinted = true;
            self.flash(HINT.to_string());
        }
    }

    /// Fires on every keystroke while enabled, so it is worth being able to stop.
    /// Off also drops the completion on screen.
    pub fn toggle_completion(&mut self)
        requires
            old(self)@.valid(),
        ensures
            final(self)@.valid(),
            final(self)@ == old(self)@.toggled(),
    {
        self.completion_enabled = !self.completion_enabled;
        if self.completion_enabled {
            self.flash(ON_MSG.to_string());
        } else {
            self.input_box.clear_ghost();
            self.completion_rx = None;
            self.flash(OFF_MSG.to_string());
        }
    }
}

/// What to send back once the model answered or failed to. Failure is silent:
/// nobody asked for this, so nobody is owed an error.
pub fn finish_complete(prefix: String, answer: Option<Message>) -> (completion: Option<Completion>)
    ensures
        match completion {
            Some(completion) => {
                &&& answer is Some
                &&& completion.prefix@ == prefix@
                &&& Some(completion.tail@) == tail_of(
                    text::joined(answer->0.texts(), Seq::empty()),
                    prefix@,
                )
            },
            None => answer is None || tail_of(
                text::joined(answer->0.texts(), Seq::empty()),
                prefix@,
            ) is None,
        },
{
    let message: Message = match answer {
        Some(message) => message,
        None => {
            return None;
        },
    };
    match parse_completion(&message, prefix.as_str()) {
        Some(tail) => Some(Completion { prefix, tail }),
        None => None,
    }
}

/// A completion is never a rewording: the reply, taken out of a fence around it,
/// begins with the typed text and then the tail, and the tail is one line that
/// is neither empty nor too long and does not end in white space.
pub proof fn law_completion_continues_the_draft(reply: Seq<char>, typed: Seq<char>)
    requires
        tail_of(reply, typed) is Some,
    ensures
        (typed + tail_of(reply, typed)->0).is_prefix_of(
            reply::unfenced(text::trimmed_end(reply)),
        ),
        0 < tail_of(reply, typed)->0.len() <= MAX_COMPLETION_CHARS,
        !tail_of(reply, typed)->0.contains('\n'),
        !text::white_space(tail_of(reply, typed)->0.last()),
{
    let full = reply::unfenced(text::trimmed_end(reply));
    let rest = full.skip(typed.len() as int);
    let line = first_line(rest);
    let tail = text::trimmed_end(line);
    text::lemma_before(rest, '\n');
    text::lemma_trailing(line, text::CharClass::WhiteSpace);
    assert(!text::CharClass::WhiteSpace.includes(tail.last()));
    assert((typed + tail) =~= full.take((typed + tail).len() as int));
    assert forall|i: int| 0 <= i < tail.len() implies #[trigger] tail[i] != '\n' by {
        assert(tail[i] == rest[i]);
    }
}

/// A reply that does not begin with the typed text is dropped, whatever it says.
pub proof fn law_rewording_is_dropped(reply: Seq<char>, typed: Seq<char>)
    requires
        !typed.is_prefix_of(reply::unfenced(text::trimmed_end(reply))),
    ensures
        tail_of(reply, typed) is None,
{
}

}
