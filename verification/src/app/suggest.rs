//! Drafts follow-up prompts once a turn ends.
//!
//! It waits for the whole answer, because three prompts appearing one word at a time
//! would be worse than three appearing at once. And it carries the run it belongs
//! to, so that an answer that arrives after the next turn started is dropped rather
//! than offered against the wrong context.

use super::{App, AppState};
use crate::channel;
use crate::message;
use crate::message::Message;
use crate::text;
use crate::text::CharClass;
use vstd::prelude::*;

verus! {

pub const MAX_SUGGESTIONS: usize = 3;

/// Long enough to be a real prompt, short enough to read at a glance.
pub const MAX_SUGGESTION_CHARS: usize = 90;

pub const SUGGEST_SYSTEM: &'static str = "You suggest what the user might ask next.";

pub const SUGGEST_INSTRUCTION: &'static str = "<system-reminder>\nRead the conversation above and write up to \
three prompts the user might plausibly send next.\n- One per line. No numbering, no bullets, no \
quotes, no commentary.\n- Write them as the user would type them, in the imperative.\n- Keep each \
under 12 words.\n- Suggest concrete next steps that follow from what just happened. Never suggest \
repeating work that is already done.\n- If nothing useful comes to mind, write nothing at all.\n\
</system-reminder>";

/// The prompts, tagged with the run that they were drafted for.
pub struct Suggestions {
    pub run_id: u64,
    pub prompts: Vec<String>,
}

/// What to ask the model, and where to send the answer.
pub struct SuggestRequest {
    pub messages: Vec<Message>,
    pub run_id: u64,
    pub tx: flume::Sender<Suggestions>,
}

/// A line without the bullet or number in front of it, the quotes around it and
/// the white space around all of them.
pub open spec fn undecorated(line: Seq<char>) -> Seq<char> {
    let line = text::trimmed(line);
    let line = text::without_leading(line, CharClass::Bullet);
    let line = text::without_leading(line, CharClass::Digit);
    let line = text::without_leading(line, CharClass::NumberMark);
    let line = text::trimmed(line);
    let line = text::without_leading(line, CharClass::DoubleQuote);
    let line = text::without_trailing(line, CharClass::DoubleQuote);
    text::trimmed(line)
}

/// A prompt that can be offered: there is something to it, and it fits.
pub open spec fn offerable(prompt: Seq<char>) -> bool {
    0 < prompt.len() <= MAX_SUGGESTION_CHARS
}

/// The offerable prompts among these lines, in their order.
pub open spec fn prompts_in(lines: Seq<Seq<char>>) -> Seq<Seq<char>>
    decreases lines.len(),
{
    if lines.len() == 0 {
        Seq::empty()
    } else {
        let prompt = undecorated(lines.last());
        if offerable(prompt) {
            prompts_in(lines.drop_last()).push(prompt)
        } else {
            prompts_in(lines.drop_last())
        }
    }
}

/// The lines of all the texts, in their order.
pub open spec fn lines_of(texts: Seq<Seq<char>>) -> Seq<Seq<char>>
    decreases texts.len(),
{
    if texts.len() == 0 {
        Seq::empty()
    } else {
        lines_of(texts.drop_last()) + text::split(texts.last(), '\n')
    }
}

/// The first few of a list.
pub open spec fn first_few(prompts: Seq<Seq<char>>) -> Seq<Seq<char>> {
    if prompts.len() > MAX_SUGGESTIONS {
        prompts.take(MAX_SUGGESTIONS as int)
    } else {
        prompts
    }
}

/// What is offered of a reply made of these texts.
pub open spec fn suggested(texts: Seq<Seq<char>>) -> Seq<Seq<char>> {
    first_few(prompts_in(lines_of(texts)))
}

/// Small models decorate despite being asked not to, so the usual leading bullet
/// or numbering is taken off rather than shown.
pub fn strip_decoration(line: &str) -> (r: String)
    ensures
        r@ == undecorated(line@),
{
    let line: Vec<char> = text::chars_of(line);
    let line: &[char] = text::trim(line.as_slice());
    let line: &[char] = text::trim_start_matches(line, CharClass::Bullet);
    let line: &[char] = text::trim_start_matches(line, CharClass::Digit);
    let line: &[char] = text::trim_start_matches(line, CharClass::NumberMark);
    let line: &[char] = text::trim(line);
    let line: &[char] = text::trim_start_matches(line, CharClass::DoubleQuote);
    let line: &[char] = text::trim_end_matches(line, CharClass::DoubleQuote);
    text::string_of(text::trim(line))
}

/// The prompts offered by a reply. Overlong lines are dropped rather than cut
/// off, and the carriage return of a line that ends in one goes with the white
/// space around the line.
pub fn parse_suggestions(message: &Message) -> (prompts: Vec<String>)
    ensures
        text::views(prompts@) == suggested(message.texts()),
{
    let texts: Vec<String> = message.text_blocks();
    let ghost all = text::views(texts@);
    let mut prompts: Vec<String> = Vec::new();
    let mut i: usize = 0;
    assert(all.take(0) =~= Seq::empty());
    assert(text::views(prompts@) =~= first_few(prompts_in(lines_of(all.take(0)))));
    while i < texts.len()
        invariant
            all == text::views(texts@),
            i <= texts@.len(),
            text::views(prompts@) == first_few(prompts_in(lines_of(all.take(i as int)))),
        decreases texts@.len() - i,
    {
        let ghost seen = lines_of(all.take(i as int));
        let chars: Vec<char> = text::chars_of(texts[i].as_str());
        let lines: Vec<String> = text::split_text(chars.as_slice(), '\n');
        let ghost more = text::views(lines@);
        let mut j: usize = 0;
        assert(seen + more.take(0) =~= seen);
        while j < lines.len()
            invariant
                more == text::views(lines@),
                j <= lines@.len(),
                text::views(prompts@) == first_few(prompts_in(seen + more.take(j as int))),
            decreases lines@.len() - j,
        {
            let ghost had = text::views(prompts@);
            let ghost upto = seen + more.take(j as int);
            let prompt: String = strip_decoration(lines[j].as_str());
            let ghost found = prompts_in(upto);
            proof {
                assert((seen + more.take(j + 1)).drop_last() =~= upto);
                assert((seen + more.take(j + 1)).last() == more[j as int]);
            }
            let size: usize = prompt.as_str().unicode_len();
            if prompts.len() < MAX_SUGGESTIONS && 0 < size && size <= MAX_SUGGESTION_CHARS {
                let ghost p = prompt@;
                prompts.push(prompt);
                proof {
                    assert(text::views(prompts@) =~= had.push(p));
                    assert(had.len() == prompts@.len() - 1);
                    if found.len() > MAX_SUGGESTIONS {
                        assert(had.len() == MAX_SUGGESTIONS);
                    }
                }
            } else {
                proof {
                    if offerable(prompt@) {
                        assert(had.len() == MAX_SUGGESTIONS);
                        assert(first_few(found.push(prompt@)) =~= first_few(found));
                    }
                }
            }
            j += 1;
        }
        proof {
            assert(more.take(j as int) =~= more);
            assert(all.take(i + 1).drop_last() =~= all.take(i as int));
            assert(more == text::split(all.take(i + 1).last(), '\n'));
        }
        i += 1;
    }
    assert(all.take(i as int) =~= all);
    prompts
}

impl AppState {
    /// What the answer with suggestions does: nothing when there is none yet, and
    /// nothing to those on screen when it belongs to another run or is empty.
    pub open spec fn offered(self, answer: Option<Suggestions>) -> AppState {
        if self.suggest_rx is None || answer is None {
            self
        } else if answer->0.run_id != self.run_id || answer->0.prompts@.len() == 0 {
            AppState { suggest_rx: None, ..self }
        } else {
            AppState {
                suggest_rx: None,
                suggestions: text::views(answer->0.prompts@),
                suggestions_hidden: false,
                ..self
            }
        }
    }

    /// What the panel draws: nothing while it is hidden, so that its rows go back to
    /// the chat instead of leaving a gap.
    pub open spec fn shown_suggestions(self) -> Seq<Seq<char>> {
        if self.suggestions_hidden {
            Seq::empty()
        } else {
            self.suggestions
        }
    }
}

impl App {
    /// Asks for prompts that follow from a conversation. There is nothing to ask
    /// about without one, or while it is empty. The conversation is sent as it is
    /// handed in: whoever hands it in has given every tool call in it a result, since
    /// providers refuse a conversation with calls left open. The answer arrives where
    /// the application looks for it.
    pub fn start_suggestions(&mut self, history: Option<Vec<Message>>) -> (request: Option<
        SuggestRequest,
    >)
        ensures
            match request {
                Some(request) => {
                    &&& history is Some
                    &&& history->0@.len() > 0
                    &&& final(self)@.suggest_rx is Some
                    &&& channel::suggestion_ends(request.tx, final(self)@.suggest_rx->0)
                    &&& final(self)@ == (AppState {
                        suggest_rx: final(self)@.suggest_rx,
                        ..old(self)@
                    })
                    &&& request.run_id == old(self)@.run_id
                    &&& request.messages@.len() == history->0@.len() + 1
                    &&& request.messages@.drop_last() == history->0@
                    &&& message::said_by_user(
                        seq![request.messages@.last()],
                        seq![SUGGEST_INSTRUCTION@],
                    )
                },
                None => {
                    &&& history is None || history->0@.len() == 0
                    &&& final(self)@ == old(self)@
                },
            },
    {
        let mut messages: Vec<Message> = match history {
            Some(history) => history,
            None => {
                return None;
            },
        };
        if messages.len() == 0 {
            return None;
        }
        let ghost had = messages@;
        messages.push(Message::user(SUGGEST_INSTRUCTION.to_string()));
        assert(messages@.drop_last() =~= had);
        let (tx, rx): (flume::Sender<Suggestions>, flume::Receiver<Suggestions>) =
            channel::for_suggestions();
        self.suggest_rx = Some(rx);
        Some(SuggestRequest { messages, run_id: self.run_id, tx })
    }

    /// Called on every tick: takes up the suggestions that are waited for, if they
    /// are there. Silent on failure: a suggestion that did not arrive is not worth a
    /// message.
    pub fn poll_suggestions(&mut self)
        requires
            old(self)@.valid(),
        ensures
            final(self)@.valid(),
            match old(self)@.suggest_rx {
                Some(rx) => exists|answer: Option<Suggestions>|
                    #[trigger] channel::suggestions_came(rx, answer) && final(self)@ == old(self)@.offered(answer),
                None => final(self)@ == old(self)@,
            },
    {
        let answer: Option<Suggestions> = match &self.suggest_rx {
            Some(rx) => channel::suggestions_arrived(rx),
            None => None,
        };
        self.settle_suggestions(answer);
    }

    /// Takes up the suggestions that were waited for.
    pub fn settle_suggestions(&mut self, answer: Option<Suggestions>)
        requires
            old(self)@.valid(),
        ensures
            final(self)@.valid(),
            final(self)@ == old(self)@.offered(answer),
    {
        if self.suggest_rx.is_none() {
            return;
        }
        let suggestions: Suggestions = match answer {
            Some(suggestions) => suggestions,
            None => {
                return;
            },
        };
        self.suggest_rx = None;
        if suggestions.run_id != self.run_id || suggestions.prompts.len() == 0 {
            return;
        }
        self.suggestions = suggestions.prompts;
        self.suggestions_hidden = false;
    }

    pub fn showing_suggestions(&self) -> (r: bool)
        ensures
            r == (self@.suggestions.len() > 0 && !self@.suggestions_hidden),
            r == (self@.shown_suggestions().len() > 0),
    {
        self.suggestions.len() > 0 && !self.suggestions_hidden
    }

    /// What the panel draws.
    pub fn shown_suggestions(&self) -> (shown: &[String])
        ensures
            text::views(shown@) == self@.shown_suggestions(),
    {
        if self.suggestions_hidden {
            let nothing: &[String] = vstd::slice::slice_subrange(self.suggestions.as_slice(), 0, 0);
            assert(text::views(nothing@) =~= Seq::empty());
            nothing
        } else {
            self.suggestions.as_slice()
        }
    }

    /// Kept rather than dropped, so that the same set can be put back without paying
    /// for a second draft of prompts that are already there.
    pub fn hide_suggestions(&mut self)
        ensures
            final(self)@ == (AppState { suggestions_hidden: true, ..old(self)@ }),
    {
        self.suggestions_hidden = true;
    }

    pub fn clear_suggestions(&mut self)
        ensures
            final(self)@ == (AppState {
                suggestions: Seq::empty(),
                suggestions_hidden: false,
                suggest_rx: None,
                ..old(self)@
            }),
    {
        self.suggestions.clear();
        self.suggestions_hidden = false;
        self.suggest_rx = None;
        assert(text::views(self.suggestions@) =~= Seq::empty());
    }
}

/// What to send back once the model answered or failed to: nothing unless it had
/// something useful to say.
pub fn finish_suggest(run_id: u64, answer: Option<Message>) -> (suggestions: Option<Suggestions>)
    ensures
        match suggestions {
            Some(suggestions) => {
                &&& answer is Some
                &&& suggestions.run_id == run_id
                &&& text::views(suggestions.prompts@) == suggested(answer->0.texts())
                &&& suggestions.prompts@.len() > 0
            },
            None => answer is None || suggested(answer->0.texts()).len() == 0,
        },
{
    let message: Message = match answer {
        Some(message) => message,
        None => {
            return None;
        },
    };
    let prompts: Vec<String> = parse_suggestions(&message);
    assert(text::views(prompts@).len() == prompts@.len());
    if prompts.len() == 0 {
        None
    } else {
        Some(Suggestions { run_id, prompts })
    }
}

/// Suggestions drafted for another run are never offered.
pub proof fn law_stale_suggestions_are_dropped(s: AppState, answer: Suggestions)
    requires
        answer.run_id != s.run_id,
    ensures
        s.offered(Some(answer)).suggestions == s.suggestions,
        s.offered(Some(answer)).suggestions_hidden == s.suggestions_hidden,
{
}

/// Hiding keeps the set: shown again, it is what it was.
pub proof fn law_hiding_keeps_the_set(s: AppState)
    ensures
        ({
            let hidden = AppState { suggestions_hidden: true, ..s };
            let back = AppState { suggestions_hidden: false, ..hidden };
            hidden.shown_suggestions().len() == 0 && back.shown_suggestions() == s.suggestions
        }),
{
}

/// What is left of a line is a run of its neighbouring characters, without white
/// space at either end.
pub proof fn law_undecorating_touches_only_the_ends(line: Seq<char>)
    ensures
        text::cut_from(undecorated(line), line),
        undecorated(line).len() > 0 ==> !text::white_space(undecorated(line)[0])
            && !text::white_space(undecorated(line).last()),
{
    let a = text::trimmed(line);
    let b = text::without_leading(a, CharClass::Bullet);
    let c = text::without_leading(b, CharClass::Digit);
    let d = text::without_leading(c, CharClass::NumberMark);
    let e = text::trimmed(d);
    let f = text::without_leading(e, CharClass::DoubleQuote);
    let g = text::without_trailing(f, CharClass::DoubleQuote);
    text::lemma_trimmed(line);
    text::lemma_trims_cut(a, CharClass::Bullet);
    text::lemma_cut_of_cut(b, a, line);
    text::lemma_trims_cut(b, CharClass::Digit);
    text::lemma_cut_of_cut(c, b, line);
    text::lemma_trims_cut(c, CharClass::NumberMark);
    text::lemma_cut_of_cut(d, c, line);
    text::lemma_trimmed(d);
    text::lemma_cut_of_cut(e, d, line);
    text::lemma_trims_cut(e, CharClass::DoubleQuote);
    text::lemma_cut_of_cut(f, e, line);
    text::lemma_trims_cut(f, CharClass::DoubleQuote);
    text::lemma_cut_of_cut(g, f, line);
    text::lemma_trimmed(g);
    text::lemma_cut_of_cut(text::trimmed(g), g, line);
}

/// Every prompt on offer says something, fits, and is a piece of some line.
proof fn lemma_prompts_in(lines: Seq<Seq<char>>)
    ensures
        forall|i: int|
            0 <= i < prompts_in(lines).len() ==> {
                &&& offerable(#[trigger] prompts_in(lines)[i])
                &&& exists|j: int|
                    0 <= j < lines.len() && prompts_in(lines)[i] == #[trigger] undecorated(lines[j])
            },
    decreases lines.len(),
{
    if lines.len() > 0 {
        let earlier = lines.drop_last();
        lemma_prompts_in(earlier);
        assert forall|i: int| 0 <= i < prompts_in(lines).len() implies {
            &&& offerable(#[trigger] prompts_in(lines)[i])
            &&& exists|j: int|
                0 <= j < lines.len() && prompts_in(lines)[i] == #[trigger] undecorated(lines[j])
        } by {
            if i < prompts_in(earlier).len() {
                assert(prompts_in(lines)[i] == prompts_in(earlier)[i]);
                let j = choose|j: int|
                    0 <= j < earlier.len() && prompts_in(earlier)[i] == #[trigger] undecorated(
                        earlier[j],
                    );
                assert(undecorated(lines[j]) == prompts_in(lines)[i]);
            } else {
                assert(undecorated(lines[lines.len() - 1]) == prompts_in(lines)[i]);
            }
        }
    }
}

/// A line of one of the texts holds no line break.
proof fn lemma_lines_of(texts: Seq<Seq<char>>)
    ensures
        forall|i: int|
            0 <= i < lines_of(texts).len() ==> !(#[trigger] lines_of(texts)[i]).contains('\n'),
    decreases texts.len(),
{
    if texts.len() > 0 {
        let earlier = lines_of(texts.drop_last());
        lemma_lines_of(texts.drop_last());
        text::lemma_split_joins(texts.last(), '\n');
        assert forall|i: int| 0 <= i < lines_of(texts).len() implies !(#[trigger] lines_of(
            texts,
        )[i]).contains('\n') by {
            if i < earlier.len() {
                assert(lines_of(texts)[i] == earlier[i]);
            } else {
                assert(lines_of(texts)[i] == text::split(texts.last(), '\n')[i - earlier.len()]);
            }
        }
    }
}

/// Whatever the model wrote, at most three prompts are offered, and each says
/// something, fits, and stands on one line.
pub proof fn law_suggestions_fit_the_panel(texts: Seq<Seq<char>>)
    ensures
        suggested(texts).len() <= MAX_SUGGESTIONS,
        forall|i: int|
            0 <= i < suggested(texts).len() ==> {
                &&& offerable(#[trigger] suggested(texts)[i])
                &&& !suggested(texts)[i].contains('\n')
            },
{
    let lines = lines_of(texts);
    let found = prompts_in(lines);
    lemma_prompts_in(lines);
    lemma_lines_of(texts);
    assert forall|i: int| 0 <= i < suggested(texts).len() implies {
        &&& offerable(#[trigger] suggested(texts)[i])
        &&& !suggested(texts)[i].contains('\n')
    } by {
        assert(suggested(texts)[i] == found[i]);
        let j = choose|j: int|
            0 <= j < lines.len() && found[i] == #[trigger] undecorated(lines[j]);
        law_undecorating_touches_only_the_ends(lines[j]);
        reveal(text::cut_from);
        let (from, to) = choose|from: int, to: int|
            0 <= from <= to <= lines[j].len() && found[i] == #[trigger] lines[j].subrange(
                from,
                to,
            );
        if found[i].contains('\n') {
            let k = choose|k: int| 0 <= k < found[i].len() && found[i][k] == '\n';
            assert(lines[j][from + k] == '\n');
        }
    }
}

}
