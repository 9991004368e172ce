//! Redrafts a prompt on request, for the prompt editor.
//!
//! Answers a question rather than volunteering one, so it reports failure instead
//! of staying quiet: the user asked and is waiting.
//!
//! The conversation is deliberately not sent. A prompt is usually edited before the
//! first turn, when there is none, and a model given both a transcript and an
//! instruction tends to answer the transcript.

use super::reply;
use super::{App, AppState};
use crate::channel;
use crate::components::prompt_editor::EditorState;
use crate::message;
use crate::message::Message;
use crate::text;
use vstd::prelude::*;
use vstd::slice::slice_subrange;

verus! {

pub const REWRITE_SYSTEM: &'static str = "You rewrite prompts for a coding agent.";

pub const REWRITE_INSTRUCTION: &'static str = "<system-reminder>\nRewrite the prompt above following the \
instruction.\n- Reply with the rewritten prompt and nothing else. No preamble, no explanation, no \
quotes, no code fences.\n- Keep the user's intent. Change only what the instruction asks for.\n\
- Keep it in the user's voice, as an instruction to a coding agent.\n</system-reminder>";

/// A redraft, tagged with the editing session that asked for it so that an answer
/// arriving after the editor was closed and opened again is dropped.
pub struct Rewrite {
    pub seq: u64,
    pub text: Result<String, String>,
}

/// What to ask the model, and where to send the answer.
pub struct RewriteRequest {
    pub messages: Vec<Message>,
    pub seq: u64,
    pub tx: flume::Sender<Rewrite>,
}

/// How a draft and what is to become of it are put to the model.
pub open spec fn question(draft: Seq<char>, instruction: Seq<char>) -> Seq<char> {
    "<prompt>\n"@ + draft + "\n</prompt>\n\n<instruction>\n"@ + instruction
        + "\n</instruction>"@
}

/// Both ends of `s` are the quote and nothing between them is.
pub open spec fn wrapped_in(s: Seq<char>, quote: char) -> bool {
    &&& s.len() >= 2
    &&& s[0] == quote
    &&& s.last() == quote
    &&& !s.subrange(1, s.len() - 1).contains(quote)
}

/// `s` without a pair of quotes that wraps all of it.
pub open spec fn unquoted(s: Seq<char>) -> Seq<char> {
    if wrapped_in(s, '"') || wrapped_in(s, '\'') {
        s.subrange(1, s.len() - 1)
    } else {
        s
    }
}

/// An answer without what wraps the whole of it: white space, a code fence, a
/// pair of quotes.
pub open spec fn cleaned(answer: Seq<char>) -> Seq<char> {
    text::trimmed(unquoted(text::trimmed(reply::unfenced(text::trimmed(answer)))))
}

fn is_wrapped_in(s: &[char], quote: char) -> (r: bool)
    ensures
        r == wrapped_in(s@, quote),
{
    if s.len() < 2 || s[0] != quote || s[s.len() - 1] != quote {
        return false;
    }
    let inner: &[char] = slice_subrange(s, 1, s.len() - 1);
    text::find(inner, quote) == inner.len()
}

/// Takes off a pair of quotes, only when it wraps everything: `"a" and "b"`
/// keeps its outermost pair.
pub fn strip_wrapping_quotes(s: &[char]) -> (r: &[char])
    ensures
        r@ == unquoted(s@),
{
    if is_wrapped_in(s, '"') || is_wrapped_in(s, '\'') {
        slice_subrange(s, 1, s.len() - 1)
    } else {
        s
    }
}

/// The answer in the message without its wrappers. Small models fence and quote
/// despite being told not to; nothing inside the answer is touched.
pub fn clean_rewrite(message: &Message) -> (r: String)
    ensures
        r@ == cleaned(text::joined(message.texts(), seq!['\n'])),
{
    let texts: Vec<String> = message.text_blocks();
    proof {
        reveal_strlit("\n");
        assert("\n"@ =~= seq!['\n']);
    }
    let answer: String = text::join(&texts, "\n");
    let answer: Vec<char> = text::chars_of(answer.as_str());
    let inner: &[char] = reply::strip_fence(text::trim(answer.as_slice()));
    text::string_of(text::trim(strip_wrapping_quotes(text::trim(inner))))
}

impl AppState {
    /// What the answer to a rewrite does: nothing when there is none yet, and
    /// nothing to the editor when another session of it asked.
    pub open spec fn rewritten(self, answer: Option<Rewrite>) -> AppState {
        if self.rewrite_rx is None || answer is None {
            self
        } else if answer->0.seq != self.rewrite_seq || !self.editor.open {
            AppState { rewrite_rx: None, ..self }
        } else {
            AppState {
                rewrite_rx: None,
                editor: match answer->0.text {
                    Ok(rewrite) => self.editor.versioned(rewrite@),
                    Err(message) => self.editor.failed(message@),
                },
                ..self
            }
        }
    }
}

impl App {
    /// Asks for a draft to be redrafted. The answer arrives where the application
    /// looks for it.
    pub fn start_rewrite(&mut self, draft: String, instruction: String) -> (request: RewriteRequest)
        ensures
            final(self)@.rewrite_rx is Some,
            channel::rewrite_ends(request.tx, final(self)@.rewrite_rx->0),
            final(self)@ == (AppState { rewrite_rx: final(self)@.rewrite_rx, ..old(self)@ }),
            message::said_by_user(
                request.messages@,
                seq![question(draft@, instruction@), REWRITE_INSTRUCTION@],
            ),
            request.seq == old(self)@.rewrite_seq,
    {
        let (tx, rx): (flume::Sender<Rewrite>, flume::Receiver<Rewrite>) =
            channel::for_rewrite();
        self.rewrite_rx = Some(rx);
        let mut question: String = "<prompt>\n".to_string();
        question.append(draft.as_str());
        question.append("\n</prompt>\n\n<instruction>\n");
        question.append(instruction.as_str());
        question.append("\n</instruction>");
        let mut messages: Vec<Message> = Vec::new();
        messages.push(Message::user(question));
        messages.push(Message::user(REWRITE_INSTRUCTION.to_string()));
        RewriteRequest { messages, seq: self.rewrite_seq, tx }
    }

    /// Called on every tick: takes up the rewrite that is waited for, if it is there.
    pub fn poll_rewrite(&mut self)
        requires
            old(self)@.valid(),
        ensures
            final(self)@.valid(),
            match old(self)@.rewrite_rx {
                Some(rx) => exists|answer: Option<Rewrite>|
                    #[trigger] channel::rewrite_came(rx, answer) && final(self)@ == old(self)@.rewritten(answer),
                None => final(self)@ == old(self)@,
            },
    {
        let answer: Option<Rewrite> = match &self.rewrite_rx {
            Some(rx) => channel::rewrite_arrived(rx),
            None => None,
        };
        self.settle_rewrite(answer);
    }

    /// Takes up the rewrite that was waited for.
    pub fn settle_rewrite(&mut self, answer: Option<Rewrite>)
        requires
            old(self)@.valid(),
        ensures
            final(self)@.valid(),
            final(self)@ == old(self)@.rewritten(answer),
    {
        if self.rewrite_rx.is_none() {
            return;
        }
        let rewrite: Rewrite = match answer {
            Some(rewrite) => rewrite,
            None => {
                return;
            },
        };
        self.rewrite_rx = None;
        if rewrite.seq != self.rewrite_seq || !self.prompt_editor.is_open() {
            return;
        }
        match rewrite.text {
            Ok(text) => {
                self.prompt_editor.apply_version(text.as_str());
            },
            Err(message) => {
                self.prompt_editor.fail(message);
            },
        }
    }

    /// The redraft never started. Reported in the editor rather than the status
    /// line, which the editor is covering.
    pub fn fail_rewrite(&mut self, message: String)
        requires
            old(self)@.valid(),
        ensures
            final(self)@.valid(),
            final(self)@ == (AppState {
                rewrite_rx: None,
                editor: old(self)@.editor.failed(message@),
                ..old(self)@
            }),
    {
        self.rewrite_rx = None;
        self.prompt_editor.fail(message);
    }

    /// Counts up whenever a new editing session starts, so that answers owed to the
    /// last one can be told as stale.
    pub fn open_prompt_editor(&mut self, draft: &str)
        requires
            old(self)@.valid(),
            old(self)@.rewrite_seq < u64::MAX,
        ensures
            final(self)@.valid(),
            final(self)@ == (AppState {
                rewrite_seq: (old(self)@.rewrite_seq + 1) as u64,
                rewrite_rx: None,
                editor: EditorState::opened(draft@),
                ..old(self)@
            }),
    {
        self.rewrite_seq += 1;
        self.rewrite_rx = None;
        self.prompt_editor.open(draft);
    }
}

/// What to send back once the model answered or failed to.
pub open spec fn outcome(answer: Result<Message, String>) -> Result<Seq<char>, Seq<char>> {
    match answer {
        Ok(message) => {
            let rewrite = cleaned(text::joined(message.texts(), seq!['\n']));
            if rewrite.len() == 0 {
                Err("the model returned nothing"@)
            } else {
                Ok(rewrite)
            }
        },
        Err(reason) => Err("rewrite failed: "@ + reason@),
    }
}

/// What a result holds.
pub open spec fn result_view(r: Result<String, String>) -> Result<Seq<char>, Seq<char>> {
    match r {
        Ok(text) => Ok(text@),
        Err(message) => Err(message@),
    }
}

/// What to send back once the model answered or failed to.
pub fn finish_rewrite(seq: u64, answer: Result<Message, String>) -> (rewrite: Rewrite)
    ensures
        rewrite.seq == seq,
        result_view(rewrite.text) == outcome(answer),
{
    let text: Result<String, String> = match answer {
        Ok(message) => {
            let text: String = clean_rewrite(&message);
            if text.as_str().unicode_len() == 0 {
                Err("the model returned nothing".to_string())
            } else {
                Ok(text)
            }
        },
        Err(reason) => {
            let mut message: String = "rewrite failed: ".to_string();
            message.append(reason.as_str());
            Err(message)
        },
    };
    Rewrite { seq, text }
}

/// An answer owed to an earlier session of the editor changes nothing in a later
/// one, whenever it arrives.
pub proof fn law_reopened_editor_ignores_old_answers(s: AppState, answer: Rewrite)
    requires
        answer.seq < s.rewrite_seq,
    ensures
        s.rewritten(Some(answer)).editor == s.editor,
{
}

/// An editor that was closed stays as it is, whatever arrives.
pub proof fn law_closed_editor_ignores_answers(s: AppState, answer: Option<Rewrite>)
    requires
        !s.editor.open,
    ensures
        s.rewritten(answer).editor == s.editor,
{
}

/// Only wrappers are taken off: what is left is a run of neighbouring characters
/// of the answer, without white space at either end.
pub proof fn law_cleaning_touches_only_the_ends(answer: Seq<char>)
    ensures
        text::cut_from(cleaned(answer), answer),
        cleaned(answer).len() > 0 ==> !text::white_space(cleaned(answer)[0])
            && !text::white_space(cleaned(answer).last()),
{
    let a = text::trimmed(answer);
    let b = reply::unfenced(a);
    let c = text::trimmed(b);
    let d = unquoted(c);
    text::lemma_trimmed(answer);
    reply::lemma_unfenced_cut(a);
    text::lemma_cut_of_cut(b, a, answer);
    text::lemma_trimmed(b);
    text::lemma_cut_of_cut(c, b, answer);
    if wrapped_in(c, '"') || wrapped_in(c, '\'') {
        text::lemma_cut_at(c, 1, c.len() - 1);
    } else {
        text::lemma_cut_at(c, 0, c.len() as int);
        assert(c =~= c.subrange(0, c.len() as int));
    }
    text::lemma_cut_of_cut(d, c, answer);
    text::lemma_trimmed(d);
    text::lemma_cut_of_cut(text::trimmed(d), d, answer);
}

/// An answer with nothing wrapped around it comes through as it is.
pub proof fn law_clean_answers_are_kept(answer: Seq<char>)
    requires
        answer.len() > 0,
        !text::white_space(answer[0]),
        !text::white_space(answer.last()),
        !reply::fence().is_prefix_of(answer),
        !wrapped_in(answer, '"'),
        !wrapped_in(answer, '\''),
    ensures
        cleaned(answer) == answer,
{
    text::lemma_leading_is(answer, text::CharClass::WhiteSpace, 0);
    assert(answer.skip(0) =~= answer);
    text::lemma_trailing_is(answer, text::CharClass::WhiteSpace, 0);
    assert(answer.take(answer.len() as int) =~= answer);
    assert(text::trimmed(answer) == answer);
}

}
