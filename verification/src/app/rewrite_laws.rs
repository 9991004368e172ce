//! What becomes of the answer to a rewrite.

use super::reply;
use super::rewrite;
use super::rewrite::Rewrite;
use super::AppState;
use crate::message::Message;
use crate::text;
use crate::text::CharClass;
use crate::text_laws;
use vstd::prelude::*;

verus! {

/// A pair of quotes around everything goes, when none like them stands between.
pub proof fn law_wrapping_quotes_go(inner: Seq<char>, quote: char)
    requires
        quote == '"' || quote == '\'',
        !inner.contains(quote),
    ensures
        rewrite::unquoted(seq![quote] + inner + seq![quote]) == inner,
{
    let s = seq![quote] + inner + seq![quote];
    assert(s.subrange(1, s.len() - 1) =~= inner);
}

/// Quotes that do not wrap everything stay.
pub proof fn law_other_quotes_stay(s: Seq<char>)
    requires
        s.len() < 2 || s[0] != s.last() || (s[0] != '"' && s[0] != '\'') || s.subrange(
            1,
            s.len() - 1,
        ).contains(s[0]),
    ensures
        rewrite::unquoted(s) == s,
{
}

/// White space around an answer and quotes around what it says go together, and
/// nothing else does.
pub proof fn law_a_quoted_answer_is_unquoted(
    before: Seq<char>,
    answer: Seq<char>,
    after: Seq<char>,
    quote: char,
)
    requires
        forall|i: int| 0 <= i < before.len() ==> text::white_space(#[trigger] before[i]),
        forall|i: int| 0 <= i < after.len() ==> text::white_space(#[trigger] after[i]),
        quote == '"' || quote == '\'',
        answer.len() > 0,
        !answer.contains(quote),
        !text::white_space(answer[0]),
        !text::white_space(answer.last()),
    ensures
        rewrite::cleaned(before + (seq![quote] + answer + seq![quote]) + after) == answer,
{
    let quoted = seq![quote] + answer + seq![quote];
    text_laws::law_white_space_around_goes(before, quoted, after);
    assert(reply::fence()[0] == '`');
    if reply::fence().is_prefix_of(quoted) {
        assert(quoted.take(3)[0] == reply::fence()[0]);
    }
    assert(reply::unfenced(quoted) == quoted);
    law_wrapping_quotes_go(answer, quote);
    text_laws::law_white_space_around_goes(Seq::empty(), answer, Seq::empty());
}

/// White space around an answer goes.
pub proof fn law_an_answer_is_trimmed(before: Seq<char>, answer: Seq<char>, after: Seq<char>)
    requires
        forall|i: int| 0 <= i < before.len() ==> text::white_space(#[trigger] before[i]),
        forall|i: int| 0 <= i < after.len() ==> text::white_space(#[trigger] after[i]),
        answer.len() > 0,
        !text::white_space(answer[0]),
        !text::white_space(answer.last()),
    ensures
        rewrite::cleaned(before + answer + after) == rewrite::cleaned(answer),
{
    text_laws::law_white_space_around_goes(before, answer, after);
}

/// Cutting white space off the end first makes no difference to trimming.
proof fn lemma_trimmed_twice(s: Seq<char>)
    ensures
        text::trimmed(text::trimmed_end(s)) == text::trimmed(s),
{
    let class = CharClass::WhiteSpace;
    text::lemma_leading(s, class);
    let n = text::leading(s, class) as int;
    if n == s.len() {
        assert forall|i: int| 0 <= i < s.len() implies text::white_space(#[trigger] s[i]) by {
            assert(class.includes(s[i]));
        }
        text_laws::law_blank_text_vanishes(s);
        assert(text::trimmed_end(s) =~= Seq::<char>::empty());
        text_laws::law_blank_text_vanishes(Seq::empty());
        assert(text::trimmed(Seq::empty()) =~= text::trimmed(s));
    } else {
        let start = s.skip(n);
        text::lemma_trailing(start, class);
        let m = start.len() - text::trailing(start, class);
        assert(m > 0) by {
            if m == 0 {
                assert(class.includes(start[0]));
            }
        }
        let (before, middle, after) = (s.take(n), start.take(m), start.skip(m));
        assert(s =~= before + middle + after);
        assert forall|i: int| 0 <= i < before.len() implies text::white_space(
            #[trigger] before[i],
        ) by {
            assert(class.includes(s[i]));
        }
        assert forall|i: int| 0 <= i < after.len() implies text::white_space(
            #[trigger] after[i],
        ) by {
            assert(class.includes(start[m + i]));
        }
        assert(!class.includes(start[m - 1]));
        text_laws::law_white_space_around_goes(before, middle, after);
        text_laws::law_white_space_around_goes(before, middle, Seq::empty());
        assert(before + middle + Seq::<char>::empty() =~= before + middle);
    }
}

/// A fence around the whole of an answer goes together with the rest of its first
/// line; what it holds is then treated as any answer.
pub proof fn law_a_fenced_answer_is_unfenced(tag: Seq<char>, answer: Seq<char>)
    requires
        !tag.contains('\n'),
    ensures
        rewrite::cleaned(
            seq!['`', '`', '`'] + tag + seq!['\n'] + answer + seq!['`', '`', '`'],
        ) == text::trimmed(rewrite::unquoted(text::trimmed(answer))),
{
    let ticks = seq!['`', '`', '`'];
    let whole = ticks + tag + seq!['\n'] + answer + ticks;
    assert(whole[0] == '`' && whole.last() == '`');
    text_laws::law_white_space_around_goes(Seq::empty(), whole, Seq::empty());
    super::draft_laws::law_a_fence_around_everything_goes(tag, answer, Seq::empty());
    assert(whole + Seq::<char>::empty() =~= whole);
    lemma_trimmed_twice(answer);
}

/// An answer without a fence is trimmed, loses quotes around all of it, and is trimmed
/// again.
pub proof fn law_an_answer_without_a_fence(answer: Seq<char>)
    requires
        !seq!['`', '`', '`'].is_prefix_of(text::trimmed(answer)),
    ensures
        rewrite::cleaned(answer) == text::trimmed(
            rewrite::unquoted(text::trimmed(text::trimmed(answer))),
        ),
{
    super::draft_laws::law_no_whole_fence_no_change(text::trimmed(answer));
}

/// A rewrite for the session that is open goes to its editor, and a failure is shown
/// there; either way it is no longer waited for, and nothing else changes.
pub proof fn law_the_answer_reaches_its_editor(s: AppState, answer: Rewrite)
    requires
        s.rewrite_rx is Some,
        s.editor.open,
        answer.seq == s.rewrite_seq,
    ensures
        answer.text matches Ok(draft) ==> s.rewritten(Some(answer)) == (AppState {
            rewrite_rx: None,
            editor: s.editor.versioned(draft@),
            ..s
        }),
        answer.text matches Err(reason) ==> s.rewritten(Some(answer)) == (AppState {
            rewrite_rx: None,
            editor: s.editor.failed(reason@),
            ..s
        }),
{
}

/// An answer for another session, or after the editor was closed, only ends the wait;
/// while there is no answer, or none is waited for, nothing changes.
pub proof fn law_other_answers_change_nothing(s: AppState, answer: Rewrite)
    ensures
        s.rewritten(None) == s,
        s.rewrite_rx is None ==> s.rewritten(Some(answer)) == s,
        s.rewrite_rx is Some && (answer.seq != s.rewrite_seq || !s.editor.open) ==> s.rewritten(
            Some(answer),
        ) == (AppState { rewrite_rx: None, ..s }),
{
}

/// An answer that says something is the rewrite, and one that says nothing, or that
/// never came, is an error that says so.
pub proof fn law_what_is_sent_back(message: Message, reason: String)
    ensures
        ({
            let said = rewrite::cleaned(text::joined(message.texts(), "\n"@));
            &&& said.len() > 0 ==> rewrite::outcome(Ok(message)) == Ok::<Seq<char>, Seq<char>>(said)
            &&& said.len() == 0 ==> rewrite::outcome(Ok(message)) == Err::<Seq<char>, Seq<char>>(
                "the model returned nothing"@,
            )
        }),
        rewrite::outcome(Err(reason)) == Err::<Seq<char>, Seq<char>>(
            "rewrite failed: "@ + reason@,
        ),
{
    reveal_strlit("\n");
    assert("\n"@ =~= seq!['\n']);
}

/// The draft and the instruction stand in the question whole, one after the other, and
/// the rest of it is the same whatever they are.
pub proof fn law_the_question_holds_both(draft: Seq<char>, instruction: Seq<char>)
    ensures
        rewrite::question(draft, instruction) == "<prompt>\n"@ + draft
            + "\n</prompt>\n\n<instruction>\n"@ + instruction + "\n</instruction>"@,
{
}

}
