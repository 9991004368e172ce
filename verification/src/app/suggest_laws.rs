//! Which lines of a reply are offered as prompts, and when.

use super::suggest;
use super::suggest::Suggestions;
use super::AppState;
use crate::message;
use crate::message::ContentBlock;
use crate::text;
use crate::text::CharClass;
use crate::text_laws;
use vstd::prelude::*;

verus! {

/// A line of 1 to 90 characters once it is undecorated.
pub open spec fn fits() -> spec_fn(Seq<char>) -> bool {
    |prompt: Seq<char>| 0 < prompt.len() && prompt.len() <= 90
}

/// What is offered are the first three lines that fit, undecorated and in their
/// order: each line that fits is offered unless three before it were, and no other is.
pub proof fn law_the_first_three_lines_that_fit_are_offered(texts: Seq<Seq<char>>)
    ensures
        ({
            let all = suggest::lines_of(texts).map_values(
                |line: Seq<char>| suggest::undecorated(line),
            ).filter(fits());
            suggest::suggested(texts) == all.take(
                if all.len() < 3 {
                    all.len() as int
                } else {
                    3
                },
            )
        }),
{
    let lines = suggest::lines_of(texts);
    lemma_prompts_are_filtered(lines);
    let all = suggest::prompts_in(lines);
    assert(all.take(all.len() as int) =~= all);
}

proof fn lemma_prompts_are_filtered(lines: Seq<Seq<char>>)
    ensures
        suggest::prompts_in(lines) == lines.map_values(
            |line: Seq<char>| suggest::undecorated(line),
        ).filter(fits()),
    decreases lines.len(),
{
    let undecorate = |line: Seq<char>| suggest::undecorated(line);
    let mapped = lines.map_values(undecorate);
    reveal(Seq::filter);
    if lines.len() == 0 {
        assert(mapped.filter(fits()) =~= Seq::<Seq<char>>::empty());
    } else {
        lemma_prompts_are_filtered(lines.drop_last());
        assert(mapped.drop_last() =~= lines.drop_last().map_values(undecorate));
        assert(mapped.last() == suggest::undecorated(lines.last()));
    }
}

/// One more line at the end is offered exactly when it fits and fewer than three are
/// offered already, and takes none of those away.
pub proof fn law_one_more_line(texts: Seq<Seq<char>>, line: Seq<char>)
    requires
        !line.contains('\n'),
    ensures
        ({
            let before = suggest::suggested(texts);
            let after = suggest::suggested(texts.push(line));
            let prompt = suggest::undecorated(line);
            &&& 0 < prompt.len() <= 90 && before.len() < 3 ==> after == before.push(prompt)
            &&& !(0 < prompt.len() <= 90 && before.len() < 3) ==> after == before
        }),
{
    text_laws::law_no_separator_one_piece(line, '\n');
    let lines = suggest::lines_of(texts);
    assert(texts.push(line).drop_last() =~= texts);
    let more = suggest::lines_of(texts.push(line));
    assert(more =~= lines.push(line));
    assert(more.drop_last() =~= lines);
    let found = suggest::prompts_in(lines);
    let prompt = suggest::undecorated(line);
    if 0 < prompt.len() <= 90 {
        assert(suggest::prompts_in(more) == found.push(prompt));
        if found.len() >= 3 {
            assert(found.push(prompt).take(3) =~= suggest::suggested(texts));
        } else {
            assert(suggest::suggested(texts) == found);
        }
    }
}

/// The lines of several texts are the lines of each, one text after the other.
pub proof fn law_lines_of_texts_in_turn(first: Seq<Seq<char>>, second: Seq<Seq<char>>)
    ensures
        suggest::lines_of(first + second) == suggest::lines_of(first) + suggest::lines_of(second),
    decreases second.len(),
{
    if second.len() == 0 {
        assert(first + second =~= first);
        assert(suggest::lines_of(first) + suggest::lines_of(second) =~= suggest::lines_of(first));
    } else {
        law_lines_of_texts_in_turn(first, second.drop_last());
        assert((first + second).drop_last() =~= first + second.drop_last());
        assert(suggest::lines_of(first + second) =~= suggest::lines_of(first) + suggest::lines_of(
            second,
        ));
    }
}

/// The lines of one text give it back when they are joined by line breaks, and none of
/// them holds a line break.
pub proof fn law_lines_make_up_the_text(s: Seq<char>)
    ensures
        text::joined(suggest::lines_of(seq![s]), seq!['\n']) == s,
        forall|i: int|
            0 <= i < suggest::lines_of(seq![s]).len() ==> !(#[trigger] suggest::lines_of(
                seq![s],
            )[i]).contains('\n'),
{
    reveal_with_fuel(suggest::lines_of, 2);
    assert(seq![s].drop_last() =~= Seq::<Seq<char>>::empty());
    assert(suggest::lines_of(seq![s]) =~= text::split(s, '\n'));
    text::lemma_split_joins(s, '\n');
}

/// A line is stripped of a run of bullets, a number with its mark, quotes at both
/// ends and white space around all of these, and of nothing else.
pub proof fn law_decoration_goes(
    indent: Seq<char>,
    bullets: Seq<char>,
    digits: Seq<char>,
    marks: Seq<char>,
    gap: Seq<char>,
    open: Seq<char>,
    prompt: Seq<char>,
    close: Seq<char>,
    ending: Seq<char>,
)
    requires
        forall|i: int| 0 <= i < indent.len() ==> text::white_space(#[trigger] indent[i]),
        forall|i: int| 0 <= i < bullets.len() ==> is_bullet(#[trigger] bullets[i]),
        forall|i: int| 0 <= i < digits.len() ==> '0' <= #[trigger] digits[i] <= '9',
        forall|i: int| 0 <= i < marks.len() ==> #[trigger] marks[i] == '.' || marks[i] == ')',
        forall|i: int| 0 <= i < gap.len() ==> text::white_space(#[trigger] gap[i]),
        forall|i: int| 0 <= i < open.len() ==> #[trigger] open[i] == '"',
        forall|i: int| 0 <= i < close.len() ==> #[trigger] close[i] == '"',
        forall|i: int| 0 <= i < ending.len() ==> text::white_space(#[trigger] ending[i]),
        prompt.len() > 0,
        open.len() == 0 ==> !text::white_space(prompt[0]),
        close.len() == 0 ==> !text::white_space(prompt.last()),
        prompt[0] != '"' && prompt.last() != '"',
        open.len() == 0 && gap.len() == 0 ==> {
            &&& prompt[0] != '.' && prompt[0] != ')'
            &&& marks.len() == 0 ==> !('0' <= prompt[0] <= '9')
            &&& marks.len() == 0 && digits.len() == 0 ==> !is_bullet(prompt[0])
        },
        bullets.len() + digits.len() + marks.len() == 0 ==> gap.len() == 0,
    ensures
        suggest::undecorated(
            indent + (bullets + (digits + (marks + (gap + (open + prompt + close))))) + ending,
        ) == text::trimmed(prompt),
{
    let quoted = open + prompt + close;
    lemma_quotes_go(open, prompt, close);
    lemma_gap_goes(gap, quoted);
    lemma_ends(gap, quoted);
    lemma_number_goes(bullets, digits, marks, gap + quoted);
    lemma_bare_start(bullets, digits, marks, gap, quoted);
    text_laws::law_white_space_around_goes(
        indent,
        bullets + (digits + (marks + (gap + quoted))),
        ending,
    );
}

/// Nothing is left of a line of quotes behind a bullet or a number, nor of one that holds
/// nothing else.
pub proof fn law_bare_decoration_leaves_nothing(
    indent: Seq<char>,
    bullets: Seq<char>,
    digits: Seq<char>,
    marks: Seq<char>,
    gap: Seq<char>,
    quotes: Seq<char>,
    ending: Seq<char>,
)
    requires
        forall|i: int| 0 <= i < indent.len() ==> text::white_space(#[trigger] indent[i]),
        forall|i: int| 0 <= i < bullets.len() ==> is_bullet(#[trigger] bullets[i]),
        forall|i: int| 0 <= i < digits.len() ==> '0' <= #[trigger] digits[i] <= '9',
        forall|i: int| 0 <= i < marks.len() ==> #[trigger] marks[i] == '.' || marks[i] == ')',
        forall|i: int| 0 <= i < gap.len() ==> text::white_space(#[trigger] gap[i]),
        forall|i: int| 0 <= i < quotes.len() ==> #[trigger] quotes[i] == '"',
        forall|i: int| 0 <= i < ending.len() ==> text::white_space(#[trigger] ending[i]),
        bullets.len() + digits.len() + marks.len() == 0 || quotes.len() == 0 ==> gap.len() == 0,
    ensures
        suggest::undecorated(
            indent + (bullets + (digits + (marks + (gap + quotes)))) + ending,
        ).len() == 0,
{
    let spaced = gap + quotes;
    let marked = marks + spaced;
    let numbered = digits + marked;
    let whole = bullets + numbered;
    assert(whole.len() > 0 ==> !text::white_space(whole[0]) && !text::white_space(whole.last()))
        by {
        if quotes.len() > 0 {
            lemma_bare_start(bullets, digits, marks, gap, quotes);
        } else {
            assert(spaced =~= Seq::<char>::empty());
            assert(marked =~= marks);
            if marks.len() > 0 {
                assert(whole.last() == marks.last());
            } else {
                assert(numbered =~= digits);
                if digits.len() > 0 {
                    assert(whole.last() == digits.last());
                } else {
                    assert(whole =~= bullets);
                }
            }
            if bullets.len() > 0 {
                assert(whole[0] == bullets[0]);
            } else {
                assert(whole =~= numbered);
                if digits.len() > 0 {
                    assert(whole[0] == digits[0]);
                } else {
                    assert(whole =~= marks);
                }
            }
        }
    }
    if whole.len() > 0 {
        text_laws::law_white_space_around_goes(indent, whole, ending);
    } else {
        assert(indent + whole + ending =~= indent + ending);
        assert forall|i: int| 0 <= i < (indent + ending).len() implies text::white_space(
            #[trigger] (indent + ending)[i],
        ) by {
            if i >= indent.len() {
                assert((indent + ending)[i] == ending[i - indent.len()]);
            } else {
                assert((indent + ending)[i] == indent[i]);
            }
        }
        text_laws::law_blank_text_vanishes(indent + ending);
        assert(text::trimmed(indent + whole + ending) =~= whole);
    }
    if spaced.len() > 0 {
        assert(quotes.len() > 0);
        lemma_ends(gap, quotes);
        lemma_number_goes(bullets, digits, marks, spaced);
        lemma_gap_goes(gap, quotes);
    } else {
        text_laws::law_a_run_in_front_goes(marks, spaced, CharClass::NumberMark);
        assert(marked.len() > 0 ==> marked[0] == marks[0]);
        text_laws::law_a_run_in_front_goes(digits, marked, CharClass::Digit);
        assert(numbered.len() > 0 ==> numbered[0] == if digits.len() > 0 {
            digits[0]
        } else {
            marks[0]
        });
        text_laws::law_a_run_in_front_goes(bullets, numbered, CharClass::Bullet);
        text_laws::law_blank_text_vanishes(spaced);
        assert(text::trimmed(spaced) =~= quotes);
    }
    text_laws::law_a_run_in_front_goes(quotes, Seq::empty(), CharClass::DoubleQuote);
    assert(quotes + Seq::<char>::empty() =~= quotes);
    text_laws::law_a_run_behind_goes(Seq::empty(), Seq::empty(), CharClass::DoubleQuote);
    assert(Seq::<char>::empty() + Seq::<char>::empty() =~= Seq::<char>::empty());
    text_laws::law_blank_text_vanishes(Seq::empty());
}

/// A gap before something goes.
proof fn lemma_gap_goes(gap: Seq<char>, rest: Seq<char>)
    requires
        forall|i: int| 0 <= i < gap.len() ==> text::white_space(#[trigger] gap[i]),
        rest.len() > 0,
        !text::white_space(rest[0]),
        !text::white_space(rest.last()),
    ensures
        text::trimmed(gap + rest) == rest,
{
    text_laws::law_white_space_around_goes(gap, rest, Seq::empty());
    assert(gap + rest + Seq::<char>::empty() =~= gap + rest);
}

/// Bullets, digits and marks in front of something else go.
proof fn lemma_number_goes(
    bullets: Seq<char>,
    digits: Seq<char>,
    marks: Seq<char>,
    rest: Seq<char>,
)
    requires
        forall|i: int| 0 <= i < bullets.len() ==> is_bullet(#[trigger] bullets[i]),
        forall|i: int| 0 <= i < digits.len() ==> '0' <= #[trigger] digits[i] <= '9',
        forall|i: int| 0 <= i < marks.len() ==> #[trigger] marks[i] == '.' || marks[i] == ')',
        rest.len() > 0,
        rest[0] != '.' && rest[0] != ')',
        marks.len() == 0 ==> !('0' <= rest[0] <= '9'),
        marks.len() == 0 && digits.len() == 0 ==> !is_bullet(rest[0]),
    ensures
        ({
            let unbulleted = text::without_leading(
                bullets + (digits + (marks + rest)),
                CharClass::Bullet,
            );
            let unnumbered = text::without_leading(unbulleted, CharClass::Digit);
            text::without_leading(unnumbered, CharClass::NumberMark) == rest
        }),
{
    let marked = marks + rest;
    let numbered = digits + marked;
    lemma_ends(marks, rest);
    lemma_ends(digits, marked);
    text_laws::law_a_run_in_front_goes(bullets, numbered, CharClass::Bullet);
    text_laws::law_a_run_in_front_goes(digits, marked, CharClass::Digit);
    text_laws::law_a_run_in_front_goes(marks, rest, CharClass::NumberMark);
}

/// A line without its indent begins with something to see, and ends as it did.
proof fn lemma_bare_start(
    bullets: Seq<char>,
    digits: Seq<char>,
    marks: Seq<char>,
    gap: Seq<char>,
    rest: Seq<char>,
)
    requires
        forall|i: int| 0 <= i < bullets.len() ==> is_bullet(#[trigger] bullets[i]),
        forall|i: int| 0 <= i < digits.len() ==> '0' <= #[trigger] digits[i] <= '9',
        forall|i: int| 0 <= i < marks.len() ==> #[trigger] marks[i] == '.' || marks[i] == ')',
        bullets.len() + digits.len() + marks.len() == 0 ==> gap.len() == 0,
        rest.len() > 0,
        !text::white_space(rest[0]),
    ensures
        ({
            let line = bullets + (digits + (marks + (gap + rest)));
            line.len() > 0 && !text::white_space(line[0]) && line.last() == rest.last()
        }),
{
    lemma_ends(gap, rest);
    lemma_ends(marks, gap + rest);
    lemma_ends(digits, marks + (gap + rest));
    lemma_ends(bullets, digits + (marks + (gap + rest)));
}

/// One of the characters that lists are bulleted with.
pub open spec fn is_bullet(c: char) -> bool {
    c == '-' || c == '*' || c == '•'
}

/// The first and the last character of two texts one after the other.
proof fn lemma_ends(a: Seq<char>, b: Seq<char>)
    requires
        b.len() > 0,
    ensures
        (a + b).len() > 0,
        (a + b)[0] == if a.len() > 0 { a[0] } else { b[0] },
        (a + b).last() == b.last(),
{
}

/// Quotes at both ends go.
proof fn lemma_quotes_go(open: Seq<char>, prompt: Seq<char>, close: Seq<char>)
    requires
        forall|i: int| 0 <= i < open.len() ==> #[trigger] open[i] == '"',
        forall|i: int| 0 <= i < close.len() ==> #[trigger] close[i] == '"',
        prompt.len() > 0,
        prompt[0] != '"' && prompt.last() != '"',
    ensures
        ({
            let quoted = open + prompt + close;
            &&& quoted.len() > 0
            &&& quoted[0] == if open.len() > 0 { '"' } else { prompt[0] }
            &&& quoted.last() == if close.len() > 0 { '"' } else { prompt.last() }
            &&& text::without_trailing(
                text::without_leading(quoted, CharClass::DoubleQuote),
                CharClass::DoubleQuote,
            ) == prompt
        }),
{
    let quoted = open + prompt + close;
    assert(open + prompt + close =~= open + (prompt + close));
    if open.len() > 0 {
        assert(quoted[0] == open[0]);
    }
    if close.len() > 0 {
        assert(quoted.last() == close.last());
    }
    text_laws::law_a_run_in_front_goes(open, prompt + close, CharClass::DoubleQuote);
    text_laws::law_a_run_behind_goes(prompt, close, CharClass::DoubleQuote);
}

/// Prompts for the run that is on are offered in place of those before, shown and no
/// longer waited for; nothing else changes.
pub proof fn law_prompts_for_this_run_are_offered(s: AppState, answer: Suggestions)
    requires
        s.suggest_rx is Some,
        answer.run_id == s.run_id,
        answer.prompts@.len() > 0,
    ensures
        s.offered(Some(answer)) == (AppState {
            suggest_rx: None,
            suggestions: text::views(answer.prompts@),
            suggestions_hidden: false,
            ..s
        }),
        s.offered(Some(answer)).shown_suggestions() == text::views(answer.prompts@),
{
}

/// An answer without prompts, or for another run, only ends the wait; while there is
/// no answer, or none is waited for, nothing changes.
pub proof fn law_other_answers_offer_nothing(s: AppState, answer: Suggestions)
    ensures
        s.offered(None) == s,
        s.suggest_rx is None ==> s.offered(Some(answer)) == s,
        s.suggest_rx is Some && (answer.run_id != s.run_id || answer.prompts@.len() == 0)
            ==> s.offered(Some(answer)) == (AppState { suggest_rx: None, ..s }),
{
}

/// Suggestions are shown exactly while they are not hidden.
pub proof fn law_suggestions_show_unless_hidden(s: AppState)
    ensures
        !s.suggestions_hidden ==> s.shown_suggestions() == s.suggestions,
        s.suggestions_hidden ==> s.shown_suggestions().len() == 0,
{
}

/// A message says the texts of its blocks in their order; other blocks say nothing.
pub proof fn law_texts_of_blocks_in_turn(
    first: Seq<ContentBlock>,
    second: Seq<ContentBlock>,
    text: String,
    raw: String,
)
    ensures
        message::texts_of(first + second) == message::texts_of(first) + message::texts_of(second),
        message::texts_of(seq![ContentBlock::Text { text }]) == seq![text@],
        message::texts_of(seq![ContentBlock::Other { raw }]).len() == 0,
    decreases second.len(),
{
    reveal_with_fuel(message::texts_of, 2);
    let one = seq![ContentBlock::Text { text }];
    let other = seq![ContentBlock::Other { raw }];
    assert(one.drop_last() =~= Seq::<ContentBlock>::empty());
    assert(other.drop_last() =~= Seq::<ContentBlock>::empty());
    assert(message::texts_of(one) =~= seq![text@]);
    if second.len() == 0 {
        assert(first + second =~= first);
        assert(message::texts_of(first) + message::texts_of(second) =~= message::texts_of(first));
    } else {
        law_texts_of_blocks_in_turn(first, second.drop_last(), text, raw);
        assert((first + second).drop_last() =~= first + second.drop_last());
        assert(message::texts_of(first + second) =~= message::texts_of(first)
            + message::texts_of(second));
    }
}

}
