//! What each key does in the prompt editor, and what each answer.

use super::prompt_editor::{EditorAction, EditorState, Focus};
use crate::key::{KeyCode, KeyEvent};
use crate::text;
use crate::text_buffer::{EditResult, TextState};
use vstd::prelude::*;

verus! {

/// Enter in the instruction box asks for a rewrite whenever there is a draft, something
/// to do to it and no rewrite on its way: however many versions there are, and whatever
/// went wrong before. What is asked about is the draft as it stands.
pub proof fn law_enter_asks_for_a_rewrite(s: EditorState, key: KeyEvent)
    requires
        s.focus == Focus::Instruction,
        key.code == KeyCode::Enter,
        !key.modifiers.shift && !key.modifiers.control && !key.modifiers.alt,
        !text::blank(s.instruction.text()),
        !text::blank(s.draft.text()),
        !s.pending,
    ensures
        s.pressed(key).1 == (EditorAction::Rewrite {
            draft: s.draft.text(),
            instruction: text::trimmed(s.instruction.text()),
        }),
        s.pressed(key).0 == (EditorState { pending: true, error: None, ..s }),
{
}

/// While a rewrite is on its way, or without a draft to rewrite, an instruction stays
/// where it is.
pub proof fn law_enter_waits_for_the_rewrite(s: EditorState, key: KeyEvent)
    requires
        s.focus == Focus::Instruction,
        key.code == KeyCode::Enter,
        !key.modifiers.shift && !key.modifiers.control && !key.modifiers.alt,
        !text::blank(s.instruction.text()),
        s.pending || text::blank(s.draft.text()),
    ensures
        s.pressed(key) == (s, EditorAction::Consumed),
{
}

/// `ctrl+s` in either pane, and enter in an empty instruction box, hand over a draft
/// that says something; with a draft that does not, they do nothing.
pub proof fn law_accepting_hands_over_the_draft(s: EditorState, key: KeyEvent)
    requires
        ({
            ||| key.code == KeyCode::Char('s') && key.modifiers.control
            ||| s.focus == Focus::Instruction && key.code == KeyCode::Enter && !key.modifiers.shift
                && !key.modifiers.control && !key.modifiers.alt && text::blank(
                s.instruction.text(),
            )
        }),
    ensures
        text::blank(s.draft.text()) ==> s.pressed(key) == (s, EditorAction::Consumed),
        !text::blank(s.draft.text()) ==> {
            &&& s.pressed(key).1 == EditorAction::Accept(s.draft.text())
            &&& s.pressed(key).0 == (EditorState {
                open: false,
                instruction: TextState { lines: seq![Seq::empty()], x: 0, y: 0 },
                history: Seq::empty(),
                pending: false,
                error: None,
                ..s
            })
        },
{
}

/// `esc` closes the editor from either pane, with whatever keys are held down: nothing
/// of the session is left but the draft, which goes nowhere.
pub proof fn law_esc_discards(s: EditorState, key: KeyEvent)
    requires
        key.code == KeyCode::Esc,
    ensures
        s.pressed(key).1 == EditorAction::Close,
        s.pressed(key).0 == (EditorState {
            open: false,
            instruction: TextState { lines: seq![Seq::empty()], x: 0, y: 0 },
            history: Seq::empty(),
            pending: false,
            error: None,
            ..s
        }),
{
}

/// `ctrl+u` in either pane puts the last version back, at its end and scrolled to its
/// top, and takes it off the versions; without versions it does nothing.
pub proof fn law_undo_takes_the_last_version(s: EditorState, key: KeyEvent)
    requires
        key.code == KeyCode::Char('u'),
        key.modifiers.control,
    ensures
        s.pressed(key).1 == EditorAction::Consumed,
        s.history.len() == 0 ==> s.pressed(key).0 == s,
        s.history.len() > 0 ==> {
            let t = s.pressed(key).0;
            &&& t.draft.text() == s.history.last()
            &&& t.draft == t.draft.at_end()
            &&& t.history == s.history.drop_last()
            &&& t == (EditorState { draft: t.draft, history: t.history, error: None, scroll: 0, ..s })
        },
{
    if s.history.len() > 0 {
        text::lemma_split_joins(s.history.last(), '\n');
    }
}

/// A rewrite becomes the draft, with the cursor at its end, and the draft it replaced
/// the last version unless it is the same; the box is empty for the next instruction.
pub proof fn law_a_rewrite_becomes_the_draft(s: EditorState, rewrite: Seq<char>)
    ensures
        ({
            let t = s.versioned(rewrite);
            &&& t.draft.text() == rewrite
            &&& t.draft == t.draft.at_end()
            &&& s.draft.text() != rewrite ==> t.history == s.history.push(s.draft.text())
            &&& s.draft.text() == rewrite ==> t.history == s.history
            &&& t.instruction.text().len() == 0
            &&& t.focus == Focus::Instruction
            &&& !t.pending
            &&& t.error is None
            &&& t.scroll == 0
            &&& t.open == s.open
        }),
{
    text::lemma_split_joins(rewrite, '\n');
}

/// A rewrite that failed is no longer waited for and leaves its reason, and nothing
/// else.
pub proof fn law_a_failure_leaves_its_reason(s: EditorState, reason: Seq<char>)
    ensures
        s.failed(reason) == (EditorState { pending: false, error: Some(reason), ..s }),
{
}

/// An editor opens on the draft that it is given, at its end, with the focus on an
/// empty instruction box and nothing else in it; one that was never opened holds nothing.
pub proof fn law_an_editor_opens_on_the_draft(draft: Seq<char>)
    ensures
        ({
            let s = EditorState::opened(draft);
            &&& s.open
            &&& s.draft.text() == draft
            &&& s.draft == s.draft.at_end()
            &&& s.instruction.text().len() == 0
            &&& s.focus == Focus::Instruction
            &&& s.history.len() == 0
            &&& !s.pending
            &&& s.error is None
            &&& s.scroll == 0
        }),
        EditorState::fresh() == (EditorState {
            open: false,
            draft: TextState { x: 0, y: 0, ..EditorState::opened(Seq::empty()).draft },
            instruction: TextState { x: 0, y: 0, ..EditorState::opened(Seq::empty()).draft },
            ..EditorState::opened(draft)
        }),
{
    text::lemma_split_joins(draft, '\n');
}

/// `tab` and `shift+tab` lead to the other pane and change nothing else.
pub proof fn law_tab_leads_to_the_other_pane(s: EditorState, key: KeyEvent)
    requires
        key.code == KeyCode::Tab || key.code == KeyCode::BackTab,
    ensures
        s.pressed(key).1 == EditorAction::Consumed,
        s.focus == Focus::Draft ==> s.pressed(key).0 == (EditorState {
            focus: Focus::Instruction,
            ..s
        }),
        s.focus == Focus::Instruction ==> s.pressed(key).0 == (EditorState {
            focus: Focus::Draft,
            ..s
        }),
{
}

/// Enter in the draft breaks its line, whatever is held down with it.
pub proof fn law_enter_breaks_the_draft(s: EditorState, key: KeyEvent)
    requires
        s.focus == Focus::Draft,
        key.code == KeyCode::Enter,
    ensures
        s.pressed(key) == (
            EditorState { draft: s.draft.broken(), ..s },
            EditorAction::Consumed,
        ),
{
}

/// Every other key edits the text in the pane that has the focus and nothing else; in
/// the draft, one that does something takes down the error.
pub proof fn law_other_keys_edit_their_pane(s: EditorState, key: KeyEvent)
    requires
        key.code != KeyCode::Esc,
        key.code != KeyCode::Tab,
        key.code != KeyCode::BackTab,
        key.code != KeyCode::Enter,
        key.modifiers.control ==> key.code != KeyCode::Char('s') && key.code != KeyCode::Char('u'),
    ensures
        s.focus == Focus::Instruction ==> s.pressed(key) == (
            EditorState { instruction: s.instruction.edited(key).0, ..s },
            EditorAction::Consumed,
        ),
        s.focus == Focus::Draft ==> {
            let (draft, did) = s.draft.edited(key);
            &&& s.pressed(key).1 == EditorAction::Consumed
            &&& did == EditResult::Ignored ==> s.pressed(key).0 == (EditorState { draft, ..s })
            &&& did != EditResult::Ignored ==> s.pressed(key).0 == (EditorState {
                draft,
                error: None,
                ..s
            })
        },
{
}

/// Enter together with another key breaks the line of the instruction.
pub proof fn law_instructions_can_have_lines(s: EditorState, key: KeyEvent)
    requires
        s.focus == Focus::Instruction,
        key.code == KeyCode::Enter,
        key.modifiers.shift || key.modifiers.control || key.modifiers.alt,
    ensures
        s.pressed(key) == (
            EditorState { instruction: s.instruction.broken(), ..s },
            EditorAction::Consumed,
        ),
{
}

}
