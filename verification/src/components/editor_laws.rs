//! What holds of a prompt editor whatever is done with it.

use super::prompt_editor::{EditorAction, EditorState, Focus};
use crate::key::{KeyCode, KeyEvent};
use crate::text;
use crate::text_buffer::TextState;
use vstd::prelude::*;

verus! {

/// The editor after rewrites came back one after the other.
pub open spec fn after_versions(s: EditorState, rewrites: Seq<Seq<char>>) -> EditorState
    decreases rewrites.len(),
{
    if rewrites.len() == 0 {
        s
    } else {
        after_versions(s, rewrites.drop_last()).versioned(rewrites.last())
    }
}

/// The editor after `n` undos.
pub open spec fn after_undos(s: EditorState, n: nat) -> EditorState
    decreases n,
{
    if n == 0 {
        s
    } else {
        after_undos(s, (n - 1) as nat).undone()
    }
}

proof fn lemma_held_text(s: Seq<char>)
    ensures
        TextState::holding(s).text() == s,
        TextState::holding(s).at_end().text() == s,
{
    text::lemma_split_joins(s, '\n');
}

proof fn lemma_after_undos(s: EditorState, n: nat)
    requires
        n <= s.history.len(),
    ensures
        after_undos(s, n).history == s.history.take(s.history.len() - n),
        n == 0 ==> after_undos(s, n) == s,
        n > 0 ==> after_undos(s, n).draft.text() == s.history[s.history.len() - n],
    decreases n,
{
    if n == 0 {
        assert(s.history.take(s.history.len() as int) =~= s.history);
    } else {
        let before = after_undos(s, (n - 1) as nat);
        lemma_after_undos(s, (n - 1) as nat);
        lemma_held_text(before.history.last());
        assert(before.history.drop_last() =~= s.history.take(s.history.len() - n));
    }
}

proof fn lemma_after_versions(s: EditorState, rewrites: Seq<Seq<char>>)
    ensures
        ({
            let t = after_versions(s, rewrites);
            &&& s.history.len() <= t.history.len()
            &&& t.history.take(s.history.len() as int) == s.history
            &&& t.history.len() == s.history.len() ==> t.draft.text() == s.draft.text()
            &&& t.history.len() > s.history.len() ==> t.history[s.history.len() as int]
                == s.draft.text()
            &&& t.history.len() - s.history.len() <= rewrites.len()
        }),
    decreases rewrites.len(),
{
    if rewrites.len() == 0 {
        assert(s.history.take(s.history.len() as int) =~= s.history);
    } else {
        let before = after_versions(s, rewrites.drop_last());
        let t = after_versions(s, rewrites);
        lemma_after_versions(s, rewrites.drop_last());
        lemma_held_text(rewrites.last());
        assert(t.history.take(s.history.len() as int) =~= before.history.take(
            s.history.len() as int,
        ));
    }
}

/// However many rewrites came back, undoing as many times as there are new
/// versions brings back the draft and the versions from before them.
pub proof fn law_undo_walks_back_out_of_rewrites(s: EditorState, rewrites: Seq<Seq<char>>)
    ensures
        ({
            let t = after_versions(s, rewrites);
            let u = after_undos(t, (t.history.len() - s.history.len()) as nat);
            &&& u.draft.text() == s.draft.text()
            &&& u.history == s.history
        }),
{
    let t = after_versions(s, rewrites);
    lemma_after_versions(s, rewrites);
    lemma_after_undos(t, (t.history.len() - s.history.len()) as nat);
}

proof fn lemma_versions_pile_up(drafts: Seq<Seq<char>>)
    requires
        drafts.len() > 0,
        forall|i: int| 0 < i < drafts.len() ==> #[trigger] drafts[i] != drafts[i - 1],
    ensures
        ({
            let t = after_versions(EditorState::opened(drafts[0]), drafts.skip(1));
            t.draft.text() == drafts.last() && t.history == drafts.drop_last()
        }),
    decreases drafts.len(),
{
    if drafts.len() == 1 {
        lemma_held_text(drafts[0]);
        assert(drafts.skip(1) =~= Seq::empty());
        assert(drafts.drop_last() =~= Seq::empty());
    } else {
        let before = drafts.drop_last();
        lemma_versions_pile_up(before);
        lemma_held_text(drafts.last());
        assert(drafts.skip(1).drop_last() =~= before.skip(1));
        assert(drafts.skip(1).last() == drafts.last());
        assert(drafts[drafts.len() - 1] != drafts[drafts.len() - 2]);
        assert(before.last() == drafts[drafts.len() - 2]);
        assert(before.drop_last().push(before.last()) =~= before);
    }
}

proof fn lemma_undo_runs_out(s: EditorState, n: nat)
    requires
        n >= s.history.len(),
    ensures
        after_undos(s, n) == after_undos(s, s.history.len()),
    decreases n,
{
    lemma_after_undos(s, s.history.len());
    if n > s.history.len() {
        lemma_undo_runs_out(s, (n - 1) as nat);
    }
}

proof fn lemma_undo_touches_only_the_draft(s: EditorState, n: nat)
    ensures
        after_undos(s, n).instruction == s.instruction,
        after_undos(s, n).pending == s.pending,
        after_undos(s, n).open == s.open,
    decreases n,
{
    if n > 0 {
        lemma_undo_touches_only_the_draft(s, (n - 1) as nat);
    }
}

/// An editor opened on a draft and given one rewrite after the other, each unlike the
/// one before, walks back through all of them: after so many undos the draft is the
/// one from so many rewrites ago, and no undo goes back further than the draft that it
/// was opened on. Undoing leaves alone the instruction, whether a rewrite is pending and
/// whether the editor is open.
pub proof fn law_undo_walks_through_the_drafts(drafts: Seq<Seq<char>>, undos: nat)
    requires
        drafts.len() > 0,
        forall|i: int| 0 < i < drafts.len() ==> #[trigger] drafts[i] != drafts[i - 1],
    ensures
        ({
            let t = after_versions(EditorState::opened(drafts[0]), drafts.skip(1));
            let u = after_undos(t, undos);
            let left = if undos < drafts.len() {
                drafts.len() - 1 - undos
            } else {
                0
            };
            &&& u.draft.text() == drafts[left]
            &&& u.history.len() == left
            &&& u.instruction == t.instruction
            &&& u.pending == t.pending
            &&& u.open == t.open
        }),
{
    let t = after_versions(EditorState::opened(drafts[0]), drafts.skip(1));
    lemma_versions_pile_up(drafts);
    lemma_undo_touches_only_the_draft(t, undos);
    if undos < drafts.len() {
        lemma_after_undos(t, undos);
    } else {
        lemma_undo_runs_out(t, undos);
        lemma_after_undos(t, t.history.len());
    }
}

/// `ctrl+u` undoes a rewrite that changed something: the draft it replaced is
/// back, and so are the versions.
pub proof fn law_undo_reverts_a_version(s: EditorState, rewrite: Seq<char>, key: KeyEvent)
    requires
        s.draft.text() != rewrite,
        key.chord('u'),
    ensures
        s.versioned(rewrite).pressed(key).0.draft.text() == s.draft.text(),
        s.versioned(rewrite).pressed(key).0.history == s.history,
        s.versioned(rewrite).pressed(key).1 == EditorAction::Consumed,
{
    lemma_held_text(s.draft.text());
    assert(s.history.push(s.draft.text()).drop_last() =~= s.history);
}

/// No key makes a version: hand edits are not undo steps. Keys only take versions
/// away, `ctrl+u` the last and closing the editor all of them.
pub proof fn law_keys_make_no_versions(s: EditorState, key: KeyEvent)
    ensures
        s.pressed(key).0.history == s.history || (key.chord('u') && s.pressed(key).0.history
            == s.history.drop_last()) || (!s.pressed(key).0.open && s.pressed(key).0.history
            == Seq::<Seq<char>>::empty()),
{
}

/// Text leaves the editor only by being accepted: it is the draft, it is not
/// blank, and the editor is closed with it. Discarding yields no text.
pub proof fn law_only_accepted_drafts_leave(s: EditorState, key: KeyEvent)
    ensures
        match s.pressed(key).1 {
            EditorAction::Accept(draft) => {
                &&& draft == s.draft.text()
                &&& !text::blank(draft)
                &&& !s.pressed(key).0.open
            },
            EditorAction::Close => key.code == KeyCode::Esc && !s.pressed(key).0.open,
            EditorAction::Rewrite { .. } => s.pressed(key).0.open == s.open,
            EditorAction::Consumed => s.pressed(key).0.open == s.open,
        },
{
}

/// A rewrite is asked for only when none is pending, and then one is; what is
/// asked about is the draft, and neither it nor the instruction is blank.
pub proof fn law_one_rewrite_at_a_time(s: EditorState, key: KeyEvent)
    ensures
        s.pressed(key).1 matches EditorAction::Rewrite { draft, instruction } ==> {
            &&& !s.pending
            &&& s.pressed(key).0.pending
            &&& draft == s.draft.text()
            &&& !text::blank(draft)
            &&& instruction == text::trimmed(s.instruction.text())
            &&& instruction.len() > 0
        },
{
    text::lemma_trimmed(s.instruction.text());
}

/// A rewrite that failed can be asked for again with the same key: the draft, the
/// instruction and the versions are as they were, and the question is the same.
pub proof fn law_failed_rewrite_can_be_retried(s: EditorState, key: KeyEvent, message: Seq<char>)
    requires
        s.pressed(key).1 is Rewrite,
    ensures
        ({
            let failed = s.pressed(key).0.failed(message);
            &&& failed.draft == s.draft
            &&& failed.instruction == s.instruction
            &&& failed.history == s.history
            &&& failed.error == Some(message)
            &&& failed.pressed(key) == (EditorState { error: None, pending: true, ..failed },
                s.pressed(key).1)
        }),
{
}

/// `tab` leads to the other pane and back.
pub proof fn law_tab_toggles(s: EditorState, key: KeyEvent)
    requires
        key.code == KeyCode::Tab || key.code == KeyCode::BackTab,
    ensures
        s.pressed(key).0.focus != s.focus,
        s.pressed(key).0.pressed(key).0 == s,
{
}

/// Typing goes into the pane that has the focus and leaves the other alone.
pub proof fn law_typing_stays_in_its_pane(s: EditorState, key: KeyEvent)
    requires
        key.types() is Some,
    ensures
        s.focus == Focus::Instruction ==> s.pressed(key).0 == (EditorState {
            instruction: s.instruction.with_char(key.types()->0),
            ..s
        }),
        s.focus == Focus::Draft ==> s.pressed(key).0 == (EditorState {
            draft: s.draft.with_char(key.types()->0),
            error: None,
            ..s
        }),
        s.pressed(key).1 == EditorAction::Consumed,
{
}

}
