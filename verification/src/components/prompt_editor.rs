//! An editor for a prompt before it is sent.
//!
//! Two ways to change the draft, because they fail in different places. Typing is
//! exact but slow, and asking a model to reword is fast but approximate. So the
//! draft pane and the instruction box are both live and `tab` moves between them.
//!
//! Every rewrite becomes a new version rather than overwriting the last: `ctrl+u`
//! walks back out of a reword that made things worse. Nothing leaves the editor
//! until the draft is accepted.

use super::hints;
use super::wrap;
use crate::key::{is_newline_key, KeyCode, KeyEvent};
use crate::styled;
use crate::styled::{Line, Tone};
use crate::text;
use crate::text_buffer::{EditResult, TextBuffer, TextState};
use vstd::prelude::*;

verus! {

/// How much of the screen the editor is wide.
pub const WIDTH_PERCENT: u16 = 70;

/// Rows of draft kept on screen before it scrolls to follow the cursor.
pub const MAX_DRAFT_ROWS: usize = 12;

/// What a key asked for.
#[derive(Debug)]
pub enum PromptEditorAction {
    Consumed,
    /// Ask for `draft` to be redrafted following `instruction`.
    Rewrite { draft: String, instruction: String },
    /// Put this text in the input box; the editor has closed.
    Accept(String),
    Close,
}

/// Which pane takes the keys.
#[derive(Clone, Copy, PartialEq, Eq, Debug, Structural)]
pub enum Focus {
    Draft,
    Instruction,
}

/// What an action is.
pub enum EditorAction {
    Consumed,
    Rewrite { draft: Seq<char>, instruction: Seq<char> },
    Accept(Seq<char>),
    Close,
}

impl View for PromptEditorAction {
    type V = EditorAction;

    open spec fn view(&self) -> EditorAction {
        match self {
            PromptEditorAction::Consumed => EditorAction::Consumed,
            PromptEditorAction::Rewrite { draft, instruction } => EditorAction::Rewrite {
                draft: draft@,
                instruction: instruction@,
            },
            PromptEditorAction::Accept(draft) => EditorAction::Accept(draft@),
            PromptEditorAction::Close => EditorAction::Close,
        }
    }
}

/// What an editor is in the middle of.
pub struct EditorState {
    pub open: bool,
    pub draft: TextState,
    pub instruction: TextState,
    pub focus: Focus,
    /// Older drafts, oldest first.
    pub history: Seq<Seq<char>>,
    /// A rewrite was asked for and has not come back.
    pub pending: bool,
    pub error: Option<Seq<char>>,
    /// Rows of draft scrolled off the top.
    pub scroll: int,
}

impl EditorState {
    pub open spec fn valid(self) -> bool {
        self.draft.valid() && self.instruction.valid()
    }

    /// An editor that was never opened.
    pub open spec fn fresh() -> EditorState {
        EditorState {
            open: false,
            draft: TextState::holding(Seq::empty()),
            instruction: TextState::holding(Seq::empty()),
            focus: Focus::Instruction,
            history: Seq::empty(),
            pending: false,
            error: None,
            scroll: 0,
        }
    }

    /// An editor opened on a draft. Nothing of an earlier session is left.
    pub open spec fn opened(draft: Seq<char>) -> EditorState {
        EditorState {
            open: true,
            draft: TextState::holding(draft).at_end(),
            instruction: TextState::empty(),
            focus: Focus::Instruction,
            history: Seq::empty(),
            pending: false,
            error: None,
            scroll: 0,
        }
    }

    /// The editor put away. The draft stays where it was, out of sight.
    pub open spec fn closed(self) -> EditorState {
        EditorState {
            open: false,
            instruction: TextState::empty(),
            history: Seq::empty(),
            pending: false,
            error: None,
            ..self
        }
    }

    /// A rewrite came back: the old draft becomes a version, unless nothing
    /// changed.
    pub open spec fn versioned(self, rewrite: Seq<char>) -> EditorState {
        EditorState {
            draft: TextState::holding(rewrite).at_end(),
            instruction: TextState::empty(),
            focus: Focus::Instruction,
            history: if self.draft.text() != rewrite {
                self.history.push(self.draft.text())
            } else {
                self.history
            },
            pending: false,
            error: None,
            scroll: 0,
            ..self
        }
    }

    /// A rewrite failed: everything typed survives, so it can be tried again.
    pub open spec fn failed(self, message: Seq<char>) -> EditorState {
        EditorState { pending: false, error: Some(message), ..self }
    }

    /// The last version back in the draft, when there is one.
    pub open spec fn undone(self) -> EditorState {
        if self.history.len() == 0 {
            self
        } else {
            EditorState {
                draft: TextState::holding(self.history.last()).at_end(),
                history: self.history.drop_last(),
                error: None,
                scroll: 0,
                ..self
            }
        }
    }

    /// The draft handed over and the editor closed, unless the draft is blank.
    pub open spec fn accepted(self) -> (EditorState, EditorAction) {
        if text::blank(self.draft.text()) {
            (self, EditorAction::Consumed)
        } else {
            (self.closed(), EditorAction::Accept(self.draft.text()))
        }
    }

    /// What enter does in the instruction box: a blank box means there is nothing
    /// left to ask for, so the draft is done. A blank draft cannot be rewritten,
    /// and only one rewrite is asked for at a time.
    pub open spec fn submitted(self) -> (EditorState, EditorAction) {
        if text::blank(self.instruction.text()) {
            self.accepted()
        } else if text::blank(self.draft.text()) || self.pending {
            (self, EditorAction::Consumed)
        } else {
            (
                EditorState { pending: true, error: None, ..self },
                EditorAction::Rewrite {
                    draft: self.draft.text(),
                    instruction: text::trimmed(self.instruction.text()),
                },
            )
        }
    }

    /// The other pane takes the keys.
    pub open spec fn switched(self) -> EditorState {
        EditorState {
            focus: match self.focus {
                Focus::Draft => Focus::Instruction,
                Focus::Instruction => Focus::Draft,
            },
            ..self
        }
    }

    /// A key that edits the pane that has the focus.
    pub open spec fn typed(self, key: KeyEvent) -> (EditorState, EditorAction) {
        match self.focus {
            Focus::Instruction => if key.code == KeyCode::Enter && !key.breaks_line() {
                self.submitted()
            } else {
                (
                    EditorState { instruction: self.instruction.edited(key).0, ..self },
                    EditorAction::Consumed,
                )
            },
            Focus::Draft => if key.code == KeyCode::Enter {
                (EditorState { draft: self.draft.broken(), ..self }, EditorAction::Consumed)
            } else {
                let (draft, did) = self.draft.edited(key);
                (
                    EditorState {
                        draft,
                        error: if did == EditResult::Ignored {
                            self.error
                        } else {
                            None
                        },
                        ..self
                    },
                    EditorAction::Consumed,
                )
            },
        }
    }

    /// What a key does.
    pub open spec fn pressed(self, key: KeyEvent) -> (EditorState, EditorAction) {
        if key.code == KeyCode::Esc {
            (self.closed(), EditorAction::Close)
        } else if key.chord('s') {
            self.accepted()
        } else if key.chord('u') {
            (self.undone(), EditorAction::Consumed)
        } else if key.code == KeyCode::Tab || key.code == KeyCode::BackTab {
            (self.switched(), EditorAction::Consumed)
        } else {
            self.typed(key)
        }
    }
}

pub struct PromptEditor {
    open: bool,
    draft: TextBuffer,
    instruction: TextBuffer,
    focus: Focus,
    /// Older drafts, oldest first. Only rewrites push here: hand edits are not
    /// undo steps, because a per-keystroke history would bury the versions that
    /// `ctrl+u` exists to reach.
    history: Vec<String>,
    pending: bool,
    error: Option<String>,
    /// Rows of draft scrolled off the top.
    scroll: usize,
}

impl View for PromptEditor {
    type V = EditorState;

    closed spec fn view(&self) -> EditorState {
        EditorState {
            open: self.open,
            draft: self.draft@,
            instruction: self.instruction@,
            focus: self.focus,
            history: text::views(self.history@),
            pending: self.pending,
            error: text::option_view(self.error),
            scroll: self.scroll as int,
        }
    }
}

impl Default for PromptEditor {
    fn default() -> (editor: Self)
        ensures
            editor@ == EditorState::fresh(),
            editor@.valid(),
    {
        PromptEditor::new()
    }
}

impl PromptEditor {
    pub fn new() -> (editor: PromptEditor)
        ensures
            editor@ == EditorState::fresh(),
            editor@.valid(),
    {
        let editor: PromptEditor = PromptEditor {
            open: false,
            draft: TextBuffer::new(String::new()),
            instruction: TextBuffer::new(String::new()),
            focus: Focus::Instruction,
            history: Vec::new(),
            pending: false,
            error: None,
            scroll: 0,
        };
        assert(editor@.history =~= Seq::empty());
        editor
    }

    /// Opens on the instruction box: arriving with a draft in hand, the next thing
    /// to say is usually what is wrong with it, not a hand edit.
    pub fn open(&mut self, draft: &str)
        ensures
            final(self)@ == EditorState::opened(draft@),
            final(self)@.valid(),
            final(self)@.draft.text() == draft@,
    {
        self.open = true;
        self.draft = TextBuffer::new(draft.to_string());
        self.draft.move_to_end();
        self.instruction.clear();
        self.focus = Focus::Instruction;
        self.history.clear();
        self.pending = false;
        self.error = None;
        self.scroll = 0;
        assert(self@.history =~= Seq::empty());
    }

    pub fn is_open(&self) -> (r: bool)
        ensures
            r == self@.open,
    {
        self.open
    }

    /// Whether a rewrite was asked for and has not come back.
    pub fn is_pending(&self) -> (r: bool)
        ensures
            r == self@.pending,
    {
        self.pending
    }

    pub fn draft(&self) -> (r: String)
        ensures
            r@ == self@.draft.text(),
    {
        self.draft.value()
    }

    pub fn instruction(&self) -> (r: String)
        ensures
            r@ == self@.instruction.text(),
    {
        self.instruction.value()
    }

    /// How many versions there are to walk back to.
    pub fn version_count(&self) -> (n: usize)
        ensures
            n == self@.history.len(),
    {
        self.history.len()
    }

    /// A rewrite came back. The old draft becomes a version rather than being
    /// dropped, and focus returns to the instruction box for the next round.
    pub fn apply_version(&mut self, rewrite: &str)
        requires
            old(self)@.valid(),
        ensures
            final(self)@ == old(self)@.versioned(rewrite@),
            final(self)@.valid(),
            final(self)@.draft.text() == rewrite@,
    {
        let ghost was = self@;
        self.pending = false;
        self.error = None;
        let previous: String = self.draft.value();
        let ghost p = previous@;
        if !text::same_text(previous.as_str(), rewrite) {
            self.history.push(previous);
            assert(text::views(self.history@) =~= was.history.push(p));
        }
        self.draft = TextBuffer::new(rewrite.to_string());
        self.draft.move_to_end();
        self.instruction.clear();
        self.focus = Focus::Instruction;
        self.scroll = 0;
    }

    /// Shown in place of the working line. The instruction survives so it can be
    /// retried or edited rather than retyped.
    pub fn fail(&mut self, message: String)
        ensures
            final(self)@ == old(self)@.failed(message@),
    {
        self.pending = false;
        self.error = Some(message);
    }

    /// Puts the last version back in the draft. Without versions nothing changes.
    pub fn undo(&mut self)
        requires
            old(self)@.valid(),
        ensures
            final(self)@ == old(self)@.undone(),
            final(self)@.valid(),
    {
        let ghost was = self@;
        let previous: String = match self.history.pop() {
            Some(previous) => previous,
            None => {
                return;
            },
        };
        assert(text::views(self.history@) =~= was.history.drop_last());
        self.draft = TextBuffer::new(previous);
        self.draft.move_to_end();
        self.error = None;
        self.scroll = 0;
    }

    fn submit_instruction(&mut self) -> (action: PromptEditorAction)
        requires
            old(self)@.valid(),
        ensures
            (final(self)@, action@) == old(self)@.submitted(),
            final(self)@.valid(),
    {
        let instruction: String = self.instruction.value();
        let draft: String = self.draft.value();
        if text::is_blank(instruction.as_str()) {
            return self.accept();
        }
        if text::is_blank(draft.as_str()) || self.pending {
            return PromptEditorAction::Consumed;
        }
        self.pending = true;
        self.error = None;
        let instruction: Vec<char> = text::chars_of(instruction.as_str());
        PromptEditorAction::Rewrite {
            draft,
            instruction: text::string_of(text::trim(instruction.as_slice())),
        }
    }

    fn accept(&mut self) -> (action: PromptEditorAction)
        requires
            old(self)@.valid(),
        ensures
            (final(self)@, action@) == old(self)@.accepted(),
            final(self)@.valid(),
    {
        let draft: String = self.draft.value();
        if text::is_blank(draft.as_str()) {
            return PromptEditorAction::Consumed;
        }
        self.close();
        PromptEditorAction::Accept(draft)
    }

    /// Puts the editor away without yielding its text.
    pub fn close(&mut self)
        requires
            old(self)@.valid(),
        ensures
            final(self)@ == old(self)@.closed(),
            final(self)@.valid(),
    {
        self.open = false;
        self.pending = false;
        self.error = None;
        self.history.clear();
        self.instruction.clear();
        assert(self@.history =~= Seq::empty());
    }

    pub fn handle_key(&mut self, key: KeyEvent) -> (action: PromptEditorAction)
        requires
            old(self)@.valid(),
        ensures
            (final(self)@, action@) == old(self)@.pressed(key),
            final(self)@.valid(),
    {
        if key.code == KeyCode::Esc {
            self.close();
            return PromptEditorAction::Close;
        }
        if key.is_chord('s') {
            return self.accept();
        }
        if key.is_chord('u') {
            self.undo();
            return PromptEditorAction::Consumed;
        }
        if key.code == KeyCode::Tab || key.code == KeyCode::BackTab {
            self.focus = match self.focus {
                Focus::Draft => Focus::Instruction,
                Focus::Instruction => Focus::Draft,
            };
            return PromptEditorAction::Consumed;
        }
        match self.focus {
            Focus::Instruction => {
                if key.code == KeyCode::Enter && !is_newline_key(&key) {
                    return self.submit_instruction();
                }
                let _did: EditResult = self.instruction.handle_key(key);
            },
            Focus::Draft => {
                // Enter is a newline here: this pane holds a prompt that may well
                // be several lines, and submitting from it would make the two
                // panes disagree about what enter means.
                if key.code == KeyCode::Enter {
                    self.draft.add_line();
                    return PromptEditorAction::Consumed;
                }
                if self.draft.handle_key(key) != EditResult::Ignored {
                    // A hand edit invalidates nothing, but it does mean the error
                    // on screen is about an older draft.
                    self.error = None;
                }
            },
        }
        PromptEditorAction::Consumed
    }
}

/// The width of the text in the editor on a screen this wide.
pub open spec fn text_width(area_width: int) -> int {
    let inner = area_width * WIDTH_PERCENT / 100 - 2;
    if inner > 1 {
        inner
    } else {
        1
    }
}

/// How many rows of a draft with this many rows are on screen.
pub open spec fn draft_rows_visible(total: int) -> int {
    if total < 1 {
        1
    } else if total > MAX_DRAFT_ROWS {
        MAX_DRAFT_ROWS as int
    } else {
        total
    }
}

/// The label over a pane.
pub open spec fn label_shown(label: Seq<char>, focused: bool) -> Seq<styled::Piece> {
    seq![styled::Piece { text: label, tone: if focused { Tone::Title } else { Tone::Dim } }]
}

impl EditorState {
    /// The draft scrolled so that its cursor is on screen.
    pub open spec fn drawn(self, area_width: int) -> EditorState {
        let width = text_width(area_width);
        let total = wrap::rows_of(self.draft.lines, width).len() as int;
        EditorState {
            scroll: wrap::scrolled(
                self.scroll,
                wrap::row_of_cursor(self.draft, width),
                draft_rows_visible(total),
                total,
            ),
            ..self
        }
    }

    /// The line of the instruction box.
    pub open spec fn instruction_shown(self, width: int) -> Seq<styled::Piece> {
        if self.pending {
            seq![styled::Piece { text: "> "@ + "rewriting…"@, tone: Tone::Dim }]
        } else {
            seq![styled::Piece { text: "> "@, tone: Tone::Dim }] + wrap::buffer_shown(
                self.instruction,
                if width > 3 {
                    width - 2
                } else {
                    1
                },
                self.focus == Focus::Instruction,
                0,
                1,
            )[0]
        }
    }

    /// The keys that do something now: undo only once there is something to undo,
    /// rewriting only from the instruction box.
    pub open spec fn hints(self) -> Seq<(Seq<char>, Seq<char>)> {
        let first = seq![("tab"@, "switch pane"@)];
        let second = if self.focus == Focus::Instruction {
            first.push(("enter"@, "rewrite"@))
        } else {
            first
        };
        let third = second.push(("ctrl+s"@, "accept"@));
        let fourth = if self.history.len() > 0 {
            third.push(("ctrl+u"@, "undo"@))
        } else {
            third
        };
        fourth.push(("esc"@, "discard"@))
    }

    /// What went wrong, if anything did.
    pub open spec fn error_shown(self) -> Seq<Seq<styled::Piece>> {
        match self.error {
            Some(message) => seq![seq![styled::Piece { text: message, tone: Tone::Error }]],
            None => Seq::empty(),
        }
    }

    /// Everything in the editor, in a column this wide with this many rows of the
    /// draft.
    pub open spec fn stacked(self, width: int, visible: int) -> Seq<Seq<styled::Piece>> {
        seq![label_shown("prompt"@, self.focus == Focus::Draft)] + wrap::buffer_shown(
            self.draft,
            width,
            self.focus == Focus::Draft,
            self.scroll,
            visible,
        ) + seq![
            Seq::empty(),
            label_shown("how should this change?"@, self.focus == Focus::Instruction),
            self.instruction_shown(width),
        ] + self.error_shown() + seq![Seq::<styled::Piece>::empty()] + hints::rows_shown(
            hints::packed(Seq::empty(), self.hints(), width),
        )
    }

    /// Everything in the editor, once it is scrolled to the cursor.
    pub open spec fn shown(self, area_width: int) -> Seq<Seq<styled::Piece>> {
        let width = text_width(area_width);
        self.stacked(
            width,
            draft_rows_visible(wrap::rows_of(self.draft.lines, width).len() as int),
        )
    }
}

proof fn lemma_stacked<T>(
    label: T,
    draft: Seq<T>,
    gap: T,
    question: T,
    instruction: T,
    error: Seq<T>,
    footer: Seq<T>,
)
    ensures
        ((Seq::<T>::empty().push(label) + draft).push(gap).push(question).push(instruction)
            + error).push(gap) + footer == seq![label] + draft + seq![gap, question, instruction]
            + error + seq![gap] + footer,
{
    assert(((Seq::<T>::empty().push(label) + draft).push(gap).push(question).push(instruction)
        + error).push(gap) + footer =~= seq![label] + draft + seq![gap, question, instruction]
        + error + seq![gap] + footer);
}

fn label_line(label: &str, focused: bool) -> (line: Line)
    ensures
        line@ == label_shown(label@, focused),
{
    Line::of(
        label.to_string(),
        if focused {
            Tone::Title
        } else {
            Tone::Dim
        },
    )
}

impl PromptEditor {
    /// The lines of the editor on a screen this wide, `None` while it is closed.
    /// The draft scrolls to follow its cursor.
    pub fn render_lines(&mut self, area_width: u16) -> (lines: Option<Vec<Line>>)
        requires
            old(self)@.valid(),
        ensures
            final(self)@.valid(),
            match lines {
                Some(lines) => {
                    &&& old(self)@.open
                    &&& final(self)@ == old(self)@.drawn(area_width as int)
                    &&& styled::shown(lines@) == final(self)@.shown(area_width as int)
                },
                None => !old(self)@.open && final(self)@ == old(self)@,
            },
    {
        if !self.open {
            return None;
        }
        let percent: u32 = area_width as u32 * WIDTH_PERCENT as u32 / 100;
        let width: usize = if percent > 3 {
            (percent - 2) as usize
        } else {
            1
        };
        let rows: Vec<(usize, usize)> = wrap::buffer_rows(&self.draft, width);
        let total: usize = rows.len();
        let cursor: usize = wrap::cursor_row(&self.draft, width);
        proof {
            wrap::law_cursor_is_in_its_row(self.draft@, width as int);
            assert(wrap::row_views(rows@).len() == total);
        }
        let visible: usize = if total < 1 {
            1
        } else if total > MAX_DRAFT_ROWS {
            MAX_DRAFT_ROWS
        } else {
            total
        };
        self.scroll = wrap::clamp_scroll(self.scroll, cursor, visible, total);
        Some(self.stacked_lines(width, visible))
    }

    /// The label, the draft, the instruction, what went wrong and the keys.
    fn stacked_lines(&self, width: usize, visible: usize) -> (lines: Vec<Line>)
        requires
            self@.valid(),
            width >= 1,
            self@.open,
        ensures
            styled::shown(lines@) == self@.stacked(width as int, visible as int),
    {
        let in_draft: bool = self.focus == Focus::Draft;
        let mut lines: Vec<Line> = Vec::new();
        assert(styled::shown(lines@) =~= Seq::empty());
        styled::push_line(&mut lines, label_line("prompt", in_draft));
        let draft: Vec<Line> = wrap::render_buffer(
            &self.draft,
            width,
            in_draft,
            self.scroll,
            visible,
        );
        let ghost draft_shown = styled::shown(draft@);
        styled::append_lines(&mut lines, draft);
        styled::push_line(&mut lines, Line::empty());
        styled::push_line(&mut lines, label_line("how should this change?", !in_draft));
        styled::push_line(&mut lines, self.instruction_line(width));
        let ghost before_error = styled::shown(lines@);
        if let Some(error) = &self.error {
            styled::push_line(&mut lines, Line::of(error.clone(), Tone::Error));
        }
        assert(styled::shown(lines@) =~= before_error + self@.error_shown());
        styled::push_line(&mut lines, Line::empty());
        styled::append_lines(&mut lines, self.footer(width));
        proof {
            lemma_stacked(
                label_shown("prompt"@, in_draft),
                draft_shown,
                Seq::empty(),
                label_shown("how should this change?"@, !in_draft),
                self@.instruction_shown(width as int),
                self@.error_shown(),
                hints::rows_shown(hints::packed(Seq::empty(), self@.hints(), width as int)),
            );
        }
        lines
    }

    fn instruction_line(&self, width: usize) -> (line: Line)
        requires
            self@.valid(),
        ensures
            line@ == self@.instruction_shown(width as int),
    {
        let mut prompt: String = "> ".to_string();
        if self.pending {
            prompt.append("rewriting…");
            return Line::of(prompt, Tone::Dim);
        }
        let room: usize = if width > 3 {
            width - 2
        } else {
            1
        };
        let mut rows: Vec<Line> = wrap::render_buffer(
            &self.instruction,
            room,
            self.focus == Focus::Instruction,
            0,
            1,
        );
        proof {
            wrap::lemma_some_row(self.instruction@.lines, room as int);
            assert(styled::shown(rows@).len() == 1);
            assert(styled::shown(rows@)[0] == rows@[0]@);
        }
        let first: Line = rows.remove(0);
        let mut line: Line = Line::of(prompt, Tone::Dim);
        line.extend(first);
        line
    }

    /// Wrapped rather than truncated: five hints do not fit a narrow terminal, and
    /// the ones that fall off the end are the ones a first-time user most needs.
    fn footer(&self, width: usize) -> (lines: Vec<Line>)
        ensures
            styled::shown(lines@) == hints::rows_shown(
                hints::packed(Seq::empty(), self@.hints(), width as int),
            ),
    {
        let mut pairs: Vec<(&str, &str)> = Vec::new();
        pairs.push(("tab", "switch pane"));
        if self.focus == Focus::Instruction {
            pairs.push(("enter", "rewrite"));
        }
        pairs.push(("ctrl+s", "accept"));
        if self.history.len() > 0 {
            pairs.push(("ctrl+u", "undo"));
        }
        pairs.push(("esc", "discard"));
        assert(styled::pair_views(pairs@) =~= self@.hints());
        hints::pack_hints(pairs.as_slice(), width)
    }
}

}
