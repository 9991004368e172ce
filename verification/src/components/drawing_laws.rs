//! What is drawn of a text, of the prompt editor and of key hints.

use super::hints;
use super::prompt_editor;
use super::prompt_editor::{EditorState, Focus};
use super::wrap;
use crate::styled;
use crate::styled::{Piece, Tone};
use crate::text_buffer::TextState;
use vstd::prelude::*;

verus! {

/// A line has a row for every `width` characters begun, and one when it is empty; the
/// rows begin that many characters apart.
pub proof fn law_rows_tile_a_line(y: int, len: int, width: int)
    requires
        0 <= len,
        0 < width,
    ensures
        ({
            let rows = wrap::line_rows(y, 0, len, width);
            &&& rows.len() > 0
            &&& len <= rows.len() * width
            &&& rows.len() > 1 ==> (rows.len() - 1) * width < len
            &&& forall|i: int| 0 <= i < rows.len() ==> #[trigger] rows[i] == (y, i * width)
        }),
{
    lemma_rows_from(y, 0, len, width);
}

proof fn lemma_rows_from(y: int, start: int, len: int, width: int)
    requires
        0 <= start <= len,
        0 < width,
    ensures
        ({
            let rows = wrap::line_rows(y, start, len, width);
            &&& rows.len() > 0
            &&& len <= start + rows.len() * width
            &&& rows.len() > 1 ==> start + (rows.len() - 1) * width < len
            &&& forall|i: int| 0 <= i < rows.len() ==> #[trigger] rows[i] == (y, start + i * width)
        }),
    decreases len - start,
{
    let rows = wrap::line_rows(y, start, len, width);
    if len - start > width {
        let rest = wrap::line_rows(y, start + width, len, width);
        lemma_rows_from(y, start + width, len, width);
        let n = rest.len() as int;
        assert(start + width + n * width == start + (n + 1) * width) by (nonlinear_arith);
        assert(start + width + (n - 1) * width == start + n * width) by (nonlinear_arith);
        assert(start + 1 * width == start + width);
        assert forall|i: int| 0 <= i < rows.len() implies #[trigger] rows[i] == (
            y,
            start + i * width,
        ) by {
            if i == 0 {
                assert(0 * width == 0) by (nonlinear_arith);
            } else {
                assert(rows[i] == rest[i - 1]);
                assert(start + width + (i - 1) * width == start + i * width) by (nonlinear_arith);
            }
        }
    } else {
        assert(0 * width == 0) by (nonlinear_arith);
        assert(1 * width == width) by (nonlinear_arith);
    }
}

/// The rows of a text are those of its lines, one line after the other.
pub proof fn law_lines_follow_each_other(lines: Seq<Seq<char>>, line: Seq<char>, width: int)
    ensures
        wrap::rows_of(Seq::empty(), width).len() == 0,
        wrap::rows_of(lines.push(line), width) == wrap::rows_of(lines, width) + wrap::line_rows(
            lines.len() as int,
            0,
            line.len() as int,
            width,
        ),
{
    assert(lines.push(line).drop_last() =~= lines);
}

/// A row without the cursor shows its characters, as many as there are up to the width.
pub proof fn law_a_row_shows_its_characters(state: TextState, row: (int, int), width: int)
    requires
        state.valid(),
        0 <= row.0 < state.lines.len(),
        0 <= row.1 <= state.lines[row.0].len(),
        0 < width,
    ensures
        ({
            let line = state.lines[row.0];
            let shown = wrap::row_shown(state, row, width, false);
            &&& shown.len() == 1
            &&& shown[0].tone == Tone::Plain
            &&& row.1 + width <= line.len() ==> shown[0].text == line.subrange(
                row.1,
                row.1 + width,
            )
            &&& row.1 + width > line.len() ==> shown[0].text == line.skip(row.1)
        }),
{
    let line = state.lines[row.0];
    assert(line.subrange(row.1, line.len() as int) =~= line.skip(row.1));
}

/// The row that the cursor is in shows what stands before it, the character under it as
/// a cell of its own, and what follows; behind the last character the cell is blank.
pub proof fn law_the_cursor_is_a_cell_of_its_own(state: TextState, row: (int, int), width: int)
    requires
        state.valid(),
        row.0 == state.y,
        0 <= row.1 <= state.x <= row.1 + width,
        0 < width,
    ensures
        ({
            let line = state.lines[state.y];
            let end = if line.len() < row.1 + width {
                line.len() as int
            } else {
                row.1 + width
            };
            let shown = wrap::row_shown(state, row, width, true);
            &&& shown.len() == 3
            &&& shown[0] == (Piece { text: line.subrange(row.1, state.x), tone: Tone::Plain })
            &&& state.x < end ==> shown[1] == (Piece {
                text: seq![line[state.x]],
                tone: Tone::Cursor,
            }) && shown[2] == (Piece {
                text: line.subrange(state.x + 1, end),
                tone: Tone::Plain,
            })
            &&& state.x == end ==> shown[1] == (Piece { text: seq![' '], tone: Tone::Cursor })
                && shown[2].text.len() == 0 && shown[2].tone == Tone::Plain
        }),
{
    let line = state.lines[state.y];
    let chars = wrap::row_chars(line, row.1, width);
    let along = state.x - row.1;
    if along < chars.len() {
        assert(chars.take(along) =~= line.subrange(row.1, state.x));
        assert(chars.skip(along + 1) =~= line.subrange(
            state.x + 1,
            if line.len() < row.1 + width {
                line.len() as int
            } else {
                row.1 + width
            },
        ));
    } else {
        assert(chars =~= line.subrange(row.1, state.x));
    }
}

/// Scrolling moves as little as it can: of all positions that show the cursor and leave
/// no row unused below while rows above are hidden, none is nearer to where it was.
pub proof fn law_scrolling_moves_as_little_as_it_can(
    scroll: int,
    cursor: int,
    visible: int,
    total: int,
    other: int,
)
    requires
        0 <= scroll,
        0 <= cursor < total,
        0 < visible,
        0 <= other <= cursor < other + visible,
        other == 0 || other + visible <= total,
    ensures
        ({
            let to = wrap::scrolled(scroll, cursor, visible, total);
            &&& 0 <= to <= cursor < to + visible
            &&& to == 0 || to + visible <= total
            &&& scroll <= to ==> to <= other || other < scroll && scroll - other >= to - scroll
            &&& scroll >= to ==> other <= to || other > scroll && other - scroll >= scroll - to
        }),
{
}

/// Wherever the cursor is said to be: a scroll position past the end comes back to it,
/// one behind the cursor goes to the cursor, and one that ends before the cursor goes to
/// where the cursor is in the last row.
pub proof fn law_scrolling_whatever_the_cursor(
    scroll: int,
    cursor: int,
    visible: int,
    total: int,
)
    ensures
        ({
            let to = wrap::scrolled(scroll, cursor, visible, total);
            let least = if total <= visible {
                0
            } else {
                total - visible
            };
            let kept = vstd::math::min(scroll, least);
            &&& kept <= cursor < kept + visible ==> to == kept
            &&& cursor < kept ==> to == cursor
            &&& kept <= cursor && kept + visible <= cursor ==> to + visible == cursor + 1
        }),
{
}

/// As many rows are drawn as there are below the scroll position and room for, each the
/// row of the text that far down, with the cursor in its own row while the text has the
/// focus; where there is none to draw, a line says so.
pub proof fn law_rows_are_drawn_in_place(
    state: TextState,
    width: int,
    focused: bool,
    scroll: int,
    visible: int,
    k: int,
)
    requires
        0 <= scroll,
        0 <= visible,
    ensures
        ({
            let rows = wrap::rows_of(state.lines, width);
            let shown = wrap::buffer_shown(state, width, focused, scroll, visible);
            &&& scroll < rows.len() && 0 < visible ==> {
                &&& shown.len() <= visible
                &&& scroll + shown.len() <= rows.len()
                &&& shown.len() == visible || scroll + shown.len() == rows.len()
                &&& 0 <= k < shown.len() ==> shown[k] == wrap::row_shown(
                    state,
                    rows[scroll + k],
                    width,
                    focused && scroll + k == wrap::row_of_cursor(state, width),
                )
            }
            &&& scroll >= rows.len() || visible == 0 ==> shown == seq![
                seq![
                    Piece { text: " "@, tone: if focused { Tone::Cursor } else { Tone::Dim } },
                    Piece { text: "(empty)"@, tone: Tone::Dim },
                ],
            ]
        }),
{
}

/// The text of the editor is as wide as seven tenths of the screen without the borders,
/// and at least one cell.
pub proof fn law_the_editor_leaves_a_margin(area_width: int)
    requires
        0 <= area_width,
    ensures
        prompt_editor::text_width(area_width) >= 1,
        area_width * 7 / 10 >= 3 ==> prompt_editor::text_width(area_width) == area_width * 7 / 10
            - 2,
        area_width * 7 / 10 < 3 ==> prompt_editor::text_width(area_width) == 1,
{
    assert(area_width * 70 / 100 == area_width * 7 / 10);
}

/// A draft shows all its rows up to twelve, and never none.
pub proof fn law_twelve_rows_of_draft_at_most(total: int)
    ensures
        1 <= total <= 12 ==> prompt_editor::draft_rows_visible(total) == total,
        total > 12 ==> prompt_editor::draft_rows_visible(total) == 12,
        total < 1 ==> prompt_editor::draft_rows_visible(total) == 1,
{
}

/// Drawing scrolls the draft to its cursor and changes nothing else.
pub proof fn law_drawing_only_scrolls(s: EditorState, area_width: int)
    requires
        s.valid(),
        0 <= s.scroll,
        0 <= area_width,
    ensures
        s.drawn(area_width) == (EditorState { scroll: s.drawn(area_width).scroll, ..s }),
        ({
            let width = prompt_editor::text_width(area_width);
            let total = wrap::rows_of(s.draft.lines, width).len() as int;
            let cursor = wrap::row_of_cursor(s.draft, width);
            let visible = prompt_editor::draft_rows_visible(total);
            let scroll = s.drawn(area_width).scroll;
            &&& scroll <= cursor < scroll + visible
            &&& 0 <= s.scroll <= cursor < s.scroll + visible && (s.scroll == 0 || s.scroll + visible
                <= total) ==> scroll == s.scroll
        }),
{
    let width = prompt_editor::text_width(area_width);
    wrap::law_cursor_is_in_its_row(s.draft, width);
}

/// The keys that are named are those that do something now, always in one order.
pub proof fn law_hints_name_the_keys_that_work(s: EditorState)
    ensures
        ({
            let tab = ("tab"@, "switch pane"@);
            let enter = ("enter"@, "rewrite"@);
            let accept = ("ctrl+s"@, "accept"@);
            let undo = ("ctrl+u"@, "undo"@);
            let esc = ("esc"@, "discard"@);
            let asking = s.focus == Focus::Instruction;
            let versions = s.history.len() > 0;
            &&& asking && versions ==> s.hints() == seq![tab, enter, accept, undo, esc]
            &&& asking && !versions ==> s.hints() == seq![tab, enter, accept, esc]
            &&& !asking && versions ==> s.hints() == seq![tab, accept, undo, esc]
            &&& !asking && !versions ==> s.hints() == seq![tab, accept, esc]
        }),
{
    let tab = ("tab"@, "switch pane"@);
    let enter = ("enter"@, "rewrite"@);
    let accept = ("ctrl+s"@, "accept"@);
    let undo = ("ctrl+u"@, "undo"@);
    let esc = ("esc"@, "discard"@);
    if s.focus == Focus::Instruction {
        if s.history.len() > 0 {
            assert(s.hints() =~= seq![tab, enter, accept, undo, esc]);
        } else {
            assert(s.hints() =~= seq![tab, enter, accept, esc]);
        }
    } else if s.history.len() > 0 {
        assert(s.hints() =~= seq![tab, accept, undo, esc]);
    } else {
        assert(s.hints() =~= seq![tab, accept, esc]);
    }
}

/// The line of the instruction says that a rewrite is on its way, and otherwise shows
/// the first row of the instruction behind its mark, with the cursor while it has the
/// focus.
pub proof fn law_the_instruction_is_shown_unless_pending(s: EditorState, width: int)
    ensures
        s.pending ==> s.instruction_shown(width) == seq![
            Piece { text: "> "@ + "rewriting…"@, tone: Tone::Dim },
        ],
        !s.pending ==> s.instruction_shown(width) == seq![Piece { text: "> "@, tone: Tone::Dim }]
            + wrap::buffer_shown(
            s.instruction,
            vstd::math::max(width - 2, 1),
            s.focus == Focus::Instruction,
            0,
            1,
        )[0],
{
}

/// The editor shows the draft under its label, a gap, the instruction under its label,
/// the error if there is one, a gap, and the keys; the label of the pane with the focus
/// stands out.
pub proof fn law_the_editor_is_stacked(s: EditorState, area_width: int)
    ensures
        ({
            let width = prompt_editor::text_width(area_width);
            let total = wrap::rows_of(s.draft.lines, width).len() as int;
            let draft = wrap::buffer_shown(
                s.draft,
                width,
                s.focus == Focus::Draft,
                s.scroll,
                prompt_editor::draft_rows_visible(total),
            );
            let keys = hints::rows_shown(hints::packed(Seq::empty(), s.hints(), width));
            let shown = s.shown(area_width);
            let n = draft.len() as int;
            let e: int = if s.error is Some {
                1
            } else {
                0
            };
            &&& shown.len() == n + 5 + e + keys.len()
            &&& shown[0] == seq![
                Piece {
                    text: "prompt"@,
                    tone: if s.focus == Focus::Draft {
                        Tone::Title
                    } else {
                        Tone::Dim
                    },
                },
            ]
            &&& shown.subrange(1, n + 1) == draft
            &&& shown[n + 1].len() == 0
            &&& shown[n + 2] == seq![
                Piece {
                    text: "how should this change?"@,
                    tone: if s.focus == Focus::Instruction {
                        Tone::Title
                    } else {
                        Tone::Dim
                    },
                },
            ]
            &&& shown[n + 3] == s.instruction_shown(width)
            &&& s.error matches Some(error) ==> shown[n + 4] == seq![
                Piece { text: error, tone: Tone::Error },
            ]
            &&& shown[n + 4 + e].len() == 0
            &&& shown.skip(n + 5 + e) == keys
        }),
{
    let width = prompt_editor::text_width(area_width);
    let total = wrap::rows_of(s.draft.lines, width).len() as int;
    let draft = wrap::buffer_shown(
        s.draft,
        width,
        s.focus == Focus::Draft,
        s.scroll,
        prompt_editor::draft_rows_visible(total),
    );
    let keys = hints::rows_shown(hints::packed(Seq::empty(), s.hints(), width));
    let shown = s.shown(area_width);
    let n = draft.len() as int;
    let e: int = if s.error is Some {
        1
    } else {
        0
    };
    assert(s.error_shown().len() == e);
    assert(shown.subrange(1, n + 1) =~= draft);
    assert(shown.skip(n + 5 + e) =~= keys);
    assert(shown[0] =~= prompt_editor::label_shown("prompt"@, s.focus == Focus::Draft));
    assert(shown[n + 2] =~= prompt_editor::label_shown(
        "how should this change?"@,
        s.focus == Focus::Instruction,
    ));
}

/// Rows of hints are as full as they can be: the first hint of a row had no room in the
/// row above.
pub proof fn law_hint_rows_are_full(
    hints: Seq<(Seq<char>, Seq<char>)>,
    width: int,
    i: int,
)
    requires
        0 <= i,
        i + 1 < hints::packed(Seq::empty(), hints, width).len(),
    ensures
        ({
            let rows = hints::packed(Seq::empty(), hints, width);
            &&& rows[i + 1].len() > 0
            &&& hints::row_cost(rows[i]) + hints::hint_cost(rows[i + 1][0]) > width
        }),
{
    lemma_packed_full(Seq::empty(), hints, width, i);
}

proof fn lemma_packed_full(
    row: Seq<(Seq<char>, Seq<char>)>,
    hints: Seq<(Seq<char>, Seq<char>)>,
    width: int,
    i: int,
)
    ensures
        ({
            let rows = hints::packed(row, hints, width);
            &&& row.len() > 0 ==> rows.len() > 0 && rows[0].len() > 0 && rows[0][0] == row[0]
            &&& 0 <= i && i + 1 < rows.len() ==> rows[i + 1].len() > 0 && hints::row_cost(rows[i])
                + hints::hint_cost(rows[i + 1][0]) > width
        }),
    decreases hints.len(),
{
    let rows = hints::packed(row, hints, width);
    if hints.len() == 0 {
    } else if row.len() > 0 && hints::row_cost(row) + hints::hint_cost(hints[0]) > width {
        let rest = hints::packed(seq![hints[0]], hints.skip(1), width);
        lemma_packed_full(seq![hints[0]], hints.skip(1), width, i - 1);
        if 0 <= i && i + 1 < rows.len() {
            assert(rows[i + 1] == rest[i]);
            if i > 0 {
                assert(rows[i] == rest[i - 1]);
            }
        }
    } else {
        lemma_packed_full(row.push(hints[0]), hints.skip(1), width, i);
        if row.len() > 0 {
            assert(row.push(hints[0])[0] == row[0]);
        }
    }
}

/// A hint takes the room of its key and of what that does, as they are stored, and three
/// cells more; a row takes the room of its hints.
pub proof fn law_room_of_hints(
    first: Seq<(Seq<char>, Seq<char>)>,
    second: Seq<(Seq<char>, Seq<char>)>,
    hint: (Seq<char>, Seq<char>),
)
    ensures
        hints::row_cost(first + second) == hints::row_cost(first) + hints::row_cost(second),
        hints::row_cost(seq![hint]) == vstd::utf8::encode_utf8(hint.0).len()
            + vstd::utf8::encode_utf8(hint.1).len() + 3,
    decreases second.len(),
{
    reveal_with_fuel(hints::row_cost, 2);
    assert(seq![hint].drop_last() =~= Seq::<(Seq<char>, Seq<char>)>::empty());
    if second.len() == 0 {
        assert(first + second =~= first);
    } else {
        law_room_of_hints(first, second.drop_last(), hint);
        assert((first + second).drop_last() =~= first + second.drop_last());
    }
}

/// Hints stand side by side, each a key and what it does, with blanks in front of both.
pub proof fn law_hints_stand_side_by_side(
    first: Seq<(Seq<char>, Seq<char>)>,
    second: Seq<(Seq<char>, Seq<char>)>,
    hint: (Seq<char>, Seq<char>),
)
    ensures
        styled::hints_shown(first + second) == styled::hints_shown(first) + styled::hints_shown(
            second,
        ),
        styled::hints_shown(seq![hint]) == seq![
            Piece { text: seq![' ', ' '] + hint.0, tone: Tone::Key },
            Piece { text: seq![' '] + hint.1, tone: Tone::Dim },
        ],
    decreases second.len(),
{
    reveal_with_fuel(styled::hints_shown, 2);
    reveal_strlit("  ");
    reveal_strlit(" ");
    assert("  "@ =~= seq![' ', ' ']);
    assert(" "@ =~= seq![' ']);
    assert(seq![hint].drop_last() =~= Seq::<(Seq<char>, Seq<char>)>::empty());
    assert(styled::hints_shown(seq![hint]) =~= styled::hint_pieces(hint.0, hint.1));
    if second.len() == 0 {
        assert(first + second =~= first);
        assert(styled::hints_shown(first) + styled::hints_shown(second) =~= styled::hints_shown(
            first,
        ));
    } else {
        law_hints_stand_side_by_side(first, second.drop_last(), hint);
        assert((first + second).drop_last() =~= first + second.drop_last());
        assert(styled::hints_shown(first + second) =~= styled::hints_shown(first)
            + styled::hints_shown(second));
    }
}

}
