//! Fitting text into rows.
//!
//! Text is wrapped by character rather than by word, so that the row and column
//! of the cursor are computed the same way they are drawn.

use crate::styled;
use crate::styled::{Line, Tone};
use crate::text;
use crate::text_buffer::{TextBuffer, TextState};
use vstd::prelude::*;

verus! {

/// The rows of line `y` from its character `start` on: where each begins. A line
/// has a row for every `width` characters, and one when it is empty.
pub open spec fn line_rows(y: int, start: int, len: int, width: int) -> Seq<(int, int)>
    decreases len - start,
{
    if width > 0 && len - start > width {
        seq![(y, start)] + line_rows(y, start + width, len, width)
    } else {
        seq![(y, start)]
    }
}

/// The rows of all the lines: the line that each is part of, and the character at
/// which it begins.
pub open spec fn rows_of(lines: Seq<Seq<char>>, width: int) -> Seq<(int, int)>
    decreases lines.len(),
{
    if lines.len() == 0 {
        Seq::empty()
    } else {
        rows_of(lines.drop_last(), width) + line_rows(
            lines.len() - 1,
            0,
            lines.last().len() as int,
            width,
        )
    }
}

/// A row that begins no later than the cursor stands.
pub open spec fn reaches(row: (int, int), x: int, y: int) -> bool {
    row.0 < y || (row.0 == y && row.1 <= x)
}

/// The last row that begins no later than the cursor stands, or the first.
pub open spec fn row_at(rows: Seq<(int, int)>, x: int, y: int) -> int
    decreases rows.len(),
{
    if rows.len() == 0 {
        0
    } else if reaches(rows.last(), x, y) {
        rows.len() - 1
    } else {
        row_at(rows.drop_last(), x, y)
    }
}

/// The row that the cursor is in.
pub open spec fn row_of_cursor(state: TextState, width: int) -> int {
    row_at(rows_of(state.lines, width), state.x, state.y)
}

/// The scroll position nearest to `scroll` that shows the cursor and does not
/// scroll past the end.
pub open spec fn scrolled(scroll: int, cursor: int, visible: int, total: int) -> int {
    let most = if total > visible { total - visible } else { 0 };
    let scroll = if scroll < most { scroll } else { most };
    if cursor < scroll {
        cursor
    } else if cursor >= scroll + visible {
        cursor + 1 - visible
    } else {
        scroll
    }
}

pub open spec fn row_views(rows: Seq<(usize, usize)>) -> Seq<(int, int)> {
    rows.map_values(|row: (usize, usize)| (row.0 as int, row.1 as int))
}

/// Where each row of the buffer begins: its line and its first character.
pub fn buffer_rows(buffer: &TextBuffer, width: usize) -> (rows: Vec<(usize, usize)>)
    requires
        width > 0,
    ensures
        row_views(rows@) == rows_of(buffer@.lines, width as int),
{
    let mut rows: Vec<(usize, usize)> = Vec::new();
    let ghost lines = buffer@.lines;
    let count: usize = buffer.line_count();
    let mut y: usize = 0;
    assert(row_views(rows@) =~= rows_of(lines.take(0), width as int));
    while y < count
        invariant
            lines == buffer@.lines,
            count == lines.len(),
            width > 0,
            y <= count,
            row_views(rows@) == rows_of(lines.take(y as int), width as int),
        decreases count - y,
    {
        let len: usize = buffer.line(y).len();
        let mut start: usize = 0;
        let ghost earlier = row_views(rows@);
        let ghost all = line_rows(y as int, 0, len as int, width as int);
        assert(earlier + all =~= row_views(rows@) + line_rows(
            y as int,
            start as int,
            len as int,
            width as int,
        ));
        loop
            invariant_except_break
                start <= len,
                width > 0,
                earlier + all == row_views(rows@) + line_rows(
                    y as int,
                    start as int,
                    len as int,
                    width as int,
                ),
            ensures
                row_views(rows@) == earlier + all,
            decreases len - start,
        {
            let ghost had = row_views(rows@);
            rows.push((y, start));
            assert(row_views(rows@) =~= had.push((y as int, start as int)));
            if len - start <= width {
                assert(row_views(rows@) =~= earlier + all);
                break;
            }
            proof {
                assert(had + line_rows(y as int, start as int, len as int, width as int)
                    =~= row_views(rows@) + line_rows(
                    y as int,
                    start + width,
                    len as int,
                    width as int,
                ));
            }
            start = start + width;
        }
        proof {
            assert(lines.take(y + 1).drop_last() =~= lines.take(y as int));
            assert(lines.take(y + 1).last() == lines[y as int]);
        }
        y += 1;
    }
    assert(lines.take(y as int) =~= lines);
    rows
}

/// The row that the cursor is in.
pub fn cursor_row(buffer: &TextBuffer, width: usize) -> (row: usize)
    requires
        width > 0,
    ensures
        row == row_of_cursor(buffer@, width as int),
{
    let rows: Vec<(usize, usize)> = buffer_rows(buffer, width);
    let mut i: usize = rows.len();
    let ghost all = row_views(rows@);
    assert(all.take(i as int) =~= all);
    while i > 0
        invariant
            all == row_views(rows@),
            all == rows_of(buffer@.lines, width as int),
            i <= rows@.len(),
            row_at(all, buffer@.x, buffer@.y) == row_at(all.take(i as int), buffer@.x, buffer@.y),
        decreases i,
    {
        let (y, start): (usize, usize) = rows[i - 1];
        assert(all.take(i as int).last() == (y as int, start as int));
        assert(all.take(i as int).drop_last() =~= all.take(i - 1));
        if y < buffer.y() || (y == buffer.y() && start <= buffer.x()) {
            return i - 1;
        }
        i -= 1;
    }
    0
}

/// Moves the scroll position as little as shows the cursor, in either direction.
pub fn clamp_scroll(scroll: usize, cursor: usize, visible: usize, total: usize) -> (r: usize)
    requires
        cursor < usize::MAX,
    ensures
        r == scrolled(scroll as int, cursor as int, visible as int, total as int),
{
    let most: usize = if total > visible {
        total - visible
    } else {
        0
    };
    let scroll: usize = if scroll < most {
        scroll
    } else {
        most
    };
    if cursor < scroll {
        cursor
    } else if cursor >= scroll + visible {
        cursor + 1 - visible
    } else {
        scroll
    }
}

/// A scroll position shows the cursor and does not leave rows unused below while
/// rows above are hidden.
pub proof fn law_scroll_shows_the_cursor(scroll: int, cursor: int, visible: int, total: int)
    requires
        0 <= scroll,
        0 <= cursor < total,
        0 < visible,
    ensures
        scrolled(scroll, cursor, visible, total) <= cursor < scrolled(
            scroll,
            cursor,
            visible,
            total,
        ) + visible,
        0 <= scrolled(scroll, cursor, visible, total),
        scrolled(scroll, cursor, visible, total) == 0 || scrolled(scroll, cursor, visible, total)
            + visible <= total,
{
}

/// The rows of a line tile it: they follow each other at the width, and the last
/// reaches its end.
proof fn lemma_line_rows(y: int, start: int, len: int, width: int)
    requires
        0 <= start <= len,
        0 < width,
    ensures
        line_rows(y, start, len, width).len() > 0,
        line_rows(y, start, len, width)[0] == (y, start),
        forall|i: int|
            0 <= i < line_rows(y, start, len, width).len() ==> {
                let row = #[trigger] line_rows(y, start, len, width)[i];
                &&& row.0 == y
                &&& start <= row.1 <= len
                &&& i == line_rows(y, start, len, width).len() - 1 ==> len - row.1 <= width
                &&& i < line_rows(y, start, len, width).len() - 1 ==> line_rows(
                    y,
                    start,
                    len,
                    width,
                )[i + 1].1 == row.1 + width
            },
    decreases len - start,
{
    if len - start > width {
        lemma_line_rows(y, start + width, len, width);
        let rest = line_rows(y, start + width, len, width);
        let all = line_rows(y, start, len, width);
        assert forall|i: int| 0 <= i < all.len() implies {
            let row = #[trigger] all[i];
            &&& row.0 == y
            &&& start <= row.1 <= len
            &&& i == all.len() - 1 ==> len - row.1 <= width
            &&& i < all.len() - 1 ==> all[i + 1].1 == row.1 + width
        } by {
            if i > 0 {
                assert(all[i] == rest[i - 1]);
                if i < all.len() - 1 {
                    assert(all[i + 1] == rest[i]);
                }
            } else {
                assert(all[1] == rest[0]);
            }
        }
    }
}

/// The row of line `y` that holds character `x`.
proof fn lemma_row_in_line(y: int, start: int, len: int, width: int, x: int)
    requires
        0 <= start <= x <= len,
        0 < width,
    ensures
        ({
            let rows = line_rows(y, start, len, width);
            let row = rows[row_at(rows, x, y)];
            &&& 0 <= row_at(rows, x, y) < rows.len()
            &&& row.0 == y
            &&& row.1 <= x
            &&& x <= row.1 + width
            &&& x == row.1 + width ==> x == len
        }),
{
    let rows = line_rows(y, start, len, width);
    lemma_line_rows(y, start, len, width);
    lemma_row_at(rows, x, y);
    assert(reaches(rows[0], x, y));
    let k = row_at(rows, x, y);
    if k < rows.len() - 1 {
        assert(!reaches(rows[k + 1], x, y));
        assert(rows[k + 1].1 == rows[k].1 + width);
    } else {
        assert(len - rows[k].1 <= width);
    }
}

/// The row found is the last that begins no later than the cursor, when any does.
proof fn lemma_row_at(rows: Seq<(int, int)>, x: int, y: int)
    ensures
        rows.len() > 0 ==> 0 <= row_at(rows, x, y) < rows.len(),
        forall|i: int| row_at(rows, x, y) < i < rows.len() ==> !reaches(#[trigger] rows[i], x, y),
        (exists|i: int| 0 <= i < rows.len() && reaches(#[trigger] rows[i], x, y)) ==> reaches(
            rows[row_at(rows, x, y)],
            x,
            y,
        ),
    decreases rows.len(),
{
    if rows.len() > 0 && !reaches(rows.last(), x, y) {
        let rest = rows.drop_last();
        lemma_row_at(rest, x, y);
        assert forall|i: int| row_at(rows, x, y) < i < rows.len() implies !reaches(
            #[trigger] rows[i],
            x,
            y,
        ) by {
            if i < rest.len() {
                assert(rows[i] == rest[i]);
            }
        }
        if exists|i: int| 0 <= i < rows.len() && reaches(#[trigger] rows[i], x, y) {
            let i = choose|i: int| 0 <= i < rows.len() && reaches(#[trigger] rows[i], x, y);
            assert(reaches(rest[i], x, y));
        }
    }
}

/// Rows appended after others take over only where one of them begins no later
/// than the cursor.
proof fn lemma_row_at_appended(a: Seq<(int, int)>, b: Seq<(int, int)>, x: int, y: int)
    ensures
        (exists|i: int| 0 <= i < b.len() && reaches(#[trigger] b[i], x, y)) ==> row_at(a + b, x, y)
            == a.len() + row_at(b, x, y),
        (forall|i: int| 0 <= i < b.len() ==> !reaches(#[trigger] b[i], x, y)) ==> row_at(
            a + b,
            x,
            y,
        ) == row_at(a, x, y),
    decreases b.len(),
{
    if b.len() == 0 {
        assert(a + b =~= a);
    } else {
        let c = b.drop_last();
        assert((a + b).drop_last() =~= a + c);
        assert((a + b).last() == b.last());
        lemma_row_at_appended(a, c, x, y);
        if exists|i: int| 0 <= i < b.len() && reaches(#[trigger] b[i], x, y) {
            if !reaches(b.last(), x, y) {
                let i = choose|i: int| 0 <= i < b.len() && reaches(#[trigger] b[i], x, y);
                assert(reaches(c[i], x, y));
            }
        } else {
            assert(!reaches(b[b.len() - 1], x, y));
            assert forall|i: int| 0 <= i < c.len() implies !reaches(#[trigger] c[i], x, y) by {
                assert(!reaches(b[i], x, y));
            }
        }
    }
}

/// The cursor stands in the row it is drawn in: that row is part of the line of
/// the cursor and begins no later than it, and the cursor is off the end of the
/// row only where the line ends there.
pub proof fn law_cursor_is_in_its_row(state: TextState, width: int)
    requires
        state.valid(),
        0 < width,
    ensures
        ({
            let rows = rows_of(state.lines, width);
            let k = row_of_cursor(state, width);
            &&& 0 <= k < rows.len()
            &&& rows[k].0 == state.y
            &&& rows[k].1 <= state.x <= rows[k].1 + width
            &&& state.x == rows[k].1 + width ==> state.x == state.line().len()
        }),
{
    lemma_cursor_in_lines(state.lines, state.x, state.y, width);
}

proof fn lemma_cursor_in_lines(lines: Seq<Seq<char>>, x: int, y: int, width: int)
    requires
        0 <= y < lines.len(),
        0 <= x <= lines[y].len(),
        0 < width,
    ensures
        ({
            let rows = rows_of(lines, width);
            let k = row_at(rows, x, y);
            &&& 0 <= k < rows.len()
            &&& rows[k].0 == y
            &&& rows[k].1 <= x <= rows[k].1 + width
            &&& x == rows[k].1 + width ==> x == lines[y].len()
        }),
    decreases lines.len(),
{
    let last = lines.len() - 1;
    let a = rows_of(lines.drop_last(), width);
    let b = line_rows(last, 0, lines[last].len() as int, width);
    lemma_row_at_appended(a, b, x, y);
    lemma_line_rows(last, 0, lines[last].len() as int, width);
    if y == last {
        lemma_row_in_line(y, 0, lines[y].len() as int, width, x);
        assert(reaches(b[0], x, y));
        assert((a + b)[a.len() + row_at(b, x, y)] == b[row_at(b, x, y)]);
    } else {
        assert forall|i: int| 0 <= i < b.len() implies !reaches(#[trigger] b[i], x, y) by {}
        lemma_cursor_in_lines(lines.drop_last(), x, y, width);
        assert((a + b)[row_at(a, x, y)] == a[row_at(a, x, y)]);
    }
}

/// There is at least one row.
pub proof fn lemma_some_row(lines: Seq<Seq<char>>, width: int)
    requires
        lines.len() > 0,
        0 < width,
    ensures
        rows_of(lines, width).len() > 0,
        forall|i: int|
            0 <= i < rows_of(lines, width).len() ==> {
                let row = #[trigger] rows_of(lines, width)[i];
                0 <= row.0 < lines.len() && 0 <= row.1 <= lines[row.0].len()
            },
    decreases lines.len(),
{
    let last = lines.len() - 1;
    let a = rows_of(lines.drop_last(), width);
    let b = line_rows(last, 0, lines[last].len() as int, width);
    lemma_line_rows(last, 0, lines[last].len() as int, width);
    if lines.len() > 1 {
        lemma_some_row(lines.drop_last(), width);
    }
    assert forall|i: int| 0 <= i < (a + b).len() implies {
        let row = #[trigger] (a + b)[i];
        0 <= row.0 < lines.len() && 0 <= row.1 <= lines[row.0].len()
    } by {
        if i < a.len() {
            assert((a + b)[i] == a[i]);
        } else {
            assert((a + b)[i] == b[i - a.len()]);
        }
    }
}

/// The characters of a line that are in the row beginning at `start`.
pub open spec fn row_chars(line: Seq<char>, start: int, width: int) -> Seq<char> {
    line.subrange(start, if line.len() - start < width { line.len() as int } else { start + width })
}

/// What a row shows. The cursor is a cell of its own: the character under it, or
/// a space where it stands behind the last one.
pub open spec fn row_shown(
    state: TextState,
    row: (int, int),
    width: int,
    has_cursor: bool,
) -> Seq<styled::Piece> {
    let chars = row_chars(state.lines[row.0], row.1, width);
    if has_cursor {
        let along = if state.x > row.1 { state.x - row.1 } else { 0 };
        let (before, under, after) = if along < chars.len() {
            (chars.take(along), chars[along], chars.skip(along + 1))
        } else {
            (chars, ' ', Seq::empty())
        };
        seq![
            styled::Piece { text: before, tone: Tone::Plain },
            styled::Piece { text: seq![under], tone: Tone::Cursor },
            styled::Piece { text: after, tone: Tone::Plain },
        ]
    } else {
        seq![styled::Piece { text: chars, tone: Tone::Plain }]
    }
}

/// What stands where there is no row to show.
pub open spec fn nothing_shown(focused: bool) -> Seq<styled::Piece> {
    seq![
        styled::Piece { text: " "@, tone: if focused { Tone::Cursor } else { Tone::Dim } },
        styled::Piece { text: "(empty)"@, tone: Tone::Dim },
    ]
}

/// How many of `total` rows are on screen when `scroll` are scrolled off the top
/// and there is room for `visible`.
pub open spec fn rows_on_screen(total: int, scroll: int, visible: int) -> int {
    if scroll >= total {
        0
    } else if total - scroll < visible {
        total - scroll
    } else {
        visible
    }
}

/// What a buffer shows.
pub open spec fn buffer_shown(
    state: TextState,
    width: int,
    focused: bool,
    scroll: int,
    visible: int,
) -> Seq<Seq<styled::Piece>> {
    let rows = rows_of(state.lines, width);
    let count = rows_on_screen(rows.len() as int, scroll, visible);
    if count <= 0 {
        seq![nothing_shown(focused)]
    } else {
        Seq::new(
            count as nat,
            |k: int|
                row_shown(
                    state,
                    rows[scroll + k],
                    width,
                    focused && scroll + k == row_of_cursor(state, width),
                ),
        )
    }
}

/// One row of a buffer.
fn render_row(
    buffer: &TextBuffer,
    row: (usize, usize),
    width: usize,
    has_cursor: bool,
) -> (line: Line)
    requires
        buffer@.valid(),
        row.0 < buffer@.lines.len(),
        row.1 <= buffer@.lines[row.0 as int].len(),
        width > 0,
    ensures
        line@ == row_shown(
            buffer@,
            (row.0 as int, row.1 as int),
            width as int,
            has_cursor,
        ),
{
    let (y, start): (usize, usize) = row;
    let whole: &[char] = buffer.line(y);
    let end: usize = if whole.len() - start < width {
        whole.len()
    } else {
        start + width
    };
    let chars: &[char] = vstd::slice::slice_subrange(whole, start, end);
    assert(chars@ =~= row_chars(whole@, start as int, width as int));
    let mut line: Line = Line::empty();
    if has_cursor {
        let x: usize = buffer.x();
        let along: usize = if x > start {
            x - start
        } else {
            0
        };
        let mut under: String = String::new();
        if along < chars.len() {
            let before: &[char] = vstd::slice::slice_subrange(chars, 0, along);
            let after: &[char] = vstd::slice::slice_subrange(chars, along + 1, chars.len());
            under.push(chars[along]);
            line.push(text::string_of(before), Tone::Plain);
            line.push(under, Tone::Cursor);
            line.push(text::string_of(after), Tone::Plain);
            proof {
                assert(before@ =~= chars@.take(along as int));
                assert(after@ =~= chars@.skip(along + 1));
            }
        } else {
            under.push(' ');
            line.push(text::string_of(chars), Tone::Plain);
            line.push(under, Tone::Cursor);
            line.push(String::new(), Tone::Plain);
        }
        assert(under@ =~= seq![under@[0]]);
    } else {
        line.push(text::string_of(chars), Tone::Plain);
    }
    assert(line@ =~= row_shown(
        buffer@,
        (row.0 as int, row.1 as int),
        width as int,
        has_cursor,
    ));
    line
}

/// The rows of a buffer that are on screen.
pub fn render_buffer(
    buffer: &TextBuffer,
    width: usize,
    focused: bool,
    scroll: usize,
    visible: usize,
) -> (lines: Vec<Line>)
    requires
        buffer@.valid(),
        width > 0,
    ensures
        styled::shown(lines@) == buffer_shown(
            buffer@,
            width as int,
            focused,
            scroll as int,
            visible as int,
        ),
{
    let rows: Vec<(usize, usize)> = buffer_rows(buffer, width);
    let cursor: usize = cursor_row(buffer, width);
    let mut lines: Vec<Line> = Vec::new();
    let ghost all = rows_of(buffer@.lines, width as int);
    let ghost count = rows_on_screen(all.len() as int, scroll as int, visible as int);
    proof {
        lemma_some_row(buffer@.lines, width as int);
    }
    let mut k: usize = 0;
    while k < visible && scroll < rows.len() && k < rows.len() - scroll
        invariant
            all == row_views(rows@),
            all == rows_of(buffer@.lines, width as int),
            count == rows_on_screen(all.len() as int, scroll as int, visible as int),
            cursor == row_of_cursor(buffer@, width as int),
            buffer@.valid(),
            width > 0,
            0 <= k <= count || (k == 0 && count <= 0),
            k == lines@.len(),
            forall|i: int|
                0 <= i < all.len() ==> {
                    let row = #[trigger] all[i];
                    0 <= row.0 < buffer@.lines.len() && 0 <= row.1 <= buffer@.lines[row.0].len()
                },
            forall|i: int|
                0 <= i < k ==> #[trigger] styled::shown(lines@)[i] == row_shown(
                    buffer@,
                    all[scroll + i],
                    width as int,
                    focused && scroll + i == cursor,
                ),
        decreases visible - k,
    {
        let at: usize = scroll + k;
        assert(all[at as int] == (rows@[at as int].0 as int, rows@[at as int].1 as int));
        let ghost had = styled::shown(lines@);
        let line: Line = render_row(buffer, rows[at], width, focused && at == cursor);
        styled::push_line(&mut lines, line);
        assert(styled::shown(lines@) =~= had.push(line@));
        k += 1;
    }
    if k == 0 {
        let mut line: Line = Line::empty();
        line.push(
            " ".to_string(),
            if focused {
                Tone::Cursor
            } else {
                Tone::Dim
            },
        );
        line.push("(empty)".to_string(), Tone::Dim);
        assert(line@ =~= nothing_shown(focused));
        styled::push_line(&mut lines, line);
    }
    assert(styled::shown(lines@) =~= buffer_shown(
        buffer@,
        width as int,
        focused,
        scroll as int,
        visible as int,
    ));
    lines
}

}
