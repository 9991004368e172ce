//! Follow-up prompts offered above the input.
//!
//! The panel only knows how tall it is and what it shows: it never takes the
//! keyboard, because the point is that one can read it and carry on typing.

use crate::number;
use crate::styled;
use crate::styled::{Line, Tone};
use crate::text;
use vstd::prelude::*;

verus! {

pub const LABEL: &'static str = " Next ";

/// The rows of the border.
pub const CHROME_ROWS: u16 = 2;

/// How many rows the panel takes: none while there is nothing to offer. Counts
/// wrap where screens end.
pub fn height(count: usize) -> (rows: u16)
    requires
        count as nat % 65536 <= u16::MAX - CHROME_ROWS,
    ensures
        rows == if count == 0 {
            0
        } else {
            count as nat % 65536 + 2
        },
{
    if count == 0 {
        0
    } else {
        (count % 65536) as u16 + CHROME_ROWS
    }
}

/// One line of a text that may have more: the breaks become blanks.
pub open spec fn flattened(s: Seq<char>) -> Seq<char> {
    s.map_values(
        |c: char|
            if c == '\n' {
                ' '
            } else {
                c
            },
    )
}

/// A text on one line, cut off with an ellipsis when there is no room for it.
pub open spec fn fitted(s: Seq<char>, room: nat) -> Seq<char> {
    let flat = flattened(s);
    if flat.len() <= room {
        flat
    } else if room == 0 {
        seq!['…']
    } else {
        flat.take(room - 1).push('…')
    }
}

pub fn truncate(text: &str, room: usize) -> (r: String)
    ensures
        r@ == fitted(text@, room as nat),
{
    let chars: Vec<char> = text::chars_of(text);
    let mut flat: Vec<char> = Vec::new();
    let mut i: usize = 0;
    while i < chars.len()
        invariant
            i <= chars@.len(),
            chars@ == text@,
            flat@ == flattened(text@).take(i as int),
        decreases chars@.len() - i,
    {
        let c: char = if chars[i] == '\n' {
            ' '
        } else {
            chars[i]
        };
        flat.push(c);
        assert(flattened(text@).take(i + 1) =~= flattened(text@).take(i as int).push(c));
        i += 1;
    }
    assert(flat@ =~= flattened(text@));
    if flat.len() <= room {
        return text::string_of(flat.as_slice());
    }
    let keep: usize = if room == 0 {
        0
    } else {
        room - 1
    };
    let kept: &[char] = vstd::slice::slice_subrange(flat.as_slice(), 0, keep);
    let mut r: String = text::string_of(kept);
    r.push('…');
    assert(r@ =~= fitted(text@, room as nat));
    r
}

/// The key that takes the prompt of a row. It is a chord so that a bare digit still
/// types a digit.
pub open spec fn accept_key(row: nat) -> Seq<char> {
    " ctrl+"@ + number::decimal(row + 1) + " "@
}

/// The cells between the borders.
pub open spec fn content_width(width: nat) -> nat {
    if width >= 2 {
        (width - 2) as nat
    } else {
        0
    }
}

/// The room that a row has for its prompt.
pub open spec fn room_in_row(width: nat, row: nat) -> nat {
    let key = accept_key(row).len();
    if content_width(width) >= key {
        (content_width(width) - key) as nat
    } else {
        0
    }
}

pub open spec fn row_shown(prompt: Seq<char>, width: nat, row: nat) -> Seq<styled::Piece> {
    seq![
        styled::Piece { text: accept_key(row), tone: Tone::Key },
        styled::Piece { text: fitted(prompt, room_in_row(width, row)), tone: Tone::Dim },
    ]
}

pub open spec fn panel_shown(prompts: Seq<Seq<char>>, width: nat) -> Seq<Seq<styled::Piece>> {
    Seq::new(prompts.len(), |i: int| row_shown(prompts[i], width, i as nat))
}

fn row_line(prompt: &str, width: usize, row: usize) -> (line: Line)
    requires
        row < usize::MAX,
    ensures
        line@ == row_shown(prompt@, width as nat, row as nat),
{
    let mut key: String = " ctrl+".to_string();
    number::push_decimal(&mut key, (row + 1) as u64);
    key.append(" ");
    let content: usize = if width >= 2 {
        width - 2
    } else {
        0
    };
    let taken: usize = key.as_str().unicode_len();
    let room: usize = if content >= taken {
        content - taken
    } else {
        0
    };
    let mut line: Line = Line::of(key, Tone::Key);
    line.push(truncate(prompt, room), Tone::Dim);
    assert(line@ =~= row_shown(prompt@, width as nat, row as nat));
    line
}

/// The lines of the panel: nothing to draw when there are no prompts or no rows.
pub fn panel_lines(prompts: &[String], width: u16, rows: u16) -> (lines: Option<Vec<Line>>)
    ensures
        match lines {
            Some(lines) => {
                &&& prompts@.len() > 0
                &&& rows > 0
                &&& styled::shown(lines@) == panel_shown(text::views(prompts@), width as nat)
            },
            None => prompts@.len() == 0 || rows == 0,
        },
{
    if prompts.len() == 0 || rows == 0 {
        return None;
    }
    let mut lines: Vec<Line> = Vec::new();
    let ghost wanted = panel_shown(text::views(prompts@), width as nat);
    let mut i: usize = 0;
    assert(styled::shown(lines@) =~= wanted.take(0));
    let count: usize = prompts.len();
    while i < count
        invariant
            count == prompts@.len(),
            i <= count,
            wanted == panel_shown(text::views(prompts@), width as nat),
            styled::shown(lines@) == wanted.take(i as int),
        decreases count - i,
    {
        assert(wanted.take(i + 1) =~= wanted.take(i as int).push(wanted[i as int]));
        assert(text::views(prompts@)[i as int] == prompts@[i as int]@);
        styled::push_line(&mut lines, row_line(prompts[i].as_str(), width as usize, i));
        i += 1;
    }
    assert(wanted.take(i as int) =~= wanted);
    Some(lines)
}

/// Every prompt has one row of its own, with no break in it, and the row fits
/// between the borders as soon as there is room for the key and a cell more.
pub proof fn law_rows_fit_the_panel(prompts: Seq<Seq<char>>, width: nat, i: int)
    requires
        0 <= i < prompts.len(),
    ensures
        panel_shown(prompts, width).len() == prompts.len(),
        !panel_shown(prompts, width)[i][1].text.contains('\n'),
        accept_key(i as nat).len() < content_width(width) ==> panel_shown(
            prompts,
            width,
        )[i][0].text.len() + panel_shown(prompts, width)[i][1].text.len() <= content_width(width),
{
    let flat = flattened(prompts[i]);
    let shown = fitted(prompts[i], room_in_row(width, i as nat));
    assert(panel_shown(prompts, width)[i][1].text == shown);
    assert forall|k: int| 0 <= k < shown.len() implies #[trigger] shown[k] != '\n' by {
        if k < flat.len() {
            assert(shown[k] == flat[k] || shown[k] == '…');
        }
    }
}

}
