//! Keys in a text, told by what stands before and what stands after the cursor.

use crate::key::{KeyCode, KeyEvent};
use crate::text;
use crate::text_buffer::{EditResult, TextState};
use crate::text_laws;
use vstd::prelude::*;

verus! {

pub open spec fn line_break() -> Seq<char> {
    seq!['\n']
}

/// All the text before the cursor.
pub open spec fn left_of(s: TextState) -> Seq<char> {
    text::joined(s.lines.take(s.y).push(s.lines[s.y].take(s.x)), line_break())
}

/// All the text after the cursor.
pub open spec fn right_of(s: TextState) -> Seq<char> {
    text::joined(seq![s.lines[s.y].skip(s.x)] + s.lines.skip(s.y + 1), line_break())
}

/// A line cut in two and put together again.
proof fn lemma_weld(
    above: Seq<Seq<char>>,
    head: Seq<char>,
    tail: Seq<char>,
    below: Seq<Seq<char>>,
)
    ensures
        text::joined(above.push(head + tail) + below, line_break()) == text::joined(
            above.push(head),
            line_break(),
        ) + text::joined(seq![tail] + below, line_break()),
    decreases above.len(),
{
    let whole = above.push(head + tail) + below;
    let left = above.push(head);
    let right = seq![tail] + below;
    assert(right.skip(1) =~= below);
    if above.len() == 0 {
        assert(left =~= seq![head]);
        assert(whole.skip(1) =~= below);
        assert(text::joined(whole, line_break()) =~= head + text::joined(right, line_break()));
    } else {
        lemma_weld(above.skip(1), head, tail, below);
        assert(whole.skip(1) =~= above.skip(1).push(head + tail) + below);
        assert(left.skip(1) =~= above.skip(1).push(head));
        assert(text::joined(whole, line_break()) =~= text::joined(left, line_break())
            + text::joined(right, line_break()));
    }
}

/// More at the end of the last line is more at the end of the text.
proof fn lemma_last_line_grows(above: Seq<Seq<char>>, line: Seq<char>, more: Seq<char>)
    ensures
        text::joined(above.push(line + more), line_break()) == text::joined(
            above.push(line),
            line_break(),
        ) + more,
{
    text_laws::law_joining_goes_on_at_the_end(above, line + more, line_break());
    text_laws::law_joining_goes_on_at_the_end(above, line, line_break());
    if above.len() > 0 {
        assert(text::joined(above, line_break()) + line_break() + (line + more) =~= text::joined(
            above,
            line_break(),
        ) + line_break() + line + more);
    }
}

/// More at the front of the first line is more at the front of the text.
proof fn lemma_first_line_grows(more: Seq<char>, line: Seq<char>, below: Seq<Seq<char>>)
    ensures
        text::joined(seq![more + line] + below, line_break()) == more + text::joined(
            seq![line] + below,
            line_break(),
        ),
{
    lemma_weld(Seq::empty(), more, line, below);
    assert(Seq::<Seq<char>>::empty().push(more + line) + below =~= seq![more + line] + below);
    assert(Seq::<Seq<char>>::empty().push(more) =~= seq![more]);
}

/// A line above the others and a line break come first.
proof fn lemma_line_above(line: Seq<char>, below: Seq<Seq<char>>)
    requires
        below.len() > 0,
    ensures
        text::joined(seq![line] + below, line_break()) == line + line_break() + text::joined(
            below,
            line_break(),
        ),
{
    assert((seq![line] + below).skip(1) =~= below);
}

/// The text is what stands before the cursor and then what stands after it.
pub proof fn law_the_cursor_parts_the_text(s: TextState)
    requires
        s.valid(),
    ensures
        s.text() == left_of(s) + right_of(s),
{
    let line = s.lines[s.y];
    lemma_weld(s.lines.take(s.y), line.take(s.x), line.skip(s.x), s.lines.skip(s.y + 1));
    assert(line.take(s.x) + line.skip(s.x) =~= line);
    assert(s.lines.take(s.y).push(line) + s.lines.skip(s.y + 1) =~= s.lines);
}

/// A character typed on its own or with shift goes in where the cursor is, before the
/// cursor.
pub proof fn law_typing_goes_in_at_the_cursor(s: TextState, key: KeyEvent, c: char)
    requires
        s.valid(),
        key.code == KeyCode::Char(c),
        !key.modifiers.control,
        !key.modifiers.alt,
    ensures
        s.edited(key).1 == EditResult::Changed,
        left_of(s.edited(key).0) == left_of(s).push(c),
        right_of(s.edited(key).0) == right_of(s),
{
    if c == '\n' {
        lemma_break(s);
    } else {
        let line = s.lines[s.y];
        let t = s.with_char(c);
        assert(t.lines.take(t.y) =~= s.lines.take(s.y));
        assert(t.lines.skip(t.y + 1) =~= s.lines.skip(s.y + 1));
        assert(t.lines[t.y].take(t.x) =~= line.take(s.x) + seq![c]);
        assert(t.lines[t.y].skip(t.x) =~= line.skip(s.x));
        lemma_last_line_grows(s.lines.take(s.y), line.take(s.x), seq![c]);
        assert(left_of(t) =~= left_of(s).push(c));
    }
}

proof fn lemma_break(s: TextState)
    requires
        s.valid(),
    ensures
        left_of(s.broken()) == left_of(s).push('\n'),
        right_of(s.broken()) == right_of(s),
{
    let (head, tail) = (s.lines[s.y].take(s.x), s.lines[s.y].skip(s.x));
    let t = s.broken();
    let above = s.lines.take(s.y).push(head);
    assert(t.lines.take(t.y) =~= above);
    assert(t.lines[t.y] == tail);
    assert(tail.take(0) =~= Seq::<char>::empty());
    assert(tail.skip(0) =~= tail);
    assert(t.lines.skip(t.y + 1) =~= s.lines.skip(s.y + 1));
    text_laws::law_joining_goes_on_at_the_end(above, Seq::empty(), line_break());
    assert(left_of(t) =~= left_of(s).push('\n'));
}

/// Enter together with shift, alt or control breaks the line where the cursor is.
pub proof fn law_a_line_break_goes_in_at_the_cursor(s: TextState, key: KeyEvent)
    requires
        s.valid(),
        key.code == KeyCode::Enter,
        key.modifiers.shift || key.modifiers.alt || key.modifiers.control,
    ensures
        s.edited(key).1 == EditResult::Changed,
        left_of(s.edited(key).0) == left_of(s).push('\n'),
        right_of(s.edited(key).0) == right_of(s),
{
    lemma_break(s);
}

/// Backspace takes away the last character before the cursor, be it a line break; with
/// nothing there it does nothing.
pub proof fn law_backspace_takes_the_character_before(s: TextState, key: KeyEvent)
    requires
        s.valid(),
        key.code == KeyCode::Backspace,
    ensures
        s.x == 0 && s.y == 0 ==> s.edited(key) == (s, EditResult::Ignored) && left_of(s).len() == 0,
        !(s.x == 0 && s.y == 0) ==> {
            &&& s.edited(key).1 == EditResult::Changed
            &&& left_of(s).len() > 0
            &&& left_of(s.edited(key).0) == left_of(s).drop_last()
            &&& right_of(s.edited(key).0) == right_of(s)
        },
{
    let line = s.lines[s.y];
    let t = s.without_previous();
    let above = s.lines.take(s.y);
    if s.x > 0 {
        let head = line.take(s.x - 1);
        assert(t.lines.take(t.y) =~= above);
        assert(t.lines.skip(t.y + 1) =~= s.lines.skip(s.y + 1));
        assert(t.lines[t.y].take(t.x) =~= head);
        assert(t.lines[t.y].skip(t.x) =~= line.skip(s.x));
        lemma_last_line_grows(above, head, seq![line[s.x - 1]]);
        assert(line.take(s.x) =~= head + seq![line[s.x - 1]]);
        assert(left_of(s).drop_last() =~= left_of(t));
    } else if s.y > 0 {
        let previous = s.lines[s.y - 1];
        assert(t.lines.take(t.y) =~= s.lines.take(s.y - 1));
        assert(t.lines[t.y] == previous + line);
        assert(t.lines[t.y].take(t.x) =~= previous);
        assert(t.lines[t.y].skip(t.x) =~= line);
        assert(line.skip(0) =~= line);
        assert(line.take(0) =~= Seq::<char>::empty());
        assert(t.lines.skip(t.y + 1) =~= s.lines.skip(s.y + 1));
        assert(above =~= s.lines.take(s.y - 1).push(previous));
        text_laws::law_joining_goes_on_at_the_end(above, Seq::empty(), line_break());
        assert(left_of(s) =~= left_of(t).push('\n'));
        assert(left_of(s).drop_last() =~= left_of(t));
    } else {
        text_laws::law_joining_goes_on_at_the_end(above, line.take(0), line_break());
    }
}

/// Delete takes away the first character after the cursor, be it a line break; with
/// nothing there it does nothing.
pub proof fn law_delete_takes_the_character_after(s: TextState, key: KeyEvent)
    requires
        s.valid(),
        key.code == KeyCode::Delete,
    ensures
        right_of(s).len() == 0 ==> s.edited(key) == (s, EditResult::Ignored),
        right_of(s).len() > 0 ==> {
            &&& s.edited(key).1 == EditResult::Changed
            &&& left_of(s.edited(key).0) == left_of(s)
            &&& right_of(s.edited(key).0) == right_of(s).skip(1)
        },
{
    let line = s.lines[s.y];
    let below = s.lines.skip(s.y + 1);
    let t = s.without_next();
    lemma_right_end(s);
    if s.x < line.len() {
        assert(t.lines.take(t.y) =~= s.lines.take(s.y));
        assert(t.lines.skip(t.y + 1) =~= below);
        assert(t.lines[t.y].take(t.x) =~= line.take(s.x));
        assert(line.skip(s.x) =~= seq![line[s.x]] + t.lines[t.y].skip(t.x));
        lemma_first_line_grows(seq![line[s.x]], t.lines[t.y].skip(t.x), below);
        assert(right_of(s).skip(1) =~= right_of(t));
    } else if s.y + 1 < s.lines.len() {
        let next = s.lines[s.y + 1];
        assert(t.lines.take(t.y) =~= s.lines.take(s.y));
        assert(t.lines[t.y] == line + next);
        assert(t.lines[t.y].take(t.x) =~= line.take(s.x));
        assert(t.lines[t.y].skip(t.x) =~= next);
        assert(line.skip(s.x) =~= Seq::<char>::empty());
        assert(t.lines.skip(t.y + 1) =~= s.lines.skip(s.y + 2));
        assert(below =~= seq![next] + s.lines.skip(s.y + 2));
        lemma_line_above(Seq::empty(), below);
        assert(right_of(s).skip(1) =~= right_of(t));
    }
}

/// There is nothing after the cursor exactly at the end of the last line.
proof fn lemma_right_end(s: TextState)
    requires
        s.valid(),
    ensures
        right_of(s).len() == 0 <==> s.x == s.lines[s.y].len() && s.y + 1 == s.lines.len(),
{
    let tail = s.lines[s.y].skip(s.x);
    let below = s.lines.skip(s.y + 1);
    if below.len() > 0 {
        lemma_line_above(tail, below);
    } else {
        assert(seq![tail] + below =~= seq![tail]);
    }
}

/// Left moves one character from before the cursor to after it, and right one back;
/// at the end of the text in that direction neither does anything. The text stays.
pub proof fn law_left_and_right_move_one_character(s: TextState, key: KeyEvent)
    requires
        s.valid(),
    ensures
        key.code == KeyCode::Left ==> {
            &&& s.edited(key).1 == EditResult::Moved
            &&& s.edited(key).0.lines == s.lines
            &&& left_of(s).len() == 0 ==> s.edited(key).0 == s
            &&& left_of(s).len() > 0 ==> left_of(s.edited(key).0) == left_of(s).drop_last()
                && right_of(s.edited(key).0) == seq![left_of(s).last()] + right_of(s)
        },
        key.code == KeyCode::Right ==> {
            &&& s.edited(key).1 == EditResult::Moved
            &&& s.edited(key).0.lines == s.lines
            &&& right_of(s).len() == 0 ==> s.edited(key).0 == s
            &&& right_of(s).len() > 0 ==> right_of(s.edited(key).0) == right_of(s).skip(1)
                && left_of(s.edited(key).0) == left_of(s).push(right_of(s)[0])
        },
{
    if key.code == KeyCode::Left {
        lemma_left(s);
    }
    if key.code == KeyCode::Right {
        lemma_right(s);
    }
}

proof fn lemma_left(s: TextState)
    requires
        s.valid(),
    ensures
        left_of(s).len() == 0 ==> s.left() == s,
        left_of(s).len() > 0 ==> left_of(s.left()) == left_of(s).drop_last() && right_of(s.left())
            == seq![left_of(s).last()] + right_of(s),
{
    let line = s.lines[s.y];
    let t = s.left();
    let above = s.lines.take(s.y);
    let below = s.lines.skip(s.y + 1);
    if s.x > 0 {
        let c = line[s.x - 1];
        assert(line.take(s.x) =~= line.take(s.x - 1) + seq![c]);
        lemma_last_line_grows(above, line.take(s.x - 1), seq![c]);
        assert(left_of(s) =~= left_of(t).push(c));
        assert(left_of(s).drop_last() =~= left_of(t));
        assert(line.skip(s.x - 1) =~= seq![c] + line.skip(s.x));
        lemma_first_line_grows(seq![c], line.skip(s.x), below);
    } else if s.y > 0 {
        let previous = s.lines[s.y - 1];
        assert(line.take(0) =~= Seq::<char>::empty());
        assert(line.skip(0) =~= line);
        assert(previous.take(t.x) =~= previous);
        assert(previous.skip(t.x) =~= Seq::<char>::empty());
        assert(above =~= s.lines.take(s.y - 1).push(previous));
        text_laws::law_joining_goes_on_at_the_end(above, Seq::empty(), line_break());
        assert(left_of(s) =~= left_of(t).push('\n'));
        assert(left_of(s).drop_last() =~= left_of(t));
        assert(s.lines.skip(t.y + 1) =~= seq![line] + below);
        lemma_line_above(Seq::empty(), s.lines.skip(t.y + 1));
        assert(right_of(t) =~= seq!['\n'] + right_of(s));
    }
}

proof fn lemma_right(s: TextState)
    requires
        s.valid(),
    ensures
        right_of(s).len() == 0 ==> s.right() == s,
        right_of(s).len() > 0 ==> right_of(s.right()) == right_of(s).skip(1) && left_of(s.right())
            == left_of(s).push(right_of(s)[0]),
{
    let t = s.right();
    let line = s.lines[s.y];
    lemma_right_end(s);
    if right_of(s).len() > 0 {
        assert(t.valid());
        lemma_left(t);
        assert(t.left() == s) by {
            if s.x == line.len() {
                assert(t.left().x == s.x);
            }
        }
        text_laws::law_joining_goes_on_at_the_end(
            t.lines.take(t.y),
            t.lines[t.y].take(t.x),
            line_break(),
        );
        assert(left_of(t).len() > 0) by {
            if t.y > 0 {
                assert(t.lines.take(t.y).len() > 0);
            } else {
                assert(t.x > 0);
            }
        }
        assert(left_of(s) == left_of(t).drop_last());
        assert(right_of(s) == seq![left_of(t).last()] + right_of(t));
        assert(right_of(s).skip(1) =~= right_of(t));
        assert(left_of(s).push(right_of(s)[0]) =~= left_of(t));
    }
}

/// Up and down lead to the same column of the next line, or to its end where it is
/// shorter, and nowhere from the first and the last line; home and end lead to the
/// ends of the line. The text stays.
pub proof fn law_other_moves_stay_in_the_text(s: TextState, key: KeyEvent)
    requires
        s.valid(),
        key.code == KeyCode::Up || key.code == KeyCode::Down || key.code == KeyCode::Home
            || key.code == KeyCode::End,
    ensures
        ({
            let (t, did) = s.edited(key);
            let y = if key.code == KeyCode::Up && s.y > 0 {
                s.y - 1
            } else if key.code == KeyCode::Down && s.y < s.lines.len() - 1 {
                s.y + 1
            } else {
                s.y
            };
            &&& did == EditResult::Moved
            &&& t.lines == s.lines
            &&& t.y == y
            &&& key.code == KeyCode::Home ==> t.x == 0
            &&& key.code == KeyCode::End ==> t.x == s.lines[y].len()
            &&& (key.code == KeyCode::Up || key.code == KeyCode::Down) && y == s.y ==> t.x == s.x
            &&& (key.code == KeyCode::Up || key.code == KeyCode::Down) && y != s.y ==> t.x <= s.x
                && t.x <= s.lines[y].len() && (t.x == s.x || t.x == s.lines[y].len())
        }),
{
}

/// Plain enter, chords and keys that nothing is bound to leave a text alone.
pub proof fn law_other_keys_do_nothing(s: TextState, key: KeyEvent)
    requires
        match key.code {
            KeyCode::Char(_) => key.modifiers.control || key.modifiers.alt,
            KeyCode::Enter => !key.modifiers.control && !key.modifiers.alt && !key.modifiers.shift,
            KeyCode::Esc => true,
            KeyCode::Tab => true,
            KeyCode::BackTab => true,
            KeyCode::Other => true,
            _ => false,
        },
    ensures
        s.edited(key) == (s, EditResult::Ignored),
{
}

/// The cursor stands at the end of a text exactly when there is nothing after it, and
/// putting it there leaves the text alone.
pub proof fn law_at_the_end_nothing_follows(s: TextState)
    requires
        s.valid(),
    ensures
        s == s.at_end() <==> right_of(s).len() == 0,
        right_of(s.at_end()).len() == 0,
        s.at_end().lines == s.lines,
        TextState::empty().text().len() == 0,
{
    lemma_right_end(s);
    assert(s.at_end().valid());
    lemma_right_end(s.at_end());
}

}
