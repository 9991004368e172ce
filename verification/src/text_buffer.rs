//! Text with a cursor in it.

use crate::key::{is_newline_key, KeyCode, KeyEvent};
use crate::text;
use vstd::prelude::*;

verus! {

/// What a key did to a buffer.
#[derive(Clone, Copy, PartialEq, Eq, Debug, Structural)]
pub enum EditResult {
    /// The text changed.
    Changed,
    /// The cursor may have moved; the text is the same.
    Moved,
    /// The key means nothing here.
    Ignored,
}

/// The lines of a text, none of which holds a line break, and the cursor: before
/// the `x`th character of the `y`th line.
pub struct TextState {
    pub lines: Seq<Seq<char>>,
    pub x: int,
    pub y: int,
}

impl TextState {
    /// There is a line for the cursor to stand in, and it stands in it.
    pub open spec fn valid(self) -> bool {
        &&& 0 <= self.y < self.lines.len()
        &&& 0 <= self.x <= self.line().len()
        &&& forall|i: int| 0 <= i < self.lines.len() ==> !(#[trigger] self.lines[i]).contains('\n')
    }

    /// The line the cursor is in.
    pub open spec fn line(self) -> Seq<char> {
        self.lines[self.y]
    }

    /// All of the text.
    pub open spec fn text(self) -> Seq<char> {
        text::joined(self.lines, seq!['\n'])
    }

    /// A buffer that holds `s`, with the cursor before it.
    pub open spec fn holding(s: Seq<char>) -> TextState {
        TextState { lines: text::split(s, '\n'), x: 0, y: 0 }
    }

    /// The same text with the cursor after it.
    pub open spec fn at_end(self) -> TextState {
        TextState { x: self.lines.last().len() as int, y: self.lines.len() - 1, ..self }
    }

    /// No text.
    pub open spec fn empty() -> TextState {
        TextState { lines: seq![Seq::empty()], x: 0, y: 0 }
    }

    /// A line break where the cursor was.
    pub open spec fn broken(self) -> TextState {
        let (head, tail) = (self.line().take(self.x), self.line().skip(self.x));
        TextState {
            lines: self.lines.take(self.y) + seq![head, tail] + self.lines.skip(self.y + 1),
            x: 0,
            y: self.y + 1,
        }
    }

    /// A character where the cursor was.
    pub open spec fn with_char(self, c: char) -> TextState {
        if c == '\n' {
            self.broken()
        } else {
            TextState {
                lines: self.lines.update(self.y, self.line().insert(self.x, c)),
                x: self.x + 1,
                ..self
            }
        }
    }

    /// The line after line `y` moved up to the end of it.
    pub open spec fn merged(self, y: int) -> Seq<Seq<char>> {
        self.lines.take(y) + seq![self.lines[y] + self.lines[y + 1]] + self.lines.skip(y + 2)
    }

    /// Without the character before the cursor, be it a line break.
    pub open spec fn without_previous(self) -> TextState {
        if self.x > 0 {
            TextState {
                lines: self.lines.update(self.y, self.line().remove(self.x - 1)),
                x: self.x - 1,
                ..self
            }
        } else if self.y > 0 {
            TextState {
                lines: self.merged(self.y - 1),
                x: self.lines[self.y - 1].len() as int,
                y: self.y - 1,
            }
        } else {
            self
        }
    }

    /// Without the character under the cursor, be it a line break.
    pub open spec fn without_next(self) -> TextState {
        if self.x < self.line().len() {
            TextState { lines: self.lines.update(self.y, self.line().remove(self.x)), ..self }
        } else if self.y + 1 < self.lines.len() {
            TextState { lines: self.merged(self.y), ..self }
        } else {
            self
        }
    }

    /// The cursor one character to the left, from the start of a line to the end
    /// of the one above.
    pub open spec fn left(self) -> TextState {
        if self.x > 0 {
            TextState { x: self.x - 1, ..self }
        } else if self.y > 0 {
            TextState { x: self.lines[self.y - 1].len() as int, y: self.y - 1, ..self }
        } else {
            self
        }
    }

    /// The cursor one character to the right, from the end of a line to the start
    /// of the one below.
    pub open spec fn right(self) -> TextState {
        if self.x < self.line().len() {
            TextState { x: self.x + 1, ..self }
        } else if self.y + 1 < self.lines.len() {
            TextState { x: 0, y: self.y + 1, ..self }
        } else {
            self
        }
    }

    /// The cursor in line `y`, as far along it as the line goes.
    pub open spec fn in_line(self, y: int) -> TextState {
        if 0 <= y < self.lines.len() {
            let len = self.lines[y].len();
            TextState { x: if self.x < len { self.x } else { len as int }, y, ..self }
        } else {
            self
        }
    }

    /// What a key does to a buffer.
    pub open spec fn edited(self, key: KeyEvent) -> (TextState, EditResult) {
        if key.breaks_line() {
            (self.broken(), EditResult::Changed)
        } else if key.types() is Some {
            (self.with_char(key.types()->0), EditResult::Changed)
        } else {
            match key.code {
                KeyCode::Backspace => if self.x == 0 && self.y == 0 {
                    (self, EditResult::Ignored)
                } else {
                    (self.without_previous(), EditResult::Changed)
                },
                KeyCode::Delete => if self.x == self.line().len() && self.y + 1
                    == self.lines.len() {
                    (self, EditResult::Ignored)
                } else {
                    (self.without_next(), EditResult::Changed)
                },
                KeyCode::Left => (self.left(), EditResult::Moved),
                KeyCode::Right => (self.right(), EditResult::Moved),
                KeyCode::Up => (self.in_line(self.y - 1), EditResult::Moved),
                KeyCode::Down => (self.in_line(self.y + 1), EditResult::Moved),
                KeyCode::Home => (TextState { x: 0, ..self }, EditResult::Moved),
                KeyCode::End => (
                    TextState { x: self.line().len() as int, ..self },
                    EditResult::Moved,
                ),
                _ => (self, EditResult::Ignored),
            }
        }
    }
}

/// What the lines hold.
pub open spec fn line_views(lines: Seq<Vec<char>>) -> Seq<Seq<char>> {
    lines.map_values(|line: Vec<char>| line@)
}

/// Text with a cursor in it.
pub struct TextBuffer {
    lines: Vec<Vec<char>>,
    x: usize,
    y: usize,
}

impl View for TextBuffer {
    type V = TextState;

    closed spec fn view(&self) -> TextState {
        TextState { lines: line_views(self.lines@), x: self.x as int, y: self.y as int }
    }
}

impl TextBuffer {
    /// A buffer that holds the text, with the cursor before it.
    pub fn new(value: String) -> (buffer: TextBuffer)
        ensures
            buffer@ == TextState::holding(value@),
            buffer@.valid(),
            buffer@.text() == value@,
    {
        let chars: Vec<char> = text::chars_of(value.as_str());
        let pieces: Vec<String> = text::split_text(chars.as_slice(), '\n');
        let mut lines: Vec<Vec<char>> = Vec::new();
        let mut i: usize = 0;
        while i < pieces.len()
            invariant
                i <= pieces@.len(),
                line_views(lines@) =~= text::views(pieces@).take(i as int),
            decreases pieces@.len() - i,
        {
            let ghost had = line_views(lines@);
            lines.push(text::chars_of(pieces[i].as_str()));
            assert(line_views(lines@) =~= had.push(pieces@[i as int]@));
            i += 1;
        }
        proof {
            assert(line_views(lines@) =~= text::split(value@, '\n'));
            text::lemma_split_joins(value@, '\n');
        }
        TextBuffer { lines, x: 0, y: 0 }
    }

    /// How many lines there are.
    pub fn line_count(&self) -> (n: usize)
        ensures
            n == self@.lines.len(),
    {
        self.lines.len()
    }

    /// The characters of a line.
    pub fn line(&self, y: usize) -> (line: &[char])
        requires
            y < self@.lines.len(),
        ensures
            line@ == self@.lines[y as int],
    {
        self.lines[y].as_slice()
    }

    pub fn x(&self) -> (x: usize)
        ensures
            x == self@.x,
    {
        self.x
    }

    pub fn y(&self) -> (y: usize)
        ensures
            y == self@.y,
    {
        self.y
    }

    /// All of the text.
    pub fn value(&self) -> (value: String)
        ensures
            value@ == self@.text(),
    {
        let mut pieces: Vec<String> = Vec::new();
        let mut i: usize = 0;
        while i < self.lines.len()
            invariant
                i <= self.lines@.len(),
                text::views(pieces@) =~= line_views(self.lines@).take(i as int),
            decreases self.lines@.len() - i,
        {
            let ghost had = text::views(pieces@);
            pieces.push(text::string_of(self.lines[i].as_slice()));
            assert(text::views(pieces@) =~= had.push(self.lines@[i as int]@));
            i += 1;
        }
        proof {
            assert(text::views(pieces@) =~= self@.lines);
            reveal_strlit("\n");
            assert("\n"@ =~= seq!['\n']);
        }
        text::join(&pieces, "\n")
    }

    /// Puts the cursor after the text.
    pub fn move_to_end(&mut self)
        requires
            old(self)@.valid(),
        ensures
            final(self)@ == old(self)@.at_end(),
            final(self)@.valid(),
    {
        self.y = self.lines.len() - 1;
        self.x = self.lines[self.y].len();
    }

    /// Drops the text.
    pub fn clear(&mut self)
        ensures
            final(self)@ == TextState::empty(),
            final(self)@.valid(),
            final(self)@.text() == Seq::<char>::empty(),
    {
        let mut lines: Vec<Vec<char>> = Vec::new();
        lines.push(Vec::new());
        self.lines = lines;
        self.x = 0;
        self.y = 0;
        assert(line_views(self.lines@) =~= seq![Seq::empty()]);
    }

    /// Breaks the line at the cursor.
    pub fn add_line(&mut self)
        requires
            old(self)@.valid(),
        ensures
            final(self)@ == old(self)@.broken(),
            final(self)@.valid(),
    {
        let ghost was = self@;
        let line: Vec<char> = self.lines.remove(self.y);
        let head: Vec<char> = vstd::slice::slice_to_vec(
            vstd::slice::slice_subrange(line.as_slice(), 0, self.x),
        );
        let tail: Vec<char> = vstd::slice::slice_to_vec(
            vstd::slice::slice_subrange(line.as_slice(), self.x, line.len()),
        );
        self.lines.insert(self.y, tail);
        self.lines.insert(self.y, head);
        let count: usize = self.lines.len();
        assert(count == was.lines.len() + 1);
        self.x = 0;
        self.y = self.y + 1;
        proof {
            assert(self@.lines =~= was.broken().lines);
            assert forall|i: int| 0 <= i < self@.lines.len() implies !(
            #[trigger] self@.lines[i]).contains('\n') by {
                assert(!was.line().contains('\n'));
                if i < was.y {
                    assert(self@.lines[i] == was.lines[i]);
                } else if i > was.y + 1 {
                    assert(self@.lines[i] == was.lines[i - 1]);
                }
            }
        }
    }

    /// Puts a character where the cursor is.
    fn insert_char(&mut self, c: char)
        requires
            old(self)@.valid(),
        ensures
            final(self)@ == old(self)@.with_char(c),
            final(self)@.valid(),
    {
        if c == '\n' {
            self.add_line();
            return;
        }
        let ghost was = self@;
        let y: usize = self.y;
        let mut line: Vec<char> = self.lines.remove(y);
        line.insert(self.x, c);
        let len: usize = line.len();
        self.lines.insert(y, line);
        assert(self.x < len);
        self.x = self.x + 1;
        proof {
            assert(self@.lines =~= was.with_char(c).lines);
            self.lemma_still_no_breaks(was, was.y);
            assert forall|k: int| 0 <= k < self@.line().len() implies #[trigger] self@.line()[k]
                != '\n' by {
                assert(!was.line().contains('\n'));
                if k < was.x {
                    assert(self@.line()[k] == was.line()[k]);
                } else if k > was.x {
                    assert(self@.line()[k] == was.line()[k - 1]);
                }
            }
        }
    }

    /// Only line `y` may have come to hold a line break when no other changed.
    proof fn lemma_still_no_breaks(&self, was: TextState, y: int)
        requires
            was.valid(),
            self@.lines.len() == was.lines.len(),
            forall|i: int| 0 <= i < was.lines.len() && i != y ==> self@.lines[i] == was.lines[i],
        ensures
            forall|i: int|
                0 <= i < self@.lines.len() && i != y ==> !(#[trigger] self@.lines[i]).contains(
                    '\n',
                ),
    {
        assert forall|i: int| 0 <= i < self@.lines.len() && i != y implies !(
        #[trigger] self@.lines[i]).contains('\n') by {
            assert(self@.lines[i] == was.lines[i]);
        }
    }

    /// Moves the line after line `y` up to the end of it.
    fn merge(&mut self, y: usize)
        requires
            old(self)@.valid(),
            y + 1 < old(self)@.lines.len(),
        ensures
            final(self)@.lines == old(self)@.merged(y as int),
            final(self)@.x == old(self)@.x,
            final(self)@.y == old(self)@.y,
            forall|i: int|
                0 <= i < final(self)@.lines.len() ==> !(
                #[trigger] final(self)@.lines[i]).contains('\n'),
    {
        let ghost was = self@;
        let count: usize = self.lines.len();
        assert(y + 1 < count);
        let mut next: Vec<char> = self.lines.remove(y + 1);
        let mut line: Vec<char> = self.lines.remove(y);
        line.append(&mut next);
        self.lines.insert(y, line);
        proof {
            assert(self@.lines =~= was.merged(y as int));
            assert forall|i: int| 0 <= i < self@.lines.len() implies !(
            #[trigger] self@.lines[i]).contains('\n') by {
                assert(!was.lines[y as int].contains('\n'));
                assert(!was.lines[y + 1].contains('\n'));
                if i < y {
                    assert(self@.lines[i] == was.lines[i]);
                } else if i > y {
                    assert(self@.lines[i] == was.lines[i + 1]);
                } else {
                    let merged = was.lines[y as int] + was.lines[y + 1];
                    assert(self@.lines[i] == merged);
                    assert forall|k: int| 0 <= k < merged.len() implies #[trigger] merged[k]
                        != '\n' by {
                        let len = was.lines[y as int].len();
                        if k < len {
                            assert(merged[k] == was.lines[y as int][k]);
                        } else {
                            assert(merged[k] == was.lines[y + 1][k - len]);
                        }
                    }
                }
            }
        }
    }

    /// Drops character `x` of the line the cursor is in.
    fn remove_at(&mut self, x: usize)
        requires
            old(self)@.valid(),
            x < old(self)@.line().len(),
        ensures
            final(self)@.lines == old(self)@.lines.update(
                old(self)@.y,
                old(self)@.line().remove(x as int),
            ),
            final(self)@.x == old(self)@.x,
            final(self)@.y == old(self)@.y,
            forall|i: int|
                0 <= i < final(self)@.lines.len() ==> !(
                #[trigger] final(self)@.lines[i]).contains('\n'),
    {
        let ghost was = self@;
        let y: usize = self.y;
        let mut line: Vec<char> = self.lines.remove(y);
        let _dropped: char = line.remove(x);
        self.lines.insert(y, line);
        proof {
            assert(self@.lines =~= was.lines.update(was.y, was.line().remove(x as int)));
            self.lemma_still_no_breaks(was, was.y);
            let now = was.line().remove(x as int);
            assert forall|k: int| 0 <= k < now.len() implies #[trigger] now[k] != '\n' by {
                assert(!was.line().contains('\n'));
                if k < x {
                    assert(now[k] == was.line()[k]);
                } else {
                    assert(now[k] == was.line()[k + 1]);
                }
            }
        }
    }

    fn move_to_line(&mut self, y: usize)
        requires
            old(self)@.valid(),
            y < old(self)@.lines.len(),
        ensures
            final(self)@ == old(self)@.in_line(y as int),
            final(self)@.valid(),
    {
        let len: usize = self.lines[y].len();
        if self.x >= len {
            self.x = len;
        }
        self.y = y;
    }

    /// Does what a key asks for and says what that was.
    pub fn handle_key(&mut self, key: KeyEvent) -> (r: EditResult)
        requires
            old(self)@.valid(),
        ensures
            (final(self)@, r) == old(self)@.edited(key),
            final(self)@.valid(),
    {
        if is_newline_key(&key) {
            self.add_line();
            return EditResult::Changed;
        }
        if let Some(c) = key.typed() {
            self.insert_char(c);
            return EditResult::Changed;
        }
        let len: usize = self.lines[self.y].len();
        let count: usize = self.lines.len();
        match key.code {
            KeyCode::Backspace => {
                if self.x > 0 {
                    let x: usize = self.x - 1;
                    self.remove_at(x);
                    self.x = x;
                } else if self.y > 0 {
                    let y: usize = self.y - 1;
                    let x: usize = self.lines[y].len();
                    self.merge(y);
                    self.x = x;
                    self.y = y;
                } else {
                    return EditResult::Ignored;
                }
                EditResult::Changed
            },
            KeyCode::Delete => {
                if self.x < len {
                    let x: usize = self.x;
                    self.remove_at(x);
                } else if self.y < count - 1 {
                    let y: usize = self.y;
                    self.merge(y);
                } else {
                    return EditResult::Ignored;
                }
                EditResult::Changed
            },
            KeyCode::Left => {
                if self.x > 0 {
                    self.x = self.x - 1;
                } else if self.y > 0 {
                    self.y = self.y - 1;
                    self.x = self.lines[self.y].len();
                }
                EditResult::Moved
            },
            KeyCode::Right => {
                if self.x < len {
                    self.x = self.x + 1;
                } else if self.y < count - 1 {
                    self.y = self.y + 1;
                    self.x = 0;
                }
                EditResult::Moved
            },
            KeyCode::Up => {
                if self.y > 0 {
                    let y: usize = self.y - 1;
                    self.move_to_line(y);
                }
                EditResult::Moved
            },
            KeyCode::Down => {
                if self.y < count - 1 {
                    let y: usize = self.y + 1;
                    self.move_to_line(y);
                }
                EditResult::Moved
            },
            KeyCode::Home => {
                self.x = 0;
                EditResult::Moved
            },
            KeyCode::End => {
                self.x = len;
                EditResult::Moved
            },
            _ => EditResult::Ignored,
        }
    }
}

/// Backspace takes back what was typed, be it a line break.
pub proof fn law_backspace_takes_back(s: TextState, c: char)
    requires
        s.valid(),
    ensures
        s.with_char(c).without_previous() == s,
{
    let after = s.with_char(c);
    if c == '\n' {
        let (head, tail) = (s.line().take(s.x), s.line().skip(s.x));
        assert(after.lines[s.y] == head && after.lines[s.y + 1] == tail);
        assert(head + tail =~= s.line());
        assert(after.lines.take(s.y) =~= s.lines.take(s.y));
        assert(after.lines.skip(s.y + 2) =~= s.lines.skip(s.y + 1));
        assert(after.merged(s.y) =~= s.lines);
    } else {
        assert(s.line().insert(s.x, c).remove(s.x) =~= s.line());
        assert(after.without_previous().lines =~= s.lines);
    }
}

}
