//! Lines of text in which every piece says what it is, so that a theme can
//! decide how it looks.

use vstd::prelude::*;

verus! {

/// What a piece of text is there for.
#[derive(Clone, Copy, PartialEq, Eq, Debug, Structural)]
pub enum Tone {
    Plain,
    /// The cell under the cursor.
    Cursor,
    /// What can be overlooked.
    Dim,
    /// The title of a panel that has the focus.
    Title,
    Error,
    /// A key to press.
    Key,
    /// The heading over some keys.
    KeySection,
    /// What a key does.
    KeyDescription,
}

pub struct Span {
    pub text: String,
    pub tone: Tone,
}

pub struct Line {
    pub spans: Vec<Span>,
}

/// A piece of a line: what it says and what it is there for.
pub struct Piece {
    pub text: Seq<char>,
    pub tone: Tone,
}

impl View for Span {
    type V = Piece;

    open spec fn view(&self) -> Piece {
        Piece { text: self.text@, tone: self.tone }
    }
}

pub open spec fn pieces(spans: Seq<Span>) -> Seq<Piece> {
    spans.map_values(|span: Span| span@)
}

impl View for Line {
    type V = Seq<Piece>;

    open spec fn view(&self) -> Seq<Piece> {
        pieces(self.spans@)
    }
}

/// What lines show.
pub open spec fn shown(lines: Seq<Line>) -> Seq<Seq<Piece>> {
    lines.map_values(|line: Line| line@)
}

impl Line {
    /// A line with nothing in it.
    pub fn empty() -> (line: Line)
        ensures
            line@ == Seq::<Piece>::empty(),
    {
        let line: Line = Line { spans: Vec::new() };
        assert(line@ =~= Seq::<Piece>::empty());
        line
    }

    /// Adds a piece at the end of the line.
    pub fn push(&mut self, text: String, tone: Tone)
        ensures
            final(self)@ == old(self)@.push(Piece { text: text@, tone }),
    {
        let ghost had = self@;
        let ghost t = text@;
        self.spans.push(Span { text, tone });
        assert(self@ =~= had.push(Piece { text: t, tone }));
    }

    /// A line of one piece.
    pub fn of(text: String, tone: Tone) -> (line: Line)
        ensures
            line@ == seq![Piece { text: text@, tone }],
    {
        let mut line: Line = Line::empty();
        line.push(text, tone);
        line
    }

    /// Adds the pieces of another line at the end of this one.
    pub fn extend(&mut self, other: Line)
        ensures
            final(self)@ == old(self)@ + other@,
    {
        let ghost had = self@;
        let mut other: Line = other;
        let ghost more = other@;
        self.spans.append(&mut other.spans);
        assert(self@ =~= had + more);
    }
}

/// Adds a line after the others.
pub fn push_line(lines: &mut Vec<Line>, line: Line)
    ensures
        shown(final(lines)@) == shown(old(lines)@).push(line@),
{
    let ghost had = shown(lines@);
    lines.push(line);
    assert(shown(lines@) =~= had.push(line@));
}

/// Adds lines after the others.
pub fn append_lines(lines: &mut Vec<Line>, more: Vec<Line>)
    ensures
        shown(final(lines)@) == shown(old(lines)@) + shown(more@),
{
    let ghost had = shown(lines@);
    let ghost added = shown(more@);
    let mut more: Vec<Line> = more;
    lines.append(&mut more);
    assert(shown(lines@) =~= had + added);
}

/// One key and what it does.
pub open spec fn hint_pieces(key: Seq<char>, description: Seq<char>) -> Seq<Piece> {
    seq![
        Piece { text: "  "@ + key, tone: Tone::Key },
        Piece { text: " "@ + description, tone: Tone::Dim },
    ]
}

/// Keys and what they do, side by side.
pub open spec fn hints_shown(hints: Seq<(Seq<char>, Seq<char>)>) -> Seq<Piece>
    decreases hints.len(),
{
    if hints.len() == 0 {
        Seq::empty()
    } else {
        hints_shown(hints.drop_last()) + hint_pieces(hints.last().0, hints.last().1)
    }
}

/// What pairs of strings hold.
pub open spec fn pair_views(pairs: Seq<(&str, &str)>) -> Seq<(Seq<char>, Seq<char>)> {
    pairs.map_values(|pair: (&str, &str)| (pair.0@, pair.1@))
}

/// A line of keys and what they do.
pub fn hint_line(hints: &[(&str, &str)]) -> (line: Line)
    ensures
        line@ == hints_shown(pair_views(hints@)),
{
    let mut line: Line = Line::empty();
    let mut i: usize = 0;
    let ghost all = pair_views(hints@);
    assert(all.take(0) =~= Seq::empty());
    while i < hints.len()
        invariant
            all == pair_views(hints@),
            i <= hints@.len(),
            line@ == hints_shown(all.take(i as int)),
        decreases hints@.len() - i,
    {
        let (key, description): (&str, &str) = hints[i];
        let ghost had = line@;
        let mut left: String = "  ".to_string();
        left.append(key);
        let mut right: String = " ".to_string();
        right.append(description);
        line.push(left, Tone::Key);
        line.push(right, Tone::Dim);
        proof {
            assert(all.take(i + 1).drop_last() =~= all.take(i as int));
            assert(all.take(i + 1).last() == (key@, description@));
            assert(line@ =~= had + hint_pieces(key@, description@));
        }
        i += 1;
    }
    assert(all.take(i as int) =~= all);
    line
}

}
