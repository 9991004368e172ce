//! What trimming, splitting and ordering come to, read off the characters.

use crate::text;
use crate::text::CharClass;
use vstd::prelude::*;

verus! {

/// A run of one kind of characters in front of text that begins otherwise goes, and
/// nothing else.
pub proof fn law_a_run_in_front_goes(run: Seq<char>, rest: Seq<char>, class: CharClass)
    requires
        forall|i: int| 0 <= i < run.len() ==> class.includes(#[trigger] run[i]),
        rest.len() > 0 ==> !class.includes(rest[0]),
    ensures
        text::without_leading(run + rest, class) == rest,
{
    let s = run + rest;
    assert forall|i: int| 0 <= i < run.len() implies class.includes(#[trigger] s[i]) by {
        assert(s[i] == run[i]);
    }
    text::lemma_leading_is(s, class, run.len() as int);
    assert(s.skip(run.len() as int) =~= rest);
}

/// A run of one kind of characters behind text that ends otherwise goes, and nothing
/// else.
pub proof fn law_a_run_behind_goes(rest: Seq<char>, run: Seq<char>, class: CharClass)
    requires
        forall|i: int| 0 <= i < run.len() ==> class.includes(#[trigger] run[i]),
        rest.len() > 0 ==> !class.includes(rest.last()),
    ensures
        text::without_trailing(rest + run, class) == rest,
{
    let s = rest + run;
    assert forall|i: int| s.len() - run.len() <= i < s.len() implies class.includes(
        #[trigger] s[i],
    ) by {
        assert(s[i] == run[i - rest.len()]);
    }
    text::lemma_trailing_is(s, class, run.len() as int);
    assert(s.take(rest.len() as int) =~= rest);
}

/// Trimming takes off the white space in front and the white space behind, and
/// nothing else.
pub proof fn law_white_space_around_goes(before: Seq<char>, middle: Seq<char>, after: Seq<char>)
    requires
        forall|i: int| 0 <= i < before.len() ==> text::white_space(#[trigger] before[i]),
        forall|i: int| 0 <= i < after.len() ==> text::white_space(#[trigger] after[i]),
        middle.len() > 0,
        !text::white_space(middle[0]),
        !text::white_space(middle.last()),
    ensures
        text::trimmed(before + middle + after) == middle,
        text::trimmed_start(before + middle + after) == middle + after,
        text::trimmed_end(before + middle + after) == before + middle,
        text::trimmed_end(middle + after) == middle,
        text::trimmed_end(middle) == middle,
        text::trimmed_start(middle) == middle,
        text::trimmed(middle) == middle,
{
    let class = CharClass::WhiteSpace;
    assert(before + middle + after =~= before + (middle + after));
    law_a_run_in_front_goes(before, middle + after, class);
    law_a_run_behind_goes(middle, after, class);
    assert((before + middle).last() == middle.last());
    law_a_run_behind_goes(before + middle, after, class);
    law_a_run_in_front_goes(Seq::empty(), middle, class);
    law_a_run_behind_goes(middle, Seq::empty(), class);
    assert(Seq::<char>::empty() + middle =~= middle);
    assert(middle + Seq::<char>::empty() =~= middle);
}

/// Nothing is left of text that is all white space.
pub proof fn law_blank_text_vanishes(s: Seq<char>)
    requires
        forall|i: int| 0 <= i < s.len() ==> text::white_space(#[trigger] s[i]),
    ensures
        text::blank(s),
        text::trimmed(s).len() == 0,
        text::trimmed_start(s).len() == 0,
        text::trimmed_end(s).len() == 0,
{
    let class = CharClass::WhiteSpace;
    law_a_run_in_front_goes(s, Seq::empty(), class);
    law_a_run_behind_goes(Seq::empty(), s, class);
    assert(s + Seq::<char>::empty() =~= s);
    assert(Seq::<char>::empty() + s =~= s);
    assert(text::trailing(Seq::empty(), class) == 0);
    assert(text::trimmed_start(s) =~= Seq::<char>::empty());
}

/// One character that is not white space makes text not blank.
pub proof fn law_text_with_something_in_it_is_not_blank(s: Seq<char>, i: int)
    requires
        0 <= i < s.len(),
        !text::white_space(s[i]),
    ensures
        !text::blank(s),
        text::trimmed(s).len() > 0,
{
    assert(!text::blank(s));
    text::lemma_leading(s, CharClass::WhiteSpace);
    let n = text::leading(s, CharClass::WhiteSpace) as int;
    if n == s.len() {
        assert(text::white_space(s[i]));
    }
    let start = text::trimmed_start(s);
    text::lemma_trailing(start, CharClass::WhiteSpace);
    if text::trailing(start, CharClass::WhiteSpace) == start.len() {
        assert(CharClass::WhiteSpace.includes(start[0]));
        assert(start[0] == s[n]);
    }
}

/// The characters of each kind.
pub proof fn law_kinds_of_characters(c: char)
    ensures
        CharClass::WhiteSpace.includes(c) <==> text::white_space(c),
        CharClass::Bullet.includes(c) <==> "-*•"@.contains(c),
        CharClass::Digit.includes(c) <==> 48 <= c as int <= 57,
        CharClass::NumberMark.includes(c) <==> ".)"@.contains(c),
        CharClass::DoubleQuote.includes(c) <==> c as int == 34,
{
    reveal_strlit("-*•");
    reveal_strlit(".)");
    let bullets = "-*•"@;
    let marks = ".)"@;
    assert(bullets[0] == '-' && bullets[1] == '*' && bullets[2] == '•' && bullets.len() == 3);
    assert(marks[0] == '.' && marks[1] == ')' && marks.len() == 2);
    assert(bullets.contains(c) <==> c == bullets[0] || c == bullets[1] || c == bullets[2]);
    assert(marks.contains(c) <==> c == marks[0] || c == marks[1]);
}

/// Text up to a separator, the separator and the rest split into that text and the
/// pieces of the rest.
pub proof fn law_a_separator_ends_a_piece(piece: Seq<char>, rest: Seq<char>, separator: char)
    requires
        !piece.contains(separator),
    ensures
        text::before(piece + seq![separator] + rest, separator) == piece.len(),
        text::split(piece + seq![separator] + rest, separator) == seq![piece] + text::split(
            rest,
            separator,
        ),
{
    let s = piece + seq![separator] + rest;
    let at = piece.len() as int;
    assert(s[at] == separator);
    assert forall|i: int| 0 <= i < at implies #[trigger] s[i] != separator by {
        assert(piece[i] == s[i]);
    }
    text::lemma_before_is(s, separator, at);
    assert(s.take(at) =~= piece);
    assert(s.skip(at + 1) =~= rest);
}

/// Text without a separator is one piece.
pub proof fn law_no_separator_one_piece(s: Seq<char>, separator: char)
    requires
        !s.contains(separator),
    ensures
        text::before(s, separator) == s.len(),
        text::split(s, separator) == seq![s],
{
    text::lemma_before(s, separator);
    if text::before(s, separator) < s.len() {
        assert(s[text::before(s, separator) as int] == separator);
    }
}

/// Joined text is the first piece, and for each further one the separator and that
/// piece.
pub proof fn law_joining_goes_on_at_the_end(
    pieces: Seq<Seq<char>>,
    piece: Seq<char>,
    separator: Seq<char>,
)
    ensures
        text::joined(Seq::empty(), separator).len() == 0,
        pieces.len() == 0 ==> text::joined(pieces.push(piece), separator) == piece,
        pieces.len() > 0 ==> text::joined(pieces.push(piece), separator) == text::joined(
            pieces,
            separator,
        ) + separator + piece,
    decreases pieces.len(),
{
    let more = pieces.push(piece);
    if pieces.len() > 0 {
        law_joining_goes_on_at_the_end(pieces.skip(1), piece, separator);
        assert(more.skip(1) =~= pieces.skip(1).push(piece));
        if pieces.len() == 1 {
            assert(text::joined(more.skip(1), separator) == piece);
        } else {
            assert(text::joined(more, separator) =~= text::joined(pieces, separator) + separator
                + piece);
        }
    }
}

/// The first character in which two texts differ decides their order.
pub proof fn law_the_first_difference_decides(a: Seq<char>, b: Seq<char>, i: int)
    requires
        0 <= i < a.len(),
        i < b.len(),
        a.take(i) == b.take(i),
        a[i] < b[i],
    ensures
        text::in_order(a, b),
        !text::in_order(b, a),
    decreases i,
{
    if i > 0 {
        assert(a[0] == a.take(i)[0] && b[0] == b.take(i)[0]);
        assert(a.skip(1).take(i - 1) =~= a.take(i).skip(1));
        assert(b.skip(1).take(i - 1) =~= b.take(i).skip(1));
        law_the_first_difference_decides(a.skip(1), b.skip(1), i - 1);
    }
}

/// Text comes before what continues it.
pub proof fn law_text_comes_before_what_continues_it(a: Seq<char>, more: Seq<char>)
    ensures
        text::in_order(a, a + more),
        more.len() > 0 ==> !text::in_order(a + more, a),
    decreases a.len(),
{
    if a.len() > 0 {
        law_text_comes_before_what_continues_it(a.skip(1), more);
        assert((a + more).skip(1) =~= a.skip(1) + more);
    }
}

}
