//! Text as a sequence of characters.
//!
//! Everything that reads or cuts text works on `&[char]`, so a position is a
//! character and never the inside of one. `chars_of` and `string_of` are the way
//! in and out.

use vstd::prelude::*;
use vstd::slice::slice_subrange;

verus! {

/// `String::push`: appends one character and changes nothing before it.
pub assume_specification[ String::push ](s: &mut String, c: char)
    ensures
        final(s)@ == old(s)@.push(c),
;

/// The kinds of characters that get trimmed off the ends of a text.
#[derive(Clone, Copy, PartialEq, Eq, Debug, Structural)]
pub enum CharClass {
    WhiteSpace,
    /// A list bullet: `-`, `*` or `•`.
    Bullet,
    Digit,
    /// What follows the number of a numbered line: `.` or `)`.
    NumberMark,
    DoubleQuote,
}

/// The characters with the Unicode property `White_Space`.
pub open spec fn white_space(c: char) -> bool {
    ||| '\u{9}' <= c <= '\u{d}'
    ||| c == ' '
    ||| c == '\u{85}'
    ||| c == '\u{a0}'
    ||| c == '\u{1680}'
    ||| '\u{2000}' <= c <= '\u{200a}'
    ||| c == '\u{2028}'
    ||| c == '\u{2029}'
    ||| c == '\u{202f}'
    ||| c == '\u{205f}'
    ||| c == '\u{3000}'
}

impl CharClass {
    pub open spec fn includes(self, c: char) -> bool {
        match self {
            CharClass::WhiteSpace => white_space(c),
            CharClass::Bullet => c == '-' || c == '*' || c == '•',
            CharClass::Digit => '0' <= c <= '9',
            CharClass::NumberMark => c == '.' || c == ')',
            CharClass::DoubleQuote => c == '"',
        }
    }

    pub fn has(self, c: char) -> (r: bool)
        ensures
            r == self.includes(c),
    {
        match self {
            CharClass::WhiteSpace => is_white_space(c),
            CharClass::Bullet => c == '-' || c == '*' || c == '•',
            CharClass::Digit => '0' <= c && c <= '9',
            CharClass::NumberMark => c == '.' || c == ')',
            CharClass::DoubleQuote => c == '"',
        }
    }
}

pub fn is_white_space(c: char) -> (r: bool)
    ensures
        r == white_space(c),
{
    ('\u{9}' <= c && c <= '\u{d}') || c == ' ' || c == '\u{85}' || c == '\u{a0}' || c == '\u{1680}'
        || ('\u{2000}' <= c && c <= '\u{200a}') || c == '\u{2028}' || c == '\u{2029}' || c
        == '\u{202f}' || c == '\u{205f}' || c == '\u{3000}'
}

/// How many characters of the class `s` begins with.
pub open spec fn leading(s: Seq<char>, class: CharClass) -> nat
    decreases s.len(),
{
    if s.len() > 0 && class.includes(s[0]) {
        1 + leading(s.skip(1), class)
    } else {
        0
    }
}

/// How many characters of the class `s` ends with.
pub open spec fn trailing(s: Seq<char>, class: CharClass) -> nat
    decreases s.len(),
{
    if s.len() > 0 && class.includes(s.last()) {
        1 + trailing(s.drop_last(), class)
    } else {
        0
    }
}

pub open spec fn without_leading(s: Seq<char>, class: CharClass) -> Seq<char> {
    s.skip(leading(s, class) as int)
}

pub open spec fn without_trailing(s: Seq<char>, class: CharClass) -> Seq<char> {
    s.take(s.len() - trailing(s, class))
}

/// `s` without the white space it begins with.
pub open spec fn trimmed_start(s: Seq<char>) -> Seq<char> {
    without_leading(s, CharClass::WhiteSpace)
}

/// `s` without the white space it ends with.
pub open spec fn trimmed_end(s: Seq<char>) -> Seq<char> {
    without_trailing(s, CharClass::WhiteSpace)
}

/// `s` without the white space around it.
pub open spec fn trimmed(s: Seq<char>) -> Seq<char> {
    trimmed_end(trimmed_start(s))
}

/// Nothing but white space.
pub open spec fn blank(s: Seq<char>) -> bool {
    forall|i: int| 0 <= i < s.len() ==> white_space(#[trigger] s[i])
}

/// `part` is a run of neighbouring characters of `whole`.
#[verifier::opaque]
pub open spec fn cut_from(part: Seq<char>, whole: Seq<char>) -> bool {
    exists|from: int, to: int|
        0 <= from <= to <= whole.len() && part == #[trigger] whole.subrange(from, to)
}

/// How many characters of `s` stand before the first `c`, all of them when there
/// is none.
pub open spec fn before(s: Seq<char>, c: char) -> nat
    decreases s.len(),
{
    if s.len() == 0 || s[0] == c {
        0
    } else {
        1 + before(s.skip(1), c)
    }
}

/// The pieces of `s` between the separators, as many as there are separators and
/// one more.
pub open spec fn split(s: Seq<char>, separator: char) -> Seq<Seq<char>>
    decreases s.len(),
{
    let at: int = before(s, separator) as int;
    if at < s.len() {
        seq![s.take(at)] + split(s.skip(at + 1), separator)
    } else {
        seq![s]
    }
}

/// The pieces one after the other with the separator between any two.
pub open spec fn joined(pieces: Seq<Seq<char>>, separator: Seq<char>) -> Seq<char>
    decreases pieces.len(),
{
    if pieces.len() == 0 {
        Seq::empty()
    } else if pieces.len() == 1 {
        pieces[0]
    } else {
        pieces[0] + separator + joined(pieces.skip(1), separator)
    }
}

/// What the strings hold.
pub open spec fn views(strings: Seq<String>) -> Seq<Seq<char>> {
    strings.map_values(|s: String| s@)
}

/// What an optional string holds.
pub open spec fn option_view(string: Option<String>) -> Option<Seq<char>> {
    match string {
        Some(string) => Some(string@),
        None => None,
    }
}

/// Strings are ordered by the first character in which they differ; a string
/// comes before the longer ones that begin with it.
pub open spec fn in_order(a: Seq<char>, b: Seq<char>) -> bool
    decreases a.len(),
{
    if a.len() == 0 {
        true
    } else if b.len() == 0 {
        false
    } else if a[0] != b[0] {
        a[0] < b[0]
    } else {
        in_order(a.skip(1), b.skip(1))
    }
}

/// The characters of a string.
pub fn chars_of(text: &str) -> (chars: Vec<char>)
    ensures
        chars@ == text@,
{
    let mut chars: Vec<char> = Vec::new();
    for c in it: text.chars()
        invariant
            chars@ == it.seq().take(it.index() as int),
            it.seq() == text@,
    {
        chars.push(c);
    }
    assert(text@.take(text@.len() as int) =~= text@);
    chars
}

/// The string that holds these characters.
pub fn string_of(chars: &[char]) -> (text: String)
    ensures
        text@ == chars@,
{
    let mut text: String = String::new();
    let mut i: usize = 0;
    while i < chars.len()
        invariant
            i <= chars@.len(),
            text@ == chars@.take(i as int),
        decreases chars@.len() - i,
    {
        text.push(chars[i]);
        i += 1;
        assert(chars@.take(i as int) =~= chars@.take(i - 1).push(chars@[i - 1]));
    }
    assert(chars@.take(i as int) =~= chars@);
    text
}

/// A run at the front is as long as it can be.
pub proof fn lemma_leading(s: Seq<char>, class: CharClass)
    ensures
        leading(s, class) <= s.len(),
        forall|i: int| 0 <= i < leading(s, class) ==> class.includes(#[trigger] s[i]),
        leading(s, class) < s.len() ==> !class.includes(s[leading(s, class) as int]),
    decreases s.len(),
{
    if s.len() > 0 && class.includes(s[0]) {
        let rest = s.skip(1);
        lemma_leading(rest, class);
        assert forall|i: int| 0 <= i < leading(s, class) implies class.includes(
            #[trigger] s[i],
        ) by {
            if i > 0 {
                assert(s[i] == rest[i - 1]);
            }
        }
    }
}

/// A run at the back is as long as it can be.
pub proof fn lemma_trailing(s: Seq<char>, class: CharClass)
    ensures
        trailing(s, class) <= s.len(),
        forall|i: int|
            s.len() - trailing(s, class) <= i < s.len() ==> class.includes(#[trigger] s[i]),
        trailing(s, class) < s.len() ==> !class.includes(s[s.len() - trailing(s, class) - 1]),
    decreases s.len(),
{
    if s.len() > 0 && class.includes(s.last()) {
        let rest = s.drop_last();
        lemma_trailing(rest, class);
        assert forall|i: int| s.len() - trailing(s, class) <= i < s.len() implies class.includes(
            #[trigger] s[i],
        ) by {
            if i < s.len() - 1 {
                assert(s[i] == rest[i]);
            }
        }
    }
}

/// A run at the front is known by its length: what it holds and what stops it.
pub proof fn lemma_leading_is(s: Seq<char>, class: CharClass, n: int)
    requires
        0 <= n <= s.len(),
        forall|i: int| 0 <= i < n ==> class.includes(#[trigger] s[i]),
        n < s.len() ==> !class.includes(s[n]),
    ensures
        leading(s, class) == n,
{
    lemma_leading(s, class);
}

/// A run at the back is known by its length: what it holds and what stops it.
pub proof fn lemma_trailing_is(s: Seq<char>, class: CharClass, n: int)
    requires
        0 <= n <= s.len(),
        forall|i: int| s.len() - n <= i < s.len() ==> class.includes(#[trigger] s[i]),
        n < s.len() ==> !class.includes(s[s.len() - n - 1]),
    ensures
        trailing(s, class) == n,
{
    lemma_trailing(s, class);
}

/// Any run of neighbouring characters is a cut.
pub proof fn lemma_cut_at(whole: Seq<char>, from: int, to: int)
    requires
        0 <= from <= to <= whole.len(),
    ensures
        cut_from(whole.subrange(from, to), whole),
{
    reveal(cut_from);
}

/// Trimming keeps a run of neighbouring characters.
pub proof fn lemma_trims_cut(s: Seq<char>, class: CharClass)
    ensures
        cut_from(s, s),
        cut_from(without_leading(s, class), s),
        cut_from(without_trailing(s, class), s),
{
    lemma_leading(s, class);
    lemma_trailing(s, class);
    let a = leading(s, class) as int;
    let b = s.len() - trailing(s, class);
    lemma_cut_at(s, 0, s.len() as int);
    lemma_cut_at(s, a, s.len() as int);
    lemma_cut_at(s, 0, b);
    assert(s =~= s.subrange(0, s.len() as int));
    assert(without_leading(s, class) =~= s.subrange(a, s.len() as int));
    assert(without_trailing(s, class) =~= s.subrange(0, b));
}

/// A cut of a cut is a cut of the whole.
pub proof fn lemma_cut_of_cut(a: Seq<char>, b: Seq<char>, c: Seq<char>)
    requires
        cut_from(a, b),
        cut_from(b, c),
    ensures
        cut_from(a, c),
{
    reveal(cut_from);
    let (f, t) = choose|f: int, t: int|
        0 <= f <= t <= b.len() && a == #[trigger] b.subrange(f, t);
    let (g, u) = choose|g: int, u: int|
        0 <= g <= u <= c.len() && b == #[trigger] c.subrange(g, u);
    assert(a =~= c.subrange(g + f, g + t));
}

/// Trimming white space keeps a run of neighbouring characters and leaves no
/// white space at either end of it.
pub proof fn lemma_trimmed(s: Seq<char>)
    ensures
        cut_from(trimmed(s), s),
        trimmed(s).len() > 0 ==> !white_space(trimmed(s)[0]) && !white_space(trimmed(s).last()),
        trimmed(s).len() == 0 <==> blank(s),
{
    let t = trimmed_start(s);
    lemma_trims_cut(s, CharClass::WhiteSpace);
    lemma_trims_cut(t, CharClass::WhiteSpace);
    lemma_cut_of_cut(trimmed(s), t, s);
    lemma_leading(s, CharClass::WhiteSpace);
    lemma_trailing(t, CharClass::WhiteSpace);
    let a = leading(s, CharClass::WhiteSpace) as int;
    assert(CharClass::WhiteSpace.includes('x') == white_space('x'));
    if trimmed(s).len() > 0 {
        assert(trimmed(s)[0] == s[a]);
        assert(!CharClass::WhiteSpace.includes(s[a]));
        assert(!CharClass::WhiteSpace.includes(trimmed(s).last()));
        assert(!white_space(s[a]));
    } else {
        assert forall|i: int| 0 <= i < s.len() implies white_space(#[trigger] s[i]) by {
            if i < a {
                assert(CharClass::WhiteSpace.includes(s[i]));
            } else {
                assert(t[i - a] == s[i]);
                assert(CharClass::WhiteSpace.includes(t[i - a]));
            }
        }
    }
}

/// What stands before the first separator holds none.
pub proof fn lemma_before(s: Seq<char>, c: char)
    ensures
        before(s, c) <= s.len(),
        forall|i: int| 0 <= i < before(s, c) ==> #[trigger] s[i] != c,
        before(s, c) < s.len() ==> s[before(s, c) as int] == c,
    decreases s.len(),
{
    if s.len() > 0 && s[0] != c {
        let rest = s.skip(1);
        lemma_before(rest, c);
        assert forall|i: int| 0 <= i < before(s, c) implies #[trigger] s[i] != c by {
            if i > 0 {
                assert(s[i] == rest[i - 1]);
            }
        }
    }
}

/// The first separator is known by where it stands.
pub proof fn lemma_before_is(s: Seq<char>, c: char, n: int)
    requires
        0 <= n <= s.len(),
        forall|i: int| 0 <= i < n ==> #[trigger] s[i] != c,
        n < s.len() ==> s[n] == c,
    ensures
        before(s, c) == n,
{
    lemma_before(s, c);
}

/// Joining what was split gives the text back, and no piece holds a separator.
pub proof fn lemma_split_joins(s: Seq<char>, c: char)
    ensures
        joined(split(s, c), seq![c]) == s,
        split(s, c).len() > 0,
        forall|i: int| 0 <= i < split(s, c).len() ==> !(#[trigger] split(s, c)[i]).contains(c),
    decreases s.len(),
{
    lemma_before(s, c);
    let at = before(s, c) as int;
    if at < s.len() {
        let rest = s.skip(at + 1);
        lemma_split_joins(rest, c);
        let pieces = split(s, c);
        assert(pieces.skip(1) =~= split(rest, c));
        assert(pieces[0] == s.take(at));
        assert(s =~= s.take(at) + seq![c] + rest);
        assert forall|i: int| 0 <= i < pieces.len() implies !(#[trigger] pieces[i]).contains(
            c,
        ) by {
            if i > 0 {
                assert(pieces[i] == split(rest, c)[i - 1]);
            }
        }
    }
}

/// Splitting what was joined gives the pieces back, when no piece holds the
/// separator.
pub proof fn lemma_joined_splits(pieces: Seq<Seq<char>>, c: char)
    requires
        pieces.len() > 0,
        forall|i: int| 0 <= i < pieces.len() ==> !(#[trigger] pieces[i]).contains(c),
    ensures
        split(joined(pieces, seq![c]), c) == pieces,
    decreases pieces.len(),
{
    let first = pieces[0];
    assert(!first.contains(c));
    if pieces.len() == 1 {
        lemma_before_is(first, c, first.len() as int);
        assert(pieces =~= seq![first]);
    } else {
        let rest = pieces.skip(1);
        assert forall|i: int| 0 <= i < rest.len() implies !(#[trigger] rest[i]).contains(c) by {
            assert(rest[i] == pieces[i + 1]);
        }
        lemma_joined_splits(rest, c);
        let whole = joined(pieces, seq![c]);
        assert forall|i: int| 0 <= i < first.len() implies #[trigger] whole[i] != c by {
            assert(whole[i] == first[i]);
            assert(first.contains(first[i]));
        }
        assert(whole[first.len() as int] == c);
        lemma_before_is(whole, c, first.len() as int);
        assert(whole.take(first.len() as int) =~= first);
        assert(whole.skip(first.len() as int + 1) =~= joined(rest, seq![c]));
        assert(pieces =~= seq![first] + rest);
    }
}

/// `s` without the characters of the class it begins with.
pub fn trim_start_matches(s: &[char], class: CharClass) -> (r: &[char])
    ensures
        r@ == without_leading(s@, class),
{
    let mut i: usize = 0;
    while i < s.len() && class.has(s[i])
        invariant
            i <= s@.len(),
            forall|k: int| 0 <= k < i ==> class.includes(#[trigger] s@[k]),
        decreases s@.len() - i,
    {
        i += 1;
    }
    proof {
        lemma_leading_is(s@, class, i as int);
        assert(s@.subrange(i as int, s@.len() as int) =~= s@.skip(i as int));
    }
    slice_subrange(s, i, s.len())
}

/// `s` without the characters of the class it ends with.
pub fn trim_end_matches(s: &[char], class: CharClass) -> (r: &[char])
    ensures
        r@ == without_trailing(s@, class),
{
    let mut end: usize = s.len();
    while end > 0 && class.has(s[end - 1])
        invariant
            end <= s@.len(),
            forall|k: int| end <= k < s@.len() ==> class.includes(#[trigger] s@[k]),
        decreases end,
    {
        end -= 1;
    }
    proof {
        lemma_trailing_is(s@, class, s@.len() - end);
        assert(s@.subrange(0, end as int) =~= s@.take(end as int));
    }
    slice_subrange(s, 0, end)
}

pub fn trim_start(s: &[char]) -> (r: &[char])
    ensures
        r@ == trimmed_start(s@),
{
    trim_start_matches(s, CharClass::WhiteSpace)
}

pub fn trim_end(s: &[char]) -> (r: &[char])
    ensures
        r@ == trimmed_end(s@),
{
    trim_end_matches(s, CharClass::WhiteSpace)
}

pub fn trim(s: &[char]) -> (r: &[char])
    ensures
        r@ == trimmed(s@),
{
    trim_end(trim_start(s))
}

/// Whether a text holds nothing but white space.
pub fn is_blank(text: &str) -> (r: bool)
    ensures
        r == blank(text@),
{
    let chars: Vec<char> = chars_of(text);
    let rest: &[char] = trim(chars.as_slice());
    proof {
        lemma_trimmed(text@);
    }
    rest.len() == 0
}

pub fn same_chars(a: &[char], b: &[char]) -> (r: bool)
    ensures
        r == (a@ == b@),
{
    if a.len() != b.len() {
        return false;
    }
    let mut i: usize = 0;
    while i < a.len()
        invariant
            a@.len() == b@.len(),
            i <= a@.len(),
            forall|k: int| 0 <= k < i ==> a@[k] == b@[k],
        decreases a@.len() - i,
    {
        if a[i] != b[i] {
            return false;
        }
        i += 1;
    }
    assert(a@ =~= b@);
    true
}

/// Whether two strings hold the same text.
pub fn same_text(a: &str, b: &str) -> (r: bool)
    ensures
        r == (a@ == b@),
{
    let a: Vec<char> = chars_of(a);
    let b: Vec<char> = chars_of(b);
    same_chars(a.as_slice(), b.as_slice())
}

/// Whether one of the strings holds just this.
pub fn contains_text(strings: &Vec<String>, text: &str) -> (r: bool)
    ensures
        r == views(strings@).contains(text@),
{
    let ghost all = views(strings@);
    let mut i: usize = 0;
    while i < strings.len()
        invariant
            i <= strings@.len(),
            all == views(strings@),
            forall|k: int| 0 <= k < i ==> #[trigger] all[k] != text@,
        decreases strings@.len() - i,
    {
        if same_text(strings[i].as_str(), text) {
            assert(all[i as int] == text@);
            return true;
        }
        assert(all[i as int] == strings@[i as int]@);
        i += 1;
    }
    false
}

/// What follows the prefix, when `s` begins with it.
pub fn strip_prefix<'a>(s: &'a [char], prefix: &[char]) -> (r: Option<&'a [char]>)
    ensures
        match r {
            Some(rest) => prefix@.is_prefix_of(s@) && rest@ == s@.skip(prefix@.len() as int),
            None => !prefix@.is_prefix_of(s@),
        },
{
    if s.len() < prefix.len() {
        return None;
    }
    proof {
        assert(s@.take(prefix@.len() as int) =~= s@.subrange(0, prefix@.len() as int));
        assert(s@.skip(prefix@.len() as int) =~= s@.subrange(
            prefix@.len() as int,
            s@.len() as int,
        ));
    }
    if same_chars(slice_subrange(s, 0, prefix.len()), prefix) {
        Some(slice_subrange(s, prefix.len(), s.len()))
    } else {
        None
    }
}

/// What comes before the suffix, when `s` ends with it.
pub fn strip_suffix<'a>(s: &'a [char], suffix: &[char]) -> (r: Option<&'a [char]>)
    ensures
        match r {
            Some(rest) => suffix@.is_suffix_of(s@) && rest@ == s@.take(s@.len() - suffix@.len()),
            None => !suffix@.is_suffix_of(s@),
        },
{
    if s.len() < suffix.len() {
        return None;
    }
    let at: usize = s.len() - suffix.len();
    proof {
        assert(s@.skip(at as int) =~= s@.subrange(at as int, s@.len() as int));
        assert(s@.take(at as int) =~= s@.subrange(0, at as int));
    }
    if same_chars(slice_subrange(s, at, s.len()), suffix) {
        Some(slice_subrange(s, 0, at))
    } else {
        None
    }
}

/// Where the first `c` stands; the length when there is none.
pub fn find(s: &[char], c: char) -> (at: usize)
    ensures
        at == before(s@, c),
        at <= s@.len(),
        at < s@.len() <==> s@.contains(c),
{
    let mut i: usize = 0;
    while i < s.len() && s[i] != c
        invariant
            i <= s@.len(),
            forall|k: int| 0 <= k < i ==> #[trigger] s@[k] != c,
        decreases s@.len() - i,
    {
        i += 1;
    }
    proof {
        lemma_before_is(s@, c, i as int);
        if i < s@.len() {
            assert(s@[i as int] == c);
        }
    }
    i
}

/// What stands before and after the first `c`, when there is one.
pub fn split_once<'a>(s: &'a [char], c: char) -> (r: Option<(&'a [char], &'a [char])>)
    ensures
        match r {
            Some((head, tail)) => {
                &&& s@.contains(c)
                &&& head@ == s@.take(before(s@, c) as int)
                &&& tail@ == s@.skip(before(s@, c) as int + 1)
            },
            None => !s@.contains(c),
        },
{
    let at: usize = find(s, c);
    if at < s.len() {
        proof {
            assert(s@.take(at as int) =~= s@.subrange(0, at as int));
            assert(s@.skip(at + 1) =~= s@.subrange(at + 1, s@.len() as int));
        }
        Some((slice_subrange(s, 0, at), slice_subrange(s, at + 1, s.len())))
    } else {
        None
    }
}

/// The pieces of `s` between the separators.
pub fn split_text(s: &[char], separator: char) -> (pieces: Vec<String>)
    ensures
        views(pieces@) == split(s@, separator),
{
    let mut pieces: Vec<String> = Vec::new();
    let mut rest: &[char] = s;
    assert(views(pieces@) + split(rest@, separator) =~= split(s@, separator));
    loop
        invariant_except_break
            views(pieces@) + split(rest@, separator) == split(s@, separator),
        ensures
            views(pieces@) == split(s@, separator),
        decreases rest@.len(),
    {
        let ghost had = pieces@;
        match split_once(rest, separator) {
            Some((head, tail)) => {
                proof {
                    lemma_before(rest@, separator);
                    if before(rest@, separator) == rest@.len() {
                        let k = choose|k: int| 0 <= k < rest@.len() && rest@[k] == separator;
                        assert(rest@[k] != separator);
                    }
                }
                pieces.push(string_of(head));
                proof {
                    assert(views(pieces@) =~= views(had).push(head@));
                    assert(views(pieces@) + split(tail@, separator) =~= views(had) + split(
                        rest@,
                        separator,
                    ));
                }
                rest = tail;
            },
            None => {
                proof {
                    assert forall|k: int| 0 <= k < rest@.len() implies #[trigger] rest@[k]
                        != separator by {
                        assert(rest@.contains(rest@[k]));
                    }
                    lemma_before_is(rest@, separator, rest@.len() as int);
                }
                pieces.push(string_of(rest));
                assert(views(pieces@) =~= views(had) + seq![rest@]);
                break;
            },
        }
    }
    pieces
}

/// The strings one after the other with the separator between any two.
pub fn join(pieces: &Vec<String>, separator: &str) -> (text: String)
    ensures
        text@ == joined(views(pieces@), separator@),
{
    let mut text: String = String::new();
    let mut i: usize = pieces.len();
    let ghost all = views(pieces@);
    assert(all.skip(all.len() as int) =~= Seq::empty());
    while i > 0
        invariant
            all == views(pieces@),
            i <= pieces@.len(),
            text@ == joined(all.skip(i as int), separator@),
        decreases i,
    {
        let mut longer: String = pieces[i - 1].clone();
        let ghost tail = all.skip(i as int);
        let ghost now = all.skip(i - 1);
        assert(now.skip(1) =~= tail);
        assert(now[0] == pieces@[i - 1]@);
        if i < pieces.len() {
            longer.append(separator);
            longer.append(text.as_str());
        }
        text = longer;
        i -= 1;
    }
    assert(all.skip(0) =~= all);
    text
}

/// Whether `a` stands no later than `b` in the order of strings.
pub fn ordered(a: &str, b: &str) -> (r: bool)
    ensures
        r == in_order(a@, b@),
{
    let left: Vec<char> = chars_of(a);
    let right: Vec<char> = chars_of(b);
    let mut i: usize = 0;
    assert(left@.skip(0) =~= left@);
    assert(right@.skip(0) =~= right@);
    while i < left.len() && i < right.len()
        invariant
            left@ == a@,
            right@ == b@,
            i <= left@.len(),
            i <= right@.len(),
            in_order(a@, b@) == in_order(left@.skip(i as int), right@.skip(i as int)),
        decreases left@.len() - i,
    {
        assert(left@.skip(i as int)[0] == left@[i as int]);
        assert(right@.skip(i as int)[0] == right@[i as int]);
        if left[i] != right[i] {
            return left[i] < right[i];
        }
        assert(left@.skip(i as int).skip(1) =~= left@.skip(i + 1));
        assert(right@.skip(i as int).skip(1) =~= right@.skip(i + 1));
        i += 1;
    }
    i == left.len()
}

/// The order of strings is total: of two, one stands no later than the other.
pub proof fn lemma_in_order_total(a: Seq<char>, b: Seq<char>)
    ensures
        in_order(a, b) || in_order(b, a),
    decreases a.len(),
{
    if a.len() > 0 && b.len() > 0 && a[0] == b[0] {
        lemma_in_order_total(a.skip(1), b.skip(1));
    }
}

/// Two strings that stand no later than each other are the same.
pub proof fn lemma_in_order_antisymmetric(a: Seq<char>, b: Seq<char>)
    requires
        in_order(a, b),
        in_order(b, a),
    ensures
        a == b,
    decreases a.len(),
{
    if a.len() > 0 && b.len() > 0 {
        lemma_in_order_antisymmetric(a.skip(1), b.skip(1));
        assert(a =~= seq![a[0]] + a.skip(1));
        assert(b =~= seq![b[0]] + b.skip(1));
    } else {
        assert(a =~= b);
    }
}

/// The order of strings carries over.
pub proof fn lemma_in_order_transitive(a: Seq<char>, b: Seq<char>, c: Seq<char>)
    requires
        in_order(a, b),
        in_order(b, c),
    ensures
        in_order(a, c),
    decreases a.len(),
{
    if a.len() > 0 && b.len() > 0 && c.len() > 0 && a[0] == b[0] && b[0] == c[0] {
        lemma_in_order_transitive(a.skip(1), b.skip(1), c.skip(1));
    }
}

}
