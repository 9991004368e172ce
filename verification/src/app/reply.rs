//! Taking off what models put around an answer.

use crate::text;
use vstd::prelude::*;
use vstd::slice::slice_subrange;

verus! {

/// Three backticks.
pub open spec fn fence() -> Seq<char> {
    seq!['`', '`', '`']
}

/// What follows the first line of `s`: nothing when there is only one.
pub open spec fn after_first_line(s: Seq<char>) -> Seq<char> {
    if s.contains('\n') {
        s.skip(text::before(s, '\n') as int + 1)
    } else {
        Seq::empty()
    }
}

/// What a code fence around the whole of `text` holds; `text` itself when no
/// fence opens it or none closes it. The rest of the opening line, a language
/// tag, belongs to the fence.
pub open spec fn unfenced(text: Seq<char>) -> Seq<char> {
    let body = text::trimmed_end(after_first_line(text.skip(3)));
    if fence().is_prefix_of(text) && fence().is_suffix_of(body) {
        text::trimmed_end(body.take(body.len() - 3))
    } else {
        text
    }
}

/// Takes off a code fence that wraps the whole text. An unterminated fence is
/// left alone.
pub fn strip_fence(text: &[char]) -> (r: &[char])
    ensures
        r@ == unfenced(text@),
{
    let mut fence: Vec<char> = Vec::new();
    fence.push('`');
    fence.push('`');
    fence.push('`');
    assert(fence@ =~= self::fence());
    let rest: &[char] = match text::strip_prefix(text, fence.as_slice()) {
        Some(rest) => rest,
        None => {
            return text;
        },
    };
    let body: &[char] = match text::split_once(rest, '\n') {
        Some((_, body)) => body,
        None => slice_subrange(rest, 0, 0),
    };
    assert(body@ =~= after_first_line(text@.skip(3)));
    match text::strip_suffix(text::trim_end(body), fence.as_slice()) {
        Some(inner) => text::trim_end(inner),
        None => text,
    }
}

/// Taking off a fence keeps a run of neighbouring characters.
pub proof fn lemma_unfenced_cut(text: Seq<char>)
    ensures
        text::cut_from(unfenced(text), text),
{
    let rest = text.skip(3);
    let opened = after_first_line(rest);
    let body = text::trimmed_end(opened);
    text::lemma_trims_cut(text, text::CharClass::WhiteSpace);
    if fence().is_prefix_of(text) && fence().is_suffix_of(body) {
        text::lemma_before(rest, '\n');
        assert(text::cut_from(opened, text)) by {
            if rest.contains('\n') {
                let at = text::before(rest, '\n') as int;
                if at == rest.len() {
                    let k = choose|k: int| 0 <= k < rest.len() && rest[k] == '\n';
                    assert(rest[k] != '\n');
                }
                text::lemma_cut_at(text, at + 4, text.len() as int);
                assert(opened =~= text.subrange(at + 4, text.len() as int));
            } else {
                text::lemma_cut_at(text, 0, 0);
                assert(opened =~= text.subrange(0, 0));
            }
        }
        text::lemma_trims_cut(opened, text::CharClass::WhiteSpace);
        text::lemma_cut_of_cut(body, opened, text);
        let inner = body.take(body.len() - 3);
        text::lemma_cut_at(body, 0, body.len() - 3);
        assert(inner =~= body.subrange(0, body.len() - 3));
        text::lemma_cut_of_cut(inner, body, text);
        text::lemma_trims_cut(inner, text::CharClass::WhiteSpace);
        text::lemma_cut_of_cut(text::trimmed_end(inner), inner, text);
    }
}

}
