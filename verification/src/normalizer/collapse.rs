//! The first pass of the normaliser: an object whose one member has a
//! quoted name and an empty object for its value, `{ "name": {} }`, gives
//! way to the quoted name alone.

use vstd::prelude::*;
use crate::normalizer::token::{find_token_end, lemma_closing_quote, token_end};
use crate::text::{extend_from_range, is_space, is_whitespace};

verus! {

/// The first position at or after `from` that holds no white space.
pub open spec fn skip_spaces(s: Seq<char>, from: int) -> int
    decreases s.len() - from,
{
    if 0 <= from < s.len() && is_space(s[from]) {
        skip_spaces(s, from + 1)
    } else {
        from
    }
}

/// The position behind `c`, where `c` is what follows the white space that
/// begins at `from`.
pub open spec fn after_spaced(s: Seq<char>, from: int, c: char) -> Option<int> {
    let at = skip_spaces(s, from);
    if 0 <= at < s.len() && s[at] == c {
        Some(at + 1)
    } else {
        None
    }
}

/// The position behind `: { } }`, with any white space before each of its
/// four characters, where that is what begins at `from`.
pub open spec fn empty_body_end(s: Seq<char>, from: int) -> Option<int> {
    match after_spaced(s, from, ':') {
        Some(colon) => match after_spaced(s, colon, '{') {
            Some(open) => match after_spaced(s, open, '}') {
                Some(inner) => after_spaced(s, inner, '}'),
                None => None,
            },
            None => None,
        },
        None => None,
    }
}

/// A wrapped name in the text: where the quoted name begins, where it ends,
/// and where the object that wraps it ends.
pub struct Wrapped {
    /// The position of the name's opening quote.
    pub name_start: int,
    /// The position behind the name's closing quote.
    pub name_end: int,
    /// The position behind the wrapping object's closing brace.
    pub end: int,
}

/// The wrapped name that begins at `start`, if one does: `{`, a quoted
/// token for the name, then `: { } }`, with any white space between the
/// parts. The name ends at the first double quote behind its first
/// character; where no empty body follows that quote, no wrapped name
/// begins at this brace.
pub open spec fn wrapped_at(s: Seq<char>, start: int) -> Option<Wrapped> {
    let quote = skip_spaces(s, start + 1);
    if 0 <= start < s.len() && s[start] == '{' {
        match token_end(s, quote) {
            Some(name_end) => match empty_body_end(s, name_end) {
                Some(end) => Some(Wrapped { name_start: quote, name_end, end }),
                None => None,
            },
            None => None,
        }
    } else {
        None
    }
}

/// White space is skipped forward, and not beyond the end of the text.
pub proof fn lemma_skip_spaces(s: Seq<char>, from: int)
    requires
        0 <= from <= s.len(),
    ensures
        from <= skip_spaces(s, from) <= s.len(),
        forall|k: int| from <= k < skip_spaces(s, from) ==> is_space(#[trigger] s[k]),
        skip_spaces(s, from) < s.len() ==> !is_space(s[skip_spaces(s, from)]),
    decreases s.len() - from,
{
    if from < s.len() && is_space(s[from]) {
        lemma_skip_spaces(s, from + 1);
    }
}

/// What follows white space stands behind where the white space began.
pub proof fn lemma_after_spaced(s: Seq<char>, from: int, c: char)
    requires
        0 <= from <= s.len(),
    ensures
        after_spaced(s, from, c) matches Some(end) ==> from < end <= s.len(),
{
    lemma_skip_spaces(s, from);
}

/// An empty body ends behind where it began.
pub proof fn lemma_empty_body_end(s: Seq<char>, from: int)
    requires
        0 <= from <= s.len(),
    ensures
        empty_body_end(s, from) matches Some(end) ==> from + 4 <= end <= s.len(),
{
    lemma_after_spaced(s, from, ':');
    if let Some(colon) = after_spaced(s, from, ':') {
        lemma_after_spaced(s, colon, '{');
        if let Some(open) = after_spaced(s, colon, '{') {
            lemma_after_spaced(s, open, '}');
            if let Some(inner) = after_spaced(s, open, '}') {
                lemma_after_spaced(s, inner, '}');
            }
        }
    }
}

/// A wrapped name lies in the text, in order: the brace, the name, the end.
pub proof fn lemma_wrapped_at(s: Seq<char>, start: int)
    ensures
        wrapped_at(s, start) matches Some(w) ==> {
            &&& 0 <= start < w.name_start
            &&& w.name_start + 3 <= w.name_end
            &&& w.name_end + 4 <= w.end <= s.len()
            &&& s[w.name_start] == '"'
            &&& s[w.name_end - 1] == '"'
        },
{
    if 0 <= start < s.len() {
        lemma_skip_spaces(s, start + 1);
        let quote = skip_spaces(s, start + 1);
        lemma_closing_quote(s, quote + 2);
        if let Some(name_end) = token_end(s, quote) {
            lemma_empty_body_end(s, name_end);
        }
    }
}

/// The text from position `from` on, with every wrapped name replaced by
/// the quoted name: the wrapped names are taken from left to right, each
/// beginning at the first brace after the one before it that begins a
/// wrapped name at all.
pub open spec fn collapsed_from(s: Seq<char>, from: int) -> Seq<char>
    decreases s.len() - from,
    via collapsed_from_decreases
{
    if from < 0 || from >= s.len() {
        Seq::empty()
    } else {
        match wrapped_at(s, from) {
            Some(w) => s.subrange(w.name_start, w.name_end) + collapsed_from(s, w.end),
            None => seq![s[from]] + collapsed_from(s, from + 1),
        }
    }
}

#[via_fn]
proof fn collapsed_from_decreases(s: Seq<char>, from: int) {
    lemma_wrapped_at(s, from);
}

/// `s` with every wrapped name replaced by the quoted name.
pub open spec fn collapsed(s: Seq<char>) -> Seq<char> {
    collapsed_from(s, 0)
}

/// Where no wrapped name begins from `from` up to `to`, that part of the
/// text stays as it is.
pub proof fn lemma_nothing_wrapped_nothing_collapsed(s: Seq<char>, from: int, to: int)
    requires
        0 <= from <= to <= s.len(),
        forall|k: int| from <= k < to ==> (#[trigger] wrapped_at(s, k)) is None,
    ensures
        collapsed_from(s, from) == s.subrange(from, to) + collapsed_from(s, to),
    decreases to - from,
{
    if from < to {
        lemma_nothing_wrapped_nothing_collapsed(s, from + 1, to);
        assert(seq![s[from]] + (s.subrange(from + 1, to) + collapsed_from(s, to)) == s.subrange(
            from,
            to,
        ) + collapsed_from(s, to));
    } else {
        assert(s.subrange(from, to) + collapsed_from(s, to) == collapsed_from(s, to));
    }
}

/// Where one wrapped name begins in the text, at `start`, the text is
/// collapsed to what stands before it, its name, and what stands behind it.
pub proof fn lemma_one_wrapped_name_collapsed(s: Seq<char>, start: int)
    requires
        0 <= start < s.len(),
        wrapped_at(s, start) is Some,
        forall|k: int| 0 <= k < start ==> (#[trigger] wrapped_at(s, k)) is None,
        forall|k: int|
            wrapped_at(s, start)->Some_0.end <= k < s.len() ==> (#[trigger] wrapped_at(s, k))
                is None,
    ensures
        ({
            let w = wrapped_at(s, start)->Some_0;
            collapsed(s) == s.subrange(0, start) + s.subrange(w.name_start, w.name_end)
                + s.subrange(w.end, s.len() as int)
        }),
{
    let w = wrapped_at(s, start)->Some_0;
    lemma_wrapped_at(s, start);
    lemma_nothing_wrapped_nothing_collapsed(s, 0, start);
    lemma_nothing_wrapped_nothing_collapsed(s, w.end, s.len() as int);
    assert(collapsed_from(s, s.len() as int) == Seq::<char>::empty());
    let before = s.subrange(0, start);
    let name = s.subrange(w.name_start, w.name_end);
    let after = s.subrange(w.end, s.len() as int);
    assert(collapsed_from(s, w.end) == after) by {
        assert(after + Seq::<char>::empty() == after);
    }
    assert(before + (name + after) == before + name + after);
}

/// The first position at or after `from` that holds no white space.
fn skip_whitespace(s: &[char], from: usize) -> (r: usize)
    requires
        from <= s.len(),
    ensures
        r == skip_spaces(s@, from as int),
        from <= r <= s.len(),
{
    let mut i: usize = from;
    while i < s.len() && is_whitespace(s[i])
        invariant
            from <= i <= s.len(),
            skip_spaces(s@, from as int) == skip_spaces(s@, i as int),
        decreases s.len() - i,
    {
        i += 1;
    }
    i
}

/// The position behind `c`, where `c` is what follows the white space that
/// begins at `from`.
fn expect_spaced(s: &[char], from: usize, c: char) -> (r: Option<usize>)
    requires
        from <= s.len(),
    ensures
        r is Some == after_spaced(s@, from as int, c) is Some,
        r matches Some(end) ==> after_spaced(s@, from as int, c) == Some(end as int) && from < end
            <= s.len(),
{
    let at = skip_whitespace(s, from);
    if at < s.len() && s[at] == c {
        Some(at + 1)
    } else {
        None
    }
}

/// The position behind `: { } }`, where that is what begins at `from`.
fn find_empty_body_end(s: &[char], from: usize) -> (r: Option<usize>)
    requires
        from <= s.len(),
    ensures
        r is Some == empty_body_end(s@, from as int) is Some,
        r matches Some(end) ==> empty_body_end(s@, from as int) == Some(end as int) && from < end
            <= s.len(),
{
    let colon: usize = match expect_spaced(s, from, ':') {
        Some(p) => p,
        None => { return None; },
    };
    let open: usize = match expect_spaced(s, colon, '{') {
        Some(p) => p,
        None => { return None; },
    };
    let inner: usize = match expect_spaced(s, open, '}') {
        Some(p) => p,
        None => { return None; },
    };
    expect_spaced(s, inner, '}')
}

/// The bounds of the wrapped name that begins at `start`, if one does: the
/// start of the name, its end, and the end of the object that wraps it.
pub fn find_wrapped(s: &[char], start: usize) -> (r: Option<(usize, usize, usize)>)
    ensures
        r is Some == wrapped_at(s@, start as int) is Some,
        r matches Some(found) ==> {
            &&& wrapped_at(s@, start as int) == Some(
                Wrapped {
                    name_start: found.0 as int,
                    name_end: found.1 as int,
                    end: found.2 as int,
                },
            )
            &&& start < found.0 <= found.1 <= found.2 <= s.len()
        },
{
    if start >= s.len() || s[start] != '{' {
        return None;
    }
    let quote = skip_whitespace(s, start + 1);
    let name_end: usize = match find_token_end(s, quote) {
        Some(p) => p,
        None => { return None; },
    };
    match find_empty_body_end(s, name_end) {
        Some(end) => Some((quote, name_end, end)),
        None => None,
    }
}

/// `s` with every wrapped name replaced by the quoted name.
pub fn collapse_wrapped(s: &[char]) -> (r: Vec<char>)
    ensures
        r@ == collapsed(s@),
{
    let mut out: Vec<char> = Vec::new();
    let mut i: usize = 0;
    while i < s.len()
        invariant
            i <= s.len(),
            out@ + collapsed_from(s@, i as int) == collapsed(s@),
        decreases s.len() - i,
    {
        match find_wrapped(s, i) {
            Some((name_start, name_end, end)) => {
                proof {
                    lemma_wrapped_at(s@, i as int);
                    let name = s@.subrange(name_start as int, name_end as int);
                    assert(out@ + name + collapsed_from(s@, end as int) == out@ + (name
                        + collapsed_from(s@, end as int)));
                }
                extend_from_range(&mut out, s, name_start, name_end);
                i = end;
            },
            None => {
                assert(out@.push(s@[i as int]) + collapsed_from(s@, i + 1) == out@ + (seq![
                    s@[i as int],
                ] + collapsed_from(s@, i + 1)));
                out.push(s[i]);
                i += 1;
            },
        }
    }
    out
}

} // verus!
