//! The quoted token: a double quote, at least one character, and the next
//! double quote, with no line feed between the two. Both passes of the
//! normaliser go by it: the first for the name that an object wraps, the
//! second for every literal.

use vstd::prelude::*;

verus! {

/// The position of the first double quote at or after `from` that no line
/// feed comes before.
pub open spec fn closing_quote(s: Seq<char>, from: int) -> Option<int>
    decreases s.len() - from,
{
    if from < 0 || from >= s.len() || s[from] == '\n' {
        None
    } else if s[from] == '"' {
        Some(from)
    } else {
        closing_quote(s, from + 1)
    }
}

/// Where the quoted token that begins at `start` ends, if one begins there.
pub open spec fn token_end(s: Seq<char>, start: int) -> Option<int> {
    if 0 <= start && start + 1 < s.len() && s[start] == '"' && s[start + 1] != '\n' {
        match closing_quote(s, start + 2) {
            Some(close) => Some(close + 1),
            None => None,
        }
    } else {
        None
    }
}

/// Whether `s[start..end]` is a quoted token: a double quote, then at least
/// one character and no line feed, up to the first double quote that
/// follows the first of those characters.
pub open spec fn is_token(s: Seq<char>, start: int, end: int) -> bool {
    &&& 0 <= start
    &&& start + 3 <= end <= s.len()
    &&& s[start] == '"'
    &&& s[end - 1] == '"'
    &&& forall|k: int| start < k < end - 1 ==> s[k] != '\n'
    &&& forall|k: int| start + 2 <= k < end - 1 ==> s[k] != '"'
}

/// What `closing_quote` finds is a double quote at or after `from`, with
/// neither a double quote nor a line feed between `from` and it.
pub proof fn lemma_closing_quote(s: Seq<char>, from: int)
    requires
        0 <= from,
    ensures
        closing_quote(s, from) matches Some(close) ==> {
            &&& from <= close < s.len()
            &&& s[close] == '"'
            &&& forall|k: int| from <= k < close ==> s[k] != '"' && s[k] != '\n'
        },
        closing_quote(s, from) is None ==> forall|close: int|
            from <= close < s.len() && #[trigger] s[close] == '"' ==> exists|k: int|
                from <= k < close && s[k] == '\n',
    decreases s.len() - from,
{
    if 0 <= from < s.len() && s[from] != '\n' && s[from] != '"' {
        lemma_closing_quote(s, from + 1);
    }
}

/// `token_end` finds the one end that makes a quoted token of what begins
/// at `start`.
pub proof fn lemma_token_end_is_token(s: Seq<char>, start: int, end: int)
    ensures
        token_end(s, start) == Some(end) <==> is_token(s, start, end),
{
    if 0 <= start {
        lemma_closing_quote(s, start + 2);
    }
}

/// Where the quoted token that begins at `start` ends, if one begins there.
pub fn find_token_end(s: &[char], start: usize) -> (r: Option<usize>)
    ensures
        r is Some == token_end(s@, start as int) is Some,
        r matches Some(end) ==> token_end(s@, start as int) == Some(end as int) && start < end
            <= s.len(),
{
    if s.len() < 2 || start >= s.len() - 1 || s[start] != '"' || s[start + 1] == '\n' {
        return None;
    }
    let mut j: usize = start + 2;
    while j < s.len()
        invariant
            start + 2 <= j <= s.len(),
            s@[start as int] == '"',
            s@[start + 1] != '\n',
            closing_quote(s@, start + 2) == closing_quote(s@, j as int),
        decreases s.len() - j,
    {
        if s[j] == '\n' {
            return None;
        }
        if s[j] == '"' {
            return Some(j + 1);
        }
        j += 1;
    }
    None
}

} // verus!
