//! Characters and character sequences: the classes the normaliser tells
//! apart, trimming, substring replacement, and the passage between strings
//! and vectors of characters.

use vstd::prelude::*;

verus! {

/// Whether `c` has the Unicode property `White_Space`.
pub open spec fn is_space(c: char) -> bool {
    let n = c as u32;
    ||| 0x09 <= n <= 0x0D
    ||| n == 0x20
    ||| n == 0x85
    ||| n == 0xA0
    ||| n == 0x1680
    ||| 0x2000 <= n <= 0x200A
    ||| n == 0x2028
    ||| n == 0x2029
    ||| n == 0x202F
    ||| n == 0x205F
    ||| n == 0x3000
}

/// Whether `c` is white space.
pub fn is_whitespace(c: char) -> (r: bool)
    ensures
        r == is_space(c),
{
    let n: u32 = c as u32;
    (0x09 <= n && n <= 0x0D) || n == 0x20 || n == 0x85 || n == 0xA0 || n == 0x1680 || (0x2000 <= n
        && n <= 0x200A) || n == 0x2028 || n == 0x2029 || n == 0x202F || n == 0x205F || n == 0x3000
}

/// The number of elements at the front of `s` that satisfy `p`.
pub open spec fn leading_run(s: Seq<char>, p: spec_fn(char) -> bool) -> nat
    decreases s.len(),
{
    if s.len() > 0 && p(s[0]) {
        1 + leading_run(s.skip(1), p)
    } else {
        0
    }
}

/// The number of elements at the back of `s` that satisfy `p`.
pub open spec fn trailing_run(s: Seq<char>, p: spec_fn(char) -> bool) -> nat
    decreases s.len(),
{
    if s.len() > 0 && p(s.last()) {
        1 + trailing_run(s.drop_last(), p)
    } else {
        0
    }
}

/// `s` without the elements at its front that satisfy `p`.
pub open spec fn trim_start(s: Seq<char>, p: spec_fn(char) -> bool) -> Seq<char> {
    s.skip(leading_run(s, p) as int)
}

/// `s` without the elements at its back that satisfy `p`.
pub open spec fn trim_end(s: Seq<char>, p: spec_fn(char) -> bool) -> Seq<char> {
    s.take(s.len() - trailing_run(s, p))
}

/// The leading run is the one `n` for which the first `n` elements satisfy
/// `p` and the next one, if there is one, does not.
pub proof fn lemma_leading_run_is(s: Seq<char>, p: spec_fn(char) -> bool, n: int)
    requires
        0 <= n <= s.len(),
        forall|k: int| 0 <= k < n ==> p(#[trigger] s[k]),
        n < s.len() ==> !p(s[n]),
    ensures
        leading_run(s, p) == n,
    decreases n,
{
    if n > 0 {
        let rest = s.skip(1);
        assert forall|k: int| 0 <= k < n - 1 implies p(#[trigger] rest[k]) by {
        }
        lemma_leading_run_is(rest, p, n - 1);
    }
}

/// The trailing run is the one `n` for which the last `n` elements satisfy
/// `p` and the one before them, if there is one, does not.
pub proof fn lemma_trailing_run_is(s: Seq<char>, p: spec_fn(char) -> bool, n: int)
    requires
        0 <= n <= s.len(),
        forall|k: int| s.len() - n <= k < s.len() ==> p(#[trigger] s[k]),
        n < s.len() ==> !p(s[s.len() - n - 1]),
    ensures
        trailing_run(s, p) == n,
    decreases n,
{
    if n > 0 {
        let rest = s.drop_last();
        assert forall|k: int| rest.len() - (n - 1) <= k < rest.len() implies p(
            #[trigger] rest[k],
        ) by {
        }
        lemma_trailing_run_is(rest, p, n - 1);
    }
}

/// Whether `pattern` stands in `s` at position `at`.
pub open spec fn occurs_at(s: Seq<char>, pattern: Seq<char>, at: int) -> bool {
    &&& 0 <= at
    &&& at + pattern.len() <= s.len()
    &&& s.subrange(at, at + pattern.len()) == pattern
}

/// What is left of `s` from position `from` on once every occurrence of
/// `pattern` is replaced by `with`, the occurrences being taken from left to
/// right and none overlapping an earlier one. The empty pattern occurs once
/// before every element and once at the end.
pub open spec fn replaced_from(s: Seq<char>, pattern: Seq<char>, with: Seq<char>, from: int) -> Seq<
    char,
>
    decreases s.len() - from,
{
    if from < 0 || from > s.len() {
        Seq::empty()
    } else if from == s.len() {
        if pattern.len() == 0 {
            with
        } else {
            Seq::empty()
        }
    } else if pattern.len() == 0 {
        with + seq![s[from]] + replaced_from(s, pattern, with, from + 1)
    } else if occurs_at(s, pattern, from) {
        with + replaced_from(s, pattern, with, from + pattern.len())
    } else {
        seq![s[from]] + replaced_from(s, pattern, with, from + 1)
    }
}

/// `s` with every occurrence of `pattern` replaced by `with`.
pub open spec fn replaced(s: Seq<char>, pattern: Seq<char>, with: Seq<char>) -> Seq<char> {
    replaced_from(s, pattern, with, 0)
}

/// Whether `after` is `before` or what a pattern of the length of its
/// replacement turns `before` into: the element of `with` at a position
/// where `pattern` has `before`.
pub open spec fn kept_or_exchanged(
    before: char,
    after: char,
    pattern: Seq<char>,
    with: Seq<char>,
) -> bool {
    after == before || exists|j: int|
        0 <= j < pattern.len() && pattern[j] == before && #[trigger] with[j] == after
}

/// Where the replacement is as long as the pattern, replacing keeps the
/// length, and every element either stays or is exchanged for the
/// replacement's element at its place in the pattern.
pub proof fn lemma_replaced_element_for_element(
    s: Seq<char>,
    pattern: Seq<char>,
    with: Seq<char>,
    from: int,
)
    requires
        pattern.len() == with.len(),
        pattern.len() > 0,
        0 <= from <= s.len(),
    ensures
        replaced_from(s, pattern, with, from).len() == s.len() - from,
        forall|k: int|
            0 <= k < s.len() - from ==> kept_or_exchanged(
                s[from + k],
                #[trigger] replaced_from(s, pattern, with, from)[k],
                pattern,
                with,
            ),
    decreases s.len() - from,
{
    if from == s.len() {
    } else if occurs_at(s, pattern, from) {
        lemma_replaced_element_for_element(s, pattern, with, from + pattern.len());
    } else {
        lemma_replaced_element_for_element(s, pattern, with, from + 1);
    }
}

/// The characters of `s`, in order.
pub fn chars_of(s: &str) -> (r: Vec<char>)
    ensures
        r@ == s@,
{
    broadcast use vstd::string::group_string_axioms;

    let mut out: Vec<char> = Vec::new();
    for c in it: s.chars()
        invariant
            it.seq() == s@,
            out@ == s@.take(it.index() as int),
    {
        out.push(c);
    }
    out
}

/// The string made of `chars`, in order.
pub fn string_of(chars: &[char]) -> (r: String)
    ensures
        r@ == chars@,
{
    let mut out = String::new();
    let mut i: usize = 0;
    while i < chars.len()
        invariant
            i <= chars.len(),
            out@ == chars@.take(i as int),
        decreases chars.len() - i,
    {
        out.push(chars[i]);
        i += 1;
    }
    out
}

/// Appends `src[from..to]` to `dst`.
pub fn extend_from_range(dst: &mut Vec<char>, src: &[char], from: usize, to: usize)
    requires
        from <= to <= src.len(),
    ensures
        final(dst)@ == old(dst)@ + src@.subrange(from as int, to as int),
{
    let mut i: usize = from;
    while i < to
        invariant
            from <= i <= to <= src.len(),
            dst@ == old(dst)@ + src@.subrange(from as int, i as int),
        decreases to - i,
    {
        assert(src@.subrange(from as int, i + 1) == src@.subrange(from as int, i as int).push(
            src@[i as int],
        ));
        dst.push(src[i]);
        i += 1;
    }
}

/// Whether `pattern` stands in `s` at position `at`.
pub fn matches_at(s: &[char], pattern: &[char], at: usize) -> (r: bool)
    ensures
        r == occurs_at(s@, pattern@, at as int),
{
    if pattern.len() > s.len() || at > s.len() - pattern.len() {
        return false;
    }
    let mut k: usize = 0;
    while k < pattern.len()
        invariant
            k <= pattern.len(),
            at + pattern.len() <= s.len(),
            forall|j: int| 0 <= j < k ==> s@[at + j] == pattern@[j],
        decreases pattern.len() - k,
    {
        if s[at + k] != pattern[k] {
            return false;
        }
        k += 1;
    }
    assert(s@.subrange(at as int, at + pattern.len()) =~= pattern@);
    true
}

/// `s` with every occurrence of `pattern` replaced by `with`.
pub fn replace_all(s: &[char], pattern: &[char], with: &[char]) -> (r: Vec<char>)
    ensures
        r@ == replaced(s@, pattern@, with@),
{
    let mut out: Vec<char> = Vec::new();
    let mut i: usize = 0;
    while i < s.len()
        invariant
            i <= s.len(),
            out@ + replaced_from(s@, pattern@, with@, i as int) == replaced(s@, pattern@, with@),
        decreases s.len() - i,
    {
        if pattern.len() == 0 {
            extend_from_range(&mut out, with, 0, with.len());
            out.push(s[i]);
            i += 1;
        } else if matches_at(s, pattern, i) {
            extend_from_range(&mut out, with, 0, with.len());
            i += pattern.len();
        } else {
            out.push(s[i]);
            i += 1;
        }
    }
    if pattern.len() == 0 {
        extend_from_range(&mut out, with, 0, with.len());
    }
    out
}

} // verus!
