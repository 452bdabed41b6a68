//! The normaliser: it rewrites the loose text of a market bundle into strict
//! JSON, in two passes.

pub mod collapse;
pub mod literal;
pub mod token;

use vstd::prelude::*;
use crate::normalizer::collapse::{
    after_spaced, collapse_wrapped, collapsed, collapsed_from, empty_body_end,
    lemma_nothing_wrapped_nothing_collapsed, lemma_one_wrapped_name_collapsed, lemma_wrapped_at,
    skip_spaces, wrapped_at, Wrapped,
};
use crate::normalizer::literal::{
    fixed_up, integer_candidate, is_quote, lemma_no_token_nothing_rewritten, recased,
    rewrite_literals, rewritten, rewritten_from, unquoted,
};
use crate::normalizer::token::{is_token, lemma_token_end_is_token};
use crate::numeral::{byte_array_text, decimal_text};
use crate::outside::base58_key;
use crate::text::{chars_of, lemma_leading_run_is, lemma_trailing_run_is, string_of, trim_start};

verus! {

/// The normalised form of `raw`: first every wrapped name gives way to the
/// quoted name, then every quoted token to the literal it stands for.
pub open spec fn normalized(raw: Seq<char>) -> Seq<char> {
    rewritten(collapsed(raw))
}

/// Rewrites the loose text `s` of a market bundle into text for a strict
/// JSON reader.
pub fn replace_fixup_input(s: &str) -> (r: String)
    ensures
        r@ == normalized(s@),
{
    let chars = chars_of(s);
    let bare = collapse_wrapped(chars.as_slice());
    let fixed = rewrite_literals(bare.as_slice());
    string_of(fixed.as_slice())
}

/// `inner` between two double quotes.
pub open spec fn quoted(inner: Seq<char>) -> Seq<char> {
    seq!['"'] + inner + seq!['"']
}

/// The object `{"name": {}}` for the name `inner`.
pub open spec fn wrapped(inner: Seq<char>) -> Seq<char> {
    seq!['{'] + quoted(inner) + seq![':', ' ', '{', '}', '}']
}

/// Whether `inner` can stand between the quotes of a token: it has at least
/// one character, and neither a double quote nor a line feed.
pub open spec fn is_token_body(inner: Seq<char>) -> bool {
    &&& inner.len() > 0
    &&& forall|i: int| 0 <= i < inner.len() ==> inner[i] != '"' && inner[i] != '\n'
}

/// Text without a double quote is normalised to itself.
pub proof fn lemma_text_without_quotes_is_unchanged(raw: Seq<char>)
    requires
        forall|i: int| 0 <= i < raw.len() ==> raw[i] != '"',
    ensures
        normalized(raw) == raw,
{
    assert forall|k: int| 0 <= k < raw.len() implies (#[trigger] wrapped_at(raw, k)) is None by {
        lemma_wrapped_at(raw, k);
    }
    lemma_nothing_wrapped_nothing_collapsed(raw, 0, raw.len() as int);
    assert(raw.subrange(0, raw.len() as int) + Seq::<char>::empty() == raw);
    lemma_no_token_nothing_rewritten(raw, 0);
    assert(raw.skip(0) == raw);
}

/// The quotes of a token are all that `unquoted` takes from it.
pub proof fn lemma_unquoted_of_quoted(inner: Seq<char>)
    requires
        is_token_body(inner),
    ensures
        unquoted(quoted(inner)) == inner,
{
    let token = quoted(inner);
    lemma_leading_run_is(token, is_quote(), 1);
    lemma_trailing_run_is(trim_start(token, is_quote()), is_quote(), 1);
}

/// A quoted token on its own holds no wrapped name.
pub proof fn lemma_lone_token_is_not_collapsed(inner: Seq<char>)
    requires
        is_token_body(inner),
    ensures
        collapsed(quoted(inner)) == quoted(inner),
{
    let token = quoted(inner);
    assert forall|k: int| 0 <= k < token.len() implies (#[trigger] wrapped_at(token, k)) is None by {
        lemma_wrapped_at(token, k);
    }
    lemma_nothing_wrapped_nothing_collapsed(token, 0, token.len() as int);
    assert(token.subrange(0, token.len() as int) + Seq::<char>::empty() == token);
}

/// A quoted token on its own is normalised to the literal that it stands
/// for: hexadecimal text to the decimal number, or else the text of an
/// address to the array of its bytes, or else to itself with its casing
/// mended.
pub proof fn lemma_lone_token_is_fixed_up(inner: Seq<char>)
    requires
        is_token_body(inner),
    ensures
        normalized(quoted(inner)) == fixed_up(quoted(inner)),
        integer_candidate(inner) matches Some(v) ==> normalized(quoted(inner)) == decimal_text(v),
        integer_candidate(inner) is None ==> (base58_key(inner) matches Some(key) ==> normalized(
            quoted(inner),
        ) == byte_array_text(key@)),
        integer_candidate(inner) is None && base58_key(inner) is None ==> normalized(
            quoted(inner),
        ) == recased(quoted(inner)),
{
    let token = quoted(inner);
    lemma_lone_token_is_not_collapsed(inner);
    assert(is_token(token, 0, token.len() as int));
    lemma_token_end_is_token(token, 0, token.len() as int);
    assert(token.subrange(0, token.len() as int) == token);
    assert(rewritten_from(token, token.len() as int) == Seq::<char>::empty());
    lemma_unquoted_of_quoted(inner);
}

/// The wrapped name that begins at `start` where `wrapped(inner)` stands in
/// `s` from `start` on.
proof fn lemma_wrapped_where_it_stands(s: Seq<char>, start: int, inner: Seq<char>)
    requires
        is_token_body(inner),
        0 <= start,
        start + wrapped(inner).len() <= s.len(),
        s.subrange(start, start + wrapped(inner).len()) == wrapped(inner),
    ensures
        wrapped_at(s, start) == Some(
            Wrapped {
                name_start: start + 1,
                name_end: start + inner.len() + 3,
                end: start + inner.len() + 8,
            },
        ),
        s.subrange(start + 1, start + inner.len() + 3) == quoted(inner),
{
    let w = wrapped(inner);
    let close = start + inner.len() + 2;
    assert forall|k: int| start <= k < start + w.len() implies s[k] == w[k - start] by {
        assert(s.subrange(start, start + w.len())[k - start] == s[k]);
    }
    assert(s[start] == w[0]);
    assert(s[start + 1] == w[1]);
    assert(s[close] == w[close - start]);
    assert(s[close + 1] == w[close + 1 - start]);
    assert(s[close + 2] == w[close + 2 - start]);
    assert(s[close + 3] == w[close + 3 - start]);
    assert(s[close + 4] == w[close + 4 - start]);
    assert(s[close + 5] == w[close + 5 - start]);
    assert forall|k: int| start + 1 < k < close implies s[k] != '\n' && s[k] != '"' by {
        assert(s[k] == w[k - start]);
        assert(w[k - start] == inner[k - start - 2]);
    }
    assert(skip_spaces(s, start + 1) == start + 1);
    assert(is_token(s, start + 1, close + 1));
    lemma_token_end_is_token(s, start + 1, close + 1);
    assert(skip_spaces(s, close + 1) == close + 1);
    assert(skip_spaces(s, close + 3) == close + 3);
    assert(skip_spaces(s, close + 2) == close + 3);
    assert(skip_spaces(s, close + 4) == close + 4);
    assert(skip_spaces(s, close + 5) == close + 5);
    assert(empty_body_end(s, close + 1) == Some(close + 6));
    assert(s.subrange(start + 1, close + 1) =~= quoted(inner));
}

/// An object that wraps a name, `{"name": {}}`, is normalised as the quoted
/// name alone is.
pub proof fn lemma_wrapped_name_is_unwrapped(inner: Seq<char>)
    requires
        is_token_body(inner),
    ensures
        collapsed(wrapped(inner)) == quoted(inner),
        normalized(wrapped(inner)) == normalized(quoted(inner)),
{
    let s = wrapped(inner);
    assert(s.subrange(0, s.len() as int) == s);
    lemma_wrapped_where_it_stands(s, 0, inner);
    assert(collapsed_from(s, s.len() as int) == Seq::<char>::empty());
    assert(quoted(inner) + Seq::<char>::empty() == quoted(inner));
    lemma_lone_token_is_not_collapsed(inner);
}

/// The object with the one member `name`, whose value is the text `value`:
/// `{"name": value}`.
pub open spec fn object_of(name: Seq<char>, value: Seq<char>) -> Seq<char> {
    seq!['{'] + quoted(name) + seq![':', ' '] + value + seq!['}']
}

/// The characters of `object_of(name, value)`, place by place.
proof fn lemma_object_layout(name: Seq<char>, value: Seq<char>)
    ensures
        ({
            let s = object_of(name, value);
            let n = name.len() as int + 5;
            &&& s.len() == n + value.len() + 1
            &&& s[0] == '{'
            &&& s[1] == '"'
            &&& forall|k: int| 2 <= k < n - 3 ==> s[k] == name[k - 2]
            &&& s[n - 3] == '"'
            &&& s[n - 2] == ':'
            &&& s[n - 1] == ' '
            &&& s.subrange(n, n + value.len()) == value
            &&& s[n + value.len()] == '}'
            &&& s.subrange(0, n) + (value + seq!['}']) == s
        }),
{
    let s = object_of(name, value);
    let n = name.len() as int + 5;
    assert(s.subrange(n, n + value.len()) =~= value);
    assert(s.subrange(0, n) + (value + seq!['}']) =~= s);
}

/// No wrapped name begins at the brace of an object whose first member has
/// a wrapped name for its value: the body behind the member's name is not
/// empty.
proof fn lemma_member_is_not_wrapped(s: Seq<char>, n: int)
    requires
        6 <= n,
        n + 1 < s.len(),
        s[0] == '{',
        s[1] == '"',
        forall|k: int| 2 <= k < n - 3 ==> s[k] != '\n' && s[k] != '"',
        s[n - 3] == '"',
        s[n - 2] == ':',
        s[n - 1] == ' ',
        s[n] == '{',
        s[n + 1] == '"',
    ensures
        wrapped_at(s, 0) is None,
{
    assert(skip_spaces(s, 1) == 1);
    assert(is_token(s, 1, n - 2));
    lemma_token_end_is_token(s, 1, n - 2);
    assert(skip_spaces(s, n - 2) == n - 2);
    assert(skip_spaces(s, n) == n);
    assert(skip_spaces(s, n - 1) == n);
    assert(skip_spaces(s, n + 1) == n + 1);
    assert(after_spaced(s, n + 1, '}') is None);
}

/// The collapse of a text that is laid out as an object whose one member,
/// with a name of `n - 5` characters, has `wrapped(inner)` for its value.
proof fn lemma_member_value_collapsed(s: Seq<char>, n: int, inner: Seq<char>)
    requires
        is_token_body(inner),
        6 <= n,
        s.len() == n + inner.len() + 9,
        s[0] == '{',
        s[1] == '"',
        forall|k: int| 2 <= k < n - 3 ==> s[k] != '\n' && s[k] != '"' && s[k] != '{',
        s[n - 3] == '"',
        s[n - 2] == ':',
        s[n - 1] == ' ',
        s.subrange(n, n + wrapped(inner).len()) == wrapped(inner),
        s[n + inner.len() + 8] == '}',
    ensures
        collapsed(s) == s.subrange(0, n) + quoted(inner) + seq!['}'],
{
    let end = n + inner.len() + 8;
    lemma_wrapped_where_it_stands(s, n, inner);
    assert(s[n] == '{' && s[n + 1] == '"') by {
        assert(s.subrange(n, end)[0] == s[n]);
        assert(s.subrange(n, end)[1] == s[n + 1]);
    }
    lemma_member_is_not_wrapped(s, n);
    assert(forall|k: int| 0 <= k < n ==> (#[trigger] wrapped_at(s, k)) is None);
    assert(forall|k: int| end <= k < s.len() ==> (#[trigger] wrapped_at(s, k)) is None);
    lemma_one_wrapped_name_collapsed(s, n);
    assert(s.subrange(end, s.len() as int) =~= seq!['}']);
}

/// Where a wrapped name is the value of a member, the name takes its place
/// and the object around it stays: `{"status": {"active": {}}}` becomes
/// `{"status": "active"}`, on one line as on several.
pub proof fn lemma_wrapped_value_is_unwrapped(name: Seq<char>, inner: Seq<char>)
    requires
        is_token_body(name),
        is_token_body(inner),
        forall|i: int| 0 <= i < name.len() ==> name[i] != '{',
    ensures
        collapsed(object_of(name, wrapped(inner))) == object_of(name, quoted(inner)),
{
    let s = object_of(name, wrapped(inner));
    let t = object_of(name, quoted(inner));
    let n = name.len() as int + 5;
    lemma_object_layout(name, wrapped(inner));
    lemma_object_layout(name, quoted(inner));
    assert(wrapped(inner).len() == inner.len() + 8);
    lemma_member_value_collapsed(s, n, inner);
    assert(s.subrange(0, n) =~= t.subrange(0, n));
    assert(t.subrange(0, n) + quoted(inner) + seq!['}'] == t.subrange(0, n) + (quoted(inner)
        + seq!['}']));
}

} // verus!
