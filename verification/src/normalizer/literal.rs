//! The second pass of the normaliser: every quoted token of the text is
//! read as an integer, as an address, or as plain text, and written back as
//! the JSON literal of what it was read as.

use vstd::prelude::*;
use crate::normalizer::token::{find_token_end, lemma_closing_quote, token_end};
use crate::numeral::{
    all_digits, are_digits, byte_array_text, decimal_text, parse_signed, signed_value,
};
use crate::outside::{base58_key, bytes_json, decode_base58_key, integer_json};
use crate::text::{
    chars_of, extend_from_range, lemma_leading_run_is, lemma_replaced_element_for_element,
    lemma_trailing_run_is, replace_all, replaced, string_of, trim_end, trim_start,
};

verus! {

/// What a quoted token of the source text stands for.
#[derive(Debug, PartialEq, Eq)]
pub enum NormalizedLiteral {
    /// A signed integer, which the token wrote in hexadecimal.
    Integer(i128),
    /// The 32 bytes of an address, which the token wrote in base 58.
    ByteArray([u8; 32]),
    /// The token itself, quotes and all, with its casing mended.
    RawString(String),
}

/// A literal as plain values.
pub enum LiteralView {
    /// A signed integer.
    Integer(int),
    /// The bytes of an address.
    ByteArray(Seq<u8>),
    /// Text.
    RawString(Seq<char>),
}

impl View for NormalizedLiteral {
    type V = LiteralView;

    open spec fn view(&self) -> LiteralView {
        match self {
            NormalizedLiteral::Integer(v) => LiteralView::Integer(*v as int),
            NormalizedLiteral::ByteArray(bytes) => LiteralView::ByteArray(bytes@),
            NormalizedLiteral::RawString(text) => LiteralView::RawString(text@),
        }
    }
}

/// Whether `c` is the double quote.
pub open spec fn is_quote() -> spec_fn(char) -> bool {
    |c: char| c == '"'
}

/// `token` without the double quotes at its front and at its back, however
/// many there are.
pub open spec fn unquoted(token: Seq<char>) -> Seq<char> {
    trim_end(trim_start(token, is_quote()), is_quote())
}

/// The integer that `inner` writes in hexadecimal. Only text that begins
/// with `-`, or that is hexadecimal digits and nothing else, is read as
/// one; of that, what is a signed 128-bit integer in base 16.
pub open spec fn integer_candidate(inner: Seq<char>) -> Option<int> {
    if (inner.len() > 0 && inner[0] == '-') || are_digits(inner, 16) {
        signed_value(inner, 16)
    } else {
        None
    }
}

/// `token` with `5Min` turned into `5min`, and then `24H` into `24h`,
/// wherever they stand.
pub open spec fn recased(token: Seq<char>) -> Seq<char> {
    replaced(
        replaced(token, seq!['5', 'M', 'i', 'n'], seq!['5', 'm', 'i', 'n']),
        seq!['2', '4', 'H'],
        seq!['2', '4', 'h'],
    )
}

/// Mending the casing keeps the length of the text, and changes nothing in
/// it but an `M` into `m` and an `H` into `h`.
pub proof fn lemma_recased_changes_case_only(token: Seq<char>)
    ensures
        recased(token).len() == token.len(),
        forall|i: int|
            0 <= i < token.len() ==> {
                let after = #[trigger] recased(token)[i];
                ||| after == token[i]
                ||| token[i] == 'M' && after == 'm'
                ||| token[i] == 'H' && after == 'h'
            },
{
    let from5 = seq!['5', 'M', 'i', 'n'];
    let to5 = seq!['5', 'm', 'i', 'n'];
    let from24 = seq!['2', '4', 'H'];
    let to24 = seq!['2', '4', 'h'];
    lemma_replaced_element_for_element(token, from5, to5, 0);
    lemma_replaced_element_for_element(replaced(token, from5, to5), from24, to24, 0);
}

/// What `token` stands for, given the address that its unquoted text
/// writes in base 58, if it writes one. An integer goes before an address,
/// and an address before plain text.
pub open spec fn classified(token: Seq<char>, key: Option<[u8; 32]>) -> LiteralView {
    match integer_candidate(unquoted(token)) {
        Some(v) => LiteralView::Integer(v),
        None => match key {
            Some(bytes) => LiteralView::ByteArray(bytes@),
            None => LiteralView::RawString(recased(token)),
        },
    }
}

/// The JSON text of a literal: an integer in decimal, an address as an
/// array of its bytes, text as it is.
pub open spec fn literal_text(literal: LiteralView) -> Seq<char> {
    match literal {
        LiteralView::Integer(v) => decimal_text(v),
        LiteralView::ByteArray(bytes) => byte_array_text(bytes),
        LiteralView::RawString(text) => text,
    }
}

/// What takes the place of `token` in the normalised text.
pub open spec fn fixed_up(token: Seq<char>) -> Seq<char> {
    literal_text(classified(token, base58_key(unquoted(token))))
}

/// The text from position `from` on, with every quoted token replaced by
/// what it stands for: the tokens are taken from left to right, each
/// beginning at the first double quote after the one before it that begins
/// a token at all.
pub open spec fn rewritten_from(s: Seq<char>, from: int) -> Seq<char>
    decreases s.len() - from,
    via rewritten_from_decreases
{
    if from < 0 || from >= s.len() {
        Seq::empty()
    } else {
        match token_end(s, from) {
            Some(end) => fixed_up(s.subrange(from, end)) + rewritten_from(s, end),
            None => seq![s[from]] + rewritten_from(s, from + 1),
        }
    }
}

#[via_fn]
proof fn rewritten_from_decreases(s: Seq<char>, from: int) {
    if from >= 0 {
        lemma_closing_quote(s, from + 2);
    }
}

/// `s` with every quoted token replaced by what it stands for.
pub open spec fn rewritten(s: Seq<char>) -> Seq<char> {
    rewritten_from(s, 0)
}

/// Where no quoted token begins from `from` on, the rest of the text stays
/// as it is.
pub proof fn lemma_no_token_nothing_rewritten(s: Seq<char>, from: int)
    requires
        0 <= from <= s.len(),
        forall|k: int| from <= k < s.len() ==> (#[trigger] token_end(s, k)) is None,
    ensures
        rewritten_from(s, from) == s.skip(from),
    decreases s.len() - from,
{
    if from < s.len() {
        lemma_no_token_nothing_rewritten(s, from + 1);
    }
}

/// The bounds of `s` without the double quotes at its front and back.
fn unquoted_bounds(s: &[char]) -> (r: (usize, usize))
    ensures
        r.0 <= r.1 <= s.len(),
        s@.subrange(r.0 as int, r.1 as int) == unquoted(s@),
{
    let mut lo: usize = 0;
    while lo < s.len() && s[lo] == '"'
        invariant
            lo <= s.len(),
            forall|k: int| 0 <= k < lo ==> is_quote()(#[trigger] s@[k]),
        decreases s.len() - lo,
    {
        lo += 1;
    }
    let mut hi: usize = s.len();
    while hi > lo && s[hi - 1] == '"'
        invariant
            lo <= hi <= s.len(),
            forall|k: int| hi <= k < s.len() ==> is_quote()(#[trigger] s@[k]),
        decreases hi,
    {
        hi -= 1;
    }
    proof {
        lemma_leading_run_is(s@, is_quote(), lo as int);
        lemma_trailing_run_is(trim_start(s@, is_quote()), is_quote(), s.len() - hi);
    }
    (lo, hi)
}

/// Reads `token` as a literal, given the address that its unquoted text
/// writes in base 58, if it writes one.
pub fn classify(token: &str, key: Option<[u8; 32]>) -> (r: NormalizedLiteral)
    ensures
        r@ == classified(token@, key),
{
    let chars = chars_of(token);
    let (lo, hi) = unquoted_bounds(chars.as_slice());
    let mut inner: Vec<char> = Vec::new();
    extend_from_range(&mut inner, chars.as_slice(), lo, hi);
    assert(inner@.skip(0) == inner@);
    let candidate: Option<i128> = if (inner.len() > 0 && inner[0] == '-') || all_digits(
        inner.as_slice(),
        0,
        16,
    ) {
        parse_signed(inner.as_slice(), 16)
    } else {
        None
    };
    match candidate {
        Some(v) => NormalizedLiteral::Integer(v),
        None => match key {
            Some(bytes) => NormalizedLiteral::ByteArray(bytes),
            None => {
                let from5: [char; 4] = ['5', 'M', 'i', 'n'];
                let to5: [char; 4] = ['5', 'm', 'i', 'n'];
                let from24: [char; 3] = ['2', '4', 'H'];
                let to24: [char; 3] = ['2', '4', 'h'];
                let first = replace_all(chars.as_slice(), from5.as_slice(), to5.as_slice());
                let second = replace_all(first.as_slice(), from24.as_slice(), to24.as_slice());
                NormalizedLiteral::RawString(string_of(second.as_slice()))
            },
        },
    }
}

impl NormalizedLiteral {
    /// The JSON text of this literal.
    pub fn to_json(&self) -> (r: String)
        ensures
            r@ == literal_text(self@),
    {
        match self {
            NormalizedLiteral::Integer(v) => integer_json(*v),
            NormalizedLiteral::ByteArray(bytes) => bytes_json(bytes),
            NormalizedLiteral::RawString(text) => text.clone(),
        }
    }
}

/// The address that the unquoted text of `token` writes in base 58, if it
/// writes one.
pub fn token_key(token: &str) -> (r: Option<[u8; 32]>)
    ensures
        r == base58_key(unquoted(token@)),
{
    let chars = chars_of(token);
    let (lo, hi) = unquoted_bounds(chars.as_slice());
    let mut inner: Vec<char> = Vec::new();
    extend_from_range(&mut inner, chars.as_slice(), lo, hi);
    let inner_text = string_of(inner.as_slice());
    decode_base58_key(inner_text.as_str())
}

/// What takes the place of the quoted token `s` in the normalised text.
pub fn fixup_item(s: &str) -> (r: String)
    ensures
        r@ == fixed_up(s@),
{
    let key = token_key(s);
    classify(s, key).to_json()
}

/// `s` with every quoted token replaced by what it stands for.
pub fn rewrite_literals(s: &[char]) -> (r: Vec<char>)
    ensures
        r@ == rewritten(s@),
{
    let mut out: Vec<char> = Vec::new();
    let mut i: usize = 0;
    while i < s.len()
        invariant
            i <= s.len(),
            out@ + rewritten_from(s@, i as int) == rewritten(s@),
        decreases s.len() - i,
    {
        match find_token_end(s, i) {
            Some(end) => {
                let mut token: Vec<char> = Vec::new();
                extend_from_range(&mut token, s, i, end);
                let token_text = string_of(token.as_slice());
                let fixed = chars_of(fixup_item(token_text.as_str()).as_str());
                assert(out@ + fixed@ + rewritten_from(s@, end as int) == out@ + (fixed@
                    + rewritten_from(s@, end as int)));
                extend_from_range(&mut out, fixed.as_slice(), 0, fixed.len());
                i = end;
            },
            None => {
                assert(out@.push(s@[i as int]) + rewritten_from(s@, i + 1) == out@ + (seq![
                    s@[i as int],
                ] + rewritten_from(s@, i + 1)));
                out.push(s[i]);
                i += 1;
            },
        }
    }
    out
}

} // verus!
