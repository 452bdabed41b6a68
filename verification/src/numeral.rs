//! Integers as text: reading digits in a radix, and what an integer looks
//! like when it is written in decimal.

use vstd::prelude::*;

verus! {

/// The value of `c` as a digit in `radix`, where `c` is one: `0` to `9`
/// count from zero, the letters, in either case, from ten.
pub open spec fn digit_value(c: char, radix: int) -> Option<int> {
    let n = c as u32 as int;
    let v = if 0x30 <= n <= 0x39 {
        n - 0x30
    } else if 0x61 <= n <= 0x7A {
        n - 0x61 + 10
    } else if 0x41 <= n <= 0x5A {
        n - 0x41 + 10
    } else {
        radix
    };
    if v < radix {
        Some(v)
    } else {
        None
    }
}

/// Whether every element of `s` is a digit in `radix`.
pub open spec fn are_digits(s: Seq<char>, radix: int) -> bool {
    forall|i: int| 0 <= i < s.len() ==> (#[trigger] digit_value(s[i], radix)) is Some
}

/// The number that the digits `s` write in `radix`, most significant first.
pub open spec fn digits_value(s: Seq<char>, radix: int) -> int
    decreases s.len(),
{
    if s.len() == 0 {
        0
    } else {
        digits_value(s.drop_last(), radix) * radix + digit_value(s.last(), radix).unwrap()
    }
}

/// The number that `text` writes in `radix` as a signed 128-bit integer: an
/// optional `+` or `-`, then at least one digit and nothing else, the whole
/// within the range of the type.
pub open spec fn signed_value(text: Seq<char>, radix: int) -> Option<int> {
    let negative = text.len() > 0 && text[0] == '-';
    let signed = text.len() > 0 && (text[0] == '-' || text[0] == '+');
    let digits = if signed {
        text.skip(1)
    } else {
        text
    };
    let v = if negative {
        -digits_value(digits, radix)
    } else {
        digits_value(digits, radix)
    };
    if digits.len() > 0 && are_digits(digits, radix) && i128::MIN <= v <= i128::MAX {
        Some(v)
    } else {
        None
    }
}

/// The number that `text` writes in `radix` without a sign: at least one
/// digit and nothing else, the whole no greater than `max`.
pub open spec fn unsigned_value(text: Seq<char>, radix: int, max: int) -> Option<int> {
    if text.len() > 0 && are_digits(text, radix) && digits_value(text, radix) <= max {
        Some(digits_value(text, radix))
    } else {
        None
    }
}

/// The character that writes the digit `d`, for `d` below ten.
pub open spec fn digit_char(d: int) -> char {
    (0x30 + d) as u8 as char
}

/// `n` in decimal, without leading zeros.
pub open spec fn natural_text(n: nat) -> Seq<char>
    decreases n,
{
    if n < 10 {
        seq![digit_char(n as int)]
    } else {
        natural_text(n / 10).push(digit_char((n % 10) as int))
    }
}

/// `v` in decimal: a `-` where it is negative, then its magnitude.
pub open spec fn decimal_text(v: int) -> Seq<char> {
    if v < 0 {
        seq!['-'] + natural_text((-v) as nat)
    } else {
        natural_text(v as nat)
    }
}

/// The elements of `bytes` in decimal, a comma between each two.
pub open spec fn byte_list_text(bytes: Seq<u8>) -> Seq<char>
    decreases bytes.len(),
{
    if bytes.len() == 0 {
        Seq::empty()
    } else if bytes.len() == 1 {
        natural_text(bytes[0] as nat)
    } else {
        byte_list_text(bytes.drop_last()) + seq![','] + natural_text(bytes.last() as nat)
    }
}

/// `bytes` as an array of numbers: the decimal elements between square
/// brackets, separated by commas, with no space anywhere.
pub open spec fn byte_array_text(bytes: Seq<u8>) -> Seq<char> {
    seq!['['] + byte_list_text(bytes) + seq![']']
}

/// The digits written so far never weigh more than the whole number.
pub proof fn lemma_digits_value_prefix(s: Seq<char>, radix: int, n: int)
    requires
        2 <= radix,
        are_digits(s, radix),
        0 <= n <= s.len(),
    ensures
        0 <= digits_value(s.take(n), radix) <= digits_value(s, radix),
    decreases s.len() - n,
{
    if n == s.len() {
        assert(s.take(n) == s);
        lemma_digits_value_nonnegative(s, radix);
    } else {
        lemma_digits_value_prefix(s, radix, n + 1);
        let longer = s.take(n + 1);
        assert(longer.drop_last() == s.take(n));
        lemma_digits_value_nonnegative(s.take(n), radix);
        let shorter = digits_value(s.take(n), radix);
        assert(shorter * radix >= shorter) by (nonlinear_arith)
            requires
                shorter >= 0,
                radix >= 2,
        ;
    }
}

/// Digits write a number that is not negative.
pub proof fn lemma_digits_value_nonnegative(s: Seq<char>, radix: int)
    requires
        2 <= radix,
        are_digits(s, radix),
    ensures
        0 <= digits_value(s, radix),
    decreases s.len(),
{
    if s.len() > 0 {
        lemma_digits_value_nonnegative(s.drop_last(), radix);
        let shorter = digits_value(s.drop_last(), radix);
        assert(shorter * radix >= 0) by (nonlinear_arith)
            requires
                shorter >= 0,
                radix >= 2,
        ;
    }
}

/// The value of `c` as a digit in `radix`.
pub fn digit_of(c: char, radix: u32) -> (r: Option<u32>)
    requires
        2 <= radix <= 36,
    ensures
        r is Some == digit_value(c, radix as int) is Some,
        r matches Some(d) ==> digit_value(c, radix as int) == Some(d as int),
{
    let n: u32 = c as u32;
    let v: u32 = if 0x30 <= n && n <= 0x39 {
        n - 0x30
    } else if 0x61 <= n && n <= 0x7A {
        n - 0x61 + 10
    } else if 0x41 <= n && n <= 0x5A {
        n - 0x41 + 10
    } else {
        radix
    };
    if v < radix {
        Some(v)
    } else {
        None
    }
}

/// Whether `s[from..]` is nothing but digits in `radix`.
pub fn all_digits(s: &[char], from: usize, radix: u32) -> (r: bool)
    requires
        2 <= radix <= 36,
        from <= s.len(),
    ensures
        r == are_digits(s@.skip(from as int), radix as int),
{
    let ghost digits = s@.skip(from as int);
    let mut i: usize = from;
    while i < s.len()
        invariant
            from <= i <= s.len(),
            2 <= radix <= 36,
            digits == s@.skip(from as int),
            forall|k: int|
                0 <= k < i - from ==> (#[trigger] digit_value(digits[k], radix as int)) is Some,
        decreases s.len() - i,
    {
        if digit_of(s[i], radix).is_none() {
            assert(digits[i - from] == s@[i as int]);
            return false;
        }
        i += 1;
    }
    true
}

/// The number that the digits `s[from..]` write in `radix`, where they are
/// digits, at least one, and the number fits in 128 bits.
pub fn parse_magnitude(s: &[char], from: usize, radix: u32) -> (r: Option<u128>)
    requires
        2 <= radix <= 36,
        from <= s.len(),
    ensures
        r is Some == unsigned_value(s@.skip(from as int), radix as int, u128::MAX as int) is Some,
        r matches Some(m) ==> unsigned_value(s@.skip(from as int), radix as int, u128::MAX as int)
            == Some(m as int),
{
    let ghost digits = s@.skip(from as int);
    if from == s.len() || !all_digits(s, from, radix) {
        return None;
    }
    let mut acc: u128 = 0;
    let mut i: usize = from;
    while i < s.len()
        invariant
            from <= i <= s.len(),
            2 <= radix <= 36,
            digits == s@.skip(from as int),
            are_digits(digits, radix as int),
            acc == digits_value(digits.take(i - from), radix as int),
        decreases s.len() - i,
    {
        let ghost longer = digits.take(i - from + 1);
        proof {
            assert(longer.drop_last() == digits.take(i - from));
            lemma_digits_value_prefix(digits, radix as int, i - from + 1);
        }
        let d: u32 = match digit_of(s[i], radix) {
            Some(d) => d,
            None => { return None; },
        };
        let scaled: u128 = match acc.checked_mul(radix as u128) {
            Some(x) => x,
            None => { return None; },
        };
        acc = match scaled.checked_add(d as u128) {
            Some(x) => x,
            None => { return None; },
        };
        i += 1;
    }
    assert(digits.take(s.len() - from) == digits);
    Some(acc)
}

/// The number that `s` writes in `radix` as a signed 128-bit integer.
pub fn parse_signed(s: &[char], radix: u32) -> (r: Option<i128>)
    requires
        2 <= radix <= 36,
    ensures
        r is Some == signed_value(s@, radix as int) is Some,
        r matches Some(v) ==> signed_value(s@, radix as int) == Some(v as int),
{
    let negative: bool = s.len() > 0 && s[0] == '-';
    let signed: bool = s.len() > 0 && (s[0] == '-' || s[0] == '+');
    let from: usize = if signed {
        1
    } else {
        0
    };
    assert(s@.skip(0) == s@);
    let ghost digits = s@.skip(from as int);
    proof {
        if digits.len() > 0 && are_digits(digits, radix as int) {
            lemma_digits_value_nonnegative(digits, radix as int);
        }
    }
    match parse_magnitude(s, from, radix) {
        None => None,
        Some(m) => {
            if negative {
                if m <= 0x7fff_ffff_ffff_ffff_ffff_ffff_ffff_ffff {
                    Some(-(m as i128))
                } else if m == 0x8000_0000_0000_0000_0000_0000_0000_0000 {
                    Some(i128::MIN)
                } else {
                    None
                }
            } else if m <= 0x7fff_ffff_ffff_ffff_ffff_ffff_ffff_ffff {
                Some(m as i128)
            } else {
                None
            }
        },
    }
}

} // verus!
