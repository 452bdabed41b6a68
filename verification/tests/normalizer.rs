use drift_sdk::normalizer::collapse::{collapse_wrapped, find_wrapped};
use drift_sdk::normalizer::literal::{
    classify, fixup_item, rewrite_literals, token_key, NormalizedLiteral,
};
use drift_sdk::normalizer::replace_fixup_input;
use drift_sdk::normalizer::token::find_token_end;

fn chars(s: &str) -> Vec<char> {
    s.chars().collect()
}

fn text(c: Vec<char>) -> String {
    c.into_iter().collect()
}

/// A wrapped name as a regular expression: the name runs to the first quote
/// behind its first character.
const WRAPPED: &str = r#"\{\s*("[^\n][^"\n]*")\s*:\s*\{\s*}\s*}"#;

/// The two passes written as regular expressions.
struct Patterns {
    wrapped: regex::Regex,
    token: regex::Regex,
}

impl Patterns {
    fn new() -> Patterns {
        Patterns {
            wrapped: regex::Regex::new(WRAPPED).unwrap(),
            token: regex::Regex::new(r#"".+?""#).unwrap(),
        }
    }

    fn normalize(&self, s: &str) -> String {
        let s = self.collapse(s);
        self.token
            .replace_all(&s, |c: &regex::Captures| fixup_item(c.get(0).unwrap().as_str()))
            .to_string()
    }

    fn collapse(&self, s: &str) -> String {
        self.wrapped
            .replace_all(s, |c: &regex::Captures| c.get(1).unwrap().as_str().to_string())
            .to_string()
    }

    fn tokens(&self, s: &str) -> Vec<(usize, usize)> {
        let starts: Vec<usize> = s.char_indices().map(|(b, _)| b).collect();
        let at = |byte: usize| starts.iter().position(|b| *b == byte).unwrap_or(starts.len());
        self.token.find_iter(s).map(|m| (at(m.start()), at(m.end()))).collect()
    }
}

fn tokens_by_scanner(s: &str) -> Vec<(usize, usize)> {
    let c = chars(s);
    let mut found = Vec::new();
    let mut i = 0;
    while i < c.len() {
        match find_token_end(&c, i) {
            Some(end) => {
                found.push((i, end));
                i = end;
            }
            None => i += 1,
        }
    }
    found
}

/// A small generator of text over the characters that the passes tell apart.
struct Noise(u64);

impl Noise {
    fn next(&mut self) -> u64 {
        self.0 = self.0.wrapping_mul(6364136223846793005).wrapping_add(1442695040888963407);
        self.0 >> 33
    }

    fn text(&mut self, alphabet: &[char], max_len: u64) -> String {
        let len = self.next() % (max_len + 1);
        (0..len).map(|_| alphabet[(self.next() % alphabet.len() as u64) as usize]).collect()
    }
}

#[test]
fn wrapped_name_gives_way_to_the_name() {
    assert_eq!(replace_fixup_input(r#"{"foo": {}}"#), r#""foo""#);
    assert_eq!(
        replace_fixup_input(r#"{"status": {"active": {}}}"#),
        r#"{"status": "active"}"#
    );
    assert_eq!(
        replace_fixup_input(r#"[{"status": { "active" : { } }, "x": 1}]"#),
        r#"[{"status": "active", "x": 1}]"#
    );
    assert_eq!(
        replace_fixup_input("[{\n\"status\": {\n \"active\" : { }\n},\n\"x\": 1}]"),
        "[{\n\"status\": \"active\",\n\"x\": 1}]"
    );
    assert_eq!(text(collapse_wrapped(&chars("{\n \"perp\"\t:\n{\n}\n}"))), "\"perp\"");
    assert_eq!(
        replace_fixup_input(r#"{"tier": {"collateral": {}}, "source": {"pyth": {}}}"#),
        r#"{"tier": "collateral", "source": "pyth"}"#
    );
}

#[test]
fn wrapped_name_may_not_hold_a_line_feed() {
    let s = "{\"a\nb\": {}}";
    assert_eq!(text(collapse_wrapped(&chars(s))), s);
}

#[test]
fn wrapped_name_ends_at_the_first_quote_behind_its_first_character() {
    // the body behind the first name is not empty: nothing is wrapped here
    let s = r#"{"a": 1, "b": {}}"#;
    assert_eq!(text(collapse_wrapped(&chars(s))), s);
    assert_eq!(find_wrapped(&chars(s), 0), None);
    assert_eq!(find_wrapped(&chars(r#"{"a": {"b": {}}}"#), 0), None);
    assert_eq!(find_wrapped(&chars(r#"{"a": {"b": {}}}"#), 6), Some((7, 10, 15)));
    assert_eq!(find_wrapped(&chars(r#"{ "k" : { } } "#), 0), Some((2, 5, 13)));
    assert_eq!(find_wrapped(&chars(r#"{"k": {}"#), 0), None);
    assert_eq!(find_wrapped(&chars(r#"{"": {}}"#), 0), None);
    assert_eq!(find_wrapped(&chars(r#"{""": {}}"#), 0), Some((1, 4, 9)));
    assert_eq!(find_wrapped(&chars(r#"x{"k":{}}"#), 0), None);
    assert_eq!(find_wrapped(&chars(r#"x{"k":{}}"#), 1), Some((2, 5, 9)));
    assert_eq!(find_wrapped(&chars(r#"x{"k":{}}"#), 9), None);
    assert_eq!(find_wrapped(&[], 0), None);
}

#[test]
fn hexadecimal_text_becomes_a_decimal_number() {
    assert_eq!(fixup_item(r#""1a""#), "26");
    assert_eq!(fixup_item(r#""1A""#), "26");
    assert_eq!(fixup_item(r#""-1a""#), "-26");
    assert_eq!(fixup_item(r#""00""#), "0");
    assert_eq!(fixup_item(r#""0f4240""#), "1000000");
    assert_eq!(replace_fixup_input(r#"{"price": "0f4240"}"#), r#"{"price": 1000000}"#);
}

#[test]
fn integer_bounds() {
    assert_eq!(
        fixup_item(r#""7fffffffffffffffffffffffffffffff""#),
        "170141183460469231731687303715884105727"
    );
    assert_eq!(
        fixup_item(r#""-80000000000000000000000000000000""#),
        "-170141183460469231731687303715884105728"
    );
    // one beyond the range is no integer, and no address either
    assert_eq!(
        fixup_item(r#""80000000000000000000000000000000""#),
        r#""80000000000000000000000000000000""#
    );
    assert_eq!(
        fixup_item(r#""-80000000000000000000000000000001""#),
        r#""-80000000000000000000000000000001""#
    );
    assert_eq!(
        fixup_item(r#""0000000000000000000000000000000000000001""#),
        "1"
    );
}

#[test]
fn hexadecimal_text_of_any_length_is_a_number() {
    assert_eq!(fixup_item(r#""abc""#), "2748");
    assert_eq!(fixup_item(r#""ABC""#), "2748");
    assert_eq!(fixup_item(r#""f""#), "15");
    assert_eq!(fixup_item(r#""0""#), "0");
    assert_eq!(fixup_item(r#""-abc""#), "-2748");
    assert_eq!(fixup_item(r#""7ffffffffffffffffffffffffffffffff""#), r#""7ffffffffffffffffffffffffffffffff""#);
    assert_eq!(fixup_item(r#""07fffffffffffffffffffffffffffffff""#), i128::MAX.to_string());
    // a sign without digits, another sign, another character
    assert_eq!(fixup_item(r#""-""#), r#""-""#);
    assert_eq!(fixup_item(r#""-x""#), r#""-x""#);
    assert_eq!(fixup_item(r#""+1a""#), r#""+1a""#);
    assert_eq!(fixup_item(r#""1g""#), r#""1g""#);
    assert_eq!(fixup_item(r#""0x1a""#), r#""0x1a""#);
}

#[test]
fn words_stay_text() {
    assert_eq!(fixup_item(r#""name""#), r#""name""#);
    assert_eq!(fixup_item(r#""oracle""#), r#""oracle""#);
    assert_eq!(fixup_item(r#""""#), r#""""#);
    assert_eq!(fixup_item(r#"""""#), r#"""""#);
}

#[test]
fn valid_hexadecimal_word_is_taken_for_a_number() {
    assert_eq!(fixup_item(r#""face""#), "64206");
    assert_eq!(fixup_item(r#""dead""#), "57005");
}

#[test]
fn address_becomes_an_array_of_its_bytes() {
    let key = "TokenkegQfeZyiNwAJbNbGKPFXCWuBvf9Ss623VQ5DA";
    let bytes: [u8; 32] = [
        6, 221, 246, 225, 215, 101, 161, 147, 217, 203, 225, 70, 206, 235, 121, 172, 28, 180, 133,
        237, 95, 91, 55, 145, 58, 140, 245, 133, 126, 255, 0, 169,
    ];
    let out = fixup_item(&format!("\"{}\"", key));
    assert_eq!(
        out,
        "[6,221,246,225,215,101,161,147,217,203,225,70,206,235,121,172,28,180,133,237,95,91,55,145,58,140,245,133,126,255,0,169]"
    );
    let read: Vec<u8> = serde_json::from_str(&out).unwrap();
    assert_eq!(read.len(), 32);
    assert_eq!(read, bytes.to_vec());
    assert_eq!(token_key(&format!("\"{}\"", key)), Some(bytes));
    assert_eq!(token_key("\"11111111111111111111111111111111\""), Some([0u8; 32]));
}

#[test]
fn address_of_hexadecimal_digits_is_taken_for_a_number() {
    // the address of 32 zero bytes is written with 32 digits `1`
    assert_eq!(token_key("\"11111111111111111111111111111111\""), Some([0u8; 32]));
    assert_eq!(
        fixup_item("\"11111111111111111111111111111111\""),
        "22685491128062564230891640495451214097"
    );
    assert_eq!(
        classify("\"11111111111111111111111111111111\"", Some([0u8; 32])),
        NormalizedLiteral::Integer(0x11111111111111111111111111111111)
    );
}

#[test]
fn text_that_is_no_address_has_no_key() {
    assert_eq!(token_key("\"name\""), None);
    assert_eq!(token_key("\"\""), None);
    // base 58 of fewer than 32 bytes
    assert_eq!(token_key("\"2g\""), None);
    // more than 44 characters
    assert_eq!(token_key("\"111111111111111111111111111111111111111111111\""), None);
    // `0`, `O`, `I` and `l` are no digits of base 58
    assert_eq!(token_key("\"TokenkegQfeZyiNwAJbNbGKPFXCWuBvf9Ss623VQ5D0\""), None);
}

#[test]
fn casing_is_mended_in_plain_text() {
    assert_eq!(fixup_item(r#""last5MinTwap""#), r#""last5minTwap""#);
    assert_eq!(fixup_item(r#""volume24H""#), r#""volume24h""#);
    assert_eq!(fixup_item(r#""a5Min24Hb5Min""#), r#""a5min24hb5min""#);
    assert_eq!(fixup_item(r#""5MIN 24h 5min""#), r#""5MIN 24h 5min""#);
    assert_eq!(fixup_item(r#""55Min""#), r#""55min""#);
    assert_eq!(fixup_item(r#""224HH""#), r#""224hH""#);
}

#[test]
fn classify_goes_by_priority() {
    let key = Some([7u8; 32]);
    assert_eq!(classify(r#""1a""#, key), NormalizedLiteral::Integer(26));
    assert_eq!(classify(r#""1a""#, None), NormalizedLiteral::Integer(26));
    assert_eq!(classify(r#""name""#, key), NormalizedLiteral::ByteArray([7u8; 32]));
    assert_eq!(
        classify(r#""x24H""#, None),
        NormalizedLiteral::RawString(r#""x24h""#.to_string())
    );
    assert_eq!(NormalizedLiteral::Integer(-5).to_json(), "-5");
    assert_eq!(NormalizedLiteral::Integer(0).to_json(), "0");
    assert_eq!(NormalizedLiteral::Integer(i128::MAX).to_json(), i128::MAX.to_string());
    assert_eq!(NormalizedLiteral::Integer(i128::MIN).to_json(), i128::MIN.to_string());
    assert_eq!(
        NormalizedLiteral::ByteArray([255u8; 32]).to_json(),
        format!("[{}]", vec!["255"; 32].join(","))
    );
    assert_eq!(NormalizedLiteral::RawString("\"a\"".to_string()).to_json(), "\"a\"");
}

#[test]
fn token_runs_to_the_next_quote() {
    let s = chars(r#""ab" "cd""#);
    assert_eq!(find_token_end(&s, 0), Some(4));
    assert_eq!(find_token_end(&s, 1), None);
    assert_eq!(find_token_end(&s, 3), Some(6));
    assert_eq!(find_token_end(&s, 5), Some(9));
    assert_eq!(find_token_end(&s, 8), None);
    assert_eq!(find_token_end(&s, 9), None);
    assert_eq!(find_token_end(&s, 100), None);
    // the first character of a token may be a quote
    assert_eq!(find_token_end(&chars(r#"""a""#), 0), Some(4));
    assert_eq!(find_token_end(&chars(r#""""#), 0), None);
    assert_eq!(find_token_end(&chars(r#"""""#), 0), Some(3));
    // no line feed inside
    assert_eq!(find_token_end(&chars("\"a\nb\""), 0), None);
    assert_eq!(find_token_end(&chars("\"\na\""), 0), None);
    assert_eq!(find_token_end(&chars("\"a\rb\""), 0), Some(5));
    assert_eq!(find_token_end(&[], 0), None);
}

#[test]
fn every_token_is_rewritten() {
    assert_eq!(
        text(rewrite_literals(&chars(r#"{"x": "ff", "y": ["10", "zz", "abc"]}"#))),
        r#"{"x": 255, "y": [16, "zz", 2748]}"#
    );
    assert_eq!(text(rewrite_literals(&chars("no quotes"))), "no quotes");
    assert_eq!(text(rewrite_literals(&chars(""))), "");
    assert_eq!(text(rewrite_literals(&chars("\"unclosed"))), "\"unclosed");
    // the key "ab" is hexadecimal too
    assert_eq!(text(rewrite_literals(&chars(r#"{"ab": "x"}"#))), r#"{171: "x"}"#);
}

#[test]
fn normalised_bundle_is_strict_json() {
    let raw = r#"[
  {
    "account": {
      "name": [83, 79, 76],
      "oracleSource": { "pyth": {} },
      "last5MinPrice": "0f4240",
      "mint": "TokenkegQfeZyiNwAJbNbGKPFXCWuBvf9Ss623VQ5DA",
      "delta": "-0a"
    }
  }
]"#;
    let out = replace_fixup_input(raw);
    let doc: serde_json::Value = serde_json::from_str(&out).unwrap();
    let account = &doc[0]["account"];
    assert_eq!(account["oracleSource"].as_str(), Some("pyth"));
    assert_eq!(account["last5minPrice"].as_u64(), Some(1_000_000));
    assert_eq!(account["delta"].as_i64(), Some(-10));
    assert_eq!(account["mint"].as_array().map(|a| a.len()), Some(32));
    assert_eq!(account["mint"][0].as_u64(), Some(6));
    assert_eq!(account["mint"][31].as_u64(), Some(169));
}

#[test]
fn passes_agree_with_their_patterns_on_chosen_text() {
    let cases = [
        "",
        "{}",
        r#"{"foo": {}}"#,
        r#"{"foo": {}} {"bar":{}}"#,
        r#"{{"foo": {}}}"#,
        r#"{"a": {"b": {}}}"#,
        r#"{"a": 1, "b": {}}"#,
        "{\u{a0}\"k\"\u{2003}:\u{3000}{\u{85}}\u{1680}}",
        "{\u{200b}\"k\":{}}",
        "{\"a\nb\": {}} {\"c\": {}}",
        r#"{"": {}}"#,
        r#"{""": {}}"#,
        r#"{"a"": {}}"#,
        r#"{"a":{}}"1a""ff""#,
        r#""""""#,
        r#""a""b"#,
        "\"\u{e9}t\u{e9}\" \"24H\u{1f600}5Min\"",
        r#"{"x": "0f", "y": "-1", "z": "g0"}"#,
        "\"12\n34\" \"56\"",
        r#"{ "k" : { } }{ "k2" : {} }"#,
        r#"{"k":{} }"#,
        r#"{"k":{ }x}"#,
    ];
    let patterns = Patterns::new();
    for case in cases {
        assert_eq!(replace_fixup_input(case), patterns.normalize(case), "on {:?}", case);
        assert_eq!(text(collapse_wrapped(&chars(case))), patterns.collapse(case), "on {:?}", case);
        assert_eq!(tokens_by_scanner(case), patterns.tokens(case), "on {:?}", case);
    }
}

#[test]
fn passes_agree_with_their_patterns_on_generated_text() {
    let alphabet = [
        '{', '}', '"', ':', ' ', '\n', '\t', '\r', 'a', 'f', '1', '-', 'H', '\u{a0}', '\u{2028}',
        '\u{e9}', '{', '}', '"', ':', '"',
    ];
    let mut noise = Noise(0x5eed);
    let patterns = Patterns::new();
    for _ in 0..3000 {
        let case = noise.text(&alphabet, 24);
        assert_eq!(replace_fixup_input(&case), patterns.normalize(&case), "on {:?}", case);
        assert_eq!(
            text(collapse_wrapped(&chars(&case))),
            patterns.collapse(&case),
            "on {:?}",
            case
        );
        assert_eq!(tokens_by_scanner(&case), patterns.tokens(&case), "on {:?}", case);
    }
}

#[test]
fn collapse_agrees_with_its_pattern_on_likely_text() {
    let parts = [
        "{", "}", "\"", ":", " ", "{}", "\"k\"", "\"k\":", "{\"k\"", ": {}", "}}", "\n", "a",
        " \"v\" : {} }", "{ \"w\"",
    ];
    let mut noise = Noise(7);
    let patterns = Patterns::new();
    for _ in 0..3000 {
        let n = noise.next() % 9;
        let case: String =
            (0..n).map(|_| parts[(noise.next() % parts.len() as u64) as usize]).collect();
        assert_eq!(
            text(collapse_wrapped(&chars(&case))),
            patterns.collapse(&case),
            "on {:?}",
            case
        );
        assert_eq!(replace_fixup_input(&case), patterns.normalize(&case), "on {:?}", case);
    }
}

#[test]
fn text_without_quotes_is_unchanged() {
    for case in ["", "plain", "{ a : { } }", "[1, 2, {}]\n{:}", "5Min 24H 1a ff", "{\n}\t\u{a0}"] {
        assert_eq!(replace_fixup_input(case), case);
    }
}

#[test]
fn wrapped_name_is_normalised_as_the_name_alone() {
    for name in ["foo", "1a", "-ff", "x5Min", "a b", "TokenkegQfeZyiNwAJbNbGKPFXCWuBvf9Ss623VQ5DA", "é"] {
        let quoted = format!("\"{}\"", name);
        let wrapped = format!("{{\"{}\": {{}}}}", name);
        assert_eq!(text(collapse_wrapped(&chars(&wrapped))), quoted);
        assert_eq!(replace_fixup_input(&wrapped), replace_fixup_input(&quoted));
        assert_eq!(replace_fixup_input(&quoted), fixup_item(&quoted));
    }
    assert_eq!(replace_fixup_input(r#"{"1a": {}}"#), "26");
}

#[test]
fn mended_casing_keeps_the_length() {
    for case in ["\"5Min\"", "\"x24H5MinMH\"", "\"MMHH5M24\"", "\"245Min4H\""] {
        let out = fixup_item(case);
        assert_eq!(out.chars().count(), case.chars().count());
        for (before, after) in case.chars().zip(out.chars()) {
            assert!(
                before == after || (before == 'M' && after == 'm') || (before == 'H' && after == 'h')
            );
        }
    }
}

#[test]
fn text_beyond_ascii_is_no_hexadecimal() {
    for case in ["\"é\"", "\"éé\"", "\"aé\"", "\"ａｂ\"", "\"١٢\""] {
        assert_eq!(fixup_item(case), case);
    }
}
