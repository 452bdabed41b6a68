//! The calls that leave this crate. Each stands behind a contract that the
//! verifier believes and does not prove: the contract says what the called
//! function's source or documentation shows.

use vstd::prelude::*;
use vstd::utf8::{decode_utf8, valid_utf8};
use crate::json::Json;
use crate::numeral::{byte_array_text, decimal_text};

verus! {

/// `String::push` of the standard library appends one character.
pub assume_specification[ String::push ](s: &mut String, c: char)
    ensures
        final(s)@ == old(s)@.push(c),
;

/// A JSON value as `serde_json` holds it.
#[verifier::external_type_specification]
#[verifier::external_body]
pub struct ExValue(serde_json::Value);

/// The error of `serde_json`.
#[verifier::external_type_specification]
#[verifier::external_body]
pub struct ExJsonError(serde_json::Error);

/// The 32 bytes that `text` writes in base 58, where it writes 32 bytes:
/// what `Pubkey::from_str` of `solana_sdk` accepts and returns.
pub uninterp spec fn base58_key(text: Seq<char>) -> Option<[u8; 32]>;

/// The address that `Pubkey::try_find_program_address` of `solana_sdk`
/// derives for a program from seeds, where it finds one.
pub uninterp spec fn program_address(seeds: Seq<Seq<u8>>, program_id: [u8; 32]) -> Option<[u8; 32]>;

/// The bytes of each seed of `seeds`.
pub open spec fn seed_bytes(seeds: Seq<Vec<u8>>) -> Seq<Seq<u8>> {
    Seq::new(seeds.len(), |i: int| seeds[i]@)
}

/// The tree of the value that `serde_json::from_str` reads from `text`,
/// where `text` is strict JSON.
pub uninterp spec fn document_tree(text: Seq<char>) -> Option<Json>;

/// The tree that a value of `serde_json` holds.
pub uninterp spec fn value_tree(value: serde_json::Value) -> Json;

/// `serde_json::to_string` writes a 128-bit integer in decimal, with a `-`
/// before a negative one and no leading zeros.
#[verifier::external_body]
pub(crate) fn integer_json(value: i128) -> (r: String)
    ensures
        r@ == decimal_text(value as int),
{
    serde_json::to_string(&value).unwrap_or_default()
}

/// `serde_json::to_string` writes an array of 32 bytes as a JSON array of
/// decimal numbers, separated by commas, with no space.
#[verifier::external_body]
pub(crate) fn bytes_json(bytes: &[u8; 32]) -> (r: String)
    ensures
        r@ == byte_array_text(bytes@),
{
    serde_json::to_string(bytes).unwrap_or_default()
}

/// `Pubkey::from_str` of `solana_sdk` reads an address from base 58, and
/// `Pubkey::to_bytes` gives its bytes. The result depends on the text alone.
#[verifier::external_body]
pub(crate) fn decode_base58_key(text: &str) -> (r: Option<[u8; 32]>)
    ensures
        r == base58_key(text@),
{
    match text.parse::<solana_sdk::pubkey::Pubkey>() {
        Ok(key) => Some(key.to_bytes()),
        Err(_) => None,
    }
}

/// `Pubkey::try_find_program_address` of `solana_sdk` derives an address
/// from seeds and a program's address, or finds none. The result depends on
/// the two alone. Its bump seed is dropped.
#[verifier::external_body]
pub(crate) fn find_program_address(seeds: &Vec<Vec<u8>>, program_id: &[u8; 32]) -> (r: Option<
    [u8; 32],
>)
    ensures
        r == program_address(seed_bytes(seeds@), *program_id),
{
    let seeds: Vec<&[u8]> = seeds.iter().map(|seed| seed.as_slice()).collect();
    let program = solana_sdk::pubkey::Pubkey::new_from_array(*program_id);
    match solana_sdk::pubkey::Pubkey::try_find_program_address(&seeds, &program) {
        Some((address, _)) => Some(address.to_bytes()),
        None => None,
    }
}

/// `serde_json::from_str` reads a value from strict JSON and fails on any
/// other text. The result depends on the text alone.
#[verifier::external_body]
pub(crate) fn read_document(text: &str) -> (r: Result<serde_json::Value, serde_json::Error>)
    ensures
        r is Ok == document_tree(text@) is Some,
        r matches Ok(value) ==> document_tree(text@) == Some(value_tree(value)),
{
    serde_json::from_str::<serde_json::Value>(text)
}

/// Copies a value of `serde_json` into a tree, variant by variant: a number
/// by `Number::as_str`, which for an integer is the digits of the document,
/// the members of an object in the order in which `Map::iter` gives them.
#[verifier::external_body]
pub(crate) fn tree_of_value(value: &serde_json::Value) -> (r: Json)
    ensures
        r == value_tree(*value),
{
    match value {
        serde_json::Value::Null => Json::Null,
        serde_json::Value::Bool(b) => Json::Bool(*b),
        serde_json::Value::Number(n) => Json::Number(n.as_str().to_string()),
        serde_json::Value::String(s) => Json::Text(s.clone()),
        serde_json::Value::Array(items) => Json::Array(items.iter().map(tree_of_value).collect()),
        serde_json::Value::Object(members) => Json::Object(
            members.iter().map(|(name, member)| (name.clone(), tree_of_value(member))).collect(),
        ),
    }
}

/// `core::str::from_utf8` gives the text that `bytes` encode, where they are
/// valid UTF-8, and fails where they are not.
#[verifier::external_body]
pub(crate) fn utf8_text(bytes: &[u8]) -> (r: Option<&str>)
    ensures
        r is Some == valid_utf8(bytes@),
        r matches Some(text) ==> text@ == decode_utf8(bytes@),
{
    core::str::from_utf8(bytes).ok()
}

} // verus!
