//! The typed decoder: from a JSON document to the market records that it
//! lists.
//!
//! A document is an array. Each of its elements is a wrapper: an object
//! with the one member `account`, which holds the market's description. A
//! spot market is described by an object with exactly the members `name`,
//! `decimals`, `depositBalance` and `borrowBalance`; a perpetual market by
//! one with exactly `name`, `marginRatioInitial`, `marginRatioMaintenance`
//! and `numberOfUsers`. A name is an array of 32 bytes; every other member
//! is an unsigned integer that fits its field. The index of a market is its
//! position in the array.

use vstd::prelude::*;
use crate::json::{find_member, member, Json};
use crate::markets::{PerpMarket, PerpMarketView, SpotMarket, SpotMarketView};
use crate::numeral::{parse_magnitude, unsigned_value};
use crate::text::chars_of;
use crate::types::MalformedConfig;

verus! {

/// The most market records that a document may list: one for each index.
pub const MAX_MARKETS: usize = 65536;

/// The unsigned integer no greater than `max` that `json` writes, where it
/// is a number of decimal digits alone.
pub open spec fn unsigned_of(json: Json, max: int) -> Option<int> {
    match json {
        Json::Number(text) => unsigned_value(text@, 10, max),
        _ => None,
    }
}

/// Whether `json` is an array of 32 bytes.
pub open spec fn is_name(json: Json) -> bool {
    &&& json matches Json::Array(items)
    &&& items@.len() == 32
    &&& forall|i: int| 0 <= i < 32 ==> (#[trigger] unsigned_of(items@[i], 255)) is Some
}

/// The bytes that `json` lists, where it is an array of 32 bytes.
pub open spec fn name_of(json: Json) -> Option<Seq<u8>> {
    if is_name(json) {
        Some(Seq::new(32, |i: int| unsigned_of(json->Array_0@[i], 255).unwrap() as u8))
    } else {
        None
    }
}

/// The value of member `name` of `account` as a name buffer.
pub open spec fn name_member(members: Seq<(String, Json)>, name: Seq<char>) -> Option<Seq<u8>> {
    match member(members, name) {
        Some(json) => name_of(json),
        None => None,
    }
}

/// The value of member `name` of `members` as an unsigned integer no
/// greater than `max`.
pub open spec fn unsigned_member(members: Seq<(String, Json)>, name: Seq<char>, max: int) -> Option<
    int,
> {
    match member(members, name) {
        Some(json) => unsigned_of(json, max),
        None => None,
    }
}

/// The spot market that `account` describes, at position `index`.
pub open spec fn spot_market_of(account: Json, index: int) -> Option<SpotMarketView> {
    match account {
        Json::Object(members) => {
            let name = name_member(members@, "name"@);
            let decimals = unsigned_member(members@, "decimals"@, u32::MAX as int);
            let deposits = unsigned_member(members@, "depositBalance"@, u128::MAX as int);
            let borrows = unsigned_member(members@, "borrowBalance"@, u128::MAX as int);
            if members@.len() == 4 && name is Some && decimals is Some && deposits is Some
                && borrows is Some {
                Some(
                    SpotMarketView {
                        name: name.unwrap(),
                        market_index: index,
                        decimals: decimals.unwrap(),
                        deposit_balance: deposits.unwrap(),
                        borrow_balance: borrows.unwrap(),
                    },
                )
            } else {
                None
            }
        },
        _ => None,
    }
}

/// The perpetual market that `account` describes, at position `index`.
pub open spec fn perp_market_of(account: Json, index: int) -> Option<PerpMarketView> {
    match account {
        Json::Object(members) => {
            let name = name_member(members@, "name"@);
            let initial = unsigned_member(members@, "marginRatioInitial"@, u32::MAX as int);
            let maintenance = unsigned_member(
                members@,
                "marginRatioMaintenance"@,
                u32::MAX as int,
            );
            let users = unsigned_member(members@, "numberOfUsers"@, u32::MAX as int);
            if members@.len() == 4 && name is Some && initial is Some && maintenance is Some
                && users is Some {
                Some(
                    PerpMarketView {
                        name: name.unwrap(),
                        market_index: index,
                        margin_ratio_initial: initial.unwrap(),
                        margin_ratio_maintenance: maintenance.unwrap(),
                        number_of_users: users.unwrap(),
                    },
                )
            } else {
                None
            }
        },
        _ => None,
    }
}

/// What a wrapper holds: the value of its one member, `account`.
pub open spec fn account_of(wrapper: Json) -> Option<Json> {
    match wrapper {
        Json::Object(members) => if members@.len() == 1 {
            member(members@, "account"@)
        } else {
            None
        },
        _ => None,
    }
}

/// The spot market that element `index` of `items` wraps.
pub open spec fn spot_item(items: Seq<Json>, index: int) -> Option<SpotMarketView> {
    match account_of(items[index]) {
        Some(account) => spot_market_of(account, index),
        None => None,
    }
}

/// The perpetual market that element `index` of `items` wraps.
pub open spec fn perp_item(items: Seq<Json>, index: int) -> Option<PerpMarketView> {
    match account_of(items[index]) {
        Some(account) => perp_market_of(account, index),
        None => None,
    }
}

/// The spot markets that `document` lists, in its order, where every
/// element wraps one and there is an index for each.
pub open spec fn spot_markets_of(document: Json) -> Option<Seq<SpotMarketView>> {
    match document {
        Json::Array(items) => if items@.len() <= MAX_MARKETS && (forall|i: int|
            0 <= i < items@.len() ==> (#[trigger] spot_item(items@, i)) is Some) {
            Some(Seq::new(items@.len(), |i: int| spot_item(items@, i).unwrap()))
        } else {
            None
        },
        _ => None,
    }
}

/// The perpetual markets that `document` lists, in its order, where every
/// element wraps one and there is an index for each.
pub open spec fn perp_markets_of(document: Json) -> Option<Seq<PerpMarketView>> {
    match document {
        Json::Array(items) => if items@.len() <= MAX_MARKETS && (forall|i: int|
            0 <= i < items@.len() ==> (#[trigger] perp_item(items@, i)) is Some) {
            Some(Seq::new(items@.len(), |i: int| perp_item(items@, i).unwrap()))
        } else {
            None
        },
        _ => None,
    }
}

/// The records of `markets` as plain values.
pub open spec fn spot_views(markets: Seq<SpotMarket>) -> Seq<SpotMarketView> {
    Seq::new(markets.len(), |i: int| markets[i]@)
}

/// The records of `markets` as plain values.
pub open spec fn perp_views(markets: Seq<PerpMarket>) -> Seq<PerpMarketView> {
    Seq::new(markets.len(), |i: int| markets[i]@)
}

/// The unsigned integer no greater than `max` that `json` writes.
pub fn read_unsigned(json: &Json, max: u128) -> (r: Option<u128>)
    ensures
        r is Some == unsigned_of(*json, max as int) is Some,
        r matches Some(v) ==> unsigned_of(*json, max as int) == Some(v as int),
{
    match json {
        Json::Number(text) => {
            let digits = chars_of(text.as_str());
            assert(digits@.skip(0) == digits@);
            match parse_magnitude(digits.as_slice(), 0, 10) {
                Some(v) => if v <= max {
                    Some(v)
                } else {
                    None
                },
                None => None,
            }
        },
        _ => None,
    }
}

/// The name buffer that `json` lists.
pub fn read_name(json: &Json) -> (r: Option<[u8; 32]>)
    ensures
        r is Some == name_of(*json) is Some,
        r matches Some(name) ==> name_of(*json) == Some(name@),
{
    match json {
        Json::Array(items) => {
            if items.len() != 32 {
                return None;
            }
            let mut name: [u8; 32] = [0u8; 32];
            let mut i: usize = 0;
            while i < 32
                invariant
                    i <= 32,
                    items@.len() == 32,
                    *json == Json::Array(*items),
                    forall|k: int|
                        0 <= k < i ==> (#[trigger] unsigned_of(items@[k], 255)) == Some(
                            name@[k] as int,
                        ),
                decreases 32 - i,
            {
                match read_unsigned(&items[i], 255) {
                    Some(byte) => {
                        name[i] = byte as u8;
                    },
                    None => {
                        return None;
                    },
                }
                i += 1;
            }
            Some(name)
        },
        _ => None,
    }
}

/// The name buffer that member `name` of `members` lists.
fn read_name_member(members: &Vec<(String, Json)>, name: &str) -> (r: Option<[u8; 32]>)
    ensures
        r is Some == name_member(members@, name@) is Some,
        r matches Some(bytes) ==> name_member(members@, name@) == Some(bytes@),
{
    match find_member(members, name) {
        Some(json) => read_name(json),
        None => None,
    }
}

/// The unsigned integer no greater than `max` that member `name` of
/// `members` writes.
fn read_unsigned_member(members: &Vec<(String, Json)>, name: &str, max: u128) -> (r: Option<u128>)
    ensures
        r is Some == unsigned_member(members@, name@, max as int) is Some,
        r matches Some(v) ==> unsigned_member(members@, name@, max as int) == Some(v as int),
{
    match find_member(members, name) {
        Some(json) => read_unsigned(json, max),
        None => None,
    }
}

/// The spot market that `account` describes, at position `index`.
pub fn read_spot_market(account: &Json, index: u16) -> (r: Option<SpotMarket>)
    ensures
        r is Some == spot_market_of(*account, index as int) is Some,
        r matches Some(market) ==> spot_market_of(*account, index as int) == Some(market@),
{
    match account {
        Json::Object(members) => {
            if members.len() != 4 {
                return None;
            }
            let name: [u8; 32] = match read_name_member(members, "name") {
                Some(v) => v,
                None => { return None; },
            };
            let decimals: u128 = match read_unsigned_member(members, "decimals", 0xffff_ffff) {
                Some(v) => v,
                None => { return None; },
            };
            let deposit_balance: u128 = match read_unsigned_member(
                members,
                "depositBalance",
                u128::MAX,
            ) {
                Some(v) => v,
                None => { return None; },
            };
            let borrow_balance: u128 = match read_unsigned_member(
                members,
                "borrowBalance",
                u128::MAX,
            ) {
                Some(v) => v,
                None => { return None; },
            };
            Some(
                SpotMarket {
                    name,
                    market_index: index,
                    decimals: decimals as u32,
                    deposit_balance,
                    borrow_balance,
                },
            )
        },
        _ => None,
    }
}

/// The perpetual market that `account` describes, at position `index`.
pub fn read_perp_market(account: &Json, index: u16) -> (r: Option<PerpMarket>)
    ensures
        r is Some == perp_market_of(*account, index as int) is Some,
        r matches Some(market) ==> perp_market_of(*account, index as int) == Some(market@),
{
    match account {
        Json::Object(members) => {
            if members.len() != 4 {
                return None;
            }
            let name: [u8; 32] = match read_name_member(members, "name") {
                Some(v) => v,
                None => { return None; },
            };
            let initial: u128 = match read_unsigned_member(
                members,
                "marginRatioInitial",
                0xffff_ffff,
            ) {
                Some(v) => v,
                None => { return None; },
            };
            let maintenance: u128 = match read_unsigned_member(
                members,
                "marginRatioMaintenance",
                0xffff_ffff,
            ) {
                Some(v) => v,
                None => { return None; },
            };
            let users: u128 = match read_unsigned_member(members, "numberOfUsers", 0xffff_ffff) {
                Some(v) => v,
                None => { return None; },
            };
            Some(
                PerpMarket {
                    name,
                    market_index: index,
                    margin_ratio_initial: initial as u32,
                    margin_ratio_maintenance: maintenance as u32,
                    number_of_users: users as u32,
                },
            )
        },
        _ => None,
    }
}

/// What a wrapper holds.
pub fn unwrap_account(wrapper: &Json) -> (r: Option<&Json>)
    ensures
        r is Some == account_of(*wrapper) is Some,
        r matches Some(account) ==> account_of(*wrapper) == Some(*account),
{
    match wrapper {
        Json::Object(members) => {
            if members.len() != 1 {
                return None;
            }
            find_member(members, "account")
        },
        _ => None,
    }
}

/// The spot markets that `document` lists, in its order; none of them
/// where one element is no wrapped spot market.
pub fn decode_spot_markets(document: &Json) -> (r: Result<Vec<SpotMarket>, MalformedConfig>)
    ensures
        match r {
            Ok(markets) => {
                &&& spot_markets_of(*document) == Some(spot_views(markets@))
                &&& forall|i: int|
                    0 <= i < markets@.len() ==> (#[trigger] markets@[i]).market_index == i
            },
            Err(e) => e == MalformedConfig::SchemaMismatch && spot_markets_of(*document) is None,
        },
{
    match document {
        Json::Array(items) => {
            if items.len() > MAX_MARKETS {
                return Err(MalformedConfig::SchemaMismatch);
            }
            let mut markets: Vec<SpotMarket> = Vec::new();
            let mut i: usize = 0;
            while i < items.len()
                invariant
                    i <= items.len() <= MAX_MARKETS,
                    *document == Json::Array(*items),
                    markets@.len() == i,
                    forall|k: int|
                        0 <= k < i ==> (#[trigger] spot_item(items@, k)) == Some(markets@[k]@),
                    forall|k: int| 0 <= k < i ==> (#[trigger] markets@[k]).market_index == k,
                decreases items.len() - i,
            {
                let market: SpotMarket = match unwrap_account(&items[i]) {
                    Some(account) => match read_spot_market(account, i as u16) {
                        Some(market) => market,
                        None => {
                            return Err(MalformedConfig::SchemaMismatch);
                        },
                    },
                    None => {
                        assert(spot_item(items@, i as int) is None);
                        return Err(MalformedConfig::SchemaMismatch);
                    },
                };
                markets.push(market);
                i += 1;
            }
            Ok(markets)
        },
        _ => Err(MalformedConfig::SchemaMismatch),
    }
}

/// The perpetual markets that `document` lists, in its order; none of them
/// where one element is no wrapped perpetual market.
pub fn decode_perp_markets(document: &Json) -> (r: Result<Vec<PerpMarket>, MalformedConfig>)
    ensures
        match r {
            Ok(markets) => {
                &&& perp_markets_of(*document) == Some(perp_views(markets@))
                &&& forall|i: int|
                    0 <= i < markets@.len() ==> (#[trigger] markets@[i]).market_index == i
            },
            Err(e) => e == MalformedConfig::SchemaMismatch && perp_markets_of(*document) is None,
        },
{
    match document {
        Json::Array(items) => {
            if items.len() > MAX_MARKETS {
                return Err(MalformedConfig::SchemaMismatch);
            }
            let mut markets: Vec<PerpMarket> = Vec::new();
            let mut i: usize = 0;
            while i < items.len()
                invariant
                    i <= items.len() <= MAX_MARKETS,
                    *document == Json::Array(*items),
                    markets@.len() == i,
                    forall|k: int|
                        0 <= k < i ==> (#[trigger] perp_item(items@, k)) == Some(markets@[k]@),
                    forall|k: int| 0 <= k < i ==> (#[trigger] markets@[k]).market_index == k,
                decreases items.len() - i,
            {
                let market: PerpMarket = match unwrap_account(&items[i]) {
                    Some(account) => match read_perp_market(account, i as u16) {
                        Some(market) => market,
                        None => {
                            return Err(MalformedConfig::SchemaMismatch);
                        },
                    },
                    None => {
                        assert(perp_item(items@, i as int) is None);
                        return Err(MalformedConfig::SchemaMismatch);
                    },
                };
                markets.push(market);
                i += 1;
            }
            Ok(markets)
        },
        _ => Err(MalformedConfig::SchemaMismatch),
    }
}

} // verus!
