//! The protocol's fixed addresses, and the addresses that are derived for
//! its accounts from seeds.

use vstd::prelude::*;
use vstd::string::StrSliceExecFns;
use vstd::utf8::encode_utf8;
use crate::outside::{find_program_address, program_address, seed_bytes};
use crate::types::{Context, Pubkey};

verus! {

/// The address of the protocol's program.
pub const PROGRAM_ID: [u8; 32] = [
    9, 84, 219, 190, 158, 201, 96, 201, 138, 122, 41, 63, 226, 19, 54, 150, 111, 225, 128, 209, 81,
    174, 75, 129, 121, 86, 31, 137, 133, 74, 83, 246,
];

/// The address of the token program.
pub const TOKEN_PROGRAM_ID: [u8; 32] = [
    6, 221, 246, 225, 215, 101, 161, 147, 217, 203, 225, 70, 206, 235, 121, 172, 28, 180, 133, 237,
    95, 91, 55, 145, 58, 140, 245, 133, 126, 255, 0, 169,
];

/// The address of the market lookup table on the development network.
pub const DEVNET_LOOKUP_TABLE: [u8; 32] = [
    216, 142, 226, 205, 21, 174, 253, 206, 17, 125, 51, 82, 64, 243, 126, 87, 145, 141, 101, 76, 91,
    168, 34, 183, 125, 215, 70, 144, 128, 85, 212, 196,
];

/// The address of the market lookup table on the main network.
pub const MAINNET_LOOKUP_TABLE: [u8; 32] = [
    180, 129, 92, 17, 5, 189, 205, 5, 149, 17, 22, 31, 230, 73, 16, 238, 206, 66, 225, 35, 188, 61,
    24, 151, 189, 45, 44, 158, 231, 141, 200, 77,
];

/// The address of the market lookup table of a network.
pub fn market_lookup_table(context: Context) -> (r: Pubkey)
    ensures
        r == match context {
            Context::DevNet => Pubkey(DEVNET_LOOKUP_TABLE),
            Context::MainNet => Pubkey(MAINNET_LOOKUP_TABLE),
        },
{
    match context {
        Context::DevNet => Pubkey::new_from_array(DEVNET_LOOKUP_TABLE),
        Context::MainNet => Pubkey::new_from_array(MAINNET_LOOKUP_TABLE),
    }
}

/// The address of the token program.
pub fn token_program_id() -> (r: Pubkey)
    ensures
        r == Pubkey(TOKEN_PROGRAM_ID),
{
    Pubkey::new_from_array(TOKEN_PROGRAM_ID)
}

/// A market index as a seed: its two bytes, the low one first.
pub open spec fn index_seed(market_index: u16) -> Seq<u8> {
    seq![(market_index % 256) as u8, (market_index / 256) as u8]
}

/// The seeds of the protocol's state account.
pub open spec fn state_seeds() -> Seq<Seq<u8>> {
    seq![encode_utf8("drift_state"@)]
}

/// The seeds of the protocol's signer.
pub open spec fn signer_seeds() -> Seq<Seq<u8>> {
    seq![encode_utf8("drift_signer"@)]
}

/// The seeds of the account of a spot market.
pub open spec fn spot_market_seeds(market_index: u16) -> Seq<Seq<u8>> {
    seq![encode_utf8("spot_market"@), index_seed(market_index)]
}

/// The seeds of the vault of a spot market.
pub open spec fn spot_market_vault_seeds(market_index: u16) -> Seq<Seq<u8>> {
    seq![encode_utf8("spot_market_vault"@), index_seed(market_index)]
}

/// The address that the protocol's program has for `seeds`, if it has one.
pub open spec fn derived(seeds: Seq<Seq<u8>>) -> Option<Pubkey> {
    match program_address(seeds, PROGRAM_ID) {
        Some(bytes) => Some(Pubkey(bytes)),
        None => None,
    }
}

/// Two market indices with the same seed are one index.
pub proof fn lemma_index_seed_is_injective(a: u16, b: u16)
    requires
        index_seed(a) == index_seed(b),
    ensures
        a == b,
{
}

/// The accounts and the vaults of two different spot markets are derived
/// from different seeds.
pub proof fn lemma_markets_differ_in_their_seeds(a: u16, b: u16)
    requires
        a != b,
    ensures
        spot_market_seeds(a) != spot_market_seeds(b),
        spot_market_vault_seeds(a) != spot_market_vault_seeds(b),
{
    if spot_market_seeds(a) == spot_market_seeds(b) {
        lemma_index_seed_is_injective(a, b);
    }
    if spot_market_vault_seeds(a) == spot_market_vault_seeds(b) {
        lemma_index_seed_is_injective(a, b);
    }
}

/// A market index as a seed.
fn index_seed_of(market_index: u16) -> (r: Vec<u8>)
    ensures
        r@ == index_seed(market_index),
{
    let low: u8 = (market_index % 256) as u8;
    let high: u8 = (market_index / 256) as u8;
    let mut seed: Vec<u8> = Vec::new();
    seed.push(low);
    seed.push(high);
    seed
}

/// The address that the protocol's program has for the seed `label`,
/// followed by the seed of `market_index` where there is one.
fn derive(label: &str, market_index: Option<u16>) -> (r: Option<Pubkey>)
    ensures
        r == derived(
            match market_index {
                Some(i) => seq![encode_utf8(label@), index_seed(i)],
                None => seq![encode_utf8(label@)],
            },
        ),
{
    let mut seeds: Vec<Vec<u8>> = Vec::new();
    seeds.push(label.as_bytes_vec());
    match market_index {
        Some(i) => {
            seeds.push(index_seed_of(i));
            assert(seed_bytes(seeds@) =~= seq![encode_utf8(label@), index_seed(i)]);
        },
        None => {
            assert(seed_bytes(seeds@) =~= seq![encode_utf8(label@)]);
        },
    }
    match find_program_address(&seeds, &PROGRAM_ID) {
        Some(bytes) => Some(Pubkey::new_from_array(bytes)),
        None => None,
    }
}

/// The address of the protocol's state account.
pub fn state_account() -> (r: Option<Pubkey>)
    ensures
        r == derived(state_seeds()),
{
    derive("drift_state", None)
}

/// The address of the account of the spot market `market_index`.
pub fn derive_spot_market_account(market_index: u16) -> (r: Option<Pubkey>)
    ensures
        r == derived(spot_market_seeds(market_index)),
{
    derive("spot_market", Some(market_index))
}

/// The address of the vault of the spot market `market_index`.
pub fn derive_spot_market_vault(market_index: u16) -> (r: Option<Pubkey>)
    ensures
        r == derived(spot_market_vault_seeds(market_index)),
{
    derive("spot_market_vault", Some(market_index))
}

/// The address of the protocol's signer.
pub fn derive_drift_signer() -> (r: Option<Pubkey>)
    ensures
        r == derived(signer_seeds()),
{
    derive("drift_signer", None)
}

/// A cell for the address of the state account: empty until the address is
/// first asked for, and holding it from then on.
pub struct StateAccountCell {
    address: Option<Pubkey>,
}

impl StateAccountCell {
    /// What the cell holds is the address of the state account.
    #[verifier::type_invariant]
    pub closed spec fn holds_the_address(self) -> bool {
        self.address matches Some(a) ==> derived(state_seeds()) == Some(a)
    }

    /// Whether the cell holds the address.
    pub closed spec fn is_filled(self) -> bool {
        self.address is Some
    }

    /// An empty cell.
    pub fn new() -> (r: StateAccountCell)
        ensures
            !r.is_filled(),
    {
        StateAccountCell { address: None }
    }

    /// The address of the state account. The first call derives it and
    /// fills the cell; every later call reads the cell.
    pub fn get(&mut self) -> (r: Option<Pubkey>)
        ensures
            r == derived(state_seeds()),
            final(self).is_filled() == (r is Some),
    {
        proof {
            use_type_invariant(&*self);
        }
        match self.address {
            Some(address) => Some(address),
            None => {
                let found = state_account();
                self.address = found;
                found
            },
        }
    }
}

} // verus!
