//! Plain data shared by the rest of the crate.

use vstd::prelude::*;

verus! {

/// The network a client talks to.
#[derive(Clone, Copy, Debug, PartialEq, Eq, Structural)]
pub enum Context {
    /// The development network.
    DevNet,
    /// The main network.
    MainNet,
}

/// The address of an account: 32 bytes.
#[derive(Clone, Copy, Debug, PartialEq, Eq, Hash)]
pub struct Pubkey(pub [u8; 32]);

impl Pubkey {
    /// The address whose bytes are `bytes`.
    pub fn new_from_array(bytes: [u8; 32]) -> (r: Pubkey)
        ensures
            r == Pubkey(bytes),
    {
        Pubkey(bytes)
    }

    /// The bytes of this address.
    pub fn to_bytes(self) -> (r: [u8; 32])
        ensures
            r == self.0,
    {
        self.0
    }
}

/// An address lookup table: its own address and the addresses it lists, in
/// the order in which a compact index stands for them.
#[derive(Clone, Debug, PartialEq, Eq)]
pub struct AddressLookupTableAccount {
    /// The address of the table.
    pub key: Pubkey,
    /// The addresses that the table lists.
    pub addresses: Vec<Pubkey>,
}

/// Why a bundle of market descriptions was refused.
#[derive(Clone, Copy, Debug, PartialEq, Eq, Structural)]
pub enum MalformedConfig {
    /// The normalised text is not strict JSON.
    NotStrictJson,
    /// The document does not have the shape of a market list.
    SchemaMismatch,
}

} // verus!
