//! The market registry: the spot and perpetual markets of one network, each
//! found by its index, and the network's address lookup table.

use vstd::prelude::*;
use crate::decode::{
    decode_perp_markets, decode_spot_markets, perp_markets_of, perp_views, spot_markets_of,
    spot_views,
};
use crate::json::{parse_document, parsed_document};
use crate::markets::{PerpMarket, PerpMarketView, SpotMarket, SpotMarketView};
use crate::normalizer::{normalized, replace_fixup_input};
use crate::types::{AddressLookupTableAccount, Context, MalformedConfig, Pubkey};

verus! {

/// The raw source store: for each network, the text that describes its
/// spot markets and the text that describes its perpetual markets.
pub struct RawSources {
    /// The spot markets of the main network.
    pub mainnet_spot_markets: String,
    /// The perpetual markets of the main network.
    pub mainnet_perp_markets: String,
    /// The spot markets of the development network.
    pub devnet_spot_markets: String,
    /// The perpetual markets of the development network.
    pub devnet_perp_markets: String,
}

impl RawSources {
    /// The text that describes the spot markets of `context`.
    pub open spec fn spot_text(&self, context: Context) -> Seq<char> {
        match context {
            Context::MainNet => self.mainnet_spot_markets@,
            Context::DevNet => self.devnet_spot_markets@,
        }
    }

    /// The text that describes the perpetual markets of `context`.
    pub open spec fn perp_text(&self, context: Context) -> Seq<char> {
        match context {
            Context::MainNet => self.mainnet_perp_markets@,
            Context::DevNet => self.devnet_perp_markets@,
        }
    }

    /// The text that describes the spot markets of `context`.
    pub fn spot_markets(&self, context: Context) -> (r: &str)
        ensures
            r@ == self.spot_text(context),
    {
        match context {
            Context::MainNet => self.mainnet_spot_markets.as_str(),
            Context::DevNet => self.devnet_spot_markets.as_str(),
        }
    }

    /// The text that describes the perpetual markets of `context`.
    pub fn perp_markets(&self, context: Context) -> (r: &str)
        ensures
            r@ == self.perp_text(context),
    {
        match context {
            Context::MainNet => self.mainnet_perp_markets.as_str(),
            Context::DevNet => self.devnet_perp_markets.as_str(),
        }
    }
}

/// The spot markets that the raw text `raw` describes, or why it describes
/// none: its normalised form is no strict JSON, or the document that it
/// writes is no list of wrapped spot markets.
pub open spec fn loaded_spot_markets(raw: Seq<char>) -> Result<
    Seq<SpotMarketView>,
    MalformedConfig,
> {
    match parsed_document(normalized(raw)) {
        None => Err(MalformedConfig::NotStrictJson),
        Some(document) => match spot_markets_of(document) {
            Some(markets) => Ok(markets),
            None => Err(MalformedConfig::SchemaMismatch),
        },
    }
}

/// The perpetual markets that the raw text `raw` describes, or why it
/// describes none.
pub open spec fn loaded_perp_markets(raw: Seq<char>) -> Result<
    Seq<PerpMarketView>,
    MalformedConfig,
> {
    match parsed_document(normalized(raw)) {
        None => Err(MalformedConfig::NotStrictJson),
        Some(document) => match perp_markets_of(document) {
            Some(markets) => Ok(markets),
            None => Err(MalformedConfig::SchemaMismatch),
        },
    }
}

/// The markets of a registry as plain values.
pub struct Markets {
    /// The spot markets, by index.
    pub spot: Seq<SpotMarketView>,
    /// The perpetual markets, by index.
    pub perp: Seq<PerpMarketView>,
}

/// The markets that the texts `spot` and `perp` describe together, or the
/// first reason why they describe none: that of the spot markets before
/// that of the perpetual ones.
pub open spec fn loaded_markets(spot: Seq<char>, perp: Seq<char>) -> Result<
    Markets,
    MalformedConfig,
> {
    match loaded_spot_markets(spot) {
        Err(e) => Err(e),
        Ok(spot_markets) => match loaded_perp_markets(perp) {
            Err(e) => Err(e),
            Ok(perp_markets) => Ok(Markets { spot: spot_markets, perp: perp_markets }),
        },
    }
}

/// Normalises and decodes the raw description of the spot markets.
pub fn load_spot_markets(raw: &str) -> (r: Result<Vec<SpotMarket>, MalformedConfig>)
    ensures
        match r {
            Ok(markets) => {
                &&& loaded_spot_markets(raw@) == Ok::<Seq<SpotMarketView>, MalformedConfig>(
                    spot_views(markets@),
                )
                &&& forall|i: int|
                    0 <= i < markets@.len() ==> (#[trigger] markets@[i]).market_index == i
            },
            Err(e) => loaded_spot_markets(raw@) == Err::<Seq<SpotMarketView>, MalformedConfig>(e),
        },
{
    let text = replace_fixup_input(raw);
    match parse_document(text.as_str()) {
        Err(e) => Err(e),
        Ok(document) => decode_spot_markets(&document),
    }
}

/// Normalises and decodes the raw description of the perpetual markets.
pub fn load_perp_markets(raw: &str) -> (r: Result<Vec<PerpMarket>, MalformedConfig>)
    ensures
        match r {
            Ok(markets) => {
                &&& loaded_perp_markets(raw@) == Ok::<Seq<PerpMarketView>, MalformedConfig>(
                    perp_views(markets@),
                )
                &&& forall|i: int|
                    0 <= i < markets@.len() ==> (#[trigger] markets@[i]).market_index == i
            },
            Err(e) => loaded_perp_markets(raw@) == Err::<Seq<PerpMarketView>, MalformedConfig>(e),
        },
{
    let text = replace_fixup_input(raw);
    match parse_document(text.as_str()) {
        Err(e) => Err(e),
        Ok(document) => decode_perp_markets(&document),
    }
}

/// The metadata of the protocol on one network: its markets and its address
/// lookup table. It does not change once it is made.
pub struct ProgramData {
    spot_markets: Vec<SpotMarket>,
    perp_markets: Vec<PerpMarket>,
    lookup_table: AddressLookupTableAccount,
}

impl ProgramData {
    /// Every market stands at the position that is its index.
    #[verifier::type_invariant]
    pub closed spec fn is_positional(self) -> bool {
        &&& forall|i: int|
            0 <= i < self.spot_markets@.len() ==> (#[trigger] self.spot_markets@[i]).market_index
                == i
        &&& forall|i: int|
            0 <= i < self.perp_markets@.len() ==> (#[trigger] self.perp_markets@[i]).market_index
                == i
    }

    /// The spot markets, by index.
    pub closed spec fn spot(self) -> Seq<SpotMarket> {
        self.spot_markets@
    }

    /// The perpetual markets, by index.
    pub closed spec fn perp(self) -> Seq<PerpMarket> {
        self.perp_markets@
    }

    /// The address lookup table.
    pub closed spec fn table(self) -> AddressLookupTableAccount {
        self.lookup_table
    }

    /// The spot market with index `market_index`, if there is one.
    pub open spec fn spot_market(self, market_index: u16) -> Option<SpotMarket> {
        if market_index < self.spot().len() {
            Some(self.spot()[market_index as int])
        } else {
            None
        }
    }

    /// The perpetual market with index `market_index`, if there is one.
    pub open spec fn perp_market(self, market_index: u16) -> Option<PerpMarket> {
        if market_index < self.perp().len() {
            Some(self.perp()[market_index as int])
        } else {
            None
        }
    }

    /// The markets as plain values.
    pub open spec fn markets(self) -> Markets {
        Markets { spot: spot_views(self.spot()), perp: perp_views(self.perp()) }
    }

    /// A registry that knows no market, with a lookup table that has the
    /// all-zero address and lists nothing: a placeholder until the real one
    /// is made.
    pub fn uninitialized() -> (r: ProgramData)
        ensures
            r.is_positional(),
            r.spot().len() == 0,
            r.perp().len() == 0,
            r.table().key.0@ == Seq::new(32, |i: int| 0u8),
            r.table().addresses@.len() == 0,
    {
        let zero: [u8; 32] = [0u8; 32];
        ProgramData {
            spot_markets: Vec::new(),
            perp_markets: Vec::new(),
            lookup_table: AddressLookupTableAccount {
                key: Pubkey::new_from_array(zero),
                addresses: Vec::new(),
            },
        }
    }

    /// The registry of the network `context`: the markets that the texts of
    /// `sources` for that network describe, and `lookup_table`. Where either
    /// text is refused there is no registry at all.
    pub fn new(context: Context, sources: &RawSources, lookup_table: AddressLookupTableAccount) -> (r:
        Result<ProgramData, MalformedConfig>)
        ensures
            match r {
                Ok(data) => {
                    &&& loaded_markets(sources.spot_text(context), sources.perp_text(context))
                        == Ok::<Markets, MalformedConfig>(data.markets())
                    &&& data.table() == lookup_table
                    &&& data.is_positional()
                },
                Err(e) => loaded_markets(sources.spot_text(context), sources.perp_text(context))
                    == Err::<Markets, MalformedConfig>(e),
            },
    {
        let spot_markets = match load_spot_markets(sources.spot_markets(context)) {
            Ok(markets) => markets,
            Err(e) => { return Err(e); },
        };
        let perp_markets = match load_perp_markets(sources.perp_markets(context)) {
            Ok(markets) => markets,
            Err(e) => { return Err(e); },
        };
        Ok(ProgramData { spot_markets, perp_markets, lookup_table })
    }

    /// The known spot markets, by index.
    pub fn spot_market_configs(&self) -> (r: &[SpotMarket])
        ensures
            r@ == self.spot(),
    {
        self.spot_markets.as_slice()
    }

    /// The known perpetual markets, by index.
    pub fn perp_market_configs(&self) -> (r: &[PerpMarket])
        ensures
            r@ == self.perp(),
    {
        self.perp_markets.as_slice()
    }

    /// The address lookup table.
    pub fn lookup_table(&self) -> (r: &AddressLookupTableAccount)
        ensures
            *r == self.table(),
    {
        &self.lookup_table
    }

    /// The spot market with index `market_index`; none where the registry
    /// knows no such market.
    pub fn spot_market_config_by_index(&self, market_index: u16) -> (r: Option<&SpotMarket>)
        ensures
            r is Some == self.spot_market(market_index) is Some,
            r matches Some(market) ==> self.spot_market(market_index) == Some(*market)
                && market.market_index == market_index,
    {
        proof {
            use_type_invariant(self);
        }
        let index: usize = market_index as usize;
        if index < self.spot_markets.len() {
            Some(&self.spot_markets[index])
        } else {
            None
        }
    }

    /// The perpetual market with index `market_index`; none where the
    /// registry knows no such market.
    pub fn perp_market_config_by_index(&self, market_index: u16) -> (r: Option<&PerpMarket>)
        ensures
            r is Some == self.perp_market(market_index) is Some,
            r matches Some(market) ==> self.perp_market(market_index) == Some(*market)
                && market.market_index == market_index,
    {
        proof {
            use_type_invariant(self);
        }
        let index: usize = market_index as usize;
        if index < self.perp_markets.len() {
            Some(&self.perp_markets[index])
        } else {
            None
        }
    }
}

/// Construction is determined by the texts of the chosen network: two
/// stores that hold the same two texts for `context` give the same markets,
/// or are refused for the same reason.
pub proof fn lemma_construction_is_determined_by_the_texts(
    context: Context,
    a: RawSources,
    b: RawSources,
)
    requires
        a.spot_text(context) == b.spot_text(context),
        a.perp_text(context) == b.perp_text(context),
    ensures
        loaded_markets(a.spot_text(context), a.perp_text(context)) == loaded_markets(
            b.spot_text(context),
            b.perp_text(context),
        ),
{
}

/// Every market that the texts describe has its position for its index, and
/// there is an index for each.
pub proof fn lemma_loaded_markets_are_positional(spot: Seq<char>, perp: Seq<char>)
    requires
        loaded_markets(spot, perp) is Ok,
    ensures
        ({
            let markets = loaded_markets(spot, perp)->Ok_0;
            &&& markets.spot.len() <= 65536
            &&& markets.perp.len() <= 65536
            &&& forall|i: int|
                0 <= i < markets.spot.len() ==> (#[trigger] markets.spot[i]).market_index == i
            &&& forall|i: int|
                0 <= i < markets.perp.len() ==> (#[trigger] markets.perp[i]).market_index == i
        }),
{
}

/// A lookup by index finds the market at that position, whose index it is,
/// and finds none from the number of markets on.
pub proof fn lemma_lookup_is_positional(data: ProgramData, market_index: u16)
    requires
        data.is_positional(),
    ensures
        market_index < data.spot().len() ==> data.spot_market(market_index) == Some(
            data.spot()[market_index as int],
        ) && data.spot()[market_index as int].market_index == market_index,
        market_index >= data.spot().len() ==> data.spot_market(market_index) is None,
        market_index < data.perp().len() ==> data.perp_market(market_index) == Some(
            data.perp()[market_index as int],
        ) && data.perp()[market_index as int].market_index == market_index,
        market_index >= data.perp().len() ==> data.perp_market(market_index) is None,
{
}

/// A registry without markets answers no lookup.
pub proof fn lemma_empty_registry_knows_no_market(data: ProgramData, market_index: u16)
    requires
        data.spot().len() == 0,
        data.perp().len() == 0,
    ensures
        data.spot_market(market_index) is None,
        data.perp_market(market_index) is None,
{
}

} // verus!
