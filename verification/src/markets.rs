//! The market records of the registry and what can be asked of each.

use vstd::prelude::*;
use vstd::string::StrSliceExecFns;
use vstd::utf8::{decode_utf8, valid_utf8};
use crate::outside::utf8_text;
use crate::text::{chars_of, is_space, is_whitespace, lemma_trailing_run_is, trim_end};

verus! {

/// A spot market as the bundle describes it.
#[derive(Clone, Copy, Debug, PartialEq, Eq)]
pub struct SpotMarket {
    /// The market's name, padded at the end.
    pub name: [u8; 32],
    /// The market's index: its position in the bundle.
    pub market_index: u16,
    /// The number of decimals of the market's token.
    pub decimals: u32,
    /// The sum of the deposits' balances.
    pub deposit_balance: u128,
    /// The sum of the borrows' balances.
    pub borrow_balance: u128,
}

/// A perpetual market as the bundle describes it.
#[derive(Clone, Copy, Debug, PartialEq, Eq)]
pub struct PerpMarket {
    /// The market's name, padded at the end.
    pub name: [u8; 32],
    /// The market's index: its position in the bundle.
    pub market_index: u16,
    /// The margin ratio asked to open a position.
    pub margin_ratio_initial: u32,
    /// The margin ratio asked to keep a position.
    pub margin_ratio_maintenance: u32,
    /// The number of users with a position or an order in the market.
    pub number_of_users: u32,
}

/// A spot market as plain values.
pub struct SpotMarketView {
    /// The bytes of the name buffer.
    pub name: Seq<u8>,
    /// The market's index.
    pub market_index: int,
    /// The number of decimals of the market's token.
    pub decimals: int,
    /// The sum of the deposits' balances.
    pub deposit_balance: int,
    /// The sum of the borrows' balances.
    pub borrow_balance: int,
}

/// A perpetual market as plain values.
pub struct PerpMarketView {
    /// The bytes of the name buffer.
    pub name: Seq<u8>,
    /// The market's index.
    pub market_index: int,
    /// The margin ratio asked to open a position.
    pub margin_ratio_initial: int,
    /// The margin ratio asked to keep a position.
    pub margin_ratio_maintenance: int,
    /// The number of users with a position or an order in the market.
    pub number_of_users: int,
}

impl View for SpotMarket {
    type V = SpotMarketView;

    open spec fn view(&self) -> SpotMarketView {
        SpotMarketView {
            name: self.name@,
            market_index: self.market_index as int,
            decimals: self.decimals as int,
            deposit_balance: self.deposit_balance as int,
            borrow_balance: self.borrow_balance as int,
        }
    }
}

impl View for PerpMarket {
    type V = PerpMarketView;

    open spec fn view(&self) -> PerpMarketView {
        PerpMarketView {
            name: self.name@,
            market_index: self.market_index as int,
            margin_ratio_initial: self.margin_ratio_initial as int,
            margin_ratio_maintenance: self.margin_ratio_maintenance as int,
            number_of_users: self.number_of_users as int,
        }
    }
}

/// A name buffer that is not text.
#[derive(Clone, Copy, Debug, PartialEq, Eq, Structural)]
pub struct InvalidName;

/// Whether a character is white space.
pub open spec fn space() -> spec_fn(char) -> bool {
    |c: char| is_space(c)
}

/// The symbol that a name buffer holds: its text without the white space
/// at the end, where the buffer is UTF-8.
pub open spec fn symbol_of(name: Seq<u8>) -> Option<Seq<char>> {
    if valid_utf8(name) {
        Some(trim_end(decode_utf8(name), space()))
    } else {
        None
    }
}

/// The text `spot`.
pub open spec fn spot_tag() -> Seq<char> {
    seq!['s', 'p', 'o', 't']
}

/// The text `perp`.
pub open spec fn perp_tag() -> Seq<char> {
    seq!['p', 'e', 'r', 'p']
}

/// The symbol that the name buffer `name` holds.
pub fn symbol_in(name: &[u8; 32]) -> (r: Result<&str, InvalidName>)
    ensures
        match r {
            Ok(symbol) => symbol_of(name@) == Some(symbol@),
            Err(_) => symbol_of(name@) is None,
        },
{
    match utf8_text(name.as_slice()) {
        None => Err(InvalidName),
        Some(text) => {
            let chars = chars_of(text);
            let mut hi: usize = chars.len();
            while hi > 0 && is_whitespace(chars[hi - 1])
                invariant
                    hi <= chars.len(),
                    forall|k: int| hi <= k < chars.len() ==> space()(#[trigger] chars@[k]),
                decreases hi,
            {
                hi -= 1;
            }
            proof {
                lemma_trailing_run_is(chars@, space(), chars.len() - hi);
            }
            Ok(text.substring_char(0, hi))
        },
    }
}

/// What can be asked of a market record of either kind.
pub trait MarketExt {
    /// The kind of market, as text.
    spec fn type_tag(&self) -> Seq<char>;

    /// The market's name buffer.
    spec fn name_bytes(&self) -> Seq<u8>;

    /// The kind of market: `spot` or `perp`.
    fn market_type(&self) -> (r: &'static str)
        ensures
            r@ == self.type_tag(),
    ;

    /// The market's symbol: the text of its name without the padding at
    /// the end.
    fn symbol(&self) -> (r: Result<&str, InvalidName>)
        ensures
            match r {
                Ok(symbol) => symbol_of(self.name_bytes()) == Some(symbol@),
                Err(_) => symbol_of(self.name_bytes()) is None,
            },
    ;
}

impl MarketExt for PerpMarket {
    open spec fn type_tag(&self) -> Seq<char> {
        perp_tag()
    }

    open spec fn name_bytes(&self) -> Seq<u8> {
        self.name@
    }

    fn market_type(&self) -> (r: &'static str) {
        proof {
            reveal_strlit("perp");
        }
        "perp"
    }

    fn symbol(&self) -> (r: Result<&str, InvalidName>) {
        symbol_in(&self.name)
    }
}

impl MarketExt for SpotMarket {
    open spec fn type_tag(&self) -> Seq<char> {
        spot_tag()
    }

    open spec fn name_bytes(&self) -> Seq<u8> {
        self.name@
    }

    fn market_type(&self) -> (r: &'static str) {
        proof {
            reveal_strlit("spot");
        }
        "spot"
    }

    fn symbol(&self) -> (r: Result<&str, InvalidName>) {
        symbol_in(&self.name)
    }
}

} // verus!
