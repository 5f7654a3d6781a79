use crate::crypto::floor_div;
use crate::crypto::UNIT;
use vstd::prelude::*;

verus! {

/// Half the width of the band around `support` for a wanted profit, rounded
/// down.
pub open spec fn half_band(support: int, profit_wanted: int) -> int {
    (support * profit_wanted) / (2 * UNIT)
}

/// What the bot was started with.
pub struct Config {
    pub quote_currency: String,
    pub max_trade_size: i64,
    pub min_trade_size: i64,
    pub max_transaction_per_coin: i64,
    pub coins: Vec<Coin>,
    pub mandala: MandalaConfig,
    pub kraken: KrakenConfig,
    pub database_url: String,
}

/// A base currency to trade, with the price it is expected to return to and
/// the profit wanted of one round trip, as a fraction of the price.
#[derive(Debug)]
pub struct Coin {
    pub symbol: String,
    pub support: i64,
    pub profit_wanted: i64,
}

impl Coin {
    /// The price at or below which the coin is worth buying.
    pub open spec fn lower(&self) -> int {
        self.support - half_band(self.support as int, self.profit_wanted as int)
    }

    /// The price at or above which the coin is worth selling.
    pub open spec fn upper(&self) -> int {
        self.support + half_band(self.support as int, self.profit_wanted as int)
    }

    /// The band around the support: its lower and its upper edge.
    pub fn band(&self) -> (band: (i128, i128))
        ensures
            band.0 == self.lower(),
            band.1 == self.upper(),
    {
        let support: i128 = self.support as i128;
        let profit: i128 = self.profit_wanted as i128;
        assert(-0x4000_0000_0000_0000_0000_0000_0000_0000 <= support * profit
            <= 0x4000_0000_0000_0000_0000_0000_0000_0000) by (nonlinear_arith)
            requires
                -0x8000_0000_0000_0000 <= support <= 0x8000_0000_0000_0000,
                -0x8000_0000_0000_0000 <= profit <= 0x8000_0000_0000_0000,
        ;
        let half = floor_div(support * profit, 2 * (UNIT as i128));
        assert(-0x4000_0000_0000_0000_0000_0000_0000_0000 <= half
            <= 0x4000_0000_0000_0000_0000_0000_0000_0000) by (nonlinear_arith)
            requires
                half == (support * profit) / 200_000_000,
                -0x4000_0000_0000_0000_0000_0000_0000_0000 <= support * profit
                    <= 0x4000_0000_0000_0000_0000_0000_0000_0000,
        ;
        (support - half, support + half)
    }
}

pub struct MandalaConfig {
    pub enabled: bool,
    pub api_key: String,
    pub api_secret: String,
}

pub struct KrakenConfig {
    pub enabled: bool,
    pub rest_url: String,
    pub wss_url: String,
    pub api_key: String,
    pub api_secret: String,
}

} // verus!
