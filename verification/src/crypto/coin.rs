use vstd::prelude::*;

verus! {

/// A base currency that the bot trades on one venue.
#[derive(Debug)]
pub struct Coin {
    pub symbol: String,
}

impl Coin {
    pub fn new(symbol: String) -> (coin: Coin)
        ensures
            coin.symbol@ == symbol@,
    {
        Coin { symbol }
    }
}

} // verus!
