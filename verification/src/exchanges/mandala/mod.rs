use crate::bot::now_millis;
use crate::bot::trading::broker::configured;
use crate::bot::trading::{Tick, Trader};
use crate::crypto::balances::{latest, Balance, BalanceMap};
use crate::crypto::coin::Coin;
use crate::crypto::treasury::{ExecutableTransaction, ExecutableView, Treasured};
use crate::database::{text, Transaction, TransactionStage, UpdateTransactionStageForm};
use crate::exchanges::mandala::bookkeeper::Bookkeeper;
use crate::exchanges::mandala::client::Client;
use crate::exchanges::Exchange;
use crate::exchanges::mandala::utils::{AccountAsset, OrderRequest, OrderSide, OrderType, RequestedOrder, Symbol};
use crate::utils::config::Config;
use vstd::prelude::*;
use vstd::string::StringExecFns;

pub mod bookkeeper;
pub mod client;
pub mod utils;

verus! {

pub const MANDALA_API_URL: &'static str = "https://trade.mandala.exchange";

pub const MANDALA_WSS_URL: &'static str = "wss://trade.mandala.exchange/ws";

pub const BINANCE_API_URL: &'static str = "https://api.binance.com/api/v3";

pub const BINANCE_WSS_URL: &'static str = "wss://stream.binance.com:9443/ws";

/// The share of a filled buy that is held for sale, in per cent; the rest
/// is reserved for the venue's commission.
pub const KEEP_PERCENT: u8 = 99;

/// The pair trades against the quote currency, its base is configured, and
/// its orders go through the books that the bookies follow.
pub open spec fn is_tradable(symbol: Symbol, coins: Seq<crate::utils::config::Coin>, quote: Seq<char>) -> bool {
    &&& configured(coins, symbol.base_currency@).is_some()
    &&& symbol.quote_currency@ == quote
    &&& symbol.symbol_type == 1
}

/// The bases of the tradable pairs among `symbols`, each once, in the order
/// in which they are first listed.
pub open spec fn tradable(symbols: Seq<Symbol>, coins: Seq<crate::utils::config::Coin>, quote: Seq<char>) -> Seq<
    Seq<char>,
>
    decreases symbols.len(),
{
    if symbols.len() == 0 {
        Seq::empty()
    } else {
        let earlier = tradable(symbols.drop_last(), coins, quote);
        let base = symbols.last().base_currency@;
        if is_tradable(symbols.last(), coins, quote) && !earlier.contains(base) {
            earlier.push(base)
        } else {
            earlier
        }
    }
}

/// The balances that a list of account assets reports.
pub open spec fn reported(assets: Seq<AccountAsset>) -> Seq<Balance> {
    Seq::new(
        assets.len(),
        |i: int| Balance { symbol: assets[i].asset, available: assets[i].free, locked: assets[i].locked },
    )
}

/// The driver of the venue.
pub struct Mandala {
    client: Client,
    bookkeeper: Bookkeeper,
    balances: BalanceMap,
    trader: Trader,
}

impl Mandala {
    pub closed spec fn wf(&self) -> bool {
        &&& self.bookkeeper.wf()
        &&& self.balances.wf()
        &&& self.trader.wf()
    }

    pub closed spec fn spec_client(&self) -> Client {
        self.client
    }

    pub closed spec fn spec_bookkeeper(&self) -> Bookkeeper {
        self.bookkeeper
    }

    pub closed spec fn spec_trader(&self) -> Trader {
        self.trader
    }

    pub closed spec fn balance_map(&self) -> BalanceMap {
        self.balances
    }

    pub fn new(api_key: String, api_secret: String) -> (mandala: Mandala)
        ensures
            mandala.wf(),
            mandala.spec_client().api_key() == api_key@,
            mandala.spec_client().api_secret() == api_secret@,
            mandala.spec_bookkeeper().symbols().len() == 0,
            mandala.spec_trader().symbols().len() == 0,
            forall|symbol: Seq<char>| mandala.balance_map().balance_of(symbol).is_none(),
    {
        Mandala {
            client: Client::new(api_key, api_secret),
            bookkeeper: Bookkeeper::new(),
            balances: BalanceMap::new(),
            trader: Trader::new(),
        }
    }

    /// Picks from the venue's pairs the coins to trade: those that are
    /// configured, trade against the quote currency and go through the
    /// books the bookies follow, each coin once.
    pub fn tradable_coins(symbols: &Vec<Symbol>, config: &Config) -> (coins: Vec<Coin>)
        ensures
            coins@.len() == tradable(symbols@, config.coins@, config.quote_currency@).len(),
            forall|i: int|
                0 <= i < coins@.len() ==> (#[trigger] coins@[i]).symbol@ == tradable(
                    symbols@,
                    config.coins@,
                    config.quote_currency@,
                )[i],
    {
        let mut coins: Vec<Coin> = Vec::new();
        let mut i: usize = 0;
        assert(symbols@.take(0) =~= Seq::<Symbol>::empty());
        while i < symbols.len()
            invariant
                i <= symbols.len(),
                coins@.len() == tradable(
                    symbols@.take(i as int),
                    config.coins@,
                    config.quote_currency@,
                ).len(),
                forall|k: int|
                    0 <= k < coins@.len() ==> (#[trigger] coins@[k]).symbol@ == tradable(
                        symbols@.take(i as int),
                        config.coins@,
                        config.quote_currency@,
                    )[k],
            decreases symbols.len() - i,
        {
            let symbol = &symbols[i];
            let ghost earlier = tradable(symbols@.take(i as int), config.coins@, config.quote_currency@);
            proof {
                assert(symbols@.take(i + 1).drop_last() =~= symbols@.take(i as int));
                assert(symbols@.take(i + 1).last() == symbols@[i as int]);
            }
            let matching = Self::is_configured(&config.coins, &symbol.base_currency)
                && symbol.quote_currency == config.quote_currency;
            if matching && symbol.symbol_type == 1 {
                let mut known = false;
                let mut k: usize = 0;
                while k < coins.len()
                    invariant
                        k <= coins.len(),
                        coins@.len() == earlier.len(),
                        forall|j: int| 0 <= j < coins@.len() ==> (#[trigger] coins@[j]).symbol@ == earlier[j],
                        known <==> exists|j: int| 0 <= j < k && earlier[j] == symbol.base_currency@,
                    decreases coins.len() - k,
                {
                    if coins[k].symbol == symbol.base_currency {
                        known = true;
                        assert(earlier[k as int] == symbol.base_currency@);
                    }
                    k += 1;
                }
                assert(known <==> earlier.contains(symbol.base_currency@));
                if !known {
                    coins.push(Coin::new(symbol.base_currency.clone()));
                }
            }
            i += 1;
        }
        assert(symbols@.take(i as int) =~= symbols@);
        coins
    }

    fn is_configured(coins: &Vec<crate::utils::config::Coin>, symbol: &String) -> (found: bool)
        ensures
            found == configured(coins@, symbol@).is_some(),
    {
        let mut i: usize = 0;
        assert(coins@.skip(0) =~= coins@);
        while i < coins.len()
            invariant
                i <= coins.len(),
                configured(coins@, symbol@) == configured(coins@.skip(i as int), symbol@),
            decreases coins.len() - i,
        {
            if coins[i].symbol == *symbol {
                return true;
            }
            assert(coins@.skip(i as int).drop_first() =~= coins@.skip(i + 1));
            i += 1;
        }
        false
    }

    /// Gives every book that the bookkeeper keeps a broker of its own.
    fn spawn_brokers(&mut self)
        requires
            old(self).wf(),
        ensures
            final(self).wf(),
            final(self).spec_bookkeeper() == old(self).spec_bookkeeper(),
            final(self).spec_client() == old(self).spec_client(),
            final(self).balance_map() == old(self).balance_map(),
            forall|i: int|
                0 <= i < old(self).spec_bookkeeper().symbols().len() ==> final(self).spec_trader().symbols().contains(
                    #[trigger] old(self).spec_bookkeeper().symbols()[i],
                ),
    {
        let books = self.bookkeeper.iter_books();
        let mut i: usize = 0;
        while i < books.len()
            invariant
                i <= books.len(),
                self.trader.wf(),
                self.bookkeeper.wf(),
                self.balances.wf(),
                self.bookkeeper == old(self).bookkeeper,
                self.balances == old(self).balances,
                self.client == old(self).client,
                books@.len() == old(self).bookkeeper.symbols().len(),
                forall|k: int|
                    0 <= k < books@.len() ==> (#[trigger] books@[k]).0@ == old(self).bookkeeper.symbols()[k],
                forall|k: int|
                    0 <= k < i ==> self.trader.symbols().contains(
                        #[trigger] old(self).bookkeeper.symbols()[k],
                    ),
            decreases books.len() - i,
        {
            let ghost before = self.trader.symbols();
            self.trader.register_book(books[i].0.clone());
            proof {
                assert forall|k: int| 0 <= k < i + 1 implies self.trader.symbols().contains(
                    #[trigger] old(self).bookkeeper.symbols()[k],
                ) by {
                    if k < i {
                        let name = old(self).bookkeeper.symbols()[k];
                        let at = before.index_of(name);
                        assert(before[at] == name);
                        assert(self.trader.symbols()[at] == name);
                    }
                }
            }
            i += 1;
        }
    }

    /// Starts the driver. From the venue's list of pairs, where the venue
    /// gave one, the coins to trade get their bookies and brokers; then every
    /// broker is started. Returns how many brokers have no coin configured.
    pub fn boot(&mut self, listing: Option<&Vec<Symbol>>, config: &Config) -> (idle: usize)
        requires
            old(self).wf(),
        ensures
            final(self).wf(),
            final(self).spec_client() == old(self).spec_client(),
            final(self).balance_map() == old(self).balance_map(),
            idle == crate::bot::trading::idle(final(self).spec_trader().brokers()),
            forall|i: int|
                0 <= i < final(self).spec_trader().brokers().len() ==> (
                #[trigger] final(self).spec_trader().brokers()[i]).desk()
                    == crate::bot::trading::broker::Broker::desk_from(
                    config.coins@,
                    final(self).spec_trader().brokers()[i].name(),
                    config.max_transaction_per_coin,
                ),
            match listing {
                None => {
                    &&& final(self).spec_bookkeeper() == old(self).spec_bookkeeper()
                    &&& final(self).spec_trader().symbols() == old(self).spec_trader().symbols()
                },
                Some(symbols) => {
                    let wanted = tradable(symbols@, config.coins@, config.quote_currency@);
                    let keeper = final(self).spec_bookkeeper();
                    &&& forall|symbol: Seq<char>|
                        #![trigger keeper.symbols().contains(symbol)]
                        #![trigger wanted.contains(symbol)]
                        keeper.symbols().contains(symbol) <==> old(self).spec_bookkeeper().symbols().contains(symbol)
                            || wanted.contains(symbol)
                    &&& forall|k: int|
                        0 <= k < keeper.symbols().len() && wanted.contains(#[trigger] keeper.symbols()[k])
                            ==> keeper.bookies()[k].is_fresh(keeper.symbols()[k])
                    &&& forall|k: int|
                        0 <= k < keeper.symbols().len() && !wanted.contains(#[trigger] keeper.symbols()[k])
                            ==> k < old(self).spec_bookkeeper().symbols().len() && keeper.bookies()[k]
                            === old(self).spec_bookkeeper().bookies()[k]
                    &&& forall|k: int|
                        0 <= k < keeper.symbols().len() ==> final(self).spec_trader().symbols().contains(
                            #[trigger] keeper.symbols()[k],
                        )
                },
            },
    {
        if let Some(symbols) = listing {
            let coins = Self::tradable_coins(symbols, config);
            let ghost picked = coins@;
            self.bookkeeper.boot(coins);
            proof {
                let wanted = tradable(symbols@, config.coins@, config.quote_currency@);
                assert forall|symbol: Seq<char>|
                    crate::exchanges::mandala::bookkeeper::names(picked, symbol) <==> wanted.contains(
                        symbol,
                    ) by {
                    if crate::exchanges::mandala::bookkeeper::names(picked, symbol) {
                        let i = choose|i: int| 0 <= i < picked.len() && (#[trigger] picked[i]).symbol@ == symbol;
                        assert(wanted[i] == symbol);
                    }
                    if wanted.contains(symbol) {
                        let i = choose|i: int| 0 <= i < wanted.len() && wanted[i] == symbol;
                        assert(picked[i].symbol@ == symbol);
                    }
                }
                let now = self.bookkeeper.symbols();
                let was = old(self).bookkeeper.symbols();
                assert forall|symbol: Seq<char>|
                    now.contains(symbol) <==> was.contains(symbol) || wanted.contains(symbol) by {
                    assert(crate::exchanges::mandala::bookkeeper::names(picked, symbol) <==> wanted.contains(
                        symbol,
                    ));
                }
            }
            self.spawn_brokers();
        }
        self.trader.start(&config.coins, config.max_transaction_per_coin)
    }

    pub fn balances(&self) -> (balances: &BalanceMap)
        requires
            self.wf(),
        ensures
            balances.wf(),
            *balances == self.balance_map(),
    {
        &self.balances
    }

    pub fn trader(&self) -> (trader: &Trader)
        requires
            self.wf(),
        ensures
            trader.wf(),
            *trader == self.spec_trader(),
    {
        &self.trader
    }

    pub fn bookkeeper(&self) -> (bookkeeper: &Bookkeeper)
        requires
            self.wf(),
        ensures
            bookkeeper.wf(),
            *bookkeeper == self.spec_bookkeeper(),
    {
        &self.bookkeeper
    }

    pub fn bookkeeper_mut(&mut self) -> (bookkeeper: &mut Bookkeeper)
        requires
            old(self).wf(),
        ensures
            *bookkeeper == old(self).spec_bookkeeper(),
            final(bookkeeper).wf() ==> final(self).wf(),
            final(self).spec_bookkeeper() == *final(bookkeeper),
            final(self).spec_client() == old(self).spec_client(),
            final(self).spec_trader() == old(self).spec_trader(),
            final(self).balance_map() == old(self).balance_map(),
    {
        &mut self.bookkeeper
    }

    pub fn client(&self) -> (client: &Client)
        ensures
            *client == self.spec_client(),
    {
        &self.client
    }

    /// Replaces the balances by what the venue reports of the account.
    pub fn reload_balances(&mut self, assets: &Vec<AccountAsset>)
        requires
            old(self).wf(),
        ensures
            final(self).wf(),
            final(self).spec_client() == old(self).spec_client(),
            final(self).spec_bookkeeper() == old(self).spec_bookkeeper(),
            final(self).spec_trader() == old(self).spec_trader(),
            forall|symbol: Seq<char>| #[trigger]
                final(self).balance_map().balance_of(symbol) == latest(reported(assets@), symbol),
    {
        let mut balances: Vec<Balance> = Vec::new();
        let mut i: usize = 0;
        while i < assets.len()
            invariant
                i <= assets.len(),
                balances@.len() == i,
                forall|k: int| 0 <= k < i ==> balances@[k] == reported(assets@)[k],
            decreases assets.len() - i,
        {
            balances.push(Balance::new(assets[i].asset.clone(), assets[i].free, assets[i].locked));
            i += 1;
        }
        assert(balances@ =~= reported(assets@));
        self.balances.reload(balances);
    }

    /// The venue's id of the order to poll for a stored transaction: the
    /// sell order once there is one, the buy order before.
    pub fn order_to_poll(order: &Transaction) -> (id: Option<String>)
        ensures
            text(id) == if order@.sell_exchange_id.is_some() {
                order@.sell_exchange_id
            } else {
                order@.buy_exchange_id
            },
    {
        if order.sell_exchange_id.is_some() {
            order.sell_exchange_id.clone()
        } else {
            order.buy_exchange_id.clone()
        }
    }

    /// The change to store for a transaction after the venue answered the
    /// poll of its order with `polled`.
    pub fn check_open_orders(order: &Transaction, polled: &RequestedOrder) -> (form:
        UpdateTransactionStageForm)
        requires
            order.stage != TransactionStage::Finished,
        ensures
            exists|now: i64|
                form@ == #[trigger] order@.polled(
                    polled.status,
                    polled.executed_quantity,
                    KEEP_PERCENT,
                    now,
                ),
    {
        let now = now_millis();
        let form = order.review(polled.status, polled.executed_quantity, KEEP_PERCENT, now);
        assert(form@ == order@.polled(polled.status, polled.executed_quantity, KEEP_PERCENT, now));
        form
    }

    /// The pair that a coin trades as: base, underscore, quote currency.
    pub open spec fn pair(symbol: Seq<char>, quote_currency: Seq<char>) -> Seq<char> {
        symbol + "_"@ + quote_currency
    }

    /// The order to place for `transaction`: a limit order on its side of
    /// the pair, for its amount at its price.
    pub fn execute_transaction(transaction: &ExecutableTransaction, quote_currency: &String) -> (request:
        OrderRequest)
        ensures
            match transaction@ {
                ExecutableView::Buy { symbol, price, amount, .. } => {
                    &&& request.symbol@ == Self::pair(symbol, quote_currency@)
                    &&& request.side == OrderSide::Buy
                    &&& request.quantity == Some(amount)
                    &&& request.price == Some(price)
                },
                ExecutableView::Sell { symbol, price, amount, .. } => {
                    &&& request.symbol@ == Self::pair(symbol, quote_currency@)
                    &&& request.side == OrderSide::Sell
                    &&& request.quantity == Some(amount)
                    &&& request.price == Some(price)
                },
            },
            request.order_type == OrderType::Limit,
            request.quote_order_quantity.is_none(),
            request.stop_price.is_none(),
            request.client_id.is_none(),
            request.iceberg_qty.is_none(),
    {
        let (symbol, side, amount, price) = match transaction {
            ExecutableTransaction::Buy { symbol, price, amount, meta: _ } => (
                symbol,
                OrderSide::Buy,
                *amount,
                *price,
            ),
            ExecutableTransaction::Sell { symbol, price, amount, meta: _ } => (
                symbol,
                OrderSide::Sell,
                *amount,
                *price,
            ),
        };
        let mut pair = symbol.clone();
        pair.append("_");
        pair.append(quote_currency.as_str());
        proof {
            let tail = "_"@ + quote_currency@;
            assert(pair@.subrange(symbol@.len() as int, (symbol@.len() + tail.len()) as int) =~= tail);
        }
        OrderRequest::new(pair, side, Some(amount), Some(price), quote_currency)
    }
}

impl Exchange for Mandala {
    fn get_identifier(&self) -> (identifier: String)
        ensures
            identifier@ == "mandala"@,
    {
        String::from_str("mandala")
    }

    fn get_display_name(&self) -> (name: String)
        ensures
            name@ == "Mandala"@,
    {
        String::from_str("Mandala")
    }

    fn tick(&self, debug: bool, actionable: bool) -> (tick: Tick) {
        Tick::from_flags(debug, actionable)
    }
}

impl Treasured for Mandala {
    fn request_balances(&self) -> (balances: &BalanceMap)
        ensures
            *balances == self.balance_map(),
    {
        &self.balances
    }
}

} // verus!
