use crate::bot::trading::Tick;
use crate::crypto::multiply;
use crate::crypto::orderbook::OrderBook;
use crate::crypto::times;
use crate::crypto::treasury::{IntentMeta, IntentView, TransactionIntent};
use crate::database::{Transaction, TransactionStage};
use crate::utils::config::Coin;
use vstd::prelude::*;

verus! {

/// The coin's band and the cap on its open transactions, once a broker has
/// been started.
#[derive(Debug, Clone, Copy)]
pub struct Desk {
    pub profit_wanted: i64,
    pub lower: i128,
    pub upper: i128,
    pub max_transactions: i64,
}

/// The first of `coins` that is configured for `symbol`.
pub open spec fn configured(coins: Seq<Coin>, symbol: Seq<char>) -> Option<Coin>
    decreases coins.len(),
{
    if coins.len() == 0 {
        None
    } else if coins.first().symbol@ == symbol {
        Some(coins.first())
    } else {
        configured(coins.drop_first(), symbol)
    }
}

/// The desk of a broker for `coin`.
pub open spec fn desk_for(coin: Coin, max_transactions: i64) -> Desk {
    Desk {
        profit_wanted: coin.profit_wanted,
        lower: coin.lower() as i128,
        upper: coin.upper() as i128,
        max_transactions,
    }
}

/// The price from which a lot bought at `price` sells with the wanted
/// profit.
pub open spec fn target(price: i64, profit_wanted: i64) -> int {
    price + times(price as int, profit_wanted as int)
}

/// What a broker needs to know of the store to answer a pulse.
#[derive(Debug, Clone, Copy, PartialEq, Eq, Structural)]
pub struct Wants {
    /// The number of the symbol's transactions in an open stage.
    pub open_count: bool,
    /// The symbol's transactions in `Hodl`.
    pub hodl: bool,
}

/// A broker's answer to a pulse.
#[derive(Debug)]
pub struct Signals {
    /// Bid and ask are there to be reported, and the tick asks for output.
    pub report: Option<(i64, i64)>,
    pub intents: Vec<TransactionIntent>,
}

/// Watches one symbol's book for prices at the edges of the coin's band.
#[derive(Debug)]
pub struct Broker {
    symbol: String,
    desk: Option<Desk>,
}

impl Broker {
    pub closed spec fn name(&self) -> Seq<char> {
        self.symbol@
    }

    pub closed spec fn desk(&self) -> Option<Desk> {
        self.desk
    }

    pub open spec fn started(&self) -> bool {
        self.desk().is_some()
    }

    /// The desk that `start` sets a broker for `symbol` up with: that of
    /// the coin configured for the symbol, or none where none is.
    pub open spec fn desk_from(coins: Seq<Coin>, symbol: Seq<char>, max_transactions: i64) -> Option<
        Desk,
    > {
        match configured(coins, symbol) {
            Some(coin) => Some(desk_for(coin, max_transactions)),
            None => None,
        }
    }

    /// The broker after `start`.
    pub closed spec fn begun(self, coins: Seq<Coin>, max_transactions: i64) -> Broker {
        Broker {
            symbol: self.symbol,
            desk: match configured(coins, self.symbol@) {
                Some(coin) => Some(desk_for(coin, max_transactions)),
                None => None,
            },
        }
    }

    /// Bid and ask as a pulse sees them: both, or nothing.
    pub open spec fn top(book: &OrderBook) -> Option<(i64, i64)> {
        match (book.best_bid(), book.best_ask()) {
            (Some(bid), Some(ask)) => Some((bid, ask)),
            _ => None,
        }
    }

    /// The ask is low enough to buy.
    pub open spec fn buy_in_range(&self, tick: Tick, book: &OrderBook) -> bool {
        &&& tick != Tick::Silent
        &&& self.desk() matches Some(desk)
        &&& Self::top(book) matches Some((bid, ask))
        &&& ask <= desk.lower
    }

    /// The bid is high enough to sell.
    pub open spec fn sell_in_range(&self, tick: Tick, book: &OrderBook) -> bool {
        &&& tick != Tick::Silent
        &&& self.desk() matches Some(desk)
        &&& Self::top(book) matches Some((bid, ask))
        &&& bid >= desk.upper
    }

    /// The buy that a pulse proposes, if any.
    pub open spec fn buy_signal(&self, tick: Tick, book: &OrderBook, open_count: i64) -> Option<
        IntentView,
    > {
        if self.buy_in_range(tick, book) && open_count < self.desk().unwrap().max_transactions {
            Some(
                IntentView::Buy {
                    symbol: self.name(),
                    price: book.best_ask().unwrap(),
                    existing_transaction: None,
                },
            )
        } else {
            None
        }
    }

    /// The row is in `Hodl`, of this broker's symbol, and bought low enough
    /// to sell at `bid` with the wanted profit.
    pub open spec fn sells(&self, row: Transaction, bid: i64) -> bool {
        &&& row.stage == TransactionStage::Hodl
        &&& row.symbol@ == self.name()
        &&& self.desk() matches Some(desk)
        &&& bid >= target(row.price, desk.profit_wanted)
    }

    /// The sales that a pulse proposes of `rows`, in their order.
    pub open spec fn sell_signals(&self, tick: Tick, book: &OrderBook, rows: Seq<Transaction>) -> Seq<
        IntentView,
    >
        decreases rows.len(),
    {
        if rows.len() == 0 || !self.sell_in_range(tick, book) {
            Seq::empty()
        } else {
            let bid = book.best_bid().unwrap();
            let earlier = self.sell_signals(tick, book, rows.drop_last());
            if self.sells(rows.last(), bid) {
                earlier.push(
                    IntentView::Sell {
                        symbol: self.name(),
                        price: bid,
                        amount: rows.last().amount,
                        existing_transaction: Some(rows.last().id@),
                    },
                )
            } else {
                earlier
            }
        }
    }

    /// All that a pulse proposes: the buy, then the sales.
    pub open spec fn signals(
        &self,
        tick: Tick,
        book: &OrderBook,
        open_count: i64,
        rows: Seq<Transaction>,
    ) -> Seq<IntentView> {
        let sales = self.sell_signals(tick, book, rows);
        match self.buy_signal(tick, book, open_count) {
            Some(buy) => seq![buy] + sales,
            None => sales,
        }
    }

    pub fn new(symbol: String) -> (broker: Broker)
        ensures
            broker.name() == symbol@,
            !broker.started(),
    {
        Broker { symbol, desk: None }
    }

    pub fn symbol(&self) -> (symbol: String)
        ensures
            symbol@ == self.name(),
    {
        self.symbol.clone()
    }

    /// Sets the broker up with the band of its coin and the cap on open
    /// transactions. A broker whose symbol `coins` does not list stays
    /// without a desk.
    pub fn start(&mut self, coins: &Vec<Coin>, max_transactions: i64) -> (found: bool)
        ensures
            *final(self) == old(self).begun(coins@, max_transactions),
            found == final(self).started(),
            final(self).name() == old(self).name(),
            final(self).desk() == Self::desk_from(coins@, old(self).name(), max_transactions),
    {
        let mut i: usize = 0;
        assert(coins@.skip(0) =~= coins@);
        while i < coins.len()
            invariant
                i <= coins.len(),
                configured(coins@, self.symbol@) == configured(coins@.skip(i as int), self.symbol@),
                *self == *old(self),
            decreases coins.len() - i,
        {
            if coins[i].symbol == self.symbol {
                let band = coins[i].band();
                self.desk = Some(
                    Desk {
                        profit_wanted: coins[i].profit_wanted,
                        lower: band.0,
                        upper: band.1,
                        max_transactions,
                    },
                );
                return true;
            }
            assert(coins@.skip(i as int).drop_first() =~= coins@.skip(i + 1));
            i += 1;
        }
        self.desk = None;
        false
    }

    /// What `pulse` will read of the store for this tick and book; what it
    /// does not read may be passed as zero and as no rows.
    pub fn wants(&self, tick: Tick, book: &OrderBook) -> (wants: Wants)
        ensures
            wants.open_count == self.buy_in_range(tick, book),
            wants.hodl == self.sell_in_range(tick, book),
    {
        let nothing = Wants { open_count: false, hodl: false };
        if let Tick::Silent = tick {
            return nothing;
        }
        match (self.desk, book.highest_bid(), book.lowest_ask()) {
            (Some(desk), Some(bid), Some(ask)) => Wants {
                open_count: ask as i128 <= desk.lower,
                hodl: bid as i128 >= desk.upper,
            },
            _ => nothing,
        }
    }

    /// Answers one pulse. On a silent tick, before `start`, or while the
    /// book lacks a bid or an ask, nothing is proposed. Otherwise an ask at
    /// or below the band proposes a buy at the ask unless `open_count` has
    /// reached the cap, and a bid at or above the band proposes, for every
    /// row in `Hodl` that it lifts to its target, the sale of that row's
    /// amount at the bid.
    pub fn pulse(&self, tick: Tick, book: &OrderBook, open_count: i64, rows: &Vec<Transaction>) -> (signals:
        Signals)
        ensures
            signals.report == if tick == Tick::Output && self.started() {
                Self::top(book)
            } else {
                None
            },
            signals.intents@.len() == self.signals(tick, book, open_count, rows@).len(),
            forall|i: int|
                0 <= i < signals.intents@.len() ==> (#[trigger] signals.intents@[i])@ == self.signals(
                    tick,
                    book,
                    open_count,
                    rows@,
                )[i],
    {
        let mut intents: Vec<TransactionIntent> = Vec::new();
        let silent = match tick {
            Tick::Silent => true,
            _ => false,
        };
        let (desk, bid, ask) = match (self.desk, book.highest_bid(), book.lowest_ask()) {
            (Some(desk), Some(bid), Some(ask)) if !silent => (desk, bid, ask),
            _ => {
                proof {
                    self.lemma_quiet(tick, book, rows@);
                }
                return Signals {
                    report: match (tick, self.desk, book.highest_bid(), book.lowest_ask()) {
                        (Tick::Output, Some(_), Some(bid), Some(ask)) => Some((bid, ask)),
                        _ => None,
                    },
                    intents,
                };
            },
        };
        let report = match tick {
            Tick::Output => Some((bid, ask)),
            _ => None,
        };
        if ask as i128 <= desk.lower && open_count < desk.max_transactions {
            intents.push(
                TransactionIntent::Buy {
                    symbol: self.symbol.clone(),
                    price: ask,
                    meta: IntentMeta { existing_transaction: None },
                },
            );
        }
        let ghost bought = intents@;
        if bid as i128 >= desk.upper {
            let mut i: usize = 0;
            while i < rows.len()
                invariant
                    i <= rows.len(),
                    self.sell_in_range(tick, book),
                    self.desk() == Some(desk),
                    book.best_bid() == Some(bid),
                    intents@.len() == bought.len() + self.sell_signals(
                        tick,
                        book,
                        rows@.take(i as int),
                    ).len(),
                    forall|k: int| 0 <= k < bought.len() ==> intents@[k] == bought[k],
                    forall|k: int|
                        bought.len() <= k < intents@.len() ==> (#[trigger] intents@[k])@
                            == self.sell_signals(tick, book, rows@.take(i as int))[k
                            - bought.len()],
                decreases rows.len() - i,
            {
                let row = &rows[i];
                proof {
                    assert(rows@.take(i + 1).drop_last() =~= rows@.take(i as int));
                    assert(rows@.take(i + 1).last() == rows@[i as int]);
                }
                let in_hodl = match row.stage {
                    TransactionStage::Hodl => true,
                    _ => false,
                };
                if in_hodl && row.symbol == self.symbol {
                    let goal = row.price as i128 + multiply(row.price, desk.profit_wanted);
                    if bid as i128 >= goal {
                        intents.push(
                            TransactionIntent::Sell {
                                symbol: self.symbol.clone(),
                                price: bid,
                                amount: row.amount,
                                meta: IntentMeta { existing_transaction: Some(row.id.clone()) },
                            },
                        );
                    }
                }
                i += 1;
            }
            assert(rows@.take(i as int) =~= rows@);
        } else {
            proof {
                self.lemma_quiet(tick, book, rows@);
            }
        }
        proof {
            let all = self.signals(tick, book, open_count, rows@);
            let sales = self.sell_signals(tick, book, rows@);
            assert(intents@.len() == bought.len() + sales.len());
            assert forall|k: int| 0 <= k < intents@.len() implies (#[trigger] intents@[k])@
                == all[k] by {
                if k < bought.len() {
                    assert(intents@[k] == bought[k]);
                }
            }
        }
        Signals { report, intents }
    }

    /// The sales proposed are sales.
    pub proof fn lemma_sales_sell(&self, tick: Tick, book: &OrderBook, rows: Seq<Transaction>)
        ensures
            forall|i: int|
                0 <= i < self.sell_signals(tick, book, rows).len() ==> (#[trigger] self.sell_signals(
                    tick,
                    book,
                    rows,
                )[i]) is Sell,
        decreases rows.len(),
    {
        if rows.len() > 0 && self.sell_in_range(tick, book) {
            self.lemma_sales_sell(tick, book, rows.drop_last());
        }
    }

    /// While the symbol's open transactions have reached the cap, a pulse
    /// proposes no buy.
    pub proof fn lemma_no_buy_at_cap(
        &self,
        tick: Tick,
        book: &OrderBook,
        open_count: i64,
        rows: Seq<Transaction>,
    )
        requires
            self.desk() matches Some(desk) && open_count >= desk.max_transactions,
        ensures
            forall|i: int|
                0 <= i < self.signals(tick, book, open_count, rows).len() ==> (#[trigger] self.signals(
                    tick,
                    book,
                    open_count,
                    rows,
                )[i]) is Sell,
    {
        self.lemma_sales_sell(tick, book, rows);
    }

    /// What a pulse does not read of the store does not change its answer.
    pub proof fn lemma_unread(
        &self,
        tick: Tick,
        book: &OrderBook,
        open_count: i64,
        rows: Seq<Transaction>,
        other_count: i64,
        other_rows: Seq<Transaction>,
    )
        ensures
            !self.buy_in_range(tick, book) ==> self.signals(tick, book, open_count, rows)
                == self.signals(tick, book, other_count, rows),
            !self.sell_in_range(tick, book) ==> self.signals(tick, book, open_count, rows)
                == self.signals(tick, book, open_count, other_rows),
    {
        if !self.sell_in_range(tick, book) {
            self.lemma_quiet(tick, book, rows);
            self.lemma_quiet(tick, book, other_rows);
            assert(self.sell_signals(tick, book, rows) =~= self.sell_signals(tick, book, other_rows));
        }
    }

    /// Out of range, no row is proposed for sale.
    pub proof fn lemma_quiet(&self, tick: Tick, book: &OrderBook, rows: Seq<Transaction>)
        requires
            !self.sell_in_range(tick, book),
        ensures
            self.sell_signals(tick, book, rows).len() == 0,
    {
    }
}

} // verus!
