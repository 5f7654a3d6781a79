use crate::crypto::treasury::{ExecutableTransaction, ExecutableView};
use crate::database::{
    FinishedTransaction, Transaction, TransactionStage, TransactionView, UpdateTransactionStageForm,
};
use crate::utils::registry::Registry;
use vstd::prelude::*;

pub mod trading;

verus! {

/// The time between two ticks, in milliseconds.
pub const TICK_MILLIS: u64 = 1000;

/// The length of the schedule, in ticks: after so many the pattern of
/// debug and actionable ticks repeats.
pub const SCHEDULE: u8 = 60;

/// `uuid::Uuid::new_v4` and its `to_string`: a random identifier in the
/// hyphenated form, which has 36 characters.
#[verifier::external_body]
fn new_id() -> (id: String)
    ensures
        id@.len() == 36,
{
    uuid::Uuid::new_v4().to_string()
}

/// `chrono::Utc::now` and `timestamp_millis`: the milliseconds since the
/// epoch, by the system's clock.
#[verifier::external_body]
pub(crate) fn now_millis() -> i64 {
    chrono::Utc::now().timestamp_millis()
}

/// The first deadline at or after `now` that lies a whole number of ticks
/// after `next_tick`: deadlines that were missed are skipped, not stacked.
pub open spec fn caught_up(next_tick: int, now: int) -> int {
    if next_tick >= now {
        next_tick
    } else {
        next_tick + ((now - next_tick + TICK_MILLIS - 1) / (TICK_MILLIS as int)) * TICK_MILLIS
    }
}

/// Every sixth tick prints the state of the books.
pub open spec fn debug_at(cycle: int) -> bool {
    cycle % 6 == 0
}

/// Every twentieth tick reloads balances and reconciles open orders.
pub open spec fn actionable_at(cycle: int) -> bool {
    cycle % 20 == 0
}

/// What one round of the scheduler asks for.
#[derive(Debug, Clone, Copy, PartialEq, Eq, Structural)]
pub struct Round {
    pub debug: bool,
    pub actionable: bool,
    /// When to start the next round, in milliseconds.
    pub next_tick: u64,
}

/// What to store after the venue has answered an order.
#[derive(Debug)]
pub enum Settlement {
    /// The row of a buy that the venue accepted.
    Bought(Transaction),
    /// The venue accepted the sale of the stored transaction
    /// `transaction_id` as its order `sell_id`.
    Sold { transaction_id: String, sell_id: String, amount: i64, price: i64 },
    /// Nothing: the venue refused the order.
    Rejected,
}

/// The scheduler: the exchanges it drives, by identifier, and the clock of
/// its ticks.
pub struct Poppy<E> {
    exchanges: Registry<E>,
    next_tick: Option<u64>,
    cycle: u8,
}

impl<E> Poppy<E> {
    pub closed spec fn wf(&self) -> bool {
        &&& self.exchanges.wf()
        &&& self.cycle < SCHEDULE
        &&& match self.next_tick {
            Some(next_tick) => next_tick <= u64::MAX - TICK_MILLIS,
            None => true,
        }
    }

    /// The identifiers of the exchanges, in order of registration.
    pub closed spec fn identifiers(&self) -> Seq<Seq<char>> {
        self.exchanges.names()
    }

    /// The exchanges, each at the place of its identifier.
    pub closed spec fn exchanges(&self) -> Seq<E> {
        self.exchanges.items()
    }

    /// The place of the next round in the schedule.
    pub closed spec fn cycle(&self) -> int {
        self.cycle as int
    }

    /// The deadline of the next round, once the first round has run.
    pub closed spec fn next_tick(&self) -> Option<u64> {
        self.next_tick
    }

    pub fn new() -> (poppy: Poppy<E>)
        ensures
            poppy.wf(),
            poppy.identifiers().len() == 0,
            poppy.exchanges().len() == 0,
            poppy.cycle() == 0,
            poppy.next_tick().is_none(),
    {
        Poppy { exchanges: Registry::new(), next_tick: None, cycle: 0 }
    }

    /// Puts `exchange` under `identifier`. An identifier can be taken once:
    /// where it is taken already nothing changes and the exchange comes back.
    pub fn register_exchange(&mut self, identifier: String, exchange: E) -> (refused: Option<E>)
        requires
            old(self).wf(),
        ensures
            final(self).wf(),
            final(self).cycle() == old(self).cycle(),
            final(self).next_tick() == old(self).next_tick(),
            refused.is_some() <==> old(self).identifiers().contains(identifier@),
            match refused {
                Some(back) => {
                    &&& back == exchange
                    &&& final(self).identifiers() == old(self).identifiers()
                    &&& final(self).exchanges() == old(self).exchanges()
                },
                None => {
                    &&& final(self).identifiers() == old(self).identifiers().push(identifier@)
                    &&& final(self).exchanges() == old(self).exchanges().push(exchange)
                },
            },
    {
        if self.exchanges.position(&identifier).is_some() {
            return Some(exchange);
        }
        self.exchanges.insert(identifier, exchange);
        None
    }

    pub fn len(&self) -> (len: usize)
        requires
            self.wf(),
        ensures
            len == self.exchanges().len(),
            len == self.identifiers().len(),
    {
        self.exchanges.len()
    }

    /// The exchange at `slot`, for `tick_exchanges` to walk them.
    pub fn exchange(&self, slot: usize) -> (exchange: &E)
        requires
            self.wf(),
            slot < self.exchanges().len(),
        ensures
            *exchange == self.exchanges()[slot as int],
    {
        self.exchanges.item(slot)
    }

    /// One round of the scheduler, at the time `now`: says whether this tick
    /// is a debug tick, whether it is actionable, and when the next round is
    /// due. The first round is due at once and sets the clock.
    pub fn run(&mut self, now: u64) -> (round: Round)
        requires
            old(self).wf(),
            now <= u64::MAX - 2 * TICK_MILLIS,
        ensures
            final(self).wf(),
            final(self).identifiers() == old(self).identifiers(),
            final(self).exchanges() == old(self).exchanges(),
            round.debug == debug_at(old(self).cycle()),
            round.actionable == actionable_at(old(self).cycle()),
            final(self).cycle() == (old(self).cycle() + 1) % (SCHEDULE as int),
            round.next_tick == match old(self).next_tick() {
                Some(next_tick) => caught_up(next_tick as int, now as int),
                None => now as int,
            },
            final(self).next_tick() == Some(round.next_tick),
    {
        let debug = self.cycle % 6 == 0;
        let actionable = self.cycle % 20 == 0;
        let next_tick = match self.next_tick {
            None => now,
            Some(next_tick) => if next_tick >= now {
                next_tick
            } else {
                let behind = now - next_tick;
                let ticks = (behind + (TICK_MILLIS - 1)) / TICK_MILLIS;
                assert(ticks * TICK_MILLIS <= behind + TICK_MILLIS - 1) by (nonlinear_arith)
                    requires
                        ticks == (behind + 999) / 1000,
                        TICK_MILLIS == 1000,
                        behind >= 0,
                ;
                next_tick + ticks * TICK_MILLIS
            },
        };
        self.next_tick = Some(next_tick);
        self.cycle = (self.cycle + 1) % SCHEDULE;
        Round { debug, actionable, next_tick }
    }

    /// What to store once the venue has answered `executable` with
    /// `outcome`, its order id or a refusal. A sale names the stored
    /// transaction that it sells.
    pub fn settle(executable: ExecutableTransaction, exchange_id: String, outcome: Option<String>) -> (
    settlement: Settlement)
        requires
            executable@ matches ExecutableView::Sell { existing_transaction, .. }
                ==> existing_transaction.is_some(),
        ensures
            match (outcome, executable@) {
                (None, _) => settlement is Rejected,
                (Some(order_id), ExecutableView::Buy { symbol, price, amount, .. }) => {
                    &&& settlement matches Settlement::Bought(row)
                    &&& Self::is_opening(row@, symbol, exchange_id@, order_id@, amount, price)
                },
                (
                    Some(order_id),
                    ExecutableView::Sell { price, amount, existing_transaction, .. },
                ) => {
                    &&& settlement matches Settlement::Sold {
                        transaction_id,
                        sell_id,
                        amount: sold,
                        price: at,
                    }
                    &&& Some(transaction_id@) == existing_transaction
                    &&& sell_id@ == order_id@
                    &&& sold == amount
                    &&& at == price
                },
            },
    {
        let order_id = match outcome {
            None => {
                return Settlement::Rejected;
            },
            Some(order_id) => order_id,
        };
        match executable {
            ExecutableTransaction::Buy { symbol, price, amount, meta: _ } => Settlement::Bought(
                Self::record_transaction_to_database(symbol, exchange_id, order_id, amount, price),
            ),
            ExecutableTransaction::Sell { symbol: _, price, amount, meta } => {
                match meta.existing_transaction {
                    Some(transaction_id) => Settlement::Sold {
                        transaction_id,
                        sell_id: order_id,
                        amount,
                        price,
                    },
                    None => Settlement::Rejected,
                }
            },
        }
    }

    /// `row` is the row of a buy that was just accepted, under some
    /// identifier of 36 characters and stamped with one time.
    pub open spec fn is_opening(
        row: TransactionView,
        tx_symbol: Seq<char>,
        exchange_id: Seq<char>,
        buy_id: Seq<char>,
        amount: i64,
        price: i64,
    ) -> bool {
        &&& row.wf()
        &&& row.id.len() == 36
        &&& row.exchange_name == exchange_id
        &&& row.buy_exchange_id == Some(buy_id)
        &&& row.sell_exchange_id.is_none()
        &&& row.amount == amount
        &&& row.symbol == tx_symbol
        &&& row.price == price
        &&& row.stage == TransactionStage::BuyTransactionOpen
        &&& row.created_at.is_some()
        &&& row.updated_at == row.created_at
    }

    /// The row to insert for a buy that the venue accepted as `buy_id`: in
    /// `BuyTransactionOpen`, under a fresh identifier, stamped with the time.
    pub fn record_transaction_to_database(
        tx_symbol: String,
        exchange_id: String,
        buy_id: String,
        amount: i64,
        price: i64,
    ) -> (row: Transaction)
        ensures
            Self::is_opening(row@, tx_symbol@, exchange_id@, buy_id@, amount, price),
    {
        Transaction::opened(new_id(), exchange_id, buy_id, amount, tx_symbol, price, now_millis())
    }

    /// What to store for the sale of `transaction` that the venue accepted
    /// as `sell_id`: the row moves on to `SellTransactionOpen` under that
    /// id, and a record of both sides is kept under a fresh identifier.
    /// Only a transaction in `Hodl` can be sold.
    pub fn update_transaction_for_sale(
        transaction: &Transaction,
        sell_id: String,
        amount: i64,
        price: i64,
    ) -> (sale: Option<(UpdateTransactionStageForm, FinishedTransaction)>)
        ensures
            sale.is_some() <==> transaction.stage == TransactionStage::Hodl,
            match sale {
                Some((form, finished)) => exists|now: i64|
                    {
                        &&& form@ == #[trigger] transaction@.sale_form(sell_id@, now)
                        &&& finished@ == transaction@.sale_record(
                            finished@.id,
                            sell_id@,
                            amount,
                            price,
                            now,
                        )
                        &&& finished@.id.len() == 36
                    },
                None => true,
            },
    {
        let now = now_millis();
        let id = new_id();
        let sale = transaction.sold(id, sell_id, amount, price, now);
        proof {
            if sale.is_some() {
                assert(sale.unwrap().0@ == transaction@.sale_form(sell_id@, now));
            }
        }
        sale
    }
}

} // verus!
