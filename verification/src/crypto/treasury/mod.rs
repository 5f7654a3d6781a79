use crate::crypto::balances::{Balance, BalanceMap};
use crate::crypto::floor_div;
use crate::crypto::UNIT;
use crate::database::text;
use crate::utils::registry::Registry;
use crate::utils::{is_listed, listed};
use vstd::prelude::*;

verus! {

#[derive(Debug)]
pub struct IntentMeta {
    pub existing_transaction: Option<String>,
}

/// A transaction that a broker proposes; a buy has no size yet.
#[derive(Debug)]
pub enum TransactionIntent {
    Buy { symbol: String, price: i64, meta: IntentMeta },
    Sell { symbol: String, price: i64, amount: i64, meta: IntentMeta },
}

pub ghost enum IntentView {
    Buy { symbol: Seq<char>, price: i64, existing_transaction: Option<Seq<char>> },
    Sell { symbol: Seq<char>, price: i64, amount: i64, existing_transaction: Option<Seq<char>> },
}

impl View for TransactionIntent {
    type V = IntentView;

    open spec fn view(&self) -> IntentView {
        match *self {
            TransactionIntent::Buy { symbol, price, meta } => IntentView::Buy {
                symbol: symbol@,
                price,
                existing_transaction: text(meta.existing_transaction),
            },
            TransactionIntent::Sell { symbol, price, amount, meta } => IntentView::Sell {
                symbol: symbol@,
                price,
                amount,
                existing_transaction: text(meta.existing_transaction),
            },
        }
    }
}

#[derive(Debug)]
pub struct TransactionMeta {
    pub existing_transaction: Option<String>,
}

/// A transaction that is ready for the venue.
#[derive(Debug)]
pub enum ExecutableTransaction {
    Buy { symbol: String, price: i64, amount: i64, meta: TransactionMeta },
    Sell { symbol: String, price: i64, amount: i64, meta: TransactionMeta },
}

pub ghost enum ExecutableView {
    Buy { symbol: Seq<char>, price: i64, amount: i64, existing_transaction: Option<Seq<char>> },
    Sell { symbol: Seq<char>, price: i64, amount: i64, existing_transaction: Option<Seq<char>> },
}

impl View for ExecutableTransaction {
    type V = ExecutableView;

    open spec fn view(&self) -> ExecutableView {
        match *self {
            ExecutableTransaction::Buy { symbol, price, amount, meta } => ExecutableView::Buy {
                symbol: symbol@,
                price,
                amount,
                existing_transaction: text(meta.existing_transaction),
            },
            ExecutableTransaction::Sell { symbol, price, amount, meta } => ExecutableView::Sell {
                symbol: symbol@,
                price,
                amount,
                existing_transaction: text(meta.existing_transaction),
            },
        }
    }
}

/// Why an intent cannot be sized.
#[derive(Debug, Clone, Copy, PartialEq, Eq, Structural)]
pub enum TreasuryError {
    /// The account reports no balance in the quote currency.
    MissingQuoteBalance,
    /// The price to buy at is zero or less.
    UnusablePrice,
    /// The amount to buy does not fit the fixed-point range.
    AmountOverflow,
}

/// The quote size after the shrink: one per cent of the size, rounded down
/// to a whole unit, is taken off again and again, until the size fits
/// `available` or has no whole per cent left to take off.
pub open spec fn shrunk(quote: int, available: int) -> int
    decreases quote,
{
    if quote <= available || quote < 100 {
        quote
    } else {
        shrunk(quote - quote / 100, available)
    }
}

/// The base amount that `quote` buys at `price`, rounded down to two
/// decimals, and further down to a whole number where `whole` is set.
pub open spec fn bought(quote: int, price: int, whole: bool) -> int {
    let amount = ((quote * 100) / price) * (UNIT / 100);
    if whole {
        (amount / (UNIT as int)) * UNIT
    } else {
        amount
    }
}

/// The outcome of sizing a buy of `max_trade_size` against `available`:
/// the quote size to spend, or nothing where no size from `min_trade_size`
/// up fits.
pub open spec fn sized(max_trade_size: int, min_trade_size: int, available: int) -> Option<int> {
    let quote = shrunk(max_trade_size, available);
    if quote <= available && quote >= min_trade_size {
        Some(quote)
    } else {
        None
    }
}

/// The shrink never grows the size.
pub proof fn lemma_shrunk_bounds(quote: int, available: int)
    ensures
        shrunk(quote, available) <= quote,
        quote >= 0 ==> shrunk(quote, available) >= 0,
    decreases quote,
{
    if !(quote <= available || quote < 100) {
        lemma_shrunk_bounds(quote - quote / 100, available);
    }
}

/// A buy is sized within the balance and from the minimum trade size up, or
/// not at all.
pub proof fn lemma_sized_fits(max_trade_size: int, min_trade_size: int, available: int)
    ensures
        match sized(max_trade_size, min_trade_size, available) {
            Some(quote) => min_trade_size <= quote <= available && quote <= max_trade_size,
            None => true,
        },
{
    lemma_shrunk_bounds(max_trade_size, available);
}

/// Sizes the intents of one exchange against its balances.
pub struct Treasurer {
    quote_currency: String,
    max_trade_size: i64,
    min_trade_size: i64,
    integer_lots: Vec<String>,
}

impl Treasurer {
    pub closed spec fn quote_currency(&self) -> Seq<char> {
        self.quote_currency@
    }

    pub closed spec fn max_trade_size(&self) -> i64 {
        self.max_trade_size
    }

    pub closed spec fn min_trade_size(&self) -> i64 {
        self.min_trade_size
    }

    /// The symbols that the venue trades in whole numbers only.
    pub closed spec fn integer_lots(&self) -> Seq<String> {
        self.integer_lots@
    }

    /// What `review_transaction` answers to `intent` when the account's
    /// balance in the quote currency is `balance`.
    pub open spec fn reviewed(&self, intent: IntentView, balance: Option<Balance>) -> Result<
        Option<ExecutableView>,
        TreasuryError,
    > {
        match intent {
            IntentView::Sell { symbol, price, amount, existing_transaction } => Ok(
                Some(ExecutableView::Sell { symbol, price, amount, existing_transaction }),
            ),
            IntentView::Buy { symbol, price, existing_transaction } => match balance {
                None => Err(TreasuryError::MissingQuoteBalance),
                Some(balance) => match sized(
                    self.max_trade_size() as int,
                    self.min_trade_size() as int,
                    balance.available as int,
                ) {
                    None => Ok(None),
                    Some(quote) => {
                        let amount = bought(quote, price as int, listed(self.integer_lots(), symbol));
                        if price <= 0 {
                            Err(TreasuryError::UnusablePrice)
                        } else if amount < i64::MIN || amount > i64::MAX {
                            Err(TreasuryError::AmountOverflow)
                        } else {
                            Ok(
                                Some(
                                    ExecutableView::Buy {
                                        symbol,
                                        price,
                                        amount: amount as i64,
                                        existing_transaction,
                                    },
                                ),
                            )
                        }
                    },
                },
            },
        }
    }

    /// Every buy that leaves the treasurer spends a quote size that the
    /// balance covers and that is no less than the minimum trade size.
    pub proof fn lemma_buys_are_covered(&self, intent: IntentView, balance: Option<Balance>)
        requires
            self.reviewed(intent, balance) matches Ok(Some(ExecutableView::Buy { .. })),
        ensures
            intent is Buy,
            balance is Some,
            exists|quote: int|
                {
                    &&& self.min_trade_size() <= quote <= balance.unwrap().available
                    &&& intent->Buy_price > 0
                    &&& #[trigger] bought(
                        quote,
                        intent->Buy_price as int,
                        listed(self.integer_lots(), intent->Buy_symbol),
                    ) == self.reviewed(intent, balance).unwrap().unwrap()->Buy_amount
                },
    {
        let available = balance.unwrap().available as int;
        lemma_sized_fits(self.max_trade_size() as int, self.min_trade_size() as int, available);
        let quote = sized(
            self.max_trade_size() as int,
            self.min_trade_size() as int,
            available,
        ).unwrap();
        assert(bought(quote, intent->Buy_price as int, listed(self.integer_lots(), intent->Buy_symbol))
            == self.reviewed(intent, balance).unwrap().unwrap()->Buy_amount);
    }

    pub fn new(
        quote_currency: String,
        max_trade_size: i64,
        min_trade_size: i64,
        integer_lots: Vec<String>,
    ) -> (treasurer: Treasurer)
        ensures
            treasurer.quote_currency() == quote_currency@,
            treasurer.max_trade_size() == max_trade_size,
            treasurer.min_trade_size() == min_trade_size,
            treasurer.integer_lots() == integer_lots@,
    {
        Treasurer { quote_currency, max_trade_size, min_trade_size, integer_lots }
    }

    /// The quote size to spend on a buy when `available` can be spent, or
    /// nothing where the buy is to be dropped.
    fn allocate_funds(&self, available: i64) -> (quote: Option<i64>)
        ensures
            match quote {
                Some(quote) => sized(
                    self.max_trade_size() as int,
                    self.min_trade_size() as int,
                    available as int,
                ) == Some(quote as int),
                None => sized(
                    self.max_trade_size() as int,
                    self.min_trade_size() as int,
                    available as int,
                ).is_none(),
            },
    {
        let mut quote = self.max_trade_size;
        while quote > available && quote >= 100
            invariant
                shrunk(quote as int, available as int) == shrunk(
                    self.max_trade_size as int,
                    available as int,
                ),
            decreases quote,
        {
            quote = quote - quote / 100;
        }
        if quote <= available && quote >= self.min_trade_size {
            Some(quote)
        } else {
            None
        }
    }

    /// Turns an intent into what is sent to the venue. A sell passes through.
    /// A buy is sized against the balance in the quote currency, and dropped
    /// where less than the minimum trade size can be afforded.
    pub fn review_transaction(&self, intent: TransactionIntent, balances: &BalanceMap) -> (outcome:
        Result<Option<ExecutableTransaction>, TreasuryError>)
        requires
            balances.wf(),
        ensures
            match outcome {
                Ok(Some(transaction)) => self.reviewed(
                    intent@,
                    balances.balance_of(self.quote_currency()),
                ) == Ok::<Option<ExecutableView>, TreasuryError>(Some(transaction@)),
                Ok(None) => self.reviewed(intent@, balances.balance_of(self.quote_currency()))
                    == Ok::<Option<ExecutableView>, TreasuryError>(None),
                Err(error) => self.reviewed(intent@, balances.balance_of(self.quote_currency()))
                    == Err::<Option<ExecutableView>, TreasuryError>(error),
            },
    {
        match intent {
            TransactionIntent::Sell { symbol, price, amount, meta } => Ok(
                Some(
                    ExecutableTransaction::Sell {
                        symbol,
                        price,
                        amount,
                        meta: TransactionMeta { existing_transaction: meta.existing_transaction },
                    },
                ),
            ),
            TransactionIntent::Buy { symbol, price, meta } => {
                let available = match balances.get_balance_for_symbol(&self.quote_currency) {
                    None => {
                        return Err(TreasuryError::MissingQuoteBalance);
                    },
                    Some(balance) => balance.available,
                };
                let quote = match self.allocate_funds(available) {
                    None => {
                        return Ok(None);
                    },
                    Some(quote) => quote,
                };
                if price <= 0 {
                    return Err(TreasuryError::UnusablePrice);
                }
                let whole = is_listed(&self.integer_lots, &symbol);
                let wide_quote: i128 = quote as i128;
                let hundredths = floor_div(wide_quote * 100, price as i128);
                assert(-0x8000_0000_0000_0000 * 100 <= hundredths <= 0x8000_0000_0000_0000 * 100)
                    by (nonlinear_arith)
                    requires
                        hundredths == (wide_quote * 100) / (price as int),
                        price > 0,
                        -0x8000_0000_0000_0000 <= wide_quote < 0x8000_0000_0000_0000,
                ;
                let mut amount: i128 = hundredths * 1_000_000;
                if whole {
                    amount = floor_div(amount, UNIT as i128) * (UNIT as i128);
                }
                if amount < i64::MIN as i128 || amount > i64::MAX as i128 {
                    return Err(TreasuryError::AmountOverflow);
                }
                Ok(
                    Some(
                        ExecutableTransaction::Buy {
                            symbol,
                            price,
                            amount: amount as i64,
                            meta: TransactionMeta {
                                existing_transaction: meta.existing_transaction,
                            },
                        },
                    ),
                )
            },
        }
    }
}

/// The treasurers of all exchanges, by exchange.
pub struct Treasury {
    treasurers: Registry<Treasurer>,
}

impl Treasury {
    pub closed spec fn wf(&self) -> bool {
        self.treasurers.wf()
    }

    /// The treasurer of `exchange_id`, if it has one.
    pub closed spec fn treasurer_of(&self, exchange_id: Seq<char>) -> Option<Treasurer> {
        self.treasurers.lookup(exchange_id)
    }

    pub fn new() -> (treasury: Treasury)
        ensures
            treasury.wf(),
            forall|exchange_id: Seq<char>| treasury.treasurer_of(exchange_id).is_none(),
    {
        let treasury = Treasury { treasurers: Registry::new() };
        assert forall|exchange_id: Seq<char>| treasury.treasurer_of(exchange_id).is_none() by {
            assert(!treasury.treasurers.names().contains(exchange_id));
        }
        treasury
    }

    /// Puts the intents of `exchange_id` under `treasurer`, in place of the
    /// treasurer that the exchange had.
    pub fn treasure(&mut self, exchange_id: String, treasurer: Treasurer)
        requires
            old(self).wf(),
        ensures
            final(self).wf(),
            forall|other: Seq<char>| #[trigger]
                final(self).treasurer_of(other) == if other == exchange_id@ {
                    Some(treasurer)
                } else {
                    old(self).treasurer_of(other)
                },
    {
        self.treasurers.insert(exchange_id, treasurer);
    }

    /// The treasurer of `exchange_id`.
    pub fn treasurer(&self, exchange_id: &String) -> (treasurer: Option<&Treasurer>)
        requires
            self.wf(),
        ensures
            match treasurer {
                Some(treasurer) => self.treasurer_of(exchange_id@) == Some(*treasurer),
                None => self.treasurer_of(exchange_id@).is_none(),
            },
    {
        self.treasurers.get(exchange_id)
    }
}

/// An exchange whose balances a treasurer may read.
pub trait Treasured {
    fn request_balances(&self) -> &BalanceMap;
}

} // verus!
