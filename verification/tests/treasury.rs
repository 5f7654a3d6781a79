use poppy::crypto::balances::{Balance, BalanceMap};
use poppy::crypto::treasury::{
    ExecutableTransaction, IntentMeta, TransactionIntent, Treasurer, Treasury, TreasuryError,
};
use poppy::crypto::UNIT;

fn balances(available: i64) -> BalanceMap {
    let mut balances = BalanceMap::new();
    balances.reload(vec![
        Balance::new("BTC".to_string(), 3 * UNIT, 0),
        Balance::new("USDT".to_string(), available, UNIT),
    ]);
    balances
}

fn treasurer() -> Treasurer {
    Treasurer::new("USDT".to_string(), 100 * UNIT, 10 * UNIT, vec!["STMX".to_string()])
}

fn buy(symbol: &str, price: i64) -> TransactionIntent {
    TransactionIntent::Buy {
        symbol: symbol.to_string(),
        price,
        meta: IntentMeta { existing_transaction: None },
    }
}

fn amount_of(outcome: Result<Option<ExecutableTransaction>, TreasuryError>) -> i64 {
    match outcome {
        Ok(Some(ExecutableTransaction::Buy { amount, .. })) => amount,
        other => panic!("{:?}", other),
    }
}

fn shrink(max: i64, available: i64) -> i64 {
    let mut quote = max;
    while quote > available && quote >= 100 {
        quote -= quote / 100;
    }
    quote
}

#[test]
fn buy_sizing_shrinks_to_the_balance() {
    let outcome = treasurer().review_transaction(buy("BTC", 2 * UNIT), &balances(4_730_000_000));
    match outcome {
        Ok(Some(ExecutableTransaction::Buy { symbol, price, amount, meta })) => {
            assert_eq!(symbol, "BTC");
            assert_eq!(price, 2 * UNIT);
            assert_eq!(amount, 2_352_000_000);
            assert_eq!(meta.existing_transaction, None);
        }
        other => panic!("{:?}", other),
    }
    assert_eq!(shrink(100 * UNIT, 4_730_000_000), 4_705_866_442);
}

#[test]
fn buy_sizing_agrees_with_rounding_down_in_floating_point() {
    let amount = amount_of(treasurer().review_transaction(buy("BTC", 2 * UNIT), &balances(4_730_000_000)));
    let mut quote = 100.0f64;
    while quote > 47.3 {
        quote -= quote * 0.01;
    }
    let expected = round::round_down(quote / 2.0, 2);
    assert_eq!(expected, 23.52);
    assert_eq!(amount as f64 / UNIT as f64, expected);
}

#[test]
fn buy_sizing_drops_what_the_balance_cannot_carry() {
    let outcome = treasurer().review_transaction(buy("BTC", 2 * UNIT), &balances(5 * UNIT));
    assert!(matches!(outcome, Ok(None)));
}

#[test]
fn buy_sizing_spends_the_maximum_where_the_balance_allows() {
    let amount = amount_of(treasurer().review_transaction(buy("BTC", 3 * UNIT), &balances(100 * UNIT)));
    assert_eq!(amount, 3_333_000_000);
    let rich = amount_of(treasurer().review_transaction(buy("BTC", 3 * UNIT), &balances(5000 * UNIT)));
    assert_eq!(rich, 3_333_000_000);
}

#[test]
fn buy_sizing_keeps_a_size_at_the_minimum() {
    let treasurer = Treasurer::new("USDT".to_string(), 10 * UNIT, 10 * UNIT, Vec::new());
    assert_eq!(amount_of(treasurer.review_transaction(buy("BTC", UNIT), &balances(10 * UNIT))), 10 * UNIT);
    assert!(matches!(treasurer.review_transaction(buy("BTC", UNIT), &balances(10 * UNIT - 1)), Ok(None)));
}

#[test]
fn buy_sizing_never_spends_more_than_is_available() {
    for available in [0i64, 1, 99, 100, 12_345, 999_999_999, 1_000_000_000, 4_730_000_000, 99 * UNIT] {
        let treasurer = Treasurer::new("USDT".to_string(), 100 * UNIT, 0, Vec::new());
        match treasurer.review_transaction(buy("BTC", UNIT), &balances(available)) {
            Ok(Some(ExecutableTransaction::Buy { amount, .. })) => {
                assert!(amount <= available);
                assert_eq!(amount, (shrink(100 * UNIT, available) / 1_000_000) * 1_000_000);
            }
            Ok(None) => assert!(shrink(100 * UNIT, available) > available),
            other => panic!("{:?}", other),
        }
    }
}

#[test]
fn buy_sizing_ends_on_an_empty_or_negative_balance() {
    assert!(matches!(treasurer().review_transaction(buy("BTC", UNIT), &balances(0)), Ok(None)));
    assert!(matches!(treasurer().review_transaction(buy("BTC", UNIT), &balances(-5 * UNIT)), Ok(None)));
}

#[test]
fn integer_lot_symbols_are_bought_in_whole_numbers() {
    let amount = amount_of(treasurer().review_transaction(buy("STMX", 3 * UNIT), &balances(100 * UNIT)));
    assert_eq!(amount, 33 * UNIT);
}

#[test]
fn a_missing_quote_balance_is_an_error() {
    let mut balances = BalanceMap::new();
    balances.reload(vec![Balance::new("BTC".to_string(), 3 * UNIT, 0)]);
    let outcome = treasurer().review_transaction(buy("BTC", UNIT), &balances);
    assert!(matches!(outcome, Err(TreasuryError::MissingQuoteBalance)));
    let empty = treasurer().review_transaction(buy("BTC", UNIT), &BalanceMap::new());
    assert!(matches!(empty, Err(TreasuryError::MissingQuoteBalance)));
}

#[test]
fn a_price_of_zero_or_less_is_an_error() {
    let zero = treasurer().review_transaction(buy("BTC", 0), &balances(100 * UNIT));
    assert!(matches!(zero, Err(TreasuryError::UnusablePrice)));
    let negative = treasurer().review_transaction(buy("BTC", -UNIT), &balances(100 * UNIT));
    assert!(matches!(negative, Err(TreasuryError::UnusablePrice)));
    let dropped = treasurer().review_transaction(buy("BTC", 0), &balances(UNIT));
    assert!(matches!(dropped, Ok(None)));
}

#[test]
fn an_amount_beyond_the_range_is_an_error() {
    let treasurer = Treasurer::new("USDT".to_string(), i64::MAX, 0, Vec::new());
    let outcome = treasurer.review_transaction(buy("BTC", 1), &balances(i64::MAX));
    assert!(matches!(outcome, Err(TreasuryError::AmountOverflow)));
}

#[test]
fn a_sell_passes_through() {
    let intent = TransactionIntent::Sell {
        symbol: "BTC".to_string(),
        price: 7 * UNIT,
        amount: 123_456_789,
        meta: IntentMeta { existing_transaction: Some("row".to_string()) },
    };
    match treasurer().review_transaction(intent, &BalanceMap::new()) {
        Ok(Some(ExecutableTransaction::Sell { symbol, price, amount, meta })) => {
            assert_eq!(symbol, "BTC");
            assert_eq!(price, 7 * UNIT);
            assert_eq!(amount, 123_456_789);
            assert_eq!(meta.existing_transaction, Some("row".to_string()));
        }
        other => panic!("{:?}", other),
    }
}

#[test]
fn treasury_keeps_one_treasurer_for_each_exchange() {
    let mut treasury = Treasury::new();
    assert!(treasury.treasurer(&"mandala".to_string()).is_none());
    treasury.treasure("mandala".to_string(), treasurer());
    treasury.treasure(
        "kraken".to_string(),
        Treasurer::new("EUR".to_string(), 50 * UNIT, 5 * UNIT, Vec::new()),
    );
    assert!(treasury.treasurer(&"mandala".to_string()).is_some());
    assert!(treasury.treasurer(&"binance".to_string()).is_none());
    let kraken = treasury.treasurer(&"kraken".to_string()).unwrap();
    assert!(matches!(
        kraken.review_transaction(buy("BTC", UNIT), &balances(100 * UNIT)),
        Err(TreasuryError::MissingQuoteBalance)
    ));
}

#[test]
fn balances_keep_the_last_report_for_a_currency() {
    let mut balances = BalanceMap::new();
    assert!(balances.get_balance_for_symbol(&"USDT".to_string()).is_none());
    balances.reload(vec![
        Balance::new("USDT".to_string(), 1, 2),
        Balance::new("BTC".to_string(), 3, 4),
        Balance::new("USDT".to_string(), 5, 6),
    ]);
    let usdt = balances.get_balance_for_symbol(&"USDT".to_string()).unwrap();
    assert_eq!((usdt.available, usdt.locked), (5, 6));
    assert_eq!(balances.get_balance_for_symbol(&"BTC".to_string()).unwrap().available, 3);
    balances.reload(vec![Balance::new("ETH".to_string(), 7, 8)]);
    assert!(balances.get_balance_for_symbol(&"USDT".to_string()).is_none());
    assert_eq!(balances.get_balance_for_symbol(&"ETH".to_string()).unwrap().locked, 8);
}
