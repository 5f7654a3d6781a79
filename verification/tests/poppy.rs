use poppy::bot::{Poppy, Round, Settlement, TICK_MILLIS};
use poppy::crypto::treasury::{ExecutableTransaction, TransactionMeta};
use poppy::crypto::UNIT;
use poppy::database::{Transaction, TransactionStage};

#[test]
fn every_sixth_tick_is_a_debug_tick_and_every_twentieth_actionable() {
    let mut poppy: Poppy<u8> = Poppy::new();
    for cycle in 0..150u64 {
        let round = poppy.run(5_000 + cycle * TICK_MILLIS);
        assert_eq!(round.debug, cycle % 6 == 0);
        assert_eq!(round.actionable, cycle % 20 == 0);
    }
}

#[test]
fn the_first_round_is_due_at_once() {
    let mut poppy: Poppy<u8> = Poppy::new();
    assert_eq!(poppy.run(5_000), Round { debug: true, actionable: true, next_tick: 5_000 });
}

#[test]
fn missed_ticks_are_skipped() {
    let mut poppy: Poppy<u8> = Poppy::new();
    poppy.run(5_000);
    assert_eq!(poppy.run(5_001).next_tick, 6_000);
    assert_eq!(poppy.run(6_000).next_tick, 6_000);
    assert_eq!(poppy.run(5_500).next_tick, 6_000);
    assert_eq!(poppy.run(9_300).next_tick, 10_000);
    assert_eq!(poppy.run(10_001).next_tick, 11_000);
    assert_eq!(poppy.run(1_000_000_011_000).next_tick, 1_000_000_011_000);
}

#[test]
fn an_exchange_is_registered_once() {
    let mut poppy: Poppy<&str> = Poppy::new();
    assert_eq!(poppy.register_exchange("mandala".to_string(), "first"), None);
    assert_eq!(poppy.register_exchange("kraken".to_string(), "second"), None);
    assert_eq!(poppy.register_exchange("mandala".to_string(), "third"), Some("third"));
    assert_eq!(poppy.len(), 2);
    assert_eq!(*poppy.exchange(0), "first");
    assert_eq!(*poppy.exchange(1), "second");
}

fn buy() -> ExecutableTransaction {
    ExecutableTransaction::Buy {
        symbol: "BTC".to_string(),
        price: 2 * UNIT,
        amount: 3 * UNIT,
        meta: TransactionMeta { existing_transaction: None },
    }
}

fn sell() -> ExecutableTransaction {
    ExecutableTransaction::Sell {
        symbol: "BTC".to_string(),
        price: 4 * UNIT,
        amount: 3 * UNIT,
        meta: TransactionMeta { existing_transaction: Some("row".to_string()) },
    }
}

#[test]
fn an_accepted_buy_is_recorded() {
    match Poppy::<u8>::settle(buy(), "mandala".to_string(), Some("42".to_string())) {
        Settlement::Bought(row) => {
            assert_eq!(row.id.len(), 36);
            assert_eq!(row.exchange_name, "mandala");
            assert_eq!(row.buy_exchange_id, Some("42".to_string()));
            assert_eq!(row.sell_exchange_id, None);
            assert_eq!(row.amount, 3 * UNIT);
            assert_eq!(row.symbol, "BTC");
            assert_eq!(row.price, 2 * UNIT);
            assert_eq!(row.stage, TransactionStage::BuyTransactionOpen);
            assert!(row.created_at.is_some());
            assert_eq!(row.created_at, row.updated_at);
        }
        other => panic!("{:?}", other),
    }
}

#[test]
fn an_accepted_sale_names_the_stored_transaction() {
    match Poppy::<u8>::settle(sell(), "mandala".to_string(), Some("43".to_string())) {
        Settlement::Sold { transaction_id, sell_id, amount, price } => {
            assert_eq!(transaction_id, "row");
            assert_eq!(sell_id, "43");
            assert_eq!(amount, 3 * UNIT);
            assert_eq!(price, 4 * UNIT);
        }
        other => panic!("{:?}", other),
    }
}

#[test]
fn a_refused_order_stores_nothing() {
    assert!(matches!(Poppy::<u8>::settle(buy(), "mandala".to_string(), None), Settlement::Rejected));
    assert!(matches!(Poppy::<u8>::settle(sell(), "mandala".to_string(), None), Settlement::Rejected));
}

#[test]
fn recorded_rows_get_identifiers_of_their_own() {
    let record = || {
        Poppy::<u8>::record_transaction_to_database(
            "BTC".to_string(),
            "mandala".to_string(),
            "42".to_string(),
            UNIT,
            UNIT,
        )
    };
    let (first, second) = (record(), record());
    assert_ne!(first.id, second.id);
    assert_eq!(first.id.len(), 36);
    assert_eq!(first.id.matches('-').count(), 4);
    assert!(first.created_at.unwrap() > 1_600_000_000_000);
}

fn hodl() -> Transaction {
    let mut row = Transaction::opened(
        "id".to_string(),
        "mandala".to_string(),
        "42".to_string(),
        10 * UNIT,
        "BTC".to_string(),
        2 * UNIT,
        1000,
    );
    row.stage = TransactionStage::Hodl;
    row
}

#[test]
fn a_sale_moves_the_row_on_and_keeps_a_record() {
    let row = hodl();
    let (form, finished) =
        Poppy::<u8>::update_transaction_for_sale(&row, "77".to_string(), 9 * UNIT, 3 * UNIT).unwrap();
    assert_eq!(form.stage, TransactionStage::SellTransactionOpen);
    assert_eq!(form.sell_exchange_id, Some("77".to_string()));
    assert_eq!(form.amount, 10 * UNIT);
    assert!(form.updated_at.is_some());
    assert_eq!(finished.id.len(), 36);
    assert_eq!(finished.transaction_id, "77");
    assert_eq!(finished.amount_bought, 10 * UNIT);
    assert_eq!(finished.buy_price, 2 * UNIT);
    assert_eq!(finished.amount_sold, 9 * UNIT);
    assert_eq!(finished.sell_price, 3 * UNIT);
    assert_eq!(finished.created_at, form.updated_at);
}

#[test]
fn a_row_that_is_not_in_hodl_is_not_sold_again() {
    let mut row = hodl();
    row.stage = TransactionStage::SellTransactionOpen;
    assert!(Poppy::<u8>::update_transaction_for_sale(&row, "77".to_string(), 1, 1).is_none());
}
