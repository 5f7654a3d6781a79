use poppy::crypto::UNIT;
use poppy::database::{haircut, stage_names, Transaction, TransactionStage};
use poppy::exchanges::mandala::utils::OrderStatus;
use poppy::utils::{count_transactions_for_pair, get_transactions_for_pair};

const STAGES: [TransactionStage; 8] = [
    TransactionStage::BuyTransactionOpen,
    TransactionStage::BuyTransactionPartiallyFilled,
    TransactionStage::BuyTransactionFilled,
    TransactionStage::Hodl,
    TransactionStage::SellTransactionOpen,
    TransactionStage::SellTransactionPartiallyFilled,
    TransactionStage::SellTransactionFilled,
    TransactionStage::Finished,
];

const STATUSES: [OrderStatus; 7] = [
    OrderStatus::New,
    OrderStatus::PartiallyFilled,
    OrderStatus::Filled,
    OrderStatus::Canceled,
    OrderStatus::PendingCancel,
    OrderStatus::Rejected,
    OrderStatus::Expired,
];

fn rank(stage: TransactionStage) -> usize {
    STAGES.iter().position(|other| *other == stage).unwrap()
}

fn opened() -> Transaction {
    Transaction::opened(
        "id".to_string(),
        "mandala".to_string(),
        "42".to_string(),
        10 * UNIT,
        "BTC".to_string(),
        2 * UNIT,
        1000,
    )
}

#[test]
fn stage_advances_to_hodl_when_the_buy_is_filled() {
    let mut row = opened();
    let form = row.review(OrderStatus::Filled, 10 * UNIT, 99, 2000);
    assert_eq!(form.stage, TransactionStage::Hodl);
    assert_eq!(form.amount, 990_000_000);
    assert_eq!(form.sell_exchange_id, None);
    assert_eq!(form.updated_at, Some(2000));
    row.apply(form);
    assert_eq!(row.stage, TransactionStage::Hodl);
    assert_eq!(row.amount, 990_000_000);
    assert_eq!(row.updated_at, Some(2000));
    assert_eq!(row.created_at, Some(1000));
    assert_eq!(row.buy_exchange_id, Some("42".to_string()));
    assert_eq!(row.sell_exchange_id, None);
}

#[test]
fn opened_row_stands_in_buy_transaction_open() {
    let row = opened();
    assert_eq!(row.stage, TransactionStage::BuyTransactionOpen);
    assert_eq!(row.id, "id");
    assert_eq!(row.exchange_name, "mandala");
    assert_eq!(row.symbol, "BTC");
    assert_eq!(row.amount, 10 * UNIT);
    assert_eq!(row.price, 2 * UNIT);
    assert_eq!(row.buy_exchange_id, Some("42".to_string()));
    assert_eq!(row.sell_exchange_id, None);
    assert_eq!(row.created_at, Some(1000));
    assert_eq!(row.updated_at, Some(1000));
}

#[test]
fn advance_follows_the_table() {
    let table = [
        (TransactionStage::BuyTransactionOpen, OrderStatus::PartiallyFilled, TransactionStage::BuyTransactionPartiallyFilled),
        (TransactionStage::BuyTransactionPartiallyFilled, OrderStatus::PartiallyFilled, TransactionStage::BuyTransactionPartiallyFilled),
        (TransactionStage::BuyTransactionOpen, OrderStatus::Filled, TransactionStage::Hodl),
        (TransactionStage::BuyTransactionPartiallyFilled, OrderStatus::Filled, TransactionStage::Hodl),
        (TransactionStage::SellTransactionOpen, OrderStatus::PartiallyFilled, TransactionStage::SellTransactionPartiallyFilled),
        (TransactionStage::SellTransactionPartiallyFilled, OrderStatus::PartiallyFilled, TransactionStage::SellTransactionPartiallyFilled),
        (TransactionStage::SellTransactionOpen, OrderStatus::Filled, TransactionStage::Finished),
        (TransactionStage::SellTransactionPartiallyFilled, OrderStatus::Filled, TransactionStage::Finished),
        (TransactionStage::Hodl, OrderStatus::Filled, TransactionStage::Hodl),
        (TransactionStage::Hodl, OrderStatus::PartiallyFilled, TransactionStage::Hodl),
        (TransactionStage::BuyTransactionFilled, OrderStatus::Filled, TransactionStage::BuyTransactionFilled),
        (TransactionStage::SellTransactionFilled, OrderStatus::Filled, TransactionStage::SellTransactionFilled),
        (TransactionStage::BuyTransactionPartiallyFilled, OrderStatus::New, TransactionStage::BuyTransactionPartiallyFilled),
        (TransactionStage::SellTransactionOpen, OrderStatus::Canceled, TransactionStage::SellTransactionOpen),
    ];
    for (from, status, to) in table {
        assert_eq!(from.advance(status), to);
    }
}

#[test]
fn no_poll_moves_a_stage_back() {
    for stage in STAGES {
        if stage == TransactionStage::Finished {
            continue;
        }
        for status in STATUSES {
            assert!(rank(stage.advance(status)) >= rank(stage));
        }
    }
}

#[test]
fn a_poll_that_does_not_fill_the_buy_keeps_the_amount() {
    let row = opened();
    let partly = row.review(OrderStatus::PartiallyFilled, 4 * UNIT, 99, 5);
    assert_eq!(partly.stage, TransactionStage::BuyTransactionPartiallyFilled);
    assert_eq!(partly.amount, 10 * UNIT);
    let mut hodl = opened();
    hodl.stage = TransactionStage::Hodl;
    hodl.amount = 7;
    let again = hodl.review(OrderStatus::Filled, 10 * UNIT, 99, 5);
    assert_eq!(again.stage, TransactionStage::Hodl);
    assert_eq!(again.amount, 7);
}

#[test]
fn haircut_rounds_down() {
    assert_eq!(haircut(10 * UNIT, 99), 990_000_000);
    assert_eq!(haircut(101, 99), 99);
    assert_eq!(haircut(1, 99), 0);
    assert_eq!(haircut(-1, 99), -1);
    assert_eq!(haircut(-101, 99), -100);
    assert_eq!(haircut(i64::MAX, 100), i64::MAX);
    assert_eq!(haircut(i64::MIN, 100), i64::MIN);
    assert_eq!(haircut(12345, 0), 0);
}

#[test]
fn a_row_in_hodl_is_sold() {
    let mut row = opened();
    row.apply(row.review(OrderStatus::Filled, 10 * UNIT, 99, 2000));
    let (form, finished) = row
        .sold("f".to_string(), "77".to_string(), 9 * UNIT, 3 * UNIT, 3000)
        .unwrap();
    assert_eq!(form.stage, TransactionStage::SellTransactionOpen);
    assert_eq!(form.sell_exchange_id, Some("77".to_string()));
    assert_eq!(form.updated_at, Some(3000));
    assert_eq!(form.amount, 990_000_000);
    assert_eq!(finished.id, "f");
    assert_eq!(finished.transaction_id, "77");
    assert_eq!(finished.amount_bought, 990_000_000);
    assert_eq!(finished.buy_price, 2 * UNIT);
    assert_eq!(finished.amount_sold, 9 * UNIT);
    assert_eq!(finished.sell_price, 3 * UNIT);
    assert_eq!(finished.created_at, Some(3000));
    assert_eq!(finished.updated_at, Some(3000));
    row.apply(form);
    assert_eq!(row.stage, TransactionStage::SellTransactionOpen);
    assert_eq!(row.sell_exchange_id, Some("77".to_string()));
    assert_eq!(row.buy_exchange_id, Some("42".to_string()));
    let done = row.review(OrderStatus::Filled, 9 * UNIT, 99, 4000);
    assert_eq!(done.stage, TransactionStage::Finished);
    assert_eq!(done.amount, 990_000_000);
    row.apply(done);
    assert_eq!(row.sell_exchange_id, Some("77".to_string()));
    assert_eq!(row.stage, TransactionStage::Finished);
}

#[test]
fn only_a_row_in_hodl_is_sold() {
    for stage in STAGES {
        let mut row = opened();
        row.stage = stage;
        let sale = row.sold("f".to_string(), "77".to_string(), 1, 1, 1);
        assert_eq!(sale.is_some(), stage == TransactionStage::Hodl);
    }
}

#[test]
fn open_lists_the_stages_that_commit_inventory() {
    assert_eq!(TransactionStage::open(), STAGES[..6].to_vec());
}

#[test]
fn stages_are_stored_under_their_names() {
    let names = [
        "BuyTransactionOpen",
        "BuyTransactionPartiallyFilled",
        "BuyTransactionFilled",
        "Hodl",
        "SellTransactionOpen",
        "SellTransactionPartiallyFilled",
        "SellTransactionFilled",
        "Finished",
    ];
    for (stage, name) in STAGES.iter().zip(names) {
        assert_eq!(stage.to_string(), name);
        assert_eq!(TransactionStage::parse(&name.to_string()), Some(*stage));
    }
    assert_eq!(TransactionStage::parse(&"hodl".to_string()), None);
    assert_eq!(TransactionStage::parse(&"".to_string()), None);
    assert_eq!(
        stage_names(&vec![TransactionStage::Hodl, TransactionStage::Finished]),
        vec!["Hodl".to_string(), "Finished".to_string()]
    );
}

#[test]
fn rows_are_found_by_symbol_and_stage() {
    let mut rows = Vec::new();
    for (symbol, stage) in [
        ("BTC", TransactionStage::Hodl),
        ("ETH", TransactionStage::Hodl),
        ("BTC", TransactionStage::Finished),
        ("BTC", TransactionStage::BuyTransactionOpen),
        ("BTC", TransactionStage::SellTransactionFilled),
    ] {
        let mut row = opened();
        row.symbol = symbol.to_string();
        row.stage = stage;
        rows.push(row);
    }
    let btc = "BTC".to_string();
    assert_eq!(count_transactions_for_pair(&rows, &btc, &TransactionStage::open()), 2);
    assert_eq!(count_transactions_for_pair(&rows, &"ETH".to_string(), &TransactionStage::open()), 1);
    assert_eq!(count_transactions_for_pair(&rows, &"XRP".to_string(), &TransactionStage::open()), 0);
    let hodl = get_transactions_for_pair(&rows, &btc, &vec![TransactionStage::Hodl]);
    assert_eq!(hodl.len(), 1);
    assert!(std::ptr::eq(hodl[0], &rows[0]));
    assert!(get_transactions_for_pair(&rows, &btc, &Vec::new()).is_empty());
}
