use poppy::bot::trading::Tick;
use poppy::crypto::treasury::{ExecutableTransaction, TransactionMeta, Treasured};
use poppy::crypto::UNIT;
use poppy::database::{Transaction, TransactionStage};
use poppy::exchanges::mandala::client::Client;
use poppy::exchanges::mandala::utils::{
    AccountAsset, OrderRequest, OrderSide, OrderStatus, OrderType, RequestedOrder, Symbol, WebsocketRequest,
};
use poppy::exchanges::mandala::Mandala;
use poppy::exchanges::Exchange;
use poppy::utils::config::{Coin, Config, KrakenConfig, MandalaConfig};
use poppy::utils::params::ParamMap;

fn config() -> Config {
    Config {
        quote_currency: "USDT".to_string(),
        max_trade_size: 100 * UNIT,
        min_trade_size: 10 * UNIT,
        max_transaction_per_coin: 3,
        coins: vec![
            Coin { symbol: "BTC".to_string(), support: 100 * UNIT, profit_wanted: 2_000_000 },
            Coin { symbol: "ETH".to_string(), support: 50 * UNIT, profit_wanted: 2_000_000 },
        ],
        mandala: MandalaConfig { enabled: true, api_key: "key".to_string(), api_secret: "secret".to_string() },
        kraken: KrakenConfig {
            enabled: false,
            rest_url: String::new(),
            wss_url: String::new(),
            api_key: String::new(),
            api_secret: String::new(),
        },
        database_url: String::new(),
    }
}

fn symbol(base: &str, quote: &str, symbol_type: i8) -> Symbol {
    Symbol {
        symbol_type,
        symbol: format!("{}_{}", base, quote),
        base_currency: base.to_string(),
        quote_currency: quote.to_string(),
    }
}

#[test]
fn tradable_coins_are_configured_routed_and_listed_once() {
    let symbols = vec![
        symbol("XRP", "USDT", 1),
        symbol("ETH", "BTC", 1),
        symbol("ETH", "USDT", 2),
        symbol("BTC", "USDT", 1),
        symbol("ETH", "USDT", 1),
        symbol("BTC", "USDT", 1),
    ];
    let coins = Mandala::tradable_coins(&symbols, &config());
    let names: Vec<String> = coins.into_iter().map(|coin| coin.symbol).collect();
    assert_eq!(names, vec!["BTC".to_string(), "ETH".to_string()]);
    assert!(Mandala::tradable_coins(&Vec::new(), &config()).is_empty());
}

#[test]
fn boot_sets_up_bookies_and_brokers() {
    let mut mandala = Mandala::new("key".to_string(), "secret".to_string());
    let symbols = vec![symbol("BTC", "USDT", 1), symbol("DOGE", "USDT", 1)];
    assert_eq!(mandala.boot(Some(&symbols), &config()), 0);
    assert_eq!(mandala.bookkeeper().len(), 1);
    assert!(mandala.bookkeeper().get_book(&"BTC".to_string()).is_some());
    assert_eq!(mandala.trader().len(), 1);
    assert_eq!(mandala.trader().broker(0).symbol(), "BTC");
    let mut unlisted = Mandala::new("key".to_string(), "secret".to_string());
    assert_eq!(unlisted.boot(None, &config()), 0);
    assert_eq!(unlisted.bookkeeper().len(), 0);
    assert_eq!(unlisted.trader().len(), 0);
}

#[test]
fn the_driver_is_called_mandala() {
    let mandala = Mandala::new("key".to_string(), "secret".to_string());
    assert_eq!(mandala.get_identifier(), "mandala");
    assert_eq!(mandala.get_display_name(), "Mandala");
    assert_eq!(mandala.tick(true, true), Tick::Actionable);
    assert_eq!(mandala.tick(true, false), Tick::Output);
    assert_eq!(mandala.tick(false, false), Tick::Silent);
    assert_eq!(mandala.client().key(), "key");
}

#[test]
fn reload_takes_the_balances_from_the_account() {
    let mut mandala = Mandala::new("key".to_string(), "secret".to_string());
    mandala.reload_balances(&vec![
        AccountAsset { asset: "USDT".to_string(), free: 5 * UNIT, locked: UNIT },
        AccountAsset { asset: "BTC".to_string(), free: 2, locked: 3 },
    ]);
    let usdt = mandala.balances().get_balance_for_symbol(&"USDT".to_string()).unwrap();
    assert_eq!((usdt.symbol.as_str(), usdt.available, usdt.locked), ("USDT", 5 * UNIT, UNIT));
    assert!(mandala.request_balances().get_balance_for_symbol(&"BTC".to_string()).is_some());
    assert!(mandala.balances().get_balance_for_symbol(&"ETH".to_string()).is_none());
}

fn row(stage: TransactionStage, sell: Option<&str>) -> Transaction {
    Transaction {
        id: "id".to_string(),
        exchange_name: "mandala".to_string(),
        buy_exchange_id: Some("42".to_string()),
        sell_exchange_id: sell.map(|id| id.to_string()),
        amount: 10 * UNIT,
        symbol: "BTC".to_string(),
        price: 2 * UNIT,
        stage,
        created_at: Some(1),
        updated_at: Some(1),
    }
}

fn polled(status: OrderStatus, executed_quantity: i64) -> RequestedOrder {
    RequestedOrder {
        order_id: "42".to_string(),
        client_id: String::new(),
        side: OrderSide::Buy,
        symbol: "BTC_USDT".to_string(),
        order_type: OrderType::Limit,
        status,
        original_quantity: 10 * UNIT,
        original_quote_quantity: 0,
        executed_quantity,
        executed_price: 0,
        executed_quote_quantity: 0,
        create_time: 0,
    }
}

#[test]
fn the_sell_order_is_polled_once_there_is_one() {
    assert_eq!(
        Mandala::order_to_poll(&row(TransactionStage::BuyTransactionOpen, None)),
        Some("42".to_string())
    );
    assert_eq!(
        Mandala::order_to_poll(&row(TransactionStage::SellTransactionOpen, Some("77"))),
        Some("77".to_string())
    );
    let mut orphan = row(TransactionStage::BuyTransactionOpen, None);
    orphan.buy_exchange_id = None;
    assert_eq!(Mandala::order_to_poll(&orphan), None);
}

#[test]
fn a_filled_buy_keeps_ninety_nine_per_cent() {
    let form = Mandala::check_open_orders(
        &row(TransactionStage::BuyTransactionOpen, None),
        &polled(OrderStatus::Filled, 10 * UNIT),
    );
    assert_eq!(form.stage, TransactionStage::Hodl);
    assert_eq!(form.amount, 990_000_000);
    assert_eq!(form.sell_exchange_id, None);
    assert!(form.updated_at.unwrap() > 1_600_000_000_000);
    let sold = Mandala::check_open_orders(
        &row(TransactionStage::SellTransactionOpen, Some("77")),
        &polled(OrderStatus::Filled, 10 * UNIT),
    );
    assert_eq!(sold.stage, TransactionStage::Finished);
    assert_eq!(sold.amount, 10 * UNIT);
}

#[test]
fn an_order_names_the_pair_and_goes_out_as_a_limit_order() {
    let transaction = ExecutableTransaction::Buy {
        symbol: "BTC".to_string(),
        price: 2 * UNIT,
        amount: 2_352_000_000,
        meta: TransactionMeta { existing_transaction: None },
    };
    let request = Mandala::execute_transaction(&transaction, &"USDT".to_string());
    assert_eq!(request.symbol, "BTC_USDT");
    assert_eq!(request.side, OrderSide::Buy);
    assert_eq!(request.order_type, OrderType::Limit);
    assert_eq!(request.quantity, Some(2_352_000_000));
    assert_eq!(request.price, Some(2 * UNIT));
    assert_eq!(request.to_map().query(), "price=2&quantity=23.5&side=0&symbol=BTC_USDT&type=1");
    let sale = ExecutableTransaction::Sell {
        symbol: "ETH".to_string(),
        price: 10_150_000_000,
        amount: 99_000_000,
        meta: TransactionMeta { existing_transaction: Some("row".to_string()) },
    };
    let request = Mandala::execute_transaction(&sale, &"USDT".to_string());
    assert_eq!(request.to_map().query(), "price=101.5&quantity=0.9&side=1&symbol=ETH_USDT&type=1");
}

#[test]
fn to_map_leaves_out_what_the_order_leaves_open() {
    let mut request =
        OrderRequest::new("BTC_USDT".to_string(), OrderSide::Sell, None, None, &"USDT".to_string());
    assert_eq!(request.to_map().query(), "side=1&symbol=BTC_USDT&type=1");
    request = OrderRequest::new("BTC_USDT".to_string(), OrderSide::Sell, Some(-5_000_000), None, &"USDT".to_string());
    request.order_type = OrderType::StopLossLimit;
    request.quote_order_quantity = Some(UNIT);
    request.stop_price = Some(3 * UNIT / 2);
    request.client_id = Some("me".to_string());
    request.iceberg_qty = Some(1);
    assert_eq!(
        request.to_map().query(),
        "client_id=me&iceberg_qty=0.00000001&quantity=-0.1&quote_order_quantity=1&side=1&stop_price=1.5&symbol=BTC_USDT&type=4"
    );
}

#[test]
fn wire_codes_go_both_ways() {
    for code in 0..=255u8 {
        assert_eq!(OrderSide::from_code(code).map(|side| side.code()), if code < 2 { Some(code) } else { None });
        assert_eq!(
            OrderType::from_code(code).map(|order_type| order_type.code()),
            if (1..=7).contains(&code) { Some(code) } else { None }
        );
        assert_eq!(
            OrderStatus::from_code(code).map(|status| status.code()),
            if code < 7 { Some(code) } else { None }
        );
    }
    assert_eq!(OrderSide::Sell.code(), 1);
    assert_eq!(OrderType::LimitMake.code(), 7);
    assert_eq!(OrderStatus::Filled.code(), 2);
    assert_eq!(OrderStatus::PartiallyFilled.code(), 1);
}

#[test]
fn websocket_request_keeps_its_parts() {
    let request = WebsocketRequest::new(3, "SUBSCRIBE".to_string(), vec!["a".to_string()]);
    assert_eq!(request.into_parts(), ("SUBSCRIBE".to_string(), vec!["a".to_string()], 3));
}

#[test]
fn sign_params_appends_the_hmac_in_hex() {
    let client = Client::new("id".to_string(), "key".to_string());
    let message = "The quick brown fox jumps over the lazy dog";
    assert_eq!(
        client.sign_params(message.to_string()),
        format!("{}&signature=f7bc83f430538424b13298e6aa6fb143ef4d59a14946175997479dbc2d1a3cd8", message)
    );
}

#[test]
fn param_string_carries_window_and_timestamp() {
    let mut params = ParamMap::new();
    params.insert("symbol".to_string(), "BTC_USDT".to_string());
    params.insert("orderId".to_string(), "42".to_string());
    assert_eq!(
        Client::param_string_at(params, 1_616_161_616_161),
        "orderId=42&recvWindow=5000&symbol=BTC_USDT&timestamp=1616161616161"
    );
    assert_eq!(Client::param_string_at(ParamMap::new(), 0), "recvWindow=5000&timestamp=0");
    let stamped = Client::create_param_string(ParamMap::new());
    assert!(stamped.starts_with("recvWindow=5000&timestamp=1"));
    assert_eq!(stamped.len(), "recvWindow=5000&timestamp=".len() + 13);
}

#[test]
fn a_given_timestamp_parameter_is_overwritten() {
    let mut params = ParamMap::new();
    params.insert("timestamp".to_string(), "1".to_string());
    params.insert("recvWindow".to_string(), "2".to_string());
    assert_eq!(Client::param_string_at(params, 9), "recvWindow=5000&timestamp=9");
}

#[test]
fn request_builds_the_address() {
    let client = Client::new("id".to_string(), "key".to_string());
    let endpoint = "/open/v1/common/symbols".to_string();
    assert_eq!(
        client.request_at(&endpoint, ParamMap::new(), false, 7),
        "https://trade.mandala.exchange/open/v1/common/symbols?recvWindow=5000&timestamp=7"
    );
    let signed = client.request_at(&endpoint, ParamMap::new(), true, 7);
    let query = "recvWindow=5000&timestamp=7";
    assert_eq!(
        signed,
        format!("https://trade.mandala.exchange/open/v1/common/symbols?{}", client.sign_params(query.to_string()))
    );
    assert_eq!(signed.len(), "https://trade.mandala.exchange/open/v1/common/symbols?".len() + query.len() + 11 + 64);
    let now = client.request(&endpoint, ParamMap::new(), false);
    assert!(now.starts_with("https://trade.mandala.exchange/open/v1/common/symbols?recvWindow=5000&timestamp="));
}
