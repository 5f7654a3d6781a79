use poppy::crypto::coin::Coin;
use poppy::crypto::UNIT;
use poppy::exchanges::mandala::bookkeeper::{Bookie, Bookkeeper, Delivery, Frame, Reading};
use poppy::exchanges::mandala::utils::{DepthSnapshot, DepthUpdate, Order};

fn update(symbol: &str, first_id: i64, last_id: i64, bids: Vec<Order>, asks: Vec<Order>) -> DepthUpdate {
    DepthUpdate { event_time: 0, symbol: symbol.to_string(), first_id, last_id, bids, asks }
}

fn snapshot(last_update_id: i64) -> DepthSnapshot {
    DepthSnapshot {
        last_update_id,
        bids: vec![Order(99 * UNIT, UNIT), Order(98 * UNIT, 2 * UNIT)],
        asks: vec![Order(101 * UNIT, UNIT), Order(102 * UNIT, 2 * UNIT)],
    }
}

#[test]
fn late_depth_update_is_dropped() {
    let mut bookie = Bookie::new("BTC".to_string());
    bookie.boot(&snapshot(100));
    let before = (bookie.book().bids.iter(), bookie.book().asks.iter());
    let delivery = bookie.start(update(
        "BTCUSDT",
        95,
        98,
        vec![Order(99 * UNIT, 0), Order(50 * UNIT, UNIT)],
        vec![Order(101 * UNIT, 0)],
    ));
    assert_eq!(delivery, Delivery::Dropped);
    assert_eq!(bookie.last_update_id(), 100);
    assert_eq!((bookie.book().bids.iter(), bookie.book().asks.iter()), before);
}

#[test]
fn new_bookie_starts_at_zero_with_an_empty_book() {
    let bookie = Bookie::new("BTC".to_string());
    assert_eq!(bookie.last_update_id(), 0);
    assert_eq!(bookie.book().highest_bid(), None);
    assert_eq!(bookie.book().lowest_ask(), None);
}

#[test]
fn snapshot_reloads_the_book() {
    let mut bookie = Bookie::new("BTC".to_string());
    bookie.boot(&snapshot(100));
    assert_eq!(bookie.last_update_id(), 100);
    assert_eq!(bookie.book().highest_bid(), Some(99 * UNIT));
    assert_eq!(bookie.book().lowest_ask(), Some(101 * UNIT));
    assert_eq!(bookie.book().bids.iter(), vec![(99 * UNIT, UNIT), (98 * UNIT, 2 * UNIT)]);
}

#[test]
fn an_update_with_the_id_of_the_book_is_dropped() {
    let mut bookie = Bookie::new("BTC".to_string());
    bookie.boot(&snapshot(100));
    let delivery = bookie.start(update("BTCUSDT", 100, 100, vec![Order(99 * UNIT, 0)], Vec::new()));
    assert_eq!(delivery, Delivery::Dropped);
    assert_eq!(bookie.book().highest_bid(), Some(99 * UNIT));
}

#[test]
fn a_newer_update_is_applied() {
    let mut bookie = Bookie::new("BTC".to_string());
    bookie.boot(&snapshot(100));
    let delivery = bookie.start(update(
        "BTCUSDT",
        101,
        103,
        vec![Order(99 * UNIT, 0)],
        vec![Order(100 * UNIT, 4 * UNIT)],
    ));
    assert_eq!(delivery, Delivery::Applied);
    assert_eq!(bookie.last_update_id(), 103);
    assert_eq!(bookie.book().highest_bid(), Some(98 * UNIT));
    assert_eq!(bookie.book().lowest_ask(), Some(100 * UNIT));
}

#[test]
fn an_update_that_straddles_the_snapshot_is_applied() {
    let mut bookie = Bookie::new("BTC".to_string());
    bookie.boot(&snapshot(100));
    let delivery = bookie.start(update("BTCUSDT", 95, 104, vec![Order(97 * UNIT, UNIT)], Vec::new()));
    assert_eq!(delivery, Delivery::Applied);
    assert_eq!(bookie.last_update_id(), 104);
    assert_eq!(bookie.book().bids.iter().len(), 3);
}

#[test]
fn updates_before_the_snapshot_are_held_back_and_replayed() {
    let mut bookie = Bookie::new("BTC".to_string());
    let stale = bookie.start(update("BTCUSDT", 90, 95, vec![Order(50 * UNIT, UNIT)], Vec::new()));
    let fresh = bookie.start(update("BTCUSDT", 99, 101, vec![Order(99 * UNIT, 7 * UNIT)], Vec::new()));
    let later = bookie.start(update("BTCUSDT", 102, 102, Vec::new(), vec![Order(101 * UNIT, 0)]));
    assert_eq!(stale, Delivery::Buffered);
    assert_eq!(fresh, Delivery::Buffered);
    assert_eq!(later, Delivery::Buffered);
    assert_eq!(bookie.last_update_id(), 0);
    assert_eq!(bookie.book().highest_bid(), None);
    bookie.boot(&snapshot(100));
    assert_eq!(bookie.last_update_id(), 102);
    assert_eq!(bookie.book().bids.iter(), vec![(99 * UNIT, 7 * UNIT), (98 * UNIT, 2 * UNIT)]);
    assert_eq!(bookie.book().asks.iter(), vec![(102 * UNIT, 2 * UNIT)]);
    let next = bookie.start(update("BTCUSDT", 103, 103, Vec::new(), Vec::new()));
    assert_eq!(next, Delivery::Applied);
}

#[test]
fn updates_that_arrive_out_of_order_are_dropped() {
    let mut bookie = Bookie::new("BTC".to_string());
    bookie.boot(&snapshot(100));
    assert_eq!(
        bookie.start(update("BTCUSDT", 101, 105, vec![Order(97 * UNIT, UNIT)], Vec::new())),
        Delivery::Applied
    );
    assert_eq!(
        bookie.start(update("BTCUSDT", 101, 103, vec![Order(96 * UNIT, UNIT)], Vec::new())),
        Delivery::Dropped
    );
    assert_eq!(bookie.last_update_id(), 105);
    assert_eq!(bookie.book().bids.iter().len(), 3);
}

fn keeper() -> Bookkeeper {
    let mut keeper = Bookkeeper::new();
    keeper.boot(vec![Coin::new("BTC".to_string()), Coin::new("ETH".to_string())]);
    keeper
}

#[test]
fn boot_gives_every_coin_a_book() {
    let keeper = keeper();
    assert_eq!(keeper.len(), 2);
    assert!(keeper.get_book(&"BTC".to_string()).is_some());
    assert!(keeper.get_book(&"ETH".to_string()).is_some());
    assert!(keeper.get_book(&"XRP".to_string()).is_none());
    let names: Vec<String> = keeper.iter_books().into_iter().map(|entry| entry.0).collect();
    assert_eq!(names, vec!["BTC".to_string(), "ETH".to_string()]);
    assert_eq!(keeper.iter_bookies().len(), 2);
}

#[test]
fn handle_update_routes_by_the_symbol_without_the_quote_currency() {
    let mut keeper = keeper();
    let quote = "USDT".to_string();
    assert!(keeper.load(&"ETH".to_string(), &snapshot(10)));
    assert!(!keeper.load(&"XRP".to_string(), &snapshot(10)));
    let delivery = keeper.handle_update(
        update("ETHUSDT", 11, 12, vec![Order(100 * UNIT, UNIT)], Vec::new()),
        &quote,
    );
    assert_eq!(delivery, Delivery::Applied);
    assert_eq!(keeper.get_book(&"ETH".to_string()).unwrap().highest_bid(), Some(100 * UNIT));
    assert_eq!(keeper.get_book(&"BTC".to_string()).unwrap().highest_bid(), None);
    let held = keeper.handle_update(update("BTCUSDT", 1, 2, Vec::new(), Vec::new()), &quote);
    assert_eq!(held, Delivery::Buffered);
    let lost = keeper.handle_update(update("XRPUSDT", 1, 2, Vec::new(), Vec::new()), &quote);
    assert_eq!(lost, Delivery::Unknown);
    let unstripped = keeper.handle_update(update("ETHUSDT", 13, 14, Vec::new(), Vec::new()), &"EUR".to_string());
    assert_eq!(unstripped, Delivery::Unknown);
}

#[test]
fn deliver_takes_the_bookies_own_symbol() {
    let mut keeper = keeper();
    assert_eq!(
        keeper.deliver(&"BTC".to_string(), update("BTCUSDT", 1, 2, Vec::new(), Vec::new())),
        Delivery::Buffered
    );
    assert_eq!(
        keeper.deliver(&"BTCUSDT".to_string(), update("BTCUSDT", 1, 2, Vec::new(), Vec::new())),
        Delivery::Unknown
    );
}

#[test]
fn subscription_names_every_stream_in_lower_case() {
    let keeper = keeper();
    let (method, params, id) = keeper.subscription(&"USDT".to_string()).into_parts();
    assert_eq!(method, "SUBSCRIBE");
    assert_eq!(id, 1);
    assert_eq!(params, vec!["btcusdt@depth@100ms".to_string(), "ethusdt@depth@100ms".to_string()]);
}

#[test]
fn sanity_check_reports_crossed_books() {
    let mut keeper = keeper();
    assert!(keeper.sanity_check().is_empty());
    keeper.load(
        &"BTC".to_string(),
        &DepthSnapshot {
            last_update_id: 1,
            bids: vec![Order(101 * UNIT, UNIT)],
            asks: vec![Order(100 * UNIT, UNIT)],
        },
    );
    keeper.load(&"ETH".to_string(), &snapshot(1));
    assert_eq!(keeper.sanity_check(), vec!["BTC".to_string()]);
}

#[test]
fn read_sorts_the_frames() {
    assert!(matches!(Bookkeeper::read(Frame::Text("{}".to_string())), Reading::Update(text) if text == "{}"));
    assert!(matches!(Bookkeeper::read(Frame::Binary), Reading::Ignore));
    assert!(matches!(Bookkeeper::read(Frame::Ping), Reading::Ignore));
    assert!(matches!(Bookkeeper::read(Frame::Pong), Reading::Ignore));
    assert!(matches!(Bookkeeper::read(Frame::Close), Reading::Fail));
}

#[test]
fn boot_again_replaces_a_bookie_by_a_fresh_one() {
    let mut keeper = keeper();
    keeper.load(&"BTC".to_string(), &snapshot(7));
    keeper.boot(vec![Coin::new("BTC".to_string()), Coin::new("XRP".to_string())]);
    assert_eq!(keeper.len(), 3);
    assert_eq!(keeper.get_book(&"BTC".to_string()).unwrap().highest_bid(), None);
    assert!(keeper.get_book(&"XRP".to_string()).is_some());
}
