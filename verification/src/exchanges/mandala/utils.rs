use crate::crypto::floor_div;
use crate::crypto::UNIT;
use crate::utils::params::{with, ParamMap};
use crate::utils::{decimal, decimal_text, numeral, numeral_text, occurs, wide_decimal_text};
use vstd::prelude::*;
use vstd::string::StringExecFns;

verus! {

/// The envelope of every REST answer of the venue.
#[derive(Debug)]
pub struct MandalaResponse<D> {
    pub code: i32,
    pub msg: String,
    pub data: D,
    pub timestamp: i64,
}

#[derive(Debug)]
pub struct ListedResponse<I> {
    pub list: Vec<I>,
}

/// A pair that the venue lists, with the kind of routing it gets.
#[derive(Debug)]
pub struct Symbol {
    pub symbol_type: i8,
    pub symbol: String,
    pub base_currency: String,
    pub quote_currency: String,
}

/// A request on the depth stream.
#[derive(Debug)]
pub struct WebsocketRequest {
    method: String,
    params: Vec<String>,
    id: i8,
}

impl WebsocketRequest {
    pub closed spec fn method(&self) -> Seq<char> {
        self.method@
    }

    pub closed spec fn params(&self) -> Seq<String> {
        self.params@
    }

    pub closed spec fn id(&self) -> i8 {
        self.id
    }

    pub fn new(id: i8, method: String, params: Vec<String>) -> (request: WebsocketRequest)
        ensures
            request.id() == id,
            request.method() == method@,
            request.params() == params@,
    {
        WebsocketRequest { method, params, id }
    }

    /// The request's parts, for the encoder: method, parameters, id.
    pub fn into_parts(self) -> (parts: (String, Vec<String>, i8))
        ensures
            parts.0@ == self.method(),
            parts.1@ == self.params(),
            parts.2 == self.id(),
    {
        (self.method, self.params, self.id)
    }
}

/// One level of a depth message: price, then quantity.
#[derive(Debug, Clone, Copy)]
pub struct Order(pub i64, pub i64);

/// An incremental change to one symbol's book, covering the venue's update
/// ids `first_id..=last_id`.
#[derive(Debug)]
pub struct DepthUpdate {
    pub event_time: i64,
    pub symbol: String,
    pub first_id: i64,
    pub last_id: i64,
    pub bids: Vec<Order>,
    pub asks: Vec<Order>,
}

/// A full book, as of the venue's update id `last_update_id`.
#[derive(Debug)]
pub struct DepthSnapshot {
    pub last_update_id: i64,
    pub bids: Vec<Order>,
    pub asks: Vec<Order>,
}

#[derive(Debug, Clone, Copy, PartialEq, Eq, Structural)]
pub enum OrderSide {
    Buy,
    Sell,
}

impl OrderSide {
    /// The number that stands for the side on the wire.
    pub open spec fn wire(self) -> u8 {
        match self {
            OrderSide::Buy => 0,
            OrderSide::Sell => 1,
        }
    }

    pub fn code(&self) -> (code: u8)
        ensures
            code == self.wire(),
    {
        match self {
            OrderSide::Buy => 0,
            OrderSide::Sell => 1,
        }
    }

    pub fn from_code(code: u8) -> (side: Option<OrderSide>)
        ensures
            match side {
                Some(side) => side.wire() == code,
                None => code > 1,
            },
    {
        match code {
            0 => Some(OrderSide::Buy),
            1 => Some(OrderSide::Sell),
            _ => None,
        }
    }
}

#[derive(Debug, Clone, Copy, PartialEq, Eq, Structural)]
pub enum OrderType {
    Limit,
    Market,
    StopLoss,
    StopLossLimit,
    TakeProfit,
    TakeProfitLimit,
    LimitMake,
}

impl OrderType {
    /// The number that stands for the type on the wire.
    pub open spec fn wire(self) -> u8 {
        match self {
            OrderType::Limit => 1,
            OrderType::Market => 2,
            OrderType::StopLoss => 3,
            OrderType::StopLossLimit => 4,
            OrderType::TakeProfit => 5,
            OrderType::TakeProfitLimit => 6,
            OrderType::LimitMake => 7,
        }
    }

    pub fn code(&self) -> (code: u8)
        ensures
            code == self.wire(),
    {
        match self {
            OrderType::Limit => 1,
            OrderType::Market => 2,
            OrderType::StopLoss => 3,
            OrderType::StopLossLimit => 4,
            OrderType::TakeProfit => 5,
            OrderType::TakeProfitLimit => 6,
            OrderType::LimitMake => 7,
        }
    }

    pub fn from_code(code: u8) -> (order_type: Option<OrderType>)
        ensures
            match order_type {
                Some(order_type) => order_type.wire() == code,
                None => code == 0 || code > 7,
            },
    {
        match code {
            1 => Some(OrderType::Limit),
            2 => Some(OrderType::Market),
            3 => Some(OrderType::StopLoss),
            4 => Some(OrderType::StopLossLimit),
            5 => Some(OrderType::TakeProfit),
            6 => Some(OrderType::TakeProfitLimit),
            7 => Some(OrderType::LimitMake),
            _ => None,
        }
    }
}

/// What the venue reports of an order that was placed.
#[derive(Debug, Clone, Copy, PartialEq, Eq, Structural)]
pub enum OrderStatus {
    New,
    PartiallyFilled,
    Filled,
    Canceled,
    PendingCancel,
    Rejected,
    Expired,
}

impl OrderStatus {
    /// The number that stands for the status on the wire.
    pub open spec fn wire(self) -> u8 {
        match self {
            OrderStatus::New => 0,
            OrderStatus::PartiallyFilled => 1,
            OrderStatus::Filled => 2,
            OrderStatus::Canceled => 3,
            OrderStatus::PendingCancel => 4,
            OrderStatus::Rejected => 5,
            OrderStatus::Expired => 6,
        }
    }

    pub fn code(&self) -> (code: u8)
        ensures
            code == self.wire(),
    {
        match self {
            OrderStatus::New => 0,
            OrderStatus::PartiallyFilled => 1,
            OrderStatus::Filled => 2,
            OrderStatus::Canceled => 3,
            OrderStatus::PendingCancel => 4,
            OrderStatus::Rejected => 5,
            OrderStatus::Expired => 6,
        }
    }

    pub fn from_code(code: u8) -> (status: Option<OrderStatus>)
        ensures
            match status {
                Some(status) => status.wire() == code,
                None => code > 6,
            },
    {
        match code {
            0 => Some(OrderStatus::New),
            1 => Some(OrderStatus::PartiallyFilled),
            2 => Some(OrderStatus::Filled),
            3 => Some(OrderStatus::Canceled),
            4 => Some(OrderStatus::PendingCancel),
            5 => Some(OrderStatus::Rejected),
            6 => Some(OrderStatus::Expired),
            _ => None,
        }
    }
}

/// The venue's record of an order, as the status poll returns it.
#[derive(Debug)]
pub struct RequestedOrder {
    pub order_id: String,
    pub client_id: String,
    pub side: OrderSide,
    pub symbol: String,
    pub order_type: OrderType,
    pub status: OrderStatus,
    pub original_quantity: i64,
    pub original_quote_quantity: i64,
    pub executed_quantity: i64,
    pub executed_price: i64,
    pub executed_quote_quantity: i64,
    pub create_time: i64,
}

#[derive(Debug)]
pub struct PlaceOrderResponse {
    pub order_id: i64,
    pub create_time: i64,
}

#[derive(Debug)]
pub struct AccountAsset {
    pub asset: String,
    pub free: i64,
    pub locked: i64,
}

#[derive(Debug)]
pub struct AccountInfo {
    pub maker_commission: i64,
    pub taker_commission: i64,
    pub buyer_commission: i64,
    pub seller_commission: i64,
    pub can_trade: bool,
    pub can_withdraw: bool,
    pub can_deposit: bool,
    pub account_assets: Vec<AccountAsset>,
}

/// `quantity` rounded down to one decimal.
pub open spec fn tenths(quantity: int) -> int {
    (quantity / (UNIT / 10)) * (UNIT / 10)
}

/// `entries` with `value` under `key`, where there is a value.
pub open spec fn with_some(
    entries: Seq<(Seq<char>, Seq<char>)>,
    key: Seq<char>,
    value: Option<Seq<char>>,
) -> Seq<(Seq<char>, Seq<char>)> {
    match value {
        Some(value) => with(entries, key, value),
        None => entries,
    }
}

/// An amount as the venue reads it, where there is one.
pub open spec fn amount_text(amount: Option<i64>) -> Option<Seq<char>> {
    match amount {
        Some(amount) => Some(decimal(amount as int)),
        None => None,
    }
}

/// An order to place with the venue.
#[derive(Debug)]
pub struct OrderRequest {
    pub symbol: String,
    pub side: OrderSide,
    pub order_type: OrderType,
    pub quantity: Option<i64>,
    pub quote_order_quantity: Option<i64>,
    pub price: Option<i64>,
    pub stop_price: Option<i64>,
    pub client_id: Option<String>,
    pub iceberg_qty: Option<i64>,
}

impl OrderRequest {
    /// The parameters that stand for the order: the quantity goes out
    /// rounded down to one decimal, and what the order leaves open is left
    /// out.
    pub open spec fn mapped(&self) -> Seq<(Seq<char>, Seq<char>)> {
        let named = with(Seq::empty(), "symbol"@, self.symbol@);
        let sided = with(named, "side"@, numeral(self.side.wire() as nat));
        let typed = with(sided, "type"@, numeral(self.order_type.wire() as nat));
        let sized = with_some(
            typed,
            "quantity"@,
            match self.quantity {
                Some(quantity) => Some(decimal(tenths(quantity as int))),
                None => None,
            },
        );
        let quoted = with_some(sized, "quote_order_quantity"@, amount_text(self.quote_order_quantity));
        let priced = with_some(quoted, "price"@, amount_text(self.price));
        let stopped = with_some(priced, "stop_price"@, amount_text(self.stop_price));
        let tagged = with_some(
            stopped,
            "client_id"@,
            match self.client_id {
                Some(client_id) => Some(client_id@),
                None => None,
            },
        );
        with_some(tagged, "iceberg_qty"@, amount_text(self.iceberg_qty))
    }

    /// A limit order for `symbol`, which names the pair as base, underscore,
    /// quote currency.
    pub fn new(
        symbol: String,
        side: OrderSide,
        quantity: Option<i64>,
        price: Option<i64>,
        quote_currency: &String,
    ) -> (request: OrderRequest)
        requires
            occurs(symbol@, "_"@ + quote_currency@),
        ensures
            request.symbol@ == symbol@,
            request.side == side,
            request.order_type == OrderType::Limit,
            request.quantity == quantity,
            request.quote_order_quantity.is_none(),
            request.price == price,
            request.stop_price.is_none(),
            request.client_id.is_none(),
            request.iceberg_qty.is_none(),
    {
        OrderRequest {
            symbol,
            side,
            order_type: OrderType::Limit,
            quantity,
            quote_order_quantity: None,
            price,
            stop_price: None,
            client_id: None,
            iceberg_qty: None,
        }
    }

    /// The parameters to send for the order.
    pub fn to_map(self) -> (map: ParamMap)
        ensures
            map.wf(),
            map@ == self.mapped(),
    {
        let mut map = ParamMap::new();
        map.insert(String::from_str("symbol"), self.symbol);
        map.insert(String::from_str("side"), numeral_text(self.side.code() as u64));
        map.insert(String::from_str("type"), numeral_text(self.order_type.code() as u64));
        if let Some(quantity) = self.quantity {
            let whole = floor_div(quantity as i128, (UNIT / 10) as i128);
            map.insert(String::from_str("quantity"), wide_decimal_text(whole * ((UNIT / 10) as i128)));
        }
        if let Some(quote_order_quantity) = self.quote_order_quantity {
            map.insert(String::from_str("quote_order_quantity"), decimal_text(quote_order_quantity));
        }
        if let Some(price) = self.price {
            map.insert(String::from_str("price"), decimal_text(price));
        }
        if let Some(stop_price) = self.stop_price {
            map.insert(String::from_str("stop_price"), decimal_text(stop_price));
        }
        if let Some(client_id) = self.client_id {
            map.insert(String::from_str("client_id"), client_id);
        }
        if let Some(iceberg_qty) = self.iceberg_qty {
            map.insert(String::from_str("iceberg_qty"), decimal_text(iceberg_qty));
        }
        map
    }
}

} // verus!
