//! Core domain types.

use crate::decimal::Dec;
use crate::keyed::{Duplicate, MapKey};
use crate::timestamp::Timestamp;
use vstd::prelude::*;

verus! {

/// Exchange identifier (e.g. Binance).
#[derive(Debug)]
pub struct ExchangeId(pub String);

impl View for ExchangeId {
    type V = Seq<char>;

    open spec fn view(&self) -> Seq<char> {
        self.0@
    }
}

impl Duplicate for ExchangeId {
    fn duplicate(&self) -> (r: Self) {
        ExchangeId(self.0.clone())
    }
}

impl ExchangeId {
    /// The text of the identifier (what `Display` writes).
    pub fn to_text(&self) -> (r: String)
        ensures
            r@ == self@,
    {
        self.0.clone()
    }
}

/// Trading pair symbol (e.g. BTCUSDT).
#[derive(Debug)]
pub struct Symbol(pub String);

impl View for Symbol {
    type V = Seq<char>;

    open spec fn view(&self) -> Seq<char> {
        self.0@
    }
}

impl Duplicate for Symbol {
    fn duplicate(&self) -> (r: Self) {
        Symbol(self.0.clone())
    }
}

impl Symbol {
    /// The text of the symbol (what `Display` writes).
    pub fn to_text(&self) -> (r: String)
        ensures
            r@ == self@,
    {
        self.0.clone()
    }
}

/// Instrument = exchange + symbol.
#[derive(Debug)]
pub struct InstrumentId {
    /// Venue.
    pub exchange: ExchangeId,
    /// Pair.
    pub symbol: Symbol,
}

impl View for InstrumentId {
    type V = (Seq<char>, Seq<char>);

    open spec fn view(&self) -> (Seq<char>, Seq<char>) {
        (self.exchange@, self.symbol@)
    }
}

impl InstrumentId {
    /// New instrument.
    pub fn new(exchange: &str, symbol: &str) -> (r: Self)
        ensures
            r@ == (exchange@, symbol@),
    {
        InstrumentId { exchange: ExchangeId(exchange.to_owned()), symbol: Symbol(symbol.to_owned()) }
    }

    /// Same exchange and symbol.
    pub fn same(&self, other: &Self) -> (r: bool)
        ensures
            r == (self@ == other@),
    {
        self.exchange.0 == other.exchange.0 && self.symbol.0 == other.symbol.0
    }

    /// `exchange:symbol`, what `Display` writes.
    pub fn to_text(&self) -> (r: String)
        ensures
            r@ == self.exchange@ + seq![':'] + self.symbol@,
    {
        let mut s = self.exchange.0.clone();
        s.append(":");
        proof {
            reveal_strlit(":");
        }
        s.append(self.symbol.0.as_str());
        s
    }
}

impl Duplicate for InstrumentId {
    fn duplicate(&self) -> (r: Self) {
        InstrumentId { exchange: self.exchange.duplicate(), symbol: self.symbol.duplicate() }
    }
}

impl MapKey for InstrumentId {
    fn same_key(&self, other: &Self) -> (r: bool) {
        self.same(other)
    }
}

/// Order side.
#[derive(Clone, Copy, Debug, PartialEq, Eq, Structural)]
pub enum Side {
    /// Buy base asset.
    Buy,
    /// Sell base asset.
    Sell,
}

/// The other side.
pub open spec fn opposite_side(s: Side) -> Side {
    match s {
        Side::Buy => Side::Sell,
        Side::Sell => Side::Buy,
    }
}

impl Side {
    /// Opposite side.
    pub fn opposite(self) -> (r: Self)
        ensures
            r == opposite_side(self),
    {
        match self {
            Side::Buy => Side::Sell,
            Side::Sell => Side::Buy,
        }
    }
}

/// Limit vs market.
#[derive(Clone, Copy, Debug, PartialEq, Eq, Structural)]
pub enum OrderType {
    /// Limit order.
    Limit,
    /// Market order.
    Market,
}

/// Stable order id: the 128 bits of a UUID.
#[derive(Clone, Copy, Debug, PartialEq, Eq, Structural)]
pub struct OrderId(pub u128);

impl View for OrderId {
    type V = u128;

    open spec fn view(&self) -> u128 {
        self.0
    }
}

impl OrderId {
    /// Random (version 4) id: the version nibble is 4 and the variant bits are `10`.
    pub fn new_v4() -> (r: Self)
        ensures
            r.0 & 0xF000C000000000000000u128 == 0x40008000000000000000u128,
    {
        OrderId(random_uuid_bits())
    }

    /// Deterministic id from a venue numeric order id (the UUID whose 128 bits are `id`).
    pub fn from_venue_u64(id: u64) -> (r: Self)
        ensures
            r.0 == id,
    {
        OrderId(id as u128)
    }
}

impl Duplicate for OrderId {
    fn duplicate(&self) -> (r: Self) {
        *self
    }
}

impl MapKey for OrderId {
    fn same_key(&self, other: &Self) -> (r: bool) {
        self.0 == other.0
    }
}

/// The bits of a fresh random UUID, through `Uuid::new_v4` and `Uuid::as_u128`.
/// Trusted: the bits are random except the version nibble, set to 4, and the two variant
/// bits, set to `10` (`new_v4` masks random bits and sets these); nothing more is stated.
#[verifier::external_body]
fn random_uuid_bits() -> (r: u128)
    ensures
        r & 0xF000C000000000000000u128 == 0x40008000000000000000u128,
{
    uuid::Uuid::new_v4().as_u128()
}

/// Client-supplied correlation id.
#[derive(Debug)]
pub struct ClientOrderId(pub String);

impl Duplicate for ClientOrderId {
    fn duplicate(&self) -> (r: Self) {
        ClientOrderId(self.0.clone())
    }
}

/// Order status in local state.
#[derive(Clone, Copy, Debug, PartialEq, Eq, Structural)]
pub enum OrderStatus {
    /// Accepted, resting or pending.
    Open,
    /// Fully filled.
    Filled,
    /// User/system canceled.
    Canceled,
    /// Rejected by venue or simulator.
    Rejected,
}

/// Asset code for balances (e.g. USDT, BTC).
#[derive(Debug)]
pub struct Asset(pub String);

impl View for Asset {
    type V = Seq<char>;

    open spec fn view(&self) -> Seq<char> {
        self.0@
    }
}

impl Asset {
    /// Asset from its code.
    pub fn new(code: &str) -> (r: Self)
        ensures
            r@ == code@,
    {
        Asset(code.to_owned())
    }
}

impl Duplicate for Asset {
    fn duplicate(&self) -> (r: Self) {
        Asset(self.0.clone())
    }
}

impl MapKey for Asset {
    fn same_key(&self, other: &Self) -> (r: bool) {
        self.0 == other.0
    }
}

/// Working order snapshot.
#[derive(Debug)]
pub struct OpenOrder {
    /// Id.
    pub id: OrderId,
    /// Instrument.
    pub instrument: InstrumentId,
    /// Side.
    pub side: Side,
    /// Type.
    pub order_type: OrderType,
    /// Limit price if limit.
    pub price: Option<Dec>,
    /// Remaining base quantity.
    pub remaining_qty: Dec,
    /// Original quantity.
    pub original_qty: Dec,
    /// Status.
    pub status: OrderStatus,
}

impl Duplicate for OpenOrder {
    fn duplicate(&self) -> (r: Self) {
        OpenOrder {
            id: self.id,
            instrument: self.instrument.duplicate(),
            side: self.side,
            order_type: self.order_type,
            price: self.price,
            remaining_qty: self.remaining_qty,
            original_qty: self.original_qty,
            status: self.status,
        }
    }
}

/// Point on equity curve for metrics.
#[derive(Clone, Copy, Debug)]
pub struct EquityPoint {
    /// Timestamp.
    pub ts: Timestamp,
    /// Mark-to-market equity in quote (e.g. USDT).
    pub equity_quote: Dec,
}

} // verus!
