//! Normalized events fed into the engine.

use crate::decimal::Dec;
use crate::keyed::Duplicate;
use crate::timestamp::Timestamp;
use crate::types::{Asset, ClientOrderId, InstrumentId, OrderId, OrderStatus, OrderType, Side};
use vstd::prelude::*;

verus! {

/// Public market update.
#[derive(Debug)]
pub enum MarketEvent {
    /// Last trade (price, qty).
    Trade {
        /// Instrument.
        instrument: InstrumentId,
        /// When.
        ts: Timestamp,
        /// Price.
        price: Dec,
        /// Base quantity.
        qty: Dec,
    },
    /// Best bid/ask.
    BookL1 {
        /// Instrument.
        instrument: InstrumentId,
        /// When.
        ts: Timestamp,
        /// Best bid.
        bid: Dec,
        /// Best ask.
        ask: Dec,
    },
    /// Shallow L2 snapshot (bounded depth; venue-specific limit).
    BookL2Snapshot(BookL2Snapshot),
}

/// Top-of-book depth snapshot (price, qty) levels.
#[derive(Debug)]
pub struct BookL2Snapshot {
    /// Instrument.
    pub instrument: InstrumentId,
    /// When.
    pub ts: Timestamp,
    /// Bid levels, best first.
    pub bids: Vec<(Dec, Dec)>,
    /// Ask levels, best first.
    pub asks: Vec<(Dec, Dec)>,
}

/// A copy of a list of (price, qty) levels.
pub fn copy_levels(levels: &Vec<(Dec, Dec)>) -> (r: Vec<(Dec, Dec)>)
    ensures
        r@ == levels@,
{
    let mut out: Vec<(Dec, Dec)> = Vec::new();
    let mut i: usize = 0;
    while i < levels.len()
        invariant
            i <= levels@.len(),
            out@ == levels@.subrange(0, i as int),
        decreases levels@.len() - i,
    {
        out.push(levels[i]);
        i += 1;
    }
    out
}

impl BookL2Snapshot {
    /// An identical copy.
    pub fn duplicate(&self) -> (r: Self)
        ensures
            r.instrument == self.instrument,
            r.ts == self.ts,
            r.bids@ == self.bids@,
            r.asks@ == self.asks@,
    {
        BookL2Snapshot {
            instrument: self.instrument.duplicate(),
            ts: self.ts,
            bids: copy_levels(&self.bids),
            asks: copy_levels(&self.asks),
        }
    }
}

/// Private / account-side update.
#[derive(Debug)]
#[allow(inconsistent_fields)]
pub enum AccountEvent {
    /// Balance for asset.
    Balance {
        /// Asset.
        asset: Asset,
        /// Free balance.
        free: Dec,
    },
    /// Order update.
    OrderUpdate {
        /// Id.
        id: OrderId,
        /// Instrument.
        instrument: InstrumentId,
        /// Side.
        side: Side,
        /// Type.
        order_type: OrderType,
        /// Limit price.
        price: Option<Dec>,
        /// Remaining qty.
        remaining_qty: Dec,
        /// Original qty.
        original_qty: Dec,
        /// Status.
        status: OrderStatus,
    },
    /// Fill notice (optional detail; state can also infer from OrderUpdate).
    Fill {
        /// Order id.
        order_id: OrderId,
        /// Instrument.
        instrument: InstrumentId,
        /// Side (taker side).
        side: Side,
        /// Fill price.
        price: Dec,
        /// Filled base qty.
        qty: Dec,
        /// Fee in fee asset (positive number).
        fee: Dec,
        /// Fee asset.
        fee_asset: Asset,
    },
}

/// Control-plane commands (also used for in-process control).
#[derive(Clone, Copy, Debug, PartialEq, Eq, Structural)]
pub enum ControlEvent {
    /// Pause new orders; engine keeps processing cancels/market data.
    Pause,
    /// Resume.
    Resume,
    /// Cancel all open orders.
    CancelAll,
    /// Flatten: cancel all then market-close net base.
    Flatten,
}

/// Timer tick for periodic strategy logic.
#[derive(Clone, Copy, Debug)]
pub struct TimerEvent {
    /// Wall clock (UTC recommended).
    pub ts: Timestamp,
    /// Schedule identifier.
    pub id: u32,
}

/// Unified engine input.
#[derive(Debug)]
pub enum Event {
    /// Market data.
    Market(MarketEvent),
    /// Account / execution feedback.
    Account(AccountEvent),
    /// Control.
    Control(ControlEvent),
    /// Timer.
    Timer(TimerEvent),
}

/// The instrument an event is about, for market events, order updates and fills.
pub open spec fn event_instrument(ev: Event) -> Option<InstrumentId> {
    match ev {
        Event::Market(MarketEvent::Trade { instrument, .. }) => Some(instrument),
        Event::Market(MarketEvent::BookL1 { instrument, .. }) => Some(instrument),
        Event::Market(MarketEvent::BookL2Snapshot(s)) => Some(s.instrument),
        Event::Account(AccountEvent::OrderUpdate { instrument, .. }) => Some(instrument),
        Event::Account(AccountEvent::Fill { instrument, .. }) => Some(instrument),
        _ => None,
    }
}

/// The time an event carries: market events and timer ticks have one.
pub open spec fn event_timestamp(ev: Event) -> Option<Timestamp> {
    match ev {
        Event::Market(MarketEvent::Trade { ts, .. }) => Some(ts),
        Event::Market(MarketEvent::BookL1 { ts, .. }) => Some(ts),
        Event::Market(MarketEvent::BookL2Snapshot(s)) => Some(s.ts),
        Event::Timer(t) => Some(t.ts),
        _ => None,
    }
}

impl Event {
    /// Extract instrument from market events, order updates and fills.
    pub fn instrument(&self) -> (r: Option<&InstrumentId>)
        ensures
            match r {
                Some(i) => event_instrument(*self) == Some(*i),
                None => event_instrument(*self) is None,
            },
    {
        match self {
            Event::Market(MarketEvent::Trade { instrument, .. }) => Some(instrument),
            Event::Market(MarketEvent::BookL1 { instrument, .. }) => Some(instrument),
            Event::Market(MarketEvent::BookL2Snapshot(s)) => Some(&s.instrument),
            Event::Account(AccountEvent::OrderUpdate { instrument, .. }) => Some(instrument),
            Event::Account(AccountEvent::Fill { instrument, .. }) => Some(instrument),
            _ => None,
        }
    }

    /// The time the event carries, if any.
    pub fn timestamp(&self) -> (r: Option<Timestamp>)
        ensures
            r == event_timestamp(*self),
    {
        match self {
            Event::Market(MarketEvent::Trade { ts, .. }) => Some(*ts),
            Event::Market(MarketEvent::BookL1 { ts, .. }) => Some(*ts),
            Event::Market(MarketEvent::BookL2Snapshot(s)) => Some(s.ts),
            Event::Timer(t) => Some(t.ts),
            _ => None,
        }
    }
}

/// Origin of an [`OrderIntent`] (risk / pause semantics).
#[derive(Clone, Copy, Debug, PartialEq, Eq, Structural)]
pub enum OrderIntentSource {
    /// Strategy or operator-initiated.
    User,
    /// Emergency flatten path after [`ControlEvent::Flatten`] (may bypass pause).
    Flatten,
}

impl Default for OrderIntentSource {
    fn default() -> (r: Self)
        ensures
            r == OrderIntentSource::User,
    {
        OrderIntentSource::User
    }
}

/// Strategy order request (before risk/execution).
#[derive(Debug)]
pub struct OrderIntent {
    /// Target instrument.
    pub instrument: InstrumentId,
    /// Side.
    pub side: Side,
    /// Limit or market.
    pub order_type: OrderType,
    /// Limit price (required for limit).
    pub price: Option<Dec>,
    /// Base quantity.
    pub qty: Dec,
    /// Optional client id.
    pub client_order_id: Option<ClientOrderId>,
    /// Source for risk rules (e.g. flatten bypasses the pause check).
    pub source: OrderIntentSource,
}

impl OrderIntent {
    /// An identical copy.
    pub fn duplicate(&self) -> (r: Self)
        ensures
            r == *self,
    {
        OrderIntent {
            instrument: self.instrument.duplicate(),
            side: self.side,
            order_type: self.order_type,
            price: self.price,
            qty: self.qty,
            client_order_id: match &self.client_order_id {
                Some(c) => Some(c.duplicate()),
                None => None,
            },
            source: self.source,
        }
    }
}

} // verus!
