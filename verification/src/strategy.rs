//! Pluggable strategy interface.

use crate::decimal::Dec;
use crate::events::{Event, MarketEvent, OrderIntent, OrderIntentSource};
use crate::keyed::Duplicate;
use crate::state::GlobalState;
use crate::timestamp::Timestamp;
use crate::types::{InstrumentId, OrderType, Side};
use vstd::prelude::*;

verus! {

/// Read-only context passed to strategies.
pub struct StrategyContext<'a> {
    /// Current engine time (event time or replay clock).
    pub now: Timestamp,
    /// Read-only state.
    pub state: &'a GlobalState,
}

/// User strategy hook.
pub trait Strategy: Sized {
    /// The intents that this strategy, as it stands, returns for `event` at engine time `now`
    /// on `state`.
    spec fn decision(&self, now: Timestamp, state: GlobalState, event: Event) -> Seq<OrderIntent>;

    /// This strategy after deciding for `event` at engine time `now` on `state`.
    spec fn updated(&self, now: Timestamp, state: GlobalState, event: Event) -> Self;

    /// React to one normalized event; return order intents (may be empty).
    fn on_event(&mut self, ctx: &StrategyContext, event: &Event) -> (r: Vec<OrderIntent>)
        requires
            ctx.state.wf(),
        ensures
            r@ == old(self).decision(ctx.now, *ctx.state, *event),
            *final(self) == old(self).updated(ctx.now, *ctx.state, *event),
    ;
}

/// A strategy that never trades.
#[derive(Clone, Copy, Debug)]
pub struct Quiet;

impl Strategy for Quiet {
    open spec fn decision(&self, now: Timestamp, state: GlobalState, event: Event) -> Seq<
        OrderIntent,
    > {
        Seq::empty()
    }

    open spec fn updated(&self, now: Timestamp, state: GlobalState, event: Event) -> Self {
        *self
    }

    fn on_event(&mut self, ctx: &StrategyContext, event: &Event) -> (r: Vec<OrderIntent>) {
        Vec::new()
    }
}

/// A strategy that sends one market order: on the first best bid/ask event at which the
/// instrument has a mid (or last) price, it trades `qty` on `side` once, and nothing after.
#[derive(Debug)]
pub struct OneShotMarket {
    /// Instrument to trade.
    pub instrument: InstrumentId,
    /// Side of the order.
    pub side: Side,
    /// Base quantity.
    pub qty: Dec,
    /// The order has been sent.
    pub fired: bool,
}

impl OneShotMarket {
    /// The market order this strategy sends.
    pub open spec fn order(&self) -> OrderIntent {
        OrderIntent {
            instrument: self.instrument,
            side: self.side,
            order_type: OrderType::Market,
            price: None,
            qty: self.qty,
            client_order_id: None,
            source: OrderIntentSource::User,
        }
    }
}

impl Strategy for OneShotMarket {
    open spec fn decision(&self, now: Timestamp, state: GlobalState, event: Event) -> Seq<
        OrderIntent,
    > {
        if !self.fired && (event matches Event::Market(MarketEvent::BookL1 { .. }))
            && state.spec_mid_or_last(self.instrument@) is Some {
            seq![self.order()]
        } else {
            Seq::empty()
        }
    }

    open spec fn updated(&self, now: Timestamp, state: GlobalState, event: Event) -> Self {
        OneShotMarket {
            fired: self.fired || self.decision(now, state, event).len() > 0,
            ..*self
        }
    }

    fn on_event(&mut self, ctx: &StrategyContext, event: &Event) -> (r: Vec<OrderIntent>) {
        if self.fired {
            return Vec::new();
        }
        match event {
            Event::Market(MarketEvent::BookL1 { .. }) => {
                if ctx.state.mid_or_last(&self.instrument).is_some() {
                    self.fired = true;
                    let intent = OrderIntent {
                        instrument: self.instrument.duplicate(),
                        side: self.side,
                        order_type: OrderType::Market,
                        price: None,
                        qty: self.qty,
                        client_order_id: None,
                        source: OrderIntentSource::User,
                    };
                    let mut out = Vec::new();
                    out.push(intent);
                    proof {
                        assert(out@ =~= seq![old(self).order()]);
                    }
                    out
                } else {
                    Vec::new()
                }
            },
            _ => Vec::new(),
        }
    }
}

} // verus!
